//! The file-level rules of ingestion: which format a file or input is in, where
//! a markdown front matter ends, and the title a file name gives.
use vstd::prelude::*;
use crate::text::{chars_of, is_space, is_space_char, string_of, trim_chars, trimmed};
use crate::timestamp::{decimal_i64, parse_i64};

verus! {

/// A transcript file format.
#[derive(Debug, Clone, Copy, PartialEq, Eq, Structural)]
pub enum Format {
    Json,
    Markdown,
    Text,
}

/// The lower-case form of a text, in the sense of Unicode case mapping.
pub uninterp spec fn lower_of(s: Seq<char>) -> Seq<char>;

/// The extension of the last component of a path, where it has one.
pub uninterp spec fn extension_of(path: Seq<char>) -> Option<Seq<char>>;

/// The last component of a path without its extension, where it has one.
pub uninterp spec fn file_stem_of(path: Seq<char>) -> Option<Seq<char>>;

/// Relies on `str::to_lowercase`: the result depends on the characters alone.
#[verifier::external_body]
fn lowercase(s: &str) -> (r: String)
    ensures
        r@ == lower_of(s@),
{
    s.to_lowercase()
}

/// Relies on `std::path::Path::extension`, read as UTF-8 text.
#[verifier::external_body]
fn path_extension(path: &str) -> (r: Option<String>)
    ensures
        match r {
            Some(e) => extension_of(path@) == Some(e@),
            None => extension_of(path@) is None,
        },
{
    std::path::Path::new(path).extension().and_then(|e| e.to_str()).map(|e| e.to_string())
}

/// Relies on `std::path::Path::file_stem`, read as UTF-8 text.
#[verifier::external_body]
fn path_file_stem(path: &str) -> (r: Option<String>)
    ensures
        match r {
            Some(e) => file_stem_of(path@) == Some(e@),
            None => file_stem_of(path@) is None,
        },
{
    std::path::Path::new(path).file_stem().and_then(|e| e.to_str()).map(|e| e.to_string())
}

/// The format that a lower-case name denotes.
pub open spec fn format_named(s: Seq<char>) -> Option<Format> {
    if s == "json"@ {
        Some(Format::Json)
    } else if s == "markdown"@ || s == "md"@ {
        Some(Format::Markdown)
    } else if s == "text"@ || s == "txt"@ {
        Some(Format::Text)
    } else {
        None
    }
}

/// The format that a file extension denotes.
pub open spec fn format_of_ext(s: Seq<char>) -> Option<Format> {
    if s == "json"@ {
        Some(Format::Json)
    } else if s == "md"@ || s == "markdown"@ {
        Some(Format::Markdown)
    } else if s == "txt"@ || s == "text"@ {
        Some(Format::Text)
    } else {
        None
    }
}

fn is(s: &String, lit: &str) -> (r: bool)
    ensures
        r == (s@ == lit@),
{
    *s == String::from_str(lit)
}

/// The format that an already lower-cased name denotes.
pub fn format_from_lower(s: &str) -> (r: Option<Format>)
    ensures
        r == format_named(s@),
{
    let t = String::from_str(s);
    if is(&t, "json") {
        Some(Format::Json)
    } else if is(&t, "markdown") || is(&t, "md") {
        Some(Format::Markdown)
    } else if is(&t, "text") || is(&t, "txt") {
        Some(Format::Text)
    } else {
        None
    }
}

/// The format that an extension names, case as given.
pub fn format_from_extension_text(ext: &str) -> (r: Option<Format>)
    ensures
        r == format_of_ext(ext@),
{
    let t = String::from_str(ext);
    if is(&t, "json") {
        Some(Format::Json)
    } else if is(&t, "md") || is(&t, "markdown") {
        Some(Format::Markdown)
    } else if is(&t, "txt") || is(&t, "text") {
        Some(Format::Text)
    } else {
        None
    }
}

impl Format {
    /// The format a name denotes, in any case: json, markdown or md, text or txt.
    pub fn from_str(s: &str) -> (r: Option<Format>)
        ensures
            r == format_named(lower_of(s@)),
    {
        let l = lowercase(s);
        format_from_lower(l.as_str())
    }

    /// The format that a path's extension denotes.
    pub fn detect_from_extension(path: &str) -> (r: Option<Format>)
        ensures
            r == match extension_of(path@) {
                Some(e) => format_of_ext(e),
                None => None,
            },
    {
        match path_extension(path) {
            Some(e) => format_from_extension_text(e.as_str()),
            None => None,
        }
    }
}

/// The format of an input with no name: JSON when it starts with `{`, markdown
/// when it starts with `---` (after white space), else plain text.
pub open spec fn sniffed_format(content: Seq<char>) -> Format {
    let t = trimmed(content);
    if t.len() >= 1 && t[0] == '{' {
        Format::Json
    } else if t.len() >= 3 && t[0] == '-' && t[1] == '-' && t[2] == '-' {
        Format::Markdown
    } else {
        Format::Text
    }
}

pub fn sniff_format(content: &str) -> (r: Format)
    ensures
        r == sniffed_format(content@),
{
    let cs = chars_of(content);
    let t = trim_chars(cs.as_slice());
    if t.len() >= 1 && t[0] == '{' {
        Format::Json
    } else if t.len() >= 3 && t[0] == '-' && t[1] == '-' && t[2] == '-' {
        Format::Markdown
    } else {
        Format::Text
    }
}

/// A title made of a file name: its stem (or the whole name), with `-` and `_`
/// read as spaces.
pub open spec fn title_of_name(name: Seq<char>) -> Seq<char> {
    let stem = match file_stem_of(name) {
        Some(s) => s,
        None => name,
    };
    stem.map_values(|c: char| if c == '-' || c == '_' { ' ' } else { c })
}

pub fn filename_to_title(filename: &str) -> (r: String)
    ensures
        r@ == title_of_name(filename@),
{
    let stem = match path_file_stem(filename) {
        Some(s) => s,
        None => String::from_str(filename),
    };
    let cs = chars_of(stem.as_str());
    let mut out: Vec<char> = Vec::new();
    let mut i: usize = 0;
    while i < cs.len()
        invariant
            i <= cs.len(),
            cs@ == stem@,
            out@ == cs@.subrange(0, i as int).map_values(|c: char| if c == '-' || c == '_' { ' ' } else { c }),
        decreases cs.len() - i,
    {
        let c = cs[i];
        out.push(if c == '-' || c == '_' { ' ' } else { c });
        proof {
            assert(cs@.subrange(0, i + 1) =~= cs@.subrange(0, i as int).push(c));
            assert(out@ =~= cs@.subrange(0, i + 1).map_values(|c: char| if c == '-' || c == '_' { ' ' } else { c }));
        }
        i = i + 1;
    }
    assert(cs@.subrange(0, cs.len() as int) =~= cs@);
    string_of(out.as_slice())
}

/// Index of the first character that is not white space.
pub open spec fn first_non_space(s: Seq<char>) -> int
    decreases s.len(),
{
    if s.len() > 0 && is_space(s[0]) {
        1 + first_non_space(s.drop_first())
    } else {
        0
    }
}

/// Whether a front-matter closing marker (a line feed then `---`) starts at `i`.
pub open spec fn marker_at(s: Seq<char>, i: int) -> bool {
    0 <= i && i + 4 <= s.len() && s[i] == '\n' && s[i + 1] == '-' && s[i + 2] == '-' && s[i + 3] == '-'
}

/// Whether no marker starts before `i`.
pub open spec fn no_marker_before(s: Seq<char>, i: int) -> bool {
    forall|j: int| 0 <= j < i ==> !#[trigger] marker_at(s, j)
}

/// The split of a markdown document into front matter and body: where the document (after leading white space) opens with `---`
/// and a later line starts with `---`, the trimmed text between them and what
/// follows the closing marker's line break; otherwise no front matter and the
/// whole document.
pub open spec fn frontmatter_split(content: Seq<char>, fm: Option<Seq<char>>, body: Seq<char>) -> bool {
    let t = content.subrange(first_non_space(content), content.len() as int);
    let opens = t.len() >= 3 && t[0] == '-' && t[1] == '-' && t[2] == '-';
    let after = t.subrange(3, t.len() as int);
    if opens && exists|e: int| #[trigger] marker_at(after, e) {
        exists|e: int| {
            &&& #[trigger] marker_at(after, e)
            &&& no_marker_before(after, e)
            &&& fm == Some(trimmed(after.subrange(0, e)))
            &&& body == (if 3 + e + 4 < t.len() { t.subrange(3 + e + 4, t.len() as int) } else { Seq::empty() })
        }
    } else {
        fm is None && body == content
    }
}

fn slice_chars(s: &Vec<char>, from: usize, to: usize) -> (r: Vec<char>)
    requires
        from <= to <= s.len(),
    ensures
        r@ == s@.subrange(from as int, to as int),
{
    let mut r: Vec<char> = Vec::new();
    let mut i: usize = from;
    while i < to
        invariant
            from <= i <= to <= s.len(),
            r@ == s@.subrange(from as int, i as int),
        decreases to - i,
    {
        r.push(s[i]);
        i = i + 1;
    }
    r
}

/// Split a markdown document into its front matter and its body.
pub fn split_frontmatter(content: &str) -> (r: (Option<String>, String))
    ensures
        frontmatter_split(
            content@,
            match r.0 {
                Some(f) => Some(f@),
                None => None,
            },
            r.1@,
        ),
{
    let cs = chars_of(content);
    let mut b: usize = 0;
    assert(cs@.subrange(0, cs.len() as int) =~= cs@);
    while b < cs.len() && is_space_char(cs[b])
        invariant
            b <= cs.len(),
            cs@ == content@,
            b + first_non_space(cs@.subrange(b as int, cs.len() as int)) == first_non_space(cs@),
        decreases cs.len() - b,
    {
        assert(cs@.subrange(b as int, cs.len() as int).drop_first() =~= cs@.subrange(b + 1, cs.len() as int));
        b = b + 1;
    }
    let t = slice_chars(&cs, b, cs.len());
    let ghost after = t@.subrange(3, t@.len() as int);
    if !(t.len() >= 3 && t[0] == '-' && t[1] == '-' && t[2] == '-') {
        return (None, String::from_str(content));
    }
    let m: usize = t.len() - 3;
    let mut e: usize = 0;
    while e < m && m - e >= 4 && !(t[3 + e] == '\n' && t[4 + e] == '-' && t[5 + e] == '-' && t[6 + e] == '-')
        invariant
            t.len() >= 3,
            m == t.len() - 3,
            after == t@.subrange(3, t@.len() as int),
            no_marker_before(after, e as int),
            e <= m,
        decreases m - e,
    {
        proof {
            assert(!marker_at(after, e as int));
        }
        e = e + 1;
    }
    if e >= m || m - e < 4 {
        proof {
            assert forall|j: int| !#[trigger] marker_at(after, j) by {
                if 0 <= j < e {
                } else {
                }
            }
        }
        return (None, String::from_str(content));
    }
    proof {
        assert(marker_at(after, e as int));
    }
    let inner = slice_chars(&t, 3, 3 + e);
    assert(inner@ == after.subrange(0, e as int));
    let fm = trim_chars(inner.as_slice());
    let start = 3 + e + 4;
    let body = if start < t.len() {
        slice_chars(&t, start, t.len())
    } else {
        Vec::new()
    };
    (Some(string_of(fm.as_slice())), string_of(body.as_slice()))
}

/// The pieces of `s` between colons (always at least one piece).
pub open spec fn fields_of(s: Seq<char>) -> Seq<Seq<char>>
    decreases s.len(),
{
    if s.len() == 0 {
        seq![Seq::empty()]
    } else {
        let init = fields_of(s.drop_last());
        if s.last() == ':' {
            init.push(Seq::empty())
        } else {
            init.update(init.len() - 1, init.last().push(s.last()))
        }
    }
}

proof fn lemma_fields_nonempty(s: Seq<char>)
    ensures
        fields_of(s).len() >= 1,
    decreases s.len(),
{
    if s.len() > 0 {
        lemma_fields_nonempty(s.drop_last());
    }
}

/// The number a field holds; zero where it is not a decimal integer.
pub open spec fn field_value(f: Seq<char>) -> int {
    match decimal_i64(f) {
        Some(n) => n as int,
        None => 0,
    }
}

/// The seconds that a `MM:SS` or `HH:MM:SS` heading time denotes; zero for any
/// other shape.
pub open spec fn clock_seconds_of(ts: Seq<char>) -> int {
    let f = fields_of(ts);
    if f.len() == 2 {
        field_value(f[0]) * 60 + field_value(f[1])
    } else if f.len() == 3 {
        field_value(f[0]) * 3600 + field_value(f[1]) * 60 + field_value(f[2])
    } else {
        0
    }
}

fn field_number(f: &Vec<char>) -> (r: i64)
    ensures
        r == field_value(f@),
{
    let t = string_of(f.as_slice());
    match parse_i64(t.as_str()) {
        Some(n) => n,
        None => 0,
    }
}

/// The seconds of a heading time such as `01:15` or `1:02:03`.
pub fn clock_seconds(ts: &str) -> (r: i128)
    ensures
        r == clock_seconds_of(ts@),
{
    let cs = chars_of(ts);
    let mut fields: Vec<Vec<char>> = Vec::new();
    let mut cur: Vec<char> = Vec::new();
    let mut i: usize = 0;
    proof {
        assert(cs@.subrange(0, 0) =~= Seq::<char>::empty());
    }
    while i < cs.len()
        invariant
            i <= cs.len(),
            cs@ == ts@,
            fields_of(cs@.subrange(0, i as int)).last() == cur@,
            fields@.map_values(|v: Vec<char>| v@) == fields_of(cs@.subrange(0, i as int)).drop_last(),
        decreases cs.len() - i,
    {
        let ghost pre = cs@.subrange(0, i as int);
        let ghost next = cs@.subrange(0, i + 1);
        proof {
            assert(next.drop_last() =~= pre);
            lemma_fields_nonempty(pre);
        }
        if cs[i] == ':' {
            let ghost before = fields@;
            let done = cur;
            fields.push(done);
            cur = Vec::new();
            proof {
                assert(fields@.map_values(|v: Vec<char>| v@) =~= before.map_values(|v: Vec<char>| v@).push(
                    fields_of(pre).last(),
                ));
                assert(fields_of(pre) =~= fields_of(pre).drop_last().push(fields_of(pre).last()));
                assert(fields_of(next).drop_last() =~= fields_of(pre));
            }
        } else {
            cur.push(cs[i]);
            proof {
                assert(fields_of(next).drop_last() =~= fields_of(pre).drop_last());
            }
        }
        i = i + 1;
    }
    proof {
        assert(cs@.subrange(0, cs.len() as int) =~= cs@);
        lemma_fields_nonempty(cs@);
    }
    let ghost all = fields_of(ts@);
    let ghost before = fields@;
    fields.push(cur);
    proof {
        assert(fields@.map_values(|v: Vec<char>| v@) =~= before.map_values(|v: Vec<char>| v@).push(all.last()));
        assert(all =~= all.drop_last().push(all.last()));
        assert(fields@.len() == all.len());
        assert forall|k: int| 0 <= k < fields@.len() implies #[trigger] fields@[k]@ == all[k] by {
            assert(fields@.map_values(|v: Vec<char>| v@)[k] == fields@[k]@);
        }
    }
    if fields.len() == 2 {
        (field_number(&fields[0]) as i128) * 60 + (field_number(&fields[1]) as i128)
    } else if fields.len() == 3 {
        (field_number(&fields[0]) as i128) * 3600 + (field_number(&fields[1]) as i128) * 60 + (field_number(
            &fields[2],
        ) as i128)
    } else {
        0
    }
}

} // verus!
