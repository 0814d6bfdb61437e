//! The provider-independent rules that turn a fetched payload into transcript
//! text: utterance lines, speakers, summaries, action items, and the raw-text cap.
use vstd::prelude::*;
use crate::text::{chars_of, joined, string_of, trim_chars, trimmed};

verus! {

/// The raw text of a transcript holds at most this many characters.
pub const RAW_TEXT_CAP: usize = 100_000;

/// Bytes that a character takes in UTF-8.
pub open spec fn utf8_width(c: char) -> nat {
    if (c as u32) < 0x80 {
        1
    } else if (c as u32) < 0x800 {
        2
    } else if (c as u32) < 0x10000 {
        3
    } else {
        4
    }
}

/// Bytes that a text takes in UTF-8.
pub open spec fn utf8_len(s: Seq<char>) -> nat
    decreases s.len(),
{
    if s.len() == 0 {
        0
    } else {
        utf8_len(s.drop_last()) + utf8_width(s.last())
    }
}

/// `s` without the leading run of `c`.
pub open spec fn strip_leading(s: Seq<char>, c: char) -> Seq<char>
    decreases s.len(),
{
    if s.len() > 0 && s[0] == c {
        strip_leading(s.drop_first(), c)
    } else {
        s
    }
}

/// A bold markdown line, taken as a header: it starts and ends with `**`.
pub open spec fn is_bold_header(s: Seq<char>) -> bool {
    s.len() >= 2 && s[0] == '*' && s[1] == '*' && s[s.len() - 2] == '*' && s[s.len() - 1] == '*'
}

/// The action item that one line of a free-text block yields: blank lines,
/// lines under five bytes and bold header lines yield none; otherwise the line
/// without its leading bullet markers (`-`, `•`, `*`, in that order) and outer
/// white space, unless nothing is left.
pub open spec fn action_of_line(line: Seq<char>) -> Option<Seq<char>> {
    let t = trimmed(line);
    if t.len() == 0 || utf8_len(t) < 5 || is_bold_header(t) {
        None
    } else {
        let clean = trimmed(strip_leading(strip_leading(strip_leading(t, '-'), '•'), '*'));
        if clean.len() == 0 {
            None
        } else {
            Some(clean)
        }
    }
}

/// The pieces of `s` between line feeds (always at least one piece).
pub open spec fn lines_of(s: Seq<char>) -> Seq<Seq<char>>
    decreases s.len(),
{
    if s.len() == 0 {
        seq![Seq::empty()]
    } else {
        let init = lines_of(s.drop_last());
        if s.last() == '\n' {
            init.push(Seq::empty())
        } else {
            init.update(init.len() - 1, init.last().push(s.last()))
        }
    }
}

proof fn lemma_lines_nonempty(s: Seq<char>)
    ensures
        lines_of(s).len() >= 1,
    decreases s.len(),
{
    if s.len() > 0 {
        lemma_lines_nonempty(s.drop_last());
    }
}

/// The action items of a sequence of lines, in order.
pub open spec fn actions_of_lines(lines: Seq<Seq<char>>) -> Seq<Seq<char>>
    decreases lines.len(),
{
    if lines.len() == 0 {
        Seq::empty()
    } else {
        let init = actions_of_lines(lines.drop_last());
        match action_of_line(lines.last()) {
            Some(a) => init.push(a),
            None => init,
        }
    }
}

/// The action items of a free-text block.
pub open spec fn action_items_of(block: Seq<char>) -> Seq<Seq<char>> {
    actions_of_lines(lines_of(block))
}

fn utf8_len_of(s: &Vec<char>) -> (r: usize)
    ensures
        r == (if utf8_len(s@) < 5 { utf8_len(s@) } else { 5 }),
{
    let mut n: usize = 0;
    let mut i: usize = 0;
    while i < s.len() && n < 5
        invariant
            i <= s.len(),
            n == utf8_len(s@.subrange(0, i as int)),
            n < 9,
        decreases s.len() - i,
    {
        let c = s[i];
        let w: usize = if (c as u32) < 0x80 {
            1
        } else if (c as u32) < 0x800 {
            2
        } else if (c as u32) < 0x10000 {
            3
        } else {
            4
        };
        assert(s@.subrange(0, i + 1).drop_last() =~= s@.subrange(0, i as int));
        n = n + w;
        i = i + 1;
    }
    proof {
        lemma_utf8_len_mono(s@, i as int);
        if i == s.len() {
            assert(s@.subrange(0, i as int) =~= s@);
        }
    }
    if n < 5 { n } else { 5 }
}

proof fn lemma_utf8_len_mono(s: Seq<char>, i: int)
    requires
        0 <= i <= s.len(),
    ensures
        utf8_len(s.subrange(0, i)) <= utf8_len(s),
    decreases s.len(),
{
    if i < s.len() {
        assert(s.drop_last() =~= s.subrange(0, s.len() - 1));
        lemma_utf8_len_mono(s.drop_last(), i);
        assert(s.drop_last().subrange(0, i) =~= s.subrange(0, i));
    } else {
        assert(s.subrange(0, i) =~= s);
    }
}

fn strip_leading_chars(s: &Vec<char>, c: char) -> (r: Vec<char>)
    ensures
        r@ == strip_leading(s@, c),
{
    let mut b: usize = 0;
    assert(s@.subrange(0, s.len() as int) =~= s@);
    while b < s.len() && s[b] == c
        invariant
            b <= s.len(),
            strip_leading(s@.subrange(b as int, s.len() as int), c) == strip_leading(s@, c),
        decreases s.len() - b,
    {
        assert(s@.subrange(b as int, s.len() as int).drop_first() =~= s@.subrange(b + 1, s.len() as int));
        b = b + 1;
    }
    let mut r: Vec<char> = Vec::new();
    let mut i: usize = b;
    while i < s.len()
        invariant
            b <= i <= s.len(),
            r@ == s@.subrange(b as int, i as int),
        decreases s.len() - i,
    {
        r.push(s[i]);
        i = i + 1;
    }
    r
}

/// The action item of one line, as `action_of_line` states.
pub fn action_from_line(line: &Vec<char>) -> (r: Option<String>)
    ensures
        match r {
            Some(a) => action_of_line(line@) == Some(a@),
            None => action_of_line(line@) is None,
        },
{
    let t = trim_chars(line.as_slice());
    if t.len() == 0 {
        return None;
    }
    if utf8_len_of(&t) < 5 {
        return None;
    }
    let n = t.len();
    if n >= 2 && t[0] == '*' && t[1] == '*' && t[n - 2] == '*' && t[n - 1] == '*' {
        return None;
    }
    let a = strip_leading_chars(&t, '-');
    let b = strip_leading_chars(&a, '•');
    let c = strip_leading_chars(&b, '*');
    let clean = trim_chars(c.as_slice());
    if clean.len() == 0 {
        None
    } else {
        Some(string_of(clean.as_slice()))
    }
}

/// The action items of the GraphQL provider's free-text action block, one per
/// line that survives the heuristic, in order.
pub fn parse_action_items(block: &str) -> (r: Vec<String>)
    ensures
        r@.map_values(|s: String| s@) == action_items_of(block@),
{
    let cs = chars_of(block);
    let mut out: Vec<String> = Vec::new();
    let mut cur: Vec<char> = Vec::new();
    let mut i: usize = 0;
    proof {
        assert(cs@.subrange(0, 0) =~= Seq::<char>::empty());
    }
    while i < cs.len()
        invariant
            i <= cs.len(),
            cs@ == block@,
            lines_of(cs@.subrange(0, i as int)).last() == cur@,
            out@.map_values(|s: String| s@) == actions_of_lines(lines_of(cs@.subrange(0, i as int)).drop_last()),
        decreases cs.len() - i,
    {
        let ghost pre = cs@.subrange(0, i as int);
        let ghost next = cs@.subrange(0, i + 1);
        proof {
            assert(next.drop_last() =~= pre);
            lemma_lines_nonempty(pre);
        }
        if cs[i] == '\n' {
            let ghost before = out@;
            match action_from_line(&cur) {
                Some(a) => {
                    out.push(a);
                    assert(out@.map_values(|s: String| s@) =~= before.map_values(|s: String| s@).push(
                        action_of_line(cur@)->0,
                    ));
                },
                None => {},
            }
            proof {
                assert(lines_of(next).drop_last() =~= lines_of(pre));
                assert(lines_of(pre).drop_last() =~= lines_of(pre).drop_last());
                assert(lines_of(pre) =~= lines_of(pre).drop_last().push(cur@));
            }
            cur = Vec::new();
        } else {
            cur.push(cs[i]);
            proof {
                assert(lines_of(next).drop_last() =~= lines_of(pre).drop_last());
            }
        }
        i = i + 1;
    }
    proof {
        assert(cs@.subrange(0, cs.len() as int) =~= cs@);
        lemma_lines_nonempty(cs@);
    }
    let ghost before = out@;
    match action_from_line(&cur) {
        Some(a) => {
            out.push(a);
            assert(out@.map_values(|s: String| s@) =~= before.map_values(|s: String| s@).push(
                action_of_line(cur@)->0,
            ));
        },
        None => {},
    }
    proof {
        assert(lines_of(cs@) =~= lines_of(cs@).drop_last().push(cur@));
    }
    out
}

/// The first `RAW_TEXT_CAP` characters of `text`: a hard cut with no marker.
pub fn cap_raw_text(text: String) -> (r: String)
    ensures
        text@.len() <= RAW_TEXT_CAP ==> r@ == text@,
        text@.len() > RAW_TEXT_CAP ==> r@ == text@.subrange(0, RAW_TEXT_CAP as int),
{
    let n = text.as_str().unicode_len();
    if n <= RAW_TEXT_CAP {
        text
    } else {
        text.as_str().substring_char(0, RAW_TEXT_CAP).to_owned()
    }
}

/// One utterance as a provider sends it; either field may be absent.
#[derive(Debug, Clone)]
pub struct Utterance {
    pub speaker: Option<String>,
    pub text: Option<String>,
}

/// The speaker of an utterance: "Unknown" where absent.
pub open spec fn speaker_of(u: Utterance) -> Seq<char> {
    match u.speaker {
        Some(s) => s@,
        None => "Unknown"@,
    }
}

/// The text of an utterance: empty where absent.
pub open spec fn text_of(u: Utterance) -> Seq<char> {
    match u.text {
        Some(t) => t@,
        None => Seq::empty(),
    }
}

/// The raw-text line of an utterance: `speaker: text`.
pub open spec fn line_of(u: Utterance) -> Seq<char> {
    speaker_of(u) + ": "@ + text_of(u)
}

/// Lines joined with `sep` between each two.
pub open spec fn join_with(lines: Seq<Seq<char>>, sep: Seq<char>) -> Seq<char>
    decreases lines.len(),
{
    if lines.len() == 0 {
        Seq::empty()
    } else if lines.len() == 1 {
        lines[0]
    } else {
        join_with(lines.drop_last(), sep) + sep + lines.last()
    }
}

/// One segment's words, numbered from 0 in order.
#[derive(Debug, Clone)]
pub struct SegmentText {
    pub speaker: String,
    pub text: String,
    pub segment_index: usize,
}

/// What a sequence of utterances yields: the segments, the distinct non-empty
/// speakers (in order of first appearance), and the raw text.
#[derive(Debug, Clone)]
pub struct Utterances {
    pub segments: Vec<SegmentText>,
    pub speakers: Vec<String>,
    pub raw_text: String,
}

/// Whether `x` is a non-empty speaker among the first `n` utterances.
pub open spec fn speaks_upto(us: Seq<Utterance>, n: int, x: Seq<char>) -> bool {
    x.len() > 0 && exists|i: int| 0 <= i < n && #[trigger] speaker_of(us[i]) == x
}

fn speaker_text(u: &Utterance) -> (r: String)
    ensures
        r@ == speaker_of(*u),
{
    match &u.speaker {
        Some(s) => s.clone(),
        None => String::from_str("Unknown"),
    }
}

fn utterance_text(u: &Utterance) -> (r: String)
    ensures
        r@ == text_of(*u),
{
    proof {
        reveal_strlit("");
    }
    match &u.text {
        Some(t) => t.clone(),
        None => String::new(),
    }
}

fn listed_in(v: &Vec<String>, x: &String) -> (r: bool)
    ensures
        r == exists|j: int| 0 <= j < v.len() && #[trigger] v@[j]@ == x@,
{
    let mut j: usize = 0;
    while j < v.len()
        invariant
            j <= v.len(),
            forall|k: int| 0 <= k < j ==> v@[k]@ != x@,
        decreases v.len() - j,
    {
        if v[j] == *x {
            assert(v@[j as int]@ == x@);
            return true;
        }
        j = j + 1;
    }
    false
}

/// Segments, speakers and raw text of a sequence of utterances.
pub fn collect_utterances(us: &Vec<Utterance>) -> (r: Utterances)
    ensures
        r.segments.len() == us.len(),
        forall|i: int| 0 <= i < us.len() ==> {
            &&& (#[trigger] r.segments@[i]).speaker@ == speaker_of(us@[i])
            &&& r.segments@[i].text@ == text_of(us@[i])
            &&& r.segments@[i].segment_index == i
        },
        forall|x: Seq<char>| (exists|j: int| 0 <= j < r.speakers.len() && #[trigger] r.speakers@[j]@ == x)
            <==> #[trigger] speaks_upto(us@, us.len() as int, x),
        forall|j: int, k: int| 0 <= j < k < r.speakers.len() ==> r.speakers@[j]@ != r.speakers@[k]@,
        r.raw_text@ == join_with(us@.map_values(|u: Utterance| line_of(u)), "\n"@),
{
    let mut segments: Vec<SegmentText> = Vec::new();
    let mut speakers: Vec<String> = Vec::new();
    let mut raw = String::new();
    let ghost lines = us@.map_values(|u: Utterance| line_of(u));
    let mut i: usize = 0;
    proof {
        reveal_strlit("");
        assert(lines.subrange(0, 0) =~= Seq::<Seq<char>>::empty());
    }
    while i < us.len()
        invariant
            i <= us.len(),
            lines == us@.map_values(|u: Utterance| line_of(u)),
            segments.len() == i,
            forall|k: int| 0 <= k < i ==> {
                &&& (#[trigger] segments@[k]).speaker@ == speaker_of(us@[k])
                &&& segments@[k].text@ == text_of(us@[k])
                &&& segments@[k].segment_index == k
            },
            forall|x: Seq<char>| (exists|j: int| 0 <= j < speakers.len() && #[trigger] speakers@[j]@ == x)
                <==> #[trigger] speaks_upto(us@, i as int, x),
            forall|j: int, k: int| 0 <= j < k < speakers.len() ==> speakers@[j]@ != speakers@[k]@,
            raw@ == join_with(lines.subrange(0, i as int), "\n"@),
        decreases us.len() - i,
    {
        let sp = speaker_text(&us[i]);
        let tx = utterance_text(&us[i]);
        let line = joined(joined(sp.as_str(), ": ").as_str(), tx.as_str());
        proof {
            assert(lines.subrange(0, i + 1).drop_last() =~= lines.subrange(0, i as int));
            assert(line@ == lines[i as int]);
        }
        if i == 0 {
            raw = line;
            proof {
                assert(lines.subrange(0, 1) =~= seq![lines[0]]);
            }
        } else {
            raw = joined(joined(raw.as_str(), "\n").as_str(), line.as_str());
        }
        let ghost old_speakers = speakers@;
        if sp.as_str().unicode_len() > 0 && !listed_in(&speakers, &sp) {
            speakers.push(sp.clone());
        }
        proof {
            assert forall|x: Seq<char>| (exists|j: int| 0 <= j < speakers.len() && #[trigger] speakers@[j]@ == x)
                <==> #[trigger] speaks_upto(us@, i + 1, x) by {
                if speaks_upto(us@, i + 1, x) {
                    let w = choose|w: int| 0 <= w < i + 1 && #[trigger] speaker_of(us@[w]) == x;
                    if w < i {
                        assert(speaks_upto(us@, i as int, x));
                        let j = choose|j: int| 0 <= j < old_speakers.len() && #[trigger] old_speakers[j]@ == x;
                        assert(speakers@[j]@ == x);
                    } else if speakers.len() > old_speakers.len() {
                        assert(speakers@[speakers.len() - 1]@ == x);
                    }
                }
                if exists|j: int| 0 <= j < speakers.len() && #[trigger] speakers@[j]@ == x {
                    let j = choose|j: int| 0 <= j < speakers.len() && #[trigger] speakers@[j]@ == x;
                    if j < old_speakers.len() {
                        assert(old_speakers[j]@ == x);
                        assert(speaks_upto(us@, i as int, x));
                    } else {
                        assert(speaker_of(us@[i as int]) == x);
                    }
                }
            }
        }
        segments.push(SegmentText { speaker: sp, text: tx, segment_index: i });
        i = i + 1;
    }
    proof {
        assert(lines.subrange(0, us.len() as int) =~= lines);
        assert forall|x: Seq<char>| (exists|j: int| 0 <= j < speakers.len() && #[trigger] speakers@[j]@ == x)
            <==> #[trigger] speaks_upto(us@, us.len() as int, x) by {
            assert(speaks_upto(us@, i as int, x) == speaks_upto(us@, us.len() as int, x));
        }
    }
    let r = Utterances { segments, speakers, raw_text: raw };
    assert forall|x: Seq<char>| (exists|j: int| 0 <= j < r.speakers.len() && #[trigger] r.speakers@[j]@ == x)
        <==> #[trigger] speaks_upto(us@, us.len() as int, x) by {
        if exists|j: int| 0 <= j < r.speakers.len() && #[trigger] r.speakers@[j]@ == x {
            let j = choose|j: int| 0 <= j < r.speakers.len() && #[trigger] r.speakers@[j]@ == x;
            assert(r.speakers@[j] == speakers@[j]);
        }
        if speaks_upto(us@, us.len() as int, x) {
            let j = choose|j: int| 0 <= j < speakers.len() && #[trigger] speakers@[j]@ == x;
            assert(r.speakers@[j] == speakers@[j]);
        }
    }
    r
}

/// The GraphQL provider's summary: overview and shorthand bullets, those that
/// are present and non-empty, separated by a blank line.
pub open spec fn fireflies_summary_of(overview: Option<String>, bullets: Option<String>) -> Seq<char> {
    let o = match overview {
        Some(t) => t@,
        None => Seq::empty(),
    };
    let b = match bullets {
        Some(t) => t@,
        None => Seq::empty(),
    };
    if o.len() > 0 && b.len() > 0 {
        o + "\n\n"@ + b
    } else if o.len() > 0 {
        o
    } else {
        b
    }
}

pub fn fireflies_summary(overview: Option<String>, bullets: Option<String>) -> (r: String)
    ensures
        r@ == fireflies_summary_of(overview, bullets),
{
    proof {
        reveal_strlit("");
    }
    let o = match overview {
        Some(t) => t,
        None => String::new(),
    };
    let b = match bullets {
        Some(t) => t,
        None => String::new(),
    };
    let has_o = o.as_str().unicode_len() > 0;
    let has_b = b.as_str().unicode_len() > 0;
    if has_o && has_b {
        joined(joined(o.as_str(), "\n\n").as_str(), b.as_str())
    } else if has_o {
        o
    } else {
        b
    }
}

/// The REST provider's summary payload, in the shapes it has been seen in.
#[derive(Debug, Clone)]
pub enum SummaryPayload {
    /// An object; its `markdown` field where that is text.
    Markdown { markdown: Option<String> },
    /// A bare string.
    Plain { text: String },
    /// Absent, or of another shape.
    Absent,
}

pub open spec fn summary_of(p: SummaryPayload) -> Seq<char> {
    match p {
        SummaryPayload::Markdown { markdown: Some(m) } => m@,
        SummaryPayload::Plain { text } => text@,
        _ => Seq::empty(),
    }
}

pub fn pocket_summary(p: SummaryPayload) -> (r: String)
    ensures
        r@ == summary_of(p),
{
    proof {
        reveal_strlit("");
    }
    match p {
        SummaryPayload::Markdown { markdown: Some(m) } => m,
        SummaryPayload::Plain { text } => text,
        _ => String::new(),
    }
}

/// One entry of the REST provider's action list.
#[derive(Debug, Clone)]
pub struct ActionEntry {
    pub label: Option<String>,
    pub context: Option<String>,
}

/// The text of an action entry: its label where non-empty, else its context
/// where non-empty, else nothing.
pub open spec fn action_text_of(a: ActionEntry) -> Option<Seq<char>> {
    let l = match a.label {
        Some(t) => t@,
        None => Seq::empty(),
    };
    let c = match a.context {
        Some(t) => t@,
        None => Seq::empty(),
    };
    if l.len() > 0 {
        Some(l)
    } else if c.len() > 0 {
        Some(c)
    } else {
        None
    }
}

pub open spec fn action_texts_upto(s: Seq<ActionEntry>, n: nat) -> Seq<Seq<char>>
    decreases n,
{
    if n == 0 {
        Seq::empty()
    } else {
        let init = action_texts_upto(s, (n - 1) as nat);
        match action_text_of(s[n - 1]) {
            Some(t) => init.push(t),
            None => init,
        }
    }
}

fn nonempty(s: &Option<String>) -> (r: bool)
    ensures
        r == (s matches Some(t) && t@.len() > 0),
{
    match s {
        Some(t) => t.as_str().unicode_len() > 0,
        None => false,
    }
}

/// The action items of the REST provider, one per entry that has text, in order.
pub fn pocket_action_items(actions: &Vec<ActionEntry>) -> (r: Vec<String>)
    ensures
        r@.map_values(|s: String| s@) == action_texts_upto(actions@, actions@.len()),
{
    let mut r: Vec<String> = Vec::new();
    let mut i: usize = 0;
    while i < actions.len()
        invariant
            i <= actions.len(),
            r@.map_values(|s: String| s@) == action_texts_upto(actions@, i as nat),
        decreases actions.len() - i,
    {
        let ghost before = r@;
        let a = &actions[i];
        if nonempty(&a.label) {
            match &a.label {
                Some(t) => r.push(t.clone()),
                None => {},
            }
        } else if nonempty(&a.context) {
            match &a.context {
                Some(t) => r.push(t.clone()),
                None => {},
            }
        }
        proof {
            reveal_strlit("");
            if r@.len() > before.len() {
                assert(r@.map_values(|s: String| s@) =~= before.map_values(|s: String| s@).push(
                    action_text_of(actions@[i as int])->0,
                ));
            }
        }
        i = i + 1;
    }
    r
}

/// The names among the first `n` optional names that are present, in order.
pub open spec fn present_upto(tags: Seq<Option<String>>, n: nat) -> Seq<Seq<char>>
    decreases n,
{
    if n == 0 {
        Seq::empty()
    } else {
        let init = present_upto(tags, (n - 1) as nat);
        match tags[n - 1] {
            Some(t) => init.push(t@),
            None => init,
        }
    }
}

/// The names of the tags that have one, in order.
pub fn tag_names(tags: Vec<Option<String>>) -> (r: Vec<String>)
    ensures
        r@.map_values(|s: String| s@) == present_upto(tags@, tags@.len()),
{
    let mut r: Vec<String> = Vec::new();
    let mut i: usize = 0;
    while i < tags.len()
        invariant
            i <= tags.len(),
            r@.map_values(|s: String| s@) == present_upto(tags@, i as nat),
        decreases tags.len() - i,
    {
        let ghost before = r@;
        match &tags[i] {
            Some(t) => {
                r.push(t.clone());
                assert(r@.map_values(|s: String| s@) =~= before.map_values(|s: String| s@).push(t@));
            },
            None => {},
        }
        i = i + 1;
    }
    r
}

/// Relies on `uuid::Uuid::new_v4`, written out as text in the hyphenated form
/// of 36 characters: a fresh random id.
#[verifier::external_body]
fn fresh_id() -> (r: String)
    ensures
        r@.len() == 36,
{
    uuid::Uuid::new_v4().to_string()
}

/// The id of a recording: the one it carries, or a fresh random one.
pub fn recording_id(id: Option<String>) -> (r: String)
    ensures
        id matches Some(t) ==> r@ == t@,
        id is None ==> r@.len() == 36,
{
    match id {
        Some(t) => t,
        None => fresh_id(),
    }
}

/// The REST provider's raw text: the transcript text where given, else the
/// utterance lines; either way cut to `RAW_TEXT_CAP` characters.
pub fn pocket_raw_text(text: Option<String>, lines: String) -> (r: String)
    ensures
        ({
            let full = match text {
                Some(t) => t@,
                None => lines@,
            };
            if full.len() <= RAW_TEXT_CAP {
                r@ == full
            } else {
                r@ == full.subrange(0, RAW_TEXT_CAP as int)
            }
        }),
{
    let full = match text {
        Some(t) => t,
        None => lines,
    };
    cap_raw_text(full)
}

} // verus!
