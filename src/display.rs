//! Text forms used when results are shown: durations, clock times, counts, and
//! width-aware truncation.
use vstd::prelude::*;
use crate::text::{chars_of, joined, string_of};

verus! {

/// The decimal digits of `n`, without leading zeros ("0" for zero).
pub open spec fn decimal_of(n: nat) -> Seq<char>
    decreases n,
{
    if n < 10 {
        seq![digit_char(n)]
    } else {
        decimal_of(n / 10).push(digit_char(n % 10))
    }
}

pub open spec fn digit_char(d: nat) -> char {
    (('0' as u8) + (d % 10) as u8) as char
}

/// At least two digits: a leading zero below ten.
pub open spec fn two_digits_of(n: nat) -> Seq<char> {
    if n < 10 {
        seq!['0'] + decimal_of(n)
    } else {
        decimal_of(n)
    }
}

fn digit(d: u64) -> (c: char)
    requires
        d < 10,
    ensures
        c == digit_char(d as nat),
{
    ((('0' as u8) + (d as u8)) as u8) as char
}

/// The decimal text of `n`.
pub fn decimal_text(n: u64) -> (r: String)
    ensures
        r@ == decimal_of(n as nat),
    decreases n,
{
    let mut v: Vec<char> = Vec::new();
    v.push(digit(n % 10));
    let last = string_of(v.as_slice());
    if n < 10 {
        last
    } else {
        let head = decimal_text(n / 10);
        joined(head.as_str(), last.as_str())
    }
}

fn two_digits(n: u64) -> (r: String)
    ensures
        r@ == two_digits_of(n as nat),
{
    proof {
        reveal_strlit("0");
    }
    let d = decimal_text(n);
    if n < 10 {
        joined("0", d.as_str())
    } else {
        d
    }
}

/// A duration in whole seconds as `1h05m`, `3m07s` or `42s`.
pub open spec fn duration_text_of(total: nat) -> Seq<char> {
    let h = total / 3600;
    let m = (total % 3600) / 60;
    let s = total % 60;
    if h > 0 {
        decimal_of(h) + "h"@ + two_digits_of(m) + "m"@
    } else if m > 0 {
        decimal_of(m) + "m"@ + two_digits_of(s) + "s"@
    } else {
        decimal_of(s) + "s"@
    }
}

pub fn format_duration_secs(total: u64) -> (r: String)
    ensures
        r@ == duration_text_of(total as nat),
{
    let h = total / 3600;
    let m = (total % 3600) / 60;
    let s = total % 60;
    if h > 0 {
        let a = joined(decimal_text(h).as_str(), "h");
        joined(joined(a.as_str(), two_digits(m).as_str()).as_str(), "m")
    } else if m > 0 {
        let a = joined(decimal_text(m).as_str(), "m");
        joined(joined(a.as_str(), two_digits(s).as_str()).as_str(), "s")
    } else {
        joined(decimal_text(s).as_str(), "s")
    }
}

/// A position in whole seconds as `MM:SS` (minutes may exceed two digits).
pub open spec fn clock_text_of(total: nat) -> Seq<char> {
    two_digits_of(total / 60) + ":"@ + two_digits_of(total % 60)
}

pub fn format_clock_secs(total: u64) -> (r: String)
    ensures
        r@ == clock_text_of(total as nat),
{
    joined(joined(two_digits(total / 60).as_str(), ":").as_str(), two_digits(total % 60).as_str())
}

/// The columns a text takes on a terminal.
pub uninterp spec fn display_width(s: Seq<char>) -> nat;

/// The columns one character takes on a terminal, where it has a width.
pub uninterp spec fn char_width(c: char) -> Option<usize>;

/// Relies on `unicode_width::UnicodeWidthStr::width`.
#[verifier::external_body]
fn str_width(s: &str) -> (r: usize)
    ensures
        r == display_width(s@),
{
    unicode_width::UnicodeWidthStr::width(s)
}

/// Relies on `unicode_width::UnicodeWidthChar::width`.
#[verifier::external_body]
fn one_char_width(c: char) -> (r: Option<usize>)
    ensures
        r == char_width(c),
{
    unicode_width::UnicodeWidthChar::width(c)
}

/// The width a character counts for when cutting: none counts as zero.
pub open spec fn cut_width(c: char) -> nat {
    match char_width(c) {
        Some(w) => w as nat,
        None => 0,
    }
}

/// Columns of the first `k` characters of `s`.
pub open spec fn prefix_width(s: Seq<char>, k: int) -> nat
    decreases k,
{
    if k <= 0 {
        0
    } else {
        prefix_width(s, k - 1) + cut_width(s[k - 1])
    }
}

/// Whether the text cut before character `k` would no longer fit with `...`.
pub open spec fn overflows_at(s: Seq<char>, k: int, max: nat) -> bool {
    prefix_width(s, k) + cut_width(s[k]) + 3 > max
}

/// A text cut to `max` columns: unchanged where it fits; else its characters up
/// to the first one that would leave no room for `...`, followed by `...`.
pub open spec fn truncated_of(s: Seq<char>, max: nat, r: Seq<char>) -> bool {
    if display_width(s) <= max {
        r == s
    } else if exists|k: int| 0 <= k < s.len() && #[trigger] overflows_at(s, k, max) {
        exists|k: int| {
            &&& 0 <= k < s.len()
            &&& #[trigger] overflows_at(s, k, max)
            &&& forall|j: int| 0 <= j < k ==> !#[trigger] overflows_at(s, j, max)
            &&& r == s.subrange(0, k) + "..."@
        }
    } else {
        r == s
    }
}

/// Cut a text to fit in `max_width` columns, marking the cut with `...`.
pub fn truncate(s: &str, max_width: usize) -> (r: String)
    ensures
        truncated_of(s@, max_width as nat, r@),
{
    if str_width(s) <= max_width {
        return String::from_str(s);
    }
    let cs = chars_of(s);
    let mut out: Vec<char> = Vec::new();
    let mut width: usize = 0;
    let mut i: usize = 0;
    while i < cs.len()
        invariant
            i <= cs.len(),
            cs@ == s@,
            width == prefix_width(s@, i as int),
            width <= max_width,
            display_width(s@) > max_width,
            out@ == s@.subrange(0, i as int),
            forall|j: int| 0 <= j < i ==> !#[trigger] overflows_at(s@, j, max_width as nat),
        decreases cs.len() - i,
    {
        let cw: usize = match one_char_width(cs[i]) {
            Some(w) => w,
            None => 0,
        };
        assert(cs@[i as int] == s@[i as int]);
        assert(cw == cut_width(s@[i as int]));
        if max_width - width < 3 || max_width - width - 3 < cw {
            assert(overflows_at(s@, i as int, max_width as nat));
            let r = joined(string_of(out.as_slice()).as_str(), "...");
            assert(r@ == s@.subrange(0, i as int) + "..."@);
            assert(exists|k: int| 0 <= k < s@.len() && #[trigger] overflows_at(s@, k, max_width as nat));
            return r;
        }
        out.push(cs[i]);
        width = width + cw;
        i = i + 1;
    }
    proof {
        assert(out@ =~= s@);
        assert forall|k: int| 0 <= k < s@.len() implies !#[trigger] overflows_at(s@, k, max_width as nat) by {}
    }
    string_of(out.as_slice())
}

} // verus!
