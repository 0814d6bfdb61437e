//! Instants as plain integers, and their ISO-8601 text form.
use vstd::prelude::*;
use crate::text::chars_of;

verus! {

/// The instant that an RFC 3339 text denotes, in milliseconds since the Unix
/// epoch, or `None` where the text is not RFC 3339.
pub uninterp spec fn rfc3339_millis(s: Seq<char>) -> Option<i64>;

/// The text `YYYY-MM-DDTHH:MM:SSZ` (UTC) of an instant given in whole seconds
/// since the Unix epoch, or `None` where the instant is out of range.
pub uninterp spec fn utc_iso_of(secs: i64) -> Option<Seq<char>>;

/// The value of a run of decimal digits.
pub open spec fn digits_value(s: Seq<char>) -> int
    decreases s.len(),
{
    if s.len() == 0 {
        0
    } else {
        digits_value(s.drop_last()) * 10 + (s.last() as int - '0' as int)
    }
}

pub open spec fn all_digits(s: Seq<char>) -> bool {
    forall|i: int| 0 <= i < s.len() ==> '0' <= #[trigger] s[i] && s[i] <= '9'
}

/// The integer written in decimal in `s` (an optional `+` or `-`, then at least
/// one digit), or `None` where it is not one or does not fit in an `i64`.
pub open spec fn decimal_i64(s: Seq<char>) -> Option<i64> {
    let neg = s.len() > 0 && s[0] == '-';
    let body = if s.len() > 0 && (s[0] == '-' || s[0] == '+') { s.drop_first() } else { s };
    let v = if neg { -digits_value(body) } else { digits_value(body) };
    if body.len() == 0 || !all_digits(body) || v < i64::MIN || v > i64::MAX {
        None
    } else {
        Some(v as i64)
    }
}

proof fn lemma_digits_grow(s: Seq<char>, k: int)
    requires
        0 <= k <= s.len(),
        all_digits(s),
    ensures
        0 <= digits_value(s.subrange(0, k)) <= digits_value(s),
    decreases s.len() - k,
{
    if k < s.len() {
        lemma_digits_grow(s, k + 1);
        let t = s.subrange(0, k + 1);
        assert(t.drop_last() =~= s.subrange(0, k));
        assert('0' <= s[k] && s[k] <= '9');
        lemma_digits_nonneg(s.subrange(0, k));
    } else {
        assert(s.subrange(0, k) =~= s);
        lemma_digits_nonneg(s);
    }
}

proof fn lemma_digits_nonneg(s: Seq<char>)
    requires
        all_digits(s),
    ensures
        digits_value(s) >= 0,
    decreases s.len(),
{
    if s.len() > 0 {
        assert(all_digits(s.drop_last())) by {
            assert forall|i: int| 0 <= i < s.drop_last().len() implies '0' <= #[trigger] s.drop_last()[i]
                && s.drop_last()[i] <= '9' by {
                assert(s.drop_last()[i] == s[i]);
            }
        }
        lemma_digits_nonneg(s.drop_last());
        assert('0' <= s[s.len() - 1]);
    }
}

/// Relies on `chrono::DateTime::parse_from_rfc3339`, read as milliseconds since
/// the epoch with `DateTime::timestamp_millis`.
#[verifier::external_body]
pub(crate) fn parse_rfc3339_millis(s: &str) -> (r: Option<i64>)
    ensures
        r == rfc3339_millis(s@),
{
    chrono::DateTime::parse_from_rfc3339(s).ok().map(|dt| dt.timestamp_millis())
}

/// Relies on `chrono::DateTime::from_timestamp` (whole seconds), written out with
/// the format `%Y-%m-%dT%H:%M:%SZ`.
#[verifier::external_body]
pub(crate) fn format_utc_secs(secs: i64) -> (r: Option<String>)
    ensures
        match r {
            Some(t) => utc_iso_of(secs) == Some(t@),
            None => utc_iso_of(secs) is None,
        },
{
    chrono::DateTime::from_timestamp(secs, 0).map(|dt| dt.format("%Y-%m-%dT%H:%M:%SZ").to_string())
}

/// The integer written in decimal in `s`, as `str::parse::<i64>` reads it.
pub fn parse_i64(s: &str) -> (r: Option<i64>)
    ensures
        r == decimal_i64(s@),
{
    let cs = chars_of(s);
    let n = cs.len();
    let neg = n > 0 && cs[0] == '-';
    let start: usize = if n > 0 && (cs[0] == '-' || cs[0] == '+') { 1 } else { 0 };
    let ghost body = if s@.len() > 0 && (s@[0] == '-' || s@[0] == '+') { s@.drop_first() } else { s@ };
    proof {
        assert(body =~= cs@.subrange(start as int, n as int));
    }
    if start == n {
        return None;
    }
    let limit: i128 = 9_223_372_036_854_775_808;
    let mut v: i128 = 0;
    let mut i: usize = start;
    while i < n
        invariant
            start <= i <= n,
            n == cs.len(),
            cs@ == s@,
            body == cs@.subrange(start as int, n as int),
            body == (if s@.len() > 0 && (s@[0] == '-' || s@[0] == '+') { s@.drop_first() } else { s@ }),
            all_digits(cs@.subrange(start as int, i as int)),
            v == digits_value(cs@.subrange(start as int, i as int)),
            0 <= v <= limit,
            limit == 9_223_372_036_854_775_808i128,
        decreases n - i,
    {
        let c = cs[i];
        proof {
            assert(cs@.subrange(start as int, i + 1).drop_last() =~= cs@.subrange(start as int, i as int));
        }
        if !('0' <= c && c <= '9') {
            proof {
                assert(body[i - start] == c);
            }
            return None;
        }
        let d: i128 = (c as u32 - '0' as u32) as i128;
        assert(0 <= v * 10 <= limit * 10) by (nonlinear_arith)
            requires
                0 <= v <= limit,
        ;
        let next: i128 = v * 10 + d;
        proof {
            assert(cs@.subrange(start as int, i + 1).last() == c);
            assert(digits_value(cs@.subrange(start as int, i + 1)) == next);
            assert forall|j: int| 0 <= j < (i + 1 - start) implies '0' <= #[trigger] cs@.subrange(start as int, i + 1)[j]
                && cs@.subrange(start as int, i + 1)[j] <= '9' by {
                if j < i - start {
                    assert(cs@.subrange(start as int, i + 1)[j] == cs@.subrange(start as int, i as int)[j]);
                }
            }
        }
        if next > limit {
            proof {
                // every later digit only makes the value larger
                let k = i + 1 - start;
                if all_digits(body) {
                    assert(body.subrange(0, k) =~= cs@.subrange(start as int, i + 1));
                    lemma_digits_grow(body, k);
                }
            }
            return None;
        }
        v = next;
        i = i + 1;
    }
    proof {
        lemma_digits_nonneg(body);
    }
    if neg {
        Some((0 - v) as i64)
    } else if v > 9_223_372_036_854_775_807 {
        None
    } else {
        Some(v as i64)
    }
}

/// Division by 1000 rounded toward zero, as Rust's `/` does.
pub open spec fn millis_to_secs(ms: i64) -> int {
    if ms >= 0 {
        ms / 1000
    } else {
        -((-ms) / 1000)
    }
}

/// The text form of the epoch itself, used where an instant cannot be written.
pub open spec fn epoch_iso() -> Seq<char> {
    "1970-01-01T00:00:00Z"@
}

/// The ISO-8601 text of an instant in epoch milliseconds, at second precision;
/// the epoch's text where the instant is out of range.
pub open spec fn iso_of_millis(ms: i64) -> Seq<char> {
    match utc_iso_of(millis_to_secs(ms) as i64) {
        Some(t) => t,
        None => epoch_iso(),
    }
}

pub fn epoch_ms_to_iso(ms: i64) -> (r: String)
    ensures
        r@ == iso_of_millis(ms),
{
    let secs: i64 = if ms >= 0 {
        ms / 1000
    } else {
        let pos: i128 = 0i128 - (ms as i128);
        let q: i128 = pos / 1000;
        (0i128 - q) as i64
    };
    match format_utc_secs(secs) {
        Some(t) => t,
        None => String::from_str("1970-01-01T00:00:00Z"),
    }
}

} // verus!
