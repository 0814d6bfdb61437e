//! How each provider's listing is turned into a time-bounded, newest-first
//! sequence of entries, and when its pagination stops.
use vstd::prelude::*;
use vstd::seq_lib::group_to_multiset_ensures;
use crate::model::RemoteTranscript;
use crate::timestamp::{decimal_i64, epoch_ms_to_iso, iso_of_millis, parse_i64, parse_rfc3339_millis, rfc3339_millis};

verus! {

/// Items per listing page, for both providers.
pub const PAGE_SIZE: usize = 50;

/// A listing entry together with its instant in epoch milliseconds, where the
/// provider's date could be read as one.
#[derive(Debug, Clone)]
pub struct ListedEntry {
    pub entry: RemoteTranscript,
    pub stamp_ms: Option<i64>,
}

impl ListedEntry {
    pub fn duplicate(&self) -> (r: ListedEntry)
        ensures
            r == *self,
    {
        ListedEntry { entry: self.entry.duplicate(), stamp_ms: self.stamp_ms }
    }
}

/// Whether an entry passes the `since` bound: strictly newer than it. With no
/// bound every entry passes; under a bound, an entry whose date cannot be read
/// is not known to be newer and does not pass.
pub open spec fn passes_since(since_ms: Option<i64>, stamp_ms: Option<i64>) -> bool {
    match since_ms {
        None => true,
        Some(t) => stamp_ms matches Some(s) && s > t,
    }
}

/// The entries among the first `n` of `s` that pass the bound, in order.
pub open spec fn kept_upto(s: Seq<ListedEntry>, since_ms: Option<i64>, n: nat) -> Seq<ListedEntry>
    decreases n,
{
    if n == 0 {
        Seq::empty()
    } else {
        let k = kept_upto(s, since_ms, (n - 1) as nat);
        if passes_since(since_ms, s[n - 1].stamp_ms) {
            k.push(s[n - 1])
        } else {
            k
        }
    }
}

pub open spec fn kept(s: Seq<ListedEntry>, since_ms: Option<i64>) -> Seq<ListedEntry> {
    kept_upto(s, since_ms, s.len())
}

/// The order key: the instant, with undated entries after every dated one.
pub open spec fn order_key(e: ListedEntry) -> int {
    match e.stamp_ms {
        Some(s) => s as int,
        None => i64::MIN as int - 1,
    }
}

pub open spec fn newest_first(s: Seq<ListedEntry>) -> bool {
    forall|i: int, j: int| 0 <= i < j < s.len() ==> order_key(#[trigger] s[i]) >= order_key(#[trigger] s[j])
}

fn key(e: &ListedEntry) -> (k: i128)
    ensures
        k == order_key(*e),
{
    match e.stamp_ms {
        Some(s) => s as i128,
        None => (i64::MIN as i128) - 1,
    }
}

proof fn lemma_kept_passes(s: Seq<ListedEntry>, since_ms: Option<i64>, n: nat)
    requires
        n <= s.len(),
    ensures
        forall|i: int| 0 <= i < kept_upto(s, since_ms, n).len() ==> passes_since(since_ms, #[trigger] kept_upto(s, since_ms, n)[i].stamp_ms),
    decreases n,
{
    if n > 0 {
        lemma_kept_passes(s, since_ms, (n - 1) as nat);
    }
}

/// The entries that pass the bound, in listing order.
pub fn keep_newer(items: &Vec<ListedEntry>, since_ms: Option<i64>) -> (r: Vec<ListedEntry>)
    ensures
        r@ == kept(items@, since_ms),
        forall|i: int| 0 <= i < r.len() ==> passes_since(since_ms, #[trigger] r@[i].stamp_ms),
{
    let mut r: Vec<ListedEntry> = Vec::new();
    let mut i: usize = 0;
    while i < items.len()
        invariant
            i <= items.len(),
            r@ == kept_upto(items@, since_ms, i as nat),
        decreases items.len() - i,
    {
        let pass = match since_ms {
            None => true,
            Some(t) => match items[i].stamp_ms {
                Some(s) => s > t,
                None => false,
            },
        };
        if pass {
            r.push(items[i].duplicate());
        }
        i = i + 1;
    }
    proof {
        lemma_kept_passes(items@, since_ms, items.len() as nat);
    }
    r
}

/// The same entries, newest first.
pub fn sort_newest_first(items: &Vec<ListedEntry>) -> (r: Vec<ListedEntry>)
    ensures
        newest_first(r@),
        r@.to_multiset() == items@.to_multiset(),
{
    broadcast use group_to_multiset_ensures;
    let mut r: Vec<ListedEntry> = Vec::new();
    let mut i: usize = 0;
    while i < items.len()
        invariant
            i <= items.len(),
            newest_first(r@),
            r@.to_multiset() == items@.subrange(0, i as int).to_multiset(),
        decreases items.len() - i,
    {
        let x = items[i].duplicate();
        let kx = key(&x);
        let mut pos: usize = 0;
        while pos < r.len() && key(&r[pos]) >= kx
            invariant
                pos <= r.len(),
                forall|j: int| 0 <= j < pos ==> order_key(#[trigger] r@[j]) >= kx,
            decreases r.len() - pos,
        {
            pos = pos + 1;
        }
        let ghost before = r@;
        r.insert(pos, x);
        proof {
            vstd::seq_lib::to_multiset_insert(before, pos as int, x);
            assert(items@.subrange(0, i + 1) =~= items@.subrange(0, i as int).push(items@[i as int]));
            assert(r@ == before.insert(pos as int, x));
            assert(x == items@[i as int]);
            vstd::seq_lib::to_multiset_build(items@.subrange(0, i as int), x);
            assert forall|a: int, b: int| 0 <= a < b < r@.len() implies order_key(#[trigger] r@[a])
                >= order_key(#[trigger] r@[b]) by {
                if b < pos {
                } else if b == pos {
                    assert(r@[a] == before[a]);
                } else if a < pos {
                    assert(r@[b] == before[b - 1]);
                    assert(order_key(before[pos as int]) < kx);
                    if b - 1 > pos {
                        assert(order_key(before[pos as int]) >= order_key(before[b - 1]));
                    }
                } else if a == pos {
                    assert(r@[b] == before[b - 1]);
                    assert(order_key(before[pos as int]) < kx);
                    if b - 1 > pos {
                        assert(order_key(before[pos as int]) >= order_key(before[b - 1]));
                    }
                } else {
                    assert(r@[a] == before[a - 1]);
                    assert(r@[b] == before[b - 1]);
                }
            }
        }
        i = i + 1;
    }
    assert(items@.subrange(0, items.len() as int) =~= items@);
    r
}

/// A provider's listing as returned: only entries newer than the bound, newest first.
pub fn finish_listing(items: &Vec<ListedEntry>, since_ms: Option<i64>) -> (r: Vec<ListedEntry>)
    ensures
        forall|i: int| 0 <= i < r.len() ==> passes_since(since_ms, #[trigger] r@[i].stamp_ms),
        since_ms matches Some(t) ==> forall|i: int| 0 <= i < r.len() ==> (#[trigger] r@[i].stamp_ms matches Some(
            s) && s > t),
        newest_first(r@),
        r@.to_multiset() == kept(items@, since_ms).to_multiset(),
{
    broadcast use group_to_multiset_ensures;
    let k = keep_newer(items, since_ms);
    let r = sort_newest_first(&k);
    proof {
        assert forall|i: int| 0 <= i < r.len() implies passes_since(since_ms, #[trigger] r@[i].stamp_ms) by {
            assert(r@.to_multiset().count(r@[i]) > 0);
            assert(k@.to_multiset().count(r@[i]) > 0);
            assert(k@.contains(r@[i]));
        }
    }
    r
}

/// The entries alone, in the same order.
pub fn entries_of(items: Vec<ListedEntry>) -> (r: Vec<RemoteTranscript>)
    ensures
        r.len() == items.len(),
        forall|i: int| 0 <= i < r.len() ==> #[trigger] r@[i] == items@[i].entry,
{
    let mut r: Vec<RemoteTranscript> = Vec::new();
    let mut i: usize = 0;
    while i < items.len()
        invariant
            i <= items.len(),
            r.len() == i,
            forall|j: int| 0 <= j < i ==> #[trigger] r@[j] == items@[j].entry,
        decreases items.len() - i,
    {
        r.push(items[i].entry.duplicate());
        i = i + 1;
    }
    r
}

/// The bound of a listing: the cursor read as an instant. A cursor that is not
/// RFC 3339 is an error, reported as `Err(())`.
pub fn since_bound(since: Option<&str>) -> (r: Result<Option<i64>, ()>)
    ensures
        match since {
            None => r == Ok::<Option<i64>, ()>(None),
            Some(s) => match rfc3339_millis(s@) {
                Some(ms) => r == Ok::<Option<i64>, ()>(Some(ms)),
                None => r is Err,
            },
        },
{
    match since {
        None => Ok(None),
        Some(s) => match parse_rfc3339_millis(s) {
            Some(ms) => Ok(Some(ms)),
            None => Err(()),
        },
    }
}

/// A date field as the GraphQL provider sends it: epoch milliseconds, as a
/// number or as decimal text.
#[derive(Debug, Clone)]
pub enum EpochValue {
    Number(i64),
    Text(String),
    Absent,
}

/// The milliseconds a date field holds; 0 where it holds none.
pub open spec fn epoch_millis_of(v: EpochValue) -> i64 {
    match v {
        EpochValue::Number(n) => n,
        EpochValue::Text(t) => match decimal_i64(t@) {
            Some(n) => n,
            None => 0,
        },
        EpochValue::Absent => 0,
    }
}

pub fn epoch_millis(v: &EpochValue) -> (r: i64)
    ensures
        r == epoch_millis_of(*v),
{
    match v {
        EpochValue::Number(n) => *n,
        EpochValue::Text(t) => match parse_i64(t.as_str()) {
            Some(n) => n,
            None => 0,
        },
        EpochValue::Absent => 0,
    }
}

/// The text of an optional field, or `default` where it is absent.
pub fn text_or(v: Option<String>, default: &str) -> (r: String)
    ensures
        r@ == (match v {
            Some(t) => t@,
            None => default@,
        }),
{
    match v {
        Some(t) => t,
        None => String::from_str(default),
    }
}

/// One entry of the GraphQL provider's listing: an absent id reads as empty, an
/// absent title as "Untitled"; the date is written at second precision.
pub fn fireflies_entry(id: Option<String>, title: Option<String>, date: &EpochValue) -> (r: ListedEntry)
    ensures
        r.entry.id@ == (match id {
            Some(t) => t@,
            None => Seq::<char>::empty(),
        }),
        r.entry.title@ == (match title {
            Some(t) => t@,
            None => "Untitled"@,
        }),
        r.entry.date@ == iso_of_millis(epoch_millis_of(*date)),
        r.stamp_ms == Some(epoch_millis_of(*date)),
{
    proof {
        reveal_strlit("");
    }
    let ms = epoch_millis(date);
    ListedEntry {
        entry: RemoteTranscript {
            id: text_or(id, ""),
            title: text_or(title, "Untitled"),
            date: epoch_ms_to_iso(ms),
        },
        stamp_ms: Some(ms),
    }
}

/// One entry of the REST provider's listing: the date is kept as sent (empty
/// where absent) and read as an instant where it is RFC 3339.
pub fn pocket_entry(id: Option<String>, title: Option<String>, date: Option<String>) -> (r: ListedEntry)
    ensures
        r.entry.id@ == (match id {
            Some(t) => t@,
            None => Seq::<char>::empty(),
        }),
        r.entry.title@ == (match title {
            Some(t) => t@,
            None => "Untitled"@,
        }),
        r.entry.date@ == (match date {
            Some(t) => t@,
            None => Seq::<char>::empty(),
        }),
        r.stamp_ms == rfc3339_millis(r.entry.date@),
{
    proof {
        reveal_strlit("");
    }
    let d = text_or(date, "");
    let stamp = parse_rfc3339_millis(d.as_str());
    ListedEntry {
        entry: RemoteTranscript { id: text_or(id, ""), title: text_or(title, "Untitled"), date: d },
        stamp_ms: stamp,
    }
}

/// The GraphQL provider pages by offset: a full page asks for the next one, a
/// short or empty page ends the listing.
pub fn fireflies_next_skip(skip: i64, page_len: usize) -> (r: Option<i64>)
    ensures
        page_len < PAGE_SIZE ==> r is None,
        page_len >= PAGE_SIZE && skip + PAGE_SIZE <= i64::MAX ==> r == Some((skip + PAGE_SIZE) as i64),
        page_len >= PAGE_SIZE && skip + PAGE_SIZE > i64::MAX ==> r is None,
{
    if page_len < PAGE_SIZE {
        None
    } else if skip > i64::MAX - (PAGE_SIZE as i64) {
        None
    } else {
        Some(skip + PAGE_SIZE as i64)
    }
}

/// The REST provider pages by number: the listing goes on while the page is
/// before the last page that the server reports, and ends on an empty page.
pub fn pocket_next_page(page: i64, last_page: i64, page_len: usize) -> (r: Option<i64>)
    ensures
        (page_len == 0 || page >= last_page) ==> r is None,
        page_len > 0 && page < last_page ==> r == Some((page + 1) as i64),
{
    if page_len == 0 || page >= last_page {
        None
    } else {
        Some(page + 1)
    }
}

} // verus!
