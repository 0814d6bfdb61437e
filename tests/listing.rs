use tss::listing::{
    epoch_millis, entries_of, finish_listing, fireflies_entry, fireflies_next_skip, pocket_entry, pocket_next_page, since_bound,
    EpochValue, ListedEntry,
};
use tss::timestamp::epoch_ms_to_iso;
use tss::RemoteTranscript;

fn item(id: &str, ms: Option<i64>) -> ListedEntry {
    ListedEntry {
        entry: RemoteTranscript { id: id.to_string(), title: id.to_string(), date: String::new() },
        stamp_ms: ms,
    }
}

#[test]
fn since_keeps_only_strictly_newer_entries() {
    let items = vec![item("a", Some(1000)), item("b", Some(3000)), item("c", Some(2000)), item("d", Some(2001))];
    let out = finish_listing(&items, Some(2000));
    let ids: Vec<String> = entries_of(out.clone()).into_iter().map(|e| e.id).collect();
    assert_eq!(ids, vec!["b", "d"]);
    for e in &out {
        assert!(e.stamp_ms.unwrap() > 2000);
    }
}

#[test]
fn without_since_every_entry_is_kept_newest_first() {
    let items = vec![item("a", Some(1)), item("u", None), item("b", Some(3)), item("c", Some(2)), item("b2", Some(3))];
    let out = entries_of(finish_listing(&items, None));
    let ids: Vec<&str> = out.iter().map(|e| e.id.as_str()).collect();
    assert_eq!(ids, vec!["b", "b2", "c", "a", "u"]);
}

#[test]
fn undated_entries_fail_a_bound() {
    let out = finish_listing(&vec![item("u", None), item("old", Some(5)), item("new", Some(11))], Some(10));
    assert_eq!(out.len(), 1);
    assert_eq!(out[0].entry.id, "new");
}

#[test]
fn graphql_entry_defaults_and_date() {
    let e = fireflies_entry(None, None, &EpochValue::Number(1_700_000_000_999));
    assert_eq!(e.entry.id, "");
    assert_eq!(e.entry.title, "Untitled");
    assert_eq!(e.entry.date, "2023-11-14T22:13:20Z");
    assert_eq!(e.stamp_ms, Some(1_700_000_000_999));
    let t = fireflies_entry(Some("x".to_string()), Some("Standup".to_string()), &EpochValue::Text("86400000".to_string()));
    assert_eq!(t.entry.date, "1970-01-02T00:00:00Z");
    assert_eq!(t.entry.title, "Standup");
    let bad = fireflies_entry(None, None, &EpochValue::Text("soon".to_string()));
    assert_eq!(bad.entry.date, "1970-01-01T00:00:00Z");
    assert_eq!(bad.stamp_ms, Some(0));
}

#[test]
fn rest_entry_reads_rfc3339_dates() {
    let e = pocket_entry(Some("r1".to_string()), None, Some("2026-01-15T10:00:00Z".to_string()));
    assert_eq!(e.entry.date, "2026-01-15T10:00:00Z");
    assert_eq!(e.stamp_ms, Some(1_768_471_200_000));
    let n = pocket_entry(None, Some("T".to_string()), None);
    assert_eq!(n.entry.date, "");
    assert_eq!(n.stamp_ms, None);
}

#[test]
fn epoch_conversion() {
    assert_eq!(epoch_ms_to_iso(0), "1970-01-01T00:00:00Z");
    assert_eq!(epoch_ms_to_iso(-1500), "1969-12-31T23:59:59Z");
    assert_eq!(epoch_ms_to_iso(i64::MAX), "1970-01-01T00:00:00Z");
    assert_eq!(epoch_ms_to_iso(86_400_000), "1970-01-02T00:00:00Z");
    assert_eq!(since_bound(Some("1970-01-01T01:00:01.5+01:00")), Ok(Some(1500)));
    assert_eq!(since_bound(Some("yesterday")), Err(()));
}

#[test]
fn since_bound_parses_or_fails() {
    assert_eq!(since_bound(None), Ok(None));
    assert_eq!(since_bound(Some("1970-01-01T00:00:02Z")), Ok(Some(2000)));
    assert_eq!(since_bound(Some("not a date")), Err(()));
}

#[test]
fn graphql_pagination_stops_on_short_page() {
    assert_eq!(fireflies_next_skip(0, 50), Some(50));
    assert_eq!(fireflies_next_skip(50, 49), None);
    assert_eq!(fireflies_next_skip(100, 0), None);
    assert_eq!(fireflies_next_skip(i64::MAX - 10, 50), None);
}

#[test]
fn rest_pagination_follows_last_page() {
    assert_eq!(pocket_next_page(1, 3, 50), Some(2));
    assert_eq!(pocket_next_page(3, 3, 50), None);
    assert_eq!(pocket_next_page(1, 3, 0), None);
    assert_eq!(pocket_next_page(1, 5, 7), Some(2));
}

#[test]
fn decimal_epoch_texts() {
    let t = |s: &str| epoch_millis(&EpochValue::Text(s.to_string()));
    assert_eq!(t("1700000000000"), 1_700_000_000_000);
    assert_eq!(t("+5"), 5);
    assert_eq!(t("-7"), -7);
    assert_eq!(t("-9223372036854775808"), i64::MIN);
    assert_eq!(t("9223372036854775807"), i64::MAX);
    assert_eq!(t("9223372036854775808"), 0);
    assert_eq!(t("99999999999999999999999"), 0);
    assert_eq!(t(""), 0);
    assert_eq!(t("-"), 0);
    assert_eq!(t("12a"), 0);
    assert_eq!(t(" 12"), 0);
    assert_eq!(epoch_millis(&EpochValue::Absent), 0);
}
