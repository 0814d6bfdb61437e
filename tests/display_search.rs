use tss::display::{decimal_text, format_clock_secs, format_duration_secs, truncate};
use tss::search::Filters;

#[test]
fn decimal_texts() {
    assert_eq!(decimal_text(0), "0");
    assert_eq!(decimal_text(7), "7");
    assert_eq!(decimal_text(1234567890), "1234567890");
    assert_eq!(decimal_text(u64::MAX), "18446744073709551615");
}

#[test]
fn durations() {
    assert_eq!(format_duration_secs(0), "0s");
    assert_eq!(format_duration_secs(42), "42s");
    assert_eq!(format_duration_secs(187), "3m07s");
    assert_eq!(format_duration_secs(3900), "1h05m");
    assert_eq!(format_duration_secs(3600), "1h00m");
}

#[test]
fn clock_positions() {
    assert_eq!(format_clock_secs(0), "00:00");
    assert_eq!(format_clock_secs(75), "01:15");
    assert_eq!(format_clock_secs(6005), "100:05");
}

#[test]
fn truncation_by_width() {
    assert_eq!(truncate("short", 10), "short");
    assert_eq!(truncate("abcdefghij", 8), "abcde...");
    // wide characters take two columns each
    assert_eq!(truncate("日本語のテキスト", 9), "日本語...");
    assert_eq!(truncate("exactly10!", 10), "exactly10!");
}

#[test]
fn filter_conditions_are_numbered_in_order() {
    let f = Filters {
        speaker: Some("ali".to_string()),
        source: Some("zoom".to_string()),
        from_date: None,
        to_date: Some("2026-02-01".to_string()),
        tag: Some("sales".to_string()),
    };
    let (conds, params) = f.transcript_conditions();
    assert_eq!(
        conds,
        vec![
            "t.source = ?1",
            "t.date <= ?2",
            "t.id IN (SELECT transcript_id FROM speakers WHERE name LIKE ?3)",
            "t.id IN (SELECT transcript_id FROM tags WHERE tag = ?4)",
        ]
    );
    assert_eq!(params, vec!["zoom", "2026-02-01", "%ali%", "sales"]);
    let (none, no_params) = Filters::default().transcript_conditions();
    assert!(none.is_empty() && no_params.is_empty());
}
