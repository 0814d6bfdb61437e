use tss::normalize::{
    cap_raw_text, collect_utterances, fireflies_summary, parse_action_items, pocket_action_items, pocket_raw_text,
    pocket_summary, recording_id, tag_names, ActionEntry, SummaryPayload, Utterance, RAW_TEXT_CAP,
};

#[test]
fn action_items_from_free_text() {
    let block = "**Alice**\n- Send the deck to Bob\n  • Book the room  \nok\n\n* Review budget\n---\n- - - -\r\nFollow up with legal\r\n";
    let items = parse_action_items(block);
    assert_eq!(items, vec!["Send the deck to Bob", "Book the room", "Review budget", "- - -", "Follow up with legal"]);
}

#[test]
fn action_items_of_empty_block() {
    assert!(parse_action_items("").is_empty());
    assert!(parse_action_items("\n\n  \n").is_empty());
}

#[test]
fn short_lines_count_bytes() {
    // four characters, but more than five bytes in UTF-8
    assert_eq!(parse_action_items("éééé"), vec!["éééé"]);
    assert!(parse_action_items("abcd").is_empty());
}

#[test]
fn utterances_give_segments_speakers_and_text() {
    let us = vec![
        Utterance { speaker: Some("Alice".to_string()), text: Some("Hi".to_string()) },
        Utterance { speaker: None, text: Some("Who?".to_string()) },
        Utterance { speaker: Some("Alice".to_string()), text: None },
        Utterance { speaker: Some(String::new()), text: Some("...".to_string()) },
    ];
    let u = collect_utterances(&us);
    assert_eq!(u.segments.len(), 4);
    assert_eq!(u.segments[1].speaker, "Unknown");
    assert_eq!(u.segments[2].text, "");
    assert_eq!(u.segments[3].segment_index, 3);
    assert_eq!(u.speakers, vec!["Alice", "Unknown"]);
    assert_eq!(u.raw_text, "Alice: Hi\nUnknown: Who?\nAlice: \n: ...");
}

#[test]
fn raw_text_cap_is_a_hard_cut() {
    let long: String = "é".repeat(RAW_TEXT_CAP + 5);
    let capped = cap_raw_text(long);
    assert_eq!(capped.chars().count(), RAW_TEXT_CAP);
    assert_eq!(cap_raw_text("short".to_string()), "short");
    assert_eq!(pocket_raw_text(None, "a: b".to_string()), "a: b");
    assert_eq!(pocket_raw_text(Some("text".to_string()), "a: b".to_string()), "text");
}

#[test]
fn summaries() {
    assert_eq!(fireflies_summary(Some("Overview".to_string()), Some("- a".to_string())), "Overview\n\n- a");
    assert_eq!(fireflies_summary(Some(String::new()), Some("- a".to_string())), "- a");
    assert_eq!(fireflies_summary(None, None), "");
    assert_eq!(pocket_summary(SummaryPayload::Markdown { markdown: Some("# S".to_string()) }), "# S");
    assert_eq!(pocket_summary(SummaryPayload::Plain { text: "plain".to_string() }), "plain");
    assert_eq!(pocket_summary(SummaryPayload::Markdown { markdown: None }), "");
    assert_eq!(pocket_summary(SummaryPayload::Absent), "");
}

#[test]
fn rest_actions_prefer_label() {
    let actions = vec![
        ActionEntry { label: Some("Call Bob".to_string()), context: Some("ctx".to_string()) },
        ActionEntry { label: Some(String::new()), context: Some("From context".to_string()) },
        ActionEntry { label: None, context: None },
    ];
    assert_eq!(pocket_action_items(&actions), vec!["Call Bob", "From context"]);
}

#[test]
fn tag_names_and_ids() {
    assert_eq!(tag_names(vec![Some("a".to_string()), None, Some("b".to_string())]), vec!["a", "b"]);
    assert_eq!(recording_id(Some("r-1".to_string())), "r-1");
    let fresh = recording_id(None);
    assert_eq!(fresh.len(), 36);
    assert_ne!(fresh, recording_id(None));
}
