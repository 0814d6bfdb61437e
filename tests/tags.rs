use tss::tags::{tag_cache_key, TagAction, TagEntry, TagEvent, TagResolver};

fn tag(name: Option<&str>, id: Option<&str>) -> TagEntry {
    TagEntry { name: name.map(|s| s.to_string()), id: id.map(|s| s.to_string()) }
}

/// Resolve `name` against a map-like store and a tag list; count tag-list requests.
fn resolve(name: &str, store: &mut Vec<(String, String)>, tags: &[TagEntry], lists: &mut usize) -> TagAction {
    let mut r = TagResolver::new(name);
    let mut ev = TagEvent::Begin;
    loop {
        match r.step(ev) {
            TagAction::ReadState { key } => {
                let v = store.iter().find(|(k, _)| *k == key).map(|(_, v)| v.clone());
                ev = TagEvent::StateValue { value: v };
            }
            TagAction::FetchTags => {
                *lists += 1;
                ev = TagEvent::Tags { tags: tags.to_vec() };
            }
            TagAction::WriteState { key, value } => {
                store.retain(|(k, _)| *k != key);
                store.push((key, value));
                ev = TagEvent::StateWritten;
            }
            other => return other,
        }
    }
}

#[test]
fn second_resolution_hits_the_cache() {
    let tags = vec![tag(Some("Sales"), Some("t-1")), tag(Some("Ops"), Some("t-2"))];
    let mut store = Vec::new();
    let mut lists = 0;
    let a = resolve("sales", &mut store, &tags, &mut lists);
    assert!(matches!(a, TagAction::Resolved { ref id } if id == "t-1"));
    let b = resolve("sales", &mut store, &tags, &mut lists);
    assert!(matches!(b, TagAction::Resolved { ref id } if id == "t-1"));
    assert_eq!(lists, 1);
    assert_eq!(store, vec![("pocket.tag_id.sales".to_string(), "t-1".to_string())]);
}

#[test]
fn unknown_tag_lists_the_available_names() {
    let tags = vec![tag(Some("Sales"), Some("t-1")), tag(None, Some("t-9")), tag(Some("Ops"), Some("t-2"))];
    let mut store = Vec::new();
    let mut lists = 0;
    match resolve("hr", &mut store, &tags, &mut lists) {
        TagAction::NotFound { available } => assert_eq!(available, vec!["Sales", "Ops"]),
        other => panic!("{other:?}"),
    }
    assert!(store.is_empty());
}

#[test]
fn tag_without_id_is_an_error() {
    let tags = vec![tag(Some("Ops"), None), tag(Some("ops"), Some("t-2"))];
    let mut store = Vec::new();
    let mut lists = 0;
    assert!(matches!(resolve("OPS", &mut store, &tags, &mut lists), TagAction::MissingId));
}

#[test]
fn tag_cache_key_format() {
    assert_eq!(tag_cache_key("Sales"), "pocket.tag_id.Sales");
}
