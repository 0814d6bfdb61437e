use tss::orchestrator::{SyncAction, SyncEvent, SyncSession};
use tss::{RemoteTranscript, RunStatus, SyncMode, SyncOptions, SyncReport};

fn entry(id: &str, date: &str) -> RemoteTranscript {
    RemoteTranscript { id: id.to_string(), title: format!("Meeting {id}"), date: date.to_string() }
}

/// A scripted store and provider: which ids exist, which fetches and stores fail,
/// what the cursor holds and what the clock says. Records every action taken.
struct Script {
    cursor: Option<String>,
    listing: Vec<RemoteTranscript>,
    local: Vec<String>,
    failing_fetch: Vec<String>,
    failing_store: Vec<String>,
    confirm: bool,
    now_secs: i64,
    actions: Vec<String>,
    written: Vec<(String, String)>,
    stored: Vec<String>,
    completed: Option<(usize, usize, usize, usize, RunStatus)>,
    asked_since: Option<Option<String>>,
}

impl Script {
    fn new(listing: Vec<RemoteTranscript>) -> Script {
        Script {
            cursor: None,
            listing,
            local: Vec::new(),
            failing_fetch: Vec::new(),
            failing_store: Vec::new(),
            confirm: true,
            now_secs: 1_767_225_600,
            actions: Vec::new(),
            written: Vec::new(),
            stored: Vec::new(),
            completed: None,
            asked_since: None,
        }
    }

    fn run(&mut self, source: &str, full: bool, opts: SyncOptions) -> SyncReport {
        let mut s = SyncSession::new(source, full, opts);
        let mut ev = SyncEvent::Begin;
        let mut last_fetch = String::new();
        for _ in 0..1000 {
            let a = s.step(ev);
            ev = match a {
                SyncAction::ReadState { key } => {
                    self.actions.push(format!("read {key}"));
                    SyncEvent::StateValue { value: self.cursor.clone() }
                }
                SyncAction::ListRemote { since } => {
                    self.actions.push("list".to_string());
                    self.asked_since = Some(since);
                    SyncEvent::Listing { entries: self.listing.clone() }
                }
                SyncAction::CheckLocal { ids } => {
                    self.actions.push("check".to_string());
                    SyncEvent::LocalPresence { present: ids.iter().map(|i| self.local.contains(i)).collect() }
                }
                SyncAction::Confirm { count } => {
                    self.actions.push(format!("confirm {count}"));
                    SyncEvent::Confirmation { proceed: self.confirm }
                }
                SyncAction::StartRun { source, mode } => {
                    self.actions.push(format!("start {source} {}", mode.as_str()));
                    SyncEvent::RunStarted { run_id: 7 }
                }
                SyncAction::FetchOne { id } => {
                    self.actions.push(format!("fetch {id}"));
                    last_fetch = id.clone();
                    SyncEvent::Fetched { ok: !self.failing_fetch.contains(&id) }
                }
                SyncAction::Store { id } => {
                    self.actions.push(format!("store {id}"));
                    assert_eq!(id, last_fetch);
                    let ok = !self.failing_store.contains(&id);
                    if ok {
                        self.stored.push(id.clone());
                        self.local.push(id);
                    }
                    SyncEvent::Stored { ok }
                }
                SyncAction::CompleteRun { run_id, remote_total, synced, skipped, errors, status } => {
                    self.actions.push("complete".to_string());
                    assert_eq!(run_id, 7);
                    self.completed = Some((remote_total, synced, skipped, errors, status));
                    SyncEvent::RunCompleted
                }
                SyncAction::ReadClock => {
                    self.actions.push("clock".to_string());
                    SyncEvent::Clock { now_secs: self.now_secs }
                }
                SyncAction::WriteState { key, value } => {
                    self.actions.push(format!("write {key}"));
                    self.written.push((key, value.clone()));
                    self.cursor = Some(value);
                    SyncEvent::StateWritten
                }
                SyncAction::Finish { report } => return report,
                SyncAction::Unexpected => panic!("the session refused an event"),
            };
        }
        panic!("the session did not finish");
    }
}

fn yes() -> SyncOptions {
    SyncOptions { yes: true, dry_run: false }
}

#[test]
fn initial_sync_of_three_into_empty_store() {
    let mut sc = Script::new(vec![
        entry("A", "2026-01-03T00:00:00Z"),
        entry("B", "2026-01-02T00:00:00Z"),
        entry("C", "2026-01-01T00:00:00Z"),
    ]);
    sc.confirm = true;
    let r = sc.run("fireflies", false, SyncOptions { yes: false, dry_run: false });
    assert_eq!(r.mode, SyncMode::Initial);
    assert_eq!(r.synced, 3);
    assert_eq!(r.already_local, 0);
    assert_eq!(r.failed, 0);
    assert_eq!(r.remote_total, 3);
    assert_eq!(sc.stored, vec!["A", "B", "C"]);
    assert!(sc.actions.contains(&"confirm 3".to_string()));
    assert_eq!(sc.asked_since, Some(None));
    assert_eq!(sc.written, vec![("fireflies.last_sync_at".to_string(), "2026-01-01T00:00:00Z".to_string())]);
    assert_eq!(sc.completed, Some((3, 3, 0, 0, RunStatus::Completed)));
}

#[test]
fn one_fetch_failure_of_three_still_completes() {
    let mut sc = Script::new(vec![entry("A", ""), entry("B", ""), entry("C", "")]);
    sc.failing_fetch = vec!["B".to_string()];
    let r = sc.run("pocket", false, yes());
    assert_eq!(r.synced, 2);
    assert_eq!(r.failed, 1);
    assert_eq!(sc.completed, Some((3, 2, 0, 1, RunStatus::Completed)));
    assert_eq!(sc.stored, vec!["A", "C"]);
    assert!(!sc.actions.contains(&"store B".to_string()));
}

#[test]
fn store_failure_counts_as_error_and_is_not_retried() {
    let mut sc = Script::new(vec![entry("A", ""), entry("B", "")]);
    sc.failing_store = vec!["A".to_string()];
    let r = sc.run("pocket", false, yes());
    assert_eq!(r.synced, 1);
    assert_eq!(r.failed, 1);
    assert_eq!(sc.actions.iter().filter(|a| *a == "fetch A").count(), 1);
}

#[test]
fn every_item_failing_marks_the_run_failed() {
    let mut sc = Script::new(vec![entry("A", ""), entry("B", "")]);
    sc.failing_fetch = vec!["A".to_string(), "B".to_string()];
    let r = sc.run("pocket", false, yes());
    assert_eq!(r.synced, 0);
    assert_eq!(r.failed, 2);
    assert_eq!(sc.completed, Some((2, 0, 0, 2, RunStatus::Failed)));
    assert_eq!(sc.written.len(), 1);
}

#[test]
fn dry_run_never_writes() {
    let mut sc = Script::new(vec![entry("A", ""), entry("B", "")]);
    sc.local = vec!["A".to_string()];
    let r = sc.run("fireflies", false, SyncOptions { yes: false, dry_run: true });
    assert_eq!(r.synced, 0);
    assert_eq!(r.skipped, 1);
    assert_eq!(r.already_local, 1);
    for a in &sc.actions {
        assert!(!a.starts_with("start") && !a.starts_with("store") && !a.starts_with("complete") && !a.starts_with("write"), "{a}");
    }
    assert!(sc.written.is_empty());
}

#[test]
fn dry_run_with_nothing_new_never_writes() {
    let mut sc = Script::new(vec![entry("A", "")]);
    sc.local = vec!["A".to_string()];
    sc.cursor = Some("2025-12-01T00:00:00Z".to_string());
    let _ = sc.run("fireflies", false, SyncOptions { yes: true, dry_run: true });
    assert_eq!(sc.actions, vec!["read fireflies.last_sync_at", "list", "check"]);
}

#[test]
fn incremental_twice_without_new_data_syncs_nothing() {
    let mut sc = Script::new(vec![entry("A", "2025-12-02T00:00:00Z")]);
    sc.local = vec!["A".to_string()];
    sc.cursor = Some("2025-12-01T00:00:00Z".to_string());
    let first = sc.run("pocket", false, yes());
    assert_eq!(first.mode, SyncMode::Incremental);
    assert_eq!(first.synced, 0);
    assert_eq!(first.already_local, 1);
    assert_eq!(sc.asked_since, Some(Some("2025-12-01T00:00:00Z".to_string())));
    let after_first = sc.cursor.clone().unwrap();
    assert_eq!(after_first, "2026-01-01T00:00:00Z");
    sc.now_secs += 60;
    let second = sc.run("pocket", false, yes());
    assert_eq!(second.synced, 0);
    let after_second = sc.cursor.clone().unwrap();
    assert!(after_second >= after_first);
    assert_eq!(sc.completed, Some((1, 0, 1, 0, RunStatus::Completed)));
}

#[test]
fn cursor_newer_than_clock_is_kept() {
    let mut sc = Script::new(vec![]);
    sc.cursor = Some("2030-01-01T00:00:00Z".to_string());
    let _ = sc.run("pocket", false, yes());
    assert!(sc.written.is_empty());
    assert_eq!(sc.cursor.as_deref(), Some("2030-01-01T00:00:00Z"));
}

#[test]
fn full_rescan_ignores_cursor() {
    let mut sc = Script::new(vec![entry("A", "")]);
    sc.cursor = Some("2025-12-01T00:00:00Z".to_string());
    let r = sc.run("pocket", true, yes());
    assert_eq!(r.mode, SyncMode::Initial);
    assert_eq!(sc.asked_since, Some(None));
    assert_eq!(r.synced, 1);
}

#[test]
fn declined_confirmation_records_a_run_and_keeps_the_cursor() {
    let mut sc = Script::new(vec![entry("A", ""), entry("B", ""), entry("C", "")]);
    sc.confirm = false;
    let r = sc.run("fireflies", false, SyncOptions { yes: false, dry_run: false });
    assert_eq!(r.synced, 0);
    assert_eq!(r.skipped, 3);
    assert_eq!(sc.completed, Some((3, 0, 3, 0, RunStatus::Completed)));
    assert!(sc.written.is_empty());
    assert!(sc.stored.is_empty());
}

#[test]
fn incremental_needs_no_confirmation() {
    let mut sc = Script::new(vec![entry("N", "")]);
    sc.cursor = Some("2025-12-01T00:00:00Z".to_string());
    sc.confirm = false;
    let r = sc.run("fireflies", false, SyncOptions { yes: false, dry_run: false });
    assert_eq!(r.synced, 1);
    assert!(!sc.actions.iter().any(|a| a.starts_with("confirm")));
}

#[test]
fn empty_diff_still_records_a_run_and_advances_the_cursor() {
    let mut sc = Script::new(vec![entry("A", "")]);
    sc.local = vec!["A".to_string()];
    let r = sc.run("fireflies", false, yes());
    assert_eq!(r.synced, 0);
    assert_eq!(r.already_local, 1);
    assert_eq!(sc.completed, Some((1, 0, 1, 0, RunStatus::Completed)));
    assert_eq!(sc.written.len(), 1);
}

#[test]
fn an_event_out_of_turn_is_refused() {
    let mut s = SyncSession::new("fireflies", false, yes());
    let a = s.step(SyncEvent::RunCompleted);
    assert!(matches!(a, SyncAction::Unexpected));
    let a = s.step(SyncEvent::Begin);
    assert!(matches!(a, SyncAction::ReadState { .. }));
    let _ = s.step(SyncEvent::StateValue { value: None });
    let _ = s.step(SyncEvent::Listing { entries: vec![entry("A", "")] });
    let a = s.step(SyncEvent::LocalPresence { present: vec![] });
    assert!(matches!(a, SyncAction::Unexpected));
}

#[test]
fn mode_and_status_names() {
    assert_eq!(SyncMode::Initial.as_str(), "initial");
    assert_eq!(SyncMode::Incremental.as_str(), "incremental");
    assert_eq!(SyncMode::Audit.as_str(), "audit");
    assert_eq!(RunStatus::Completed.as_str(), "completed");
    assert_eq!(RunStatus::Failed.as_str(), "failed");
    assert_eq!(RunStatus::from_counts(0, 1), RunStatus::Failed);
    assert_eq!(RunStatus::from_counts(1, 1), RunStatus::Completed);
    assert_eq!(RunStatus::from_counts(0, 0), RunStatus::Completed);
    assert_eq!(tss::model::cursor_key("pocket"), "pocket.last_sync_at");
}
