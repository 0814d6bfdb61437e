use tss::audit::{missing_locally, orphaned_locally, AuditAction, AuditChoice, AuditEvent, AuditSession};
use tss::{AuditReport, RemoteTranscript, RunStatus, SyncOptions};

fn entry(id: &str) -> RemoteTranscript {
    RemoteTranscript { id: id.to_string(), title: format!("T {id}"), date: "2026-01-01T00:00:00Z".to_string() }
}

struct Outcome {
    report: AuditReport,
    actions: Vec<String>,
    completed: Option<(usize, usize, usize, usize, RunStatus)>,
    chosen: Option<(usize, usize)>,
}

fn drive(remote: Vec<RemoteTranscript>, local: Vec<&str>, choice: AuditChoice, dry_run: bool, failing: Vec<&str>) -> Outcome {
    let mut s = AuditSession::new("pocket", SyncOptions { yes: false, dry_run });
    let mut ev = AuditEvent::Begin;
    let mut actions = Vec::new();
    let mut completed = None;
    let mut chosen = None;
    for _ in 0..1000 {
        let a = s.step(ev);
        ev = match a {
            AuditAction::ListAll => {
                actions.push("list".to_string());
                AuditEvent::Listing { entries: remote.clone() }
            }
            AuditAction::ListLocal { source } => {
                actions.push(format!("local {source}"));
                AuditEvent::LocalIds { ids: local.iter().map(|s| s.to_string()).collect() }
            }
            AuditAction::Choose { missing, orphaned } => {
                chosen = Some((missing, orphaned));
                AuditEvent::Disposition { choice }
            }
            AuditAction::StartRun { mode, .. } => {
                actions.push(format!("start {}", mode.as_str()));
                AuditEvent::RunStarted { run_id: 3 }
            }
            AuditAction::FetchOne { id } => {
                actions.push(format!("fetch {id}"));
                AuditEvent::Fetched { ok: !failing.contains(&id.as_str()) }
            }
            AuditAction::Store { id } => {
                actions.push(format!("store {id}"));
                AuditEvent::Stored { ok: true }
            }
            AuditAction::Delete { id } => {
                actions.push(format!("delete {id}"));
                AuditEvent::Deleted { ok: true }
            }
            AuditAction::Export { report } => {
                actions.push(format!("export {} {}", report.missing_locally.len(), report.orphaned_locally.len()));
                AuditEvent::Exported
            }
            AuditAction::CompleteRun { remote_total, synced, skipped, errors, status, .. } => {
                actions.push("complete".to_string());
                completed = Some((remote_total, synced, skipped, errors, status));
                AuditEvent::RunCompleted
            }
            AuditAction::Finish { report } => return Outcome { report, actions, completed, chosen },
            AuditAction::Unexpected => panic!("refused"),
        };
    }
    panic!("did not finish");
}

#[test]
fn audit_finds_missing_and_orphaned() {
    let o = drive(vec![entry("X"), entry("Y")], vec!["Y", "Z"], AuditChoice::Nothing, false, vec![]);
    let missing: Vec<&str> = o.report.missing_locally.iter().map(|r| r.id.as_str()).collect();
    assert_eq!(missing, vec!["X"]);
    assert_eq!(o.report.orphaned_locally, vec!["Z"]);
    assert_eq!(o.report.remote_total, 2);
    assert_eq!(o.report.local_total, 2);
    assert_eq!(o.chosen, Some((1, 1)));
    assert_eq!(o.completed, Some((2, 0, 2, 0, RunStatus::Completed)));
    assert!(!o.actions.iter().any(|a| a.starts_with("fetch") || a.starts_with("delete")));
}

#[test]
fn audit_partition_functions() {
    let remote = vec![entry("X"), entry("Y")];
    let local = vec!["Y".to_string(), "Z".to_string()];
    let m = missing_locally(&remote, &local);
    let o = orphaned_locally(&local, &remote);
    assert_eq!(m.len(), 1);
    assert_eq!(m[0].id, "X");
    assert_eq!(o, vec!["Z"]);
    // what both hold, together with each difference, gives each side back
    let both: Vec<&str> = remote.iter().map(|r| r.id.as_str()).filter(|id| local.iter().any(|l| l == id)).collect();
    assert_eq!(both, vec!["Y"]);
}

#[test]
fn audit_sync_disposition_fetches_only_missing() {
    let o = drive(vec![entry("X"), entry("W"), entry("Y")], vec!["Y", "Z"], AuditChoice::SyncMissing, false, vec!["W"]);
    assert_eq!(o.actions.iter().filter(|a| a.starts_with("fetch")).cloned().collect::<Vec<_>>(), vec!["fetch X", "fetch W"]);
    assert_eq!(o.completed, Some((3, 1, 2, 1, RunStatus::Completed)));
    assert!(!o.actions.iter().any(|a| a.starts_with("delete")));
}

#[test]
fn audit_delete_disposition_removes_only_orphans() {
    let o = drive(vec![entry("X"), entry("Y")], vec!["Y", "Z", "Q"], AuditChoice::DeleteOrphans, false, vec![]);
    assert_eq!(o.actions.iter().filter(|a| a.starts_with("delete")).cloned().collect::<Vec<_>>(), vec!["delete Z", "delete Q"]);
    assert!(!o.actions.iter().any(|a| a.starts_with("fetch")));
    assert_eq!(o.completed, Some((2, 0, 3, 0, RunStatus::Completed)));
}

#[test]
fn audit_export_changes_nothing() {
    let o = drive(vec![entry("X")], vec!["Z"], AuditChoice::Export, false, vec![]);
    assert!(o.actions.contains(&"export 1 1".to_string()));
    assert!(!o.actions.iter().any(|a| a.starts_with("fetch") || a.starts_with("delete") || a.starts_with("store")));
}

#[test]
fn audit_in_sync_records_a_run_without_asking() {
    let o = drive(vec![entry("Y")], vec!["Y"], AuditChoice::SyncMissing, false, vec![]);
    assert_eq!(o.chosen, None);
    assert_eq!(o.actions, vec!["list", "local pocket", "start audit", "complete"]);
    assert_eq!(o.completed, Some((1, 0, 1, 0, RunStatus::Completed)));
}

#[test]
fn audit_dry_run_never_writes() {
    let o = drive(vec![entry("X")], vec!["Z"], AuditChoice::DeleteOrphans, true, vec![]);
    assert_eq!(o.actions, vec!["list", "local pocket"]);
    assert_eq!(o.report.missing_locally.len(), 1);
    assert_eq!(o.report.orphaned_locally, vec!["Z"]);
    assert!(o.completed.is_none());
}
