//! The values that the synchronization and audit sessions exchange.
use vstd::prelude::*;
use crate::text::joined;

verus! {

/// One entry of a remote listing: enough to diff, never stored on its own.
#[derive(Debug, Clone)]
pub struct RemoteTranscript {
    pub id: String,
    pub title: String,
    pub date: String,
}

impl RemoteTranscript {
    /// A field-for-field copy.
    pub fn duplicate(&self) -> (r: RemoteTranscript)
        ensures
            r == *self,
    {
        RemoteTranscript { id: self.id.clone(), title: self.title.clone(), date: self.date.clone() }
    }
}

/// How a synchronization run selects what to list.
#[derive(Debug, Clone, Copy, PartialEq, Eq, Structural)]
pub enum SyncMode {
    Initial,
    Incremental,
    Audit,
}

impl SyncMode {
    pub open spec fn label(self) -> Seq<char> {
        match self {
            SyncMode::Initial => "initial"@,
            SyncMode::Incremental => "incremental"@,
            SyncMode::Audit => "audit"@,
        }
    }

    /// The mode's name as the run ledger records it.
    pub fn as_str(&self) -> (r: &'static str)
        ensures
            r@ == self.label(),
    {
        match self {
            SyncMode::Initial => "initial",
            SyncMode::Incremental => "incremental",
            SyncMode::Audit => "audit",
        }
    }
}

/// The outcome recorded when a run is closed.
#[derive(Debug, Clone, Copy, PartialEq, Eq, Structural)]
pub enum RunStatus {
    Completed,
    Failed,
}

impl RunStatus {
    /// A run failed when it stored nothing and met at least one error.
    pub open spec fn of_counts(synced: nat, errors: nat) -> RunStatus {
        if synced == 0 && errors > 0 {
            RunStatus::Failed
        } else {
            RunStatus::Completed
        }
    }

    pub fn from_counts(synced: usize, errors: usize) -> (r: RunStatus)
        ensures
            r == RunStatus::of_counts(synced as nat, errors as nat),
    {
        if synced == 0 && errors > 0 {
            RunStatus::Failed
        } else {
            RunStatus::Completed
        }
    }

    pub open spec fn label(self) -> Seq<char> {
        match self {
            RunStatus::Completed => "completed"@,
            RunStatus::Failed => "failed"@,
        }
    }

    /// The status as the run ledger records it.
    pub fn as_str(&self) -> (r: &'static str)
        ensures
            r@ == self.label(),
    {
        match self {
            RunStatus::Completed => "completed",
            RunStatus::Failed => "failed",
        }
    }
}

/// Flags of one invocation: `yes` skips the confirmation gate, `dry_run`
/// reports what would happen and changes nothing.
#[derive(Debug, Clone, Copy, PartialEq, Eq, Structural)]
pub struct SyncOptions {
    pub yes: bool,
    pub dry_run: bool,
}

/// Counts of a finished initial or incremental run.
#[derive(Debug, Clone)]
pub struct SyncReport {
    pub source: String,
    pub mode: SyncMode,
    pub remote_total: usize,
    pub already_local: usize,
    pub synced: usize,
    pub skipped: usize,
    pub failed: usize,
}

/// What an audit found: remote entries missing here, and local ids the remote
/// no longer lists.
#[derive(Debug, Clone)]
pub struct AuditReport {
    pub source: String,
    pub remote_total: usize,
    pub local_total: usize,
    pub missing_locally: Vec<RemoteTranscript>,
    pub orphaned_locally: Vec<String>,
}

/// The providers this archive can synchronize with.
#[derive(Debug, Clone, Copy, PartialEq, Eq, Structural)]
pub enum SourceKind {
    Fireflies,
    Pocket,
}

impl SourceKind {
    pub open spec fn label(self) -> Seq<char> {
        match self {
            SourceKind::Fireflies => "fireflies"@,
            SourceKind::Pocket => "pocket"@,
        }
    }

    /// The provider's stable name: the source label and state-key namespace.
    pub fn name(&self) -> (r: &'static str)
        ensures
            r@ == self.label(),
    {
        match self {
            SourceKind::Fireflies => "fireflies",
            SourceKind::Pocket => "pocket",
        }
    }

    /// The provider a name denotes; none for an unsupported source.
    pub fn from_name(name: &str) -> (r: Option<SourceKind>)
        ensures
            name@ == "fireflies"@ ==> r == Some(SourceKind::Fireflies),
            name@ == "pocket"@ ==> r == Some(SourceKind::Pocket),
            r matches Some(k) ==> k.label() == name@,
            name@ != "fireflies"@ && name@ != "pocket"@ ==> r is None,
    {
        proof {
            reveal_strlit("fireflies");
            reveal_strlit("pocket");
            assert("fireflies"@[0] != "pocket"@[0]);
        }
        let s = String::from_str(name);
        if s == String::from_str("fireflies") {
            Some(SourceKind::Fireflies)
        } else if s == String::from_str("pocket") {
            Some(SourceKind::Pocket)
        } else {
            None
        }
    }
}

/// The state key under which a source's cursor is kept.
pub open spec fn cursor_key_of(source: Seq<char>) -> Seq<char> {
    source + ".last_sync_at"@
}

pub fn cursor_key(source: &str) -> (r: String)
    ensures
        r@ == cursor_key_of(source@),
{
    joined(source, ".last_sync_at")
}

} // verus!
