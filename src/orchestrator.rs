//! The synchronization session: list, diff, confirm, fetch and store, then
//! close the run and advance the cursor.
//!
//! The session decides; its driver performs. Each call of `step` takes what the
//! last action produced and returns the next action, so the session never waits
//! on the network, the store or a terminal itself.
use vstd::prelude::*;
use crate::model::{cursor_key, cursor_key_of, RemoteTranscript, RunStatus, SyncMode, SyncOptions, SyncReport};
use crate::timestamp::{format_utc_secs, parse_rfc3339_millis, rfc3339_millis, utc_iso_of};

verus! {

/// What the driver is asked to do next.
#[derive(Debug)]
pub enum SyncAction {
    /// Read a state value (the cursor).
    ReadState { key: String },
    /// List the remote transcripts, only those newer than `since` where it is given.
    ListRemote { since: Option<String> },
    /// Report, for each id in order, whether the store already holds it.
    CheckLocal { ids: Vec<String> },
    /// Ask whether to download `count` transcripts.
    Confirm { count: usize },
    /// Open a run in the ledger.
    StartRun { source: String, mode: SyncMode },
    /// Fetch one full transcript.
    FetchOne { id: String },
    /// Store the transcript that the last fetch returned.
    Store { id: String },
    /// Close the run with its final counts.
    CompleteRun {
        run_id: i64,
        remote_total: usize,
        synced: usize,
        skipped: usize,
        errors: usize,
        status: RunStatus,
    },
    /// Report the current time.
    ReadClock,
    /// Write a state value (the cursor).
    WriteState { key: String, value: String },
    /// The session is over.
    Finish { report: SyncReport },
    /// The event does not fit the session's phase; nothing changed.
    Unexpected,
}

impl SyncAction {
    /// Whether the action writes to the store or the run ledger.
    pub open spec fn mutates_store(&self) -> bool {
        ||| self is StartRun
        ||| self is Store
        ||| self is CompleteRun
        ||| self is WriteState
    }
}

/// What the driver reports back after performing an action.
#[derive(Debug)]
pub enum SyncEvent {
    Begin,
    StateValue { value: Option<String> },
    Listing { entries: Vec<RemoteTranscript> },
    LocalPresence { present: Vec<bool> },
    Confirmation { proceed: bool },
    RunStarted { run_id: i64 },
    Fetched { ok: bool },
    Stored { ok: bool },
    RunCompleted,
    Clock { now_secs: i64 },
    StateWritten,
}

/// Where a session stands: which event it waits for.
#[derive(Debug, Clone, Copy, PartialEq, Eq, Structural)]
pub enum SyncPhase {
    Start,
    AwaitCursor,
    AwaitListing,
    AwaitPresence,
    AwaitConfirmation,
    AwaitRunStart,
    AwaitFetch { next: usize },
    AwaitStore { next: usize },
    AwaitRunEnd,
    AwaitClock,
    AwaitCursorWrite,
    Done,
}

/// The entries among the first `n` of `r` that `p` marks absent, in order.
pub open spec fn absent_upto(r: Seq<RemoteTranscript>, p: Seq<bool>, n: nat) -> Seq<RemoteTranscript>
    decreases n,
{
    if n == 0 {
        Seq::empty()
    } else {
        let s = absent_upto(r, p, (n - 1) as nat);
        if p[n - 1] {
            s
        } else {
            s.push(r[n - 1])
        }
    }
}

/// How many of the first `n` marks of `p` say present.
pub open spec fn present_upto(p: Seq<bool>, n: nat) -> nat
    decreases n,
{
    if n == 0 {
        0
    } else if p[n - 1] {
        present_upto(p, (n - 1) as nat) + 1
    } else {
        present_upto(p, (n - 1) as nat)
    }
}

/// The listing entries that the store does not hold, in listing order.
pub open spec fn to_fetch_of(r: Seq<RemoteTranscript>, p: Seq<bool>) -> Seq<RemoteTranscript> {
    absent_upto(r, p, r.len())
}

proof fn lemma_partition_counts(r: Seq<RemoteTranscript>, p: Seq<bool>, n: nat)
    ensures
        absent_upto(r, p, n).len() + present_upto(p, n) == n,
    decreases n,
{
    if n > 0 {
        lemma_partition_counts(r, p, (n - 1) as nat);
    }
}

proof fn lemma_all_present(r: Seq<RemoteTranscript>, p: Seq<bool>, n: nat)
    requires
        n <= p.len(),
        forall|i: int| 0 <= i < p.len() ==> p[i],
    ensures
        absent_upto(r, p, n).len() == 0,
        present_upto(p, n) == n,
    decreases n,
{
    if n > 0 {
        lemma_all_present(r, p, (n - 1) as nat);
    }
}

/// When every listed id is already stored, a run has nothing to fetch: its
/// `to_fetch` is empty and every entry counts as already local. So a run after a
/// run, with no new remote data between them, stores nothing.
pub proof fn lemma_nothing_new_nothing_fetched(r: Seq<RemoteTranscript>, p: Seq<bool>)
    requires
        p.len() == r.len(),
        forall|i: int| 0 <= i < p.len() ==> p[i],
    ensures
        to_fetch_of(r, p).len() == 0,
        present_upto(p, r.len()) == r.len(),
{
    lemma_all_present(r, p, r.len());
}

/// One synchronization session for one source.
pub struct SyncSession {
    pub source: String,
    /// A full re-scan was asked for: the mode is initial whatever the cursor.
    pub full: bool,
    pub opts: SyncOptions,
    pub mode: SyncMode,
    /// The cursor as read at the start.
    pub cursor: Option<String>,
    pub remote: Vec<RemoteTranscript>,
    pub present: Vec<bool>,
    pub to_fetch: Vec<RemoteTranscript>,
    pub already_local: usize,
    pub run_id: i64,
    pub synced: usize,
    pub errors: usize,
    /// The confirmation gate was declined.
    pub declined: bool,
    pub phase: SyncPhase,
}

/// In every state of a run whose listing held only ids already stored, nothing
/// is queued for fetching and nothing has been synced; the report it finishes
/// with therefore says `synced == 0`. A second incremental run with no new
/// remote data between the runs is such a run.
pub proof fn lemma_rerun_syncs_nothing(s: SyncSession)
    requires
        s.wf(),
        !s.before_diff(),
        forall|i: int| 0 <= i < s.present@.len() ==> s.present@[i],
    ensures
        s.to_fetch.len() == 0,
        s.synced == 0,
        s.already_local == s.remote.len(),
        forall|r: SyncReport| s.report_matches(r) ==> r.synced == 0,
{
    lemma_nothing_new_nothing_fetched(s.remote@, s.present@);
}

impl SyncSession {
    /// The phases before the diff is known.
    pub open spec fn before_diff(&self) -> bool {
        ||| self.phase is Start
        ||| self.phase is AwaitCursor
        ||| self.phase is AwaitListing
        ||| self.phase is AwaitPresence
    }

    /// The phases that only a run that writes can reach.
    pub open spec fn writing(&self) -> bool {
        ||| self.phase is AwaitRunStart
        ||| self.phase is AwaitFetch
        ||| self.phase is AwaitStore
        ||| self.phase is AwaitRunEnd
        ||| self.phase is AwaitClock
        ||| self.phase is AwaitCursorWrite
    }

    pub open spec fn wf(&self) -> bool {
        &&& self.mode !is Audit
        &&& self.before_diff() ==> self.to_fetch.len() == 0 && self.already_local == 0
            && self.synced == 0 && self.errors == 0 && !self.declined
        &&& !self.before_diff() ==> {
            &&& self.present.len() == self.remote.len()
            &&& self.to_fetch@ == to_fetch_of(self.remote@, self.present@)
            &&& self.already_local == present_upto(self.present@, self.remote@.len())
        }
        &&& self.synced + self.errors <= self.to_fetch.len()
        &&& self.declined ==> self.synced == 0 && self.errors == 0
        &&& (self.phase is AwaitConfirmation || self.phase is AwaitRunStart) ==> self.synced == 0
            && self.errors == 0
        &&& self.phase is AwaitConfirmation ==> !self.declined
        &&& self.phase matches SyncPhase::AwaitFetch { next } ==> next < self.to_fetch.len()
            && self.synced + self.errors == next && !self.declined
        &&& self.phase matches SyncPhase::AwaitStore { next } ==> next < self.to_fetch.len()
            && self.synced + self.errors == next && !self.declined
        &&& (self.phase is AwaitClock || self.phase is AwaitCursorWrite) ==> !self.declined
        &&& self.opts.dry_run ==> !self.writing() && !(self.phase is AwaitConfirmation)
    }

    /// The report that a session finishing now returns.
    pub open spec fn report_matches(&self, r: SyncReport) -> bool {
        &&& r.source@ == self.source@
        &&& r.mode == self.mode
        &&& r.remote_total == self.remote.len()
        &&& r.already_local == self.already_local
        &&& r.synced == self.synced
        &&& r.failed == self.errors
        &&& r.skipped == (if self.declined || self.opts.dry_run { self.to_fetch.len() } else { 0 })
    }

    /// Whether `e` is the event that the session waits for.
    pub open spec fn accepts(&self, e: SyncEvent) -> bool {
        match self.phase {
            SyncPhase::Start => e is Begin,
            SyncPhase::AwaitCursor => e is StateValue,
            SyncPhase::AwaitListing => e is Listing,
            SyncPhase::AwaitPresence => e matches SyncEvent::LocalPresence { present }
                && present.len() == self.remote.len(),
            SyncPhase::AwaitConfirmation => e is Confirmation,
            SyncPhase::AwaitRunStart => e is RunStarted,
            SyncPhase::AwaitFetch { .. } => e is Fetched,
            SyncPhase::AwaitStore { .. } => e is Stored,
            SyncPhase::AwaitRunEnd => e is RunCompleted,
            SyncPhase::AwaitClock => e is Clock,
            SyncPhase::AwaitCursorWrite => e is StateWritten,
            SyncPhase::Done => false,
        }
    }

    /// Whether `self` holds the same listing, diff, mode, cursor and run as `pre`.
    pub open spec fn keeps_plan(&self, pre: SyncSession) -> bool {
        &&& self.source == pre.source
        &&& self.full == pre.full
        &&& self.opts == pre.opts
        &&& self.mode == pre.mode
        &&& self.cursor == pre.cursor
        &&& self.remote == pre.remote
        &&& self.present == pre.present
        &&& self.to_fetch == pre.to_fetch
        &&& self.already_local == pre.already_local
        &&& self.run_id == pre.run_id
        &&& self.declined == pre.declined
    }

    /// Whether `self` differs from `pre` at most in its phase.
    pub open spec fn keeps_all(&self, pre: SyncSession) -> bool {
        &&& self.keeps_plan(pre)
        &&& self.synced == pre.synced
        &&& self.errors == pre.errors
    }

    /// The phase and action after the counters moved past item `done - 1`: the
    /// next fetch, or closing the run with the final counts.
    pub open spec fn after_item(&self, done: nat, a: SyncAction) -> bool {
        if done < self.to_fetch.len() {
            self.phase == (SyncPhase::AwaitFetch { next: done as usize })
            && (a matches SyncAction::FetchOne { id } && id@ == self.to_fetch@[done as int].id@)
        } else {
            self.phase is AwaitRunEnd &&
            (a matches SyncAction::CompleteRun { run_id, remote_total, synced, skipped, errors, status }
                && run_id == self.run_id && remote_total == self.remote.len()
                && synced == self.synced && skipped == self.already_local
                && errors == self.errors
                && status == RunStatus::of_counts(self.synced as nat, self.errors as nat))
        }
    }

    /// A new session; `full` asks for an initial run whatever the cursor says.
    pub fn new(source: &str, full: bool, opts: SyncOptions) -> (s: SyncSession)
        ensures
            s.wf(),
            s.phase is Start,
            s.source@ == source@,
            s.full == full,
            s.opts == opts,
    {
        SyncSession {
            source: String::from_str(source),
            full,
            opts,
            mode: SyncMode::Initial,
            cursor: None,
            remote: Vec::new(),
            present: Vec::new(),
            to_fetch: Vec::new(),
            already_local: 0,
            run_id: 0,
            synced: 0,
            errors: 0,
            declined: false,
            phase: SyncPhase::Start,
        }
    }

    fn report(&self) -> (r: SyncReport)
        requires
            self.wf(),
        ensures
            self.report_matches(r),
    {
        let skipped = if self.declined || self.opts.dry_run { self.to_fetch.len() } else { 0 };
        SyncReport {
            source: self.source.clone(),
            mode: self.mode,
            remote_total: self.remote.len(),
            already_local: self.already_local,
            synced: self.synced,
            skipped,
            failed: self.errors,
        }
    }

    /// Move on after item `done - 1` was counted.
    fn next_item(&mut self, done: usize) -> (a: SyncAction)
        requires
            old(self).wf(),
            !old(self).before_diff(),
            !old(self).declined,
            !old(self).opts.dry_run,
            done <= old(self).to_fetch.len(),
            old(self).synced + old(self).errors == done,
        ensures
            final(self).wf(),
            final(self).source == old(self).source,
            final(self).opts == old(self).opts,
            final(self).full == old(self).full,
            final(self).keeps_all(*old(self)),
            final(self).after_item(done as nat, a),
    {
        if done < self.to_fetch.len() {
            self.phase = SyncPhase::AwaitFetch { next: done };
            SyncAction::FetchOne { id: self.to_fetch[done].id.clone() }
        } else {
            self.phase = SyncPhase::AwaitRunEnd;
            SyncAction::CompleteRun {
                run_id: self.run_id,
                remote_total: self.remote.len(),
                synced: self.synced,
                skipped: self.already_local,
                errors: self.errors,
                status: RunStatus::from_counts(self.synced, self.errors),
            }
        }
    }

    /// Take the event that the last action produced; return the next action.
    #[verifier::rlimit(100)]
    pub fn step(&mut self, event: SyncEvent) -> (a: SyncAction)
        requires
            old(self).wf(),
        ensures
            final(self).wf(),
            final(self).source == old(self).source,
            final(self).opts == old(self).opts,
            final(self).full == old(self).full,
            // a dry run never writes
            old(self).opts.dry_run ==> !a.mutates_store(),
            (a is Unexpected) == !old(self).accepts(event),
            a is Unexpected ==> *final(self) == *old(self),
            a is Finish ==> final(self).phase is Done,
            a matches SyncAction::Finish { report } ==> final(self).report_matches(report),
            // start: read the cursor
            old(self).phase is Start && event is Begin ==> {
                &&& final(self).keeps_all(*old(self))
                &&& final(self).phase is AwaitCursor
                &&& a matches SyncAction::ReadState { key } && key@ == cursor_key_of(old(self).source@)
            },
            // the mode, and what is listed
            old(self).phase is AwaitCursor ==> (event matches SyncEvent::StateValue { value } ==> {
                &&& final(self).mode == (if old(self).full || value is None {
                    SyncMode::Initial
                } else {
                    SyncMode::Incremental
                })
                &&& final(self).cursor == value
                &&& final(self).remote == old(self).remote
                &&& final(self).present == old(self).present
                &&& final(self).to_fetch == old(self).to_fetch
                &&& final(self).already_local == old(self).already_local
                &&& final(self).run_id == old(self).run_id
                &&& final(self).declined == old(self).declined
                &&& final(self).synced == old(self).synced
                &&& final(self).errors == old(self).errors
                &&& final(self).phase is AwaitListing
                &&& a matches SyncAction::ListRemote { since }
                    && since == (if final(self).mode is Incremental { value } else { None })
            }),
            // the existence check of every listed id, in order
            old(self).phase is AwaitListing ==> (event matches SyncEvent::Listing { entries } ==> {
                &&& final(self).remote == entries
                &&& final(self).mode == old(self).mode
                &&& final(self).cursor == old(self).cursor
                &&& final(self).present == old(self).present
                &&& final(self).to_fetch == old(self).to_fetch
                &&& final(self).already_local == old(self).already_local
                &&& final(self).run_id == old(self).run_id
                &&& final(self).declined == old(self).declined
                &&& final(self).synced == old(self).synced
                &&& final(self).errors == old(self).errors
                &&& final(self).phase is AwaitPresence
                &&& a matches SyncAction::CheckLocal { ids } && ids@.len() == entries@.len()
                    && forall|i: int| 0 <= i < ids@.len() ==> #[trigger] ids@[i]@ == entries@[i].id@
            }),
            // the diff, and what follows it
            old(self).phase is AwaitPresence && old(self).accepts(event) ==> {
                &&& event matches SyncEvent::LocalPresence { present } && final(self).present == present
                    && final(self).to_fetch@ == to_fetch_of(old(self).remote@, present@)
                    && final(self).already_local == present_upto(present@, old(self).remote@.len())
                &&& final(self).mode == old(self).mode
                &&& final(self).cursor == old(self).cursor
                &&& final(self).remote == old(self).remote
                &&& final(self).run_id == old(self).run_id
                &&& final(self).declined == old(self).declined
                &&& final(self).synced == old(self).synced
                &&& final(self).errors == old(self).errors
                &&& final(self).to_fetch.len() == 0 && final(self).opts.dry_run ==> a is Finish
                &&& final(self).to_fetch.len() == 0 && !final(self).opts.dry_run
                    ==> (final(self).phase is AwaitRunStart && (a matches SyncAction::StartRun { source, mode }
                    && source@ == old(self).source@ && mode == old(self).mode))
                &&& final(self).to_fetch.len() > 0 && final(self).opts.dry_run ==> a is Finish
                &&& final(self).to_fetch.len() > 0 && !final(self).opts.dry_run
                    && old(self).mode is Initial && !old(self).opts.yes
                    ==> final(self).phase is AwaitConfirmation
                    && a == (SyncAction::Confirm { count: final(self).to_fetch.len() })
                &&& final(self).to_fetch.len() > 0 && !final(self).opts.dry_run
                    && !(old(self).mode is Initial && !old(self).opts.yes)
                    ==> (final(self).phase is AwaitRunStart && (a matches SyncAction::StartRun { source, mode }
                    && source@ == old(self).source@ && mode == old(self).mode))
            },
            // the confirmation gate: a run is recorded either way
            old(self).phase is AwaitConfirmation ==> (event matches SyncEvent::Confirmation { proceed } ==> {
                &&& final(self).declined == !proceed
                &&& final(self).mode == old(self).mode
                &&& final(self).cursor == old(self).cursor
                &&& final(self).remote == old(self).remote
                &&& final(self).present == old(self).present
                &&& final(self).to_fetch == old(self).to_fetch
                &&& final(self).already_local == old(self).already_local
                &&& final(self).run_id == old(self).run_id
                &&& final(self).synced == old(self).synced
                &&& final(self).errors == old(self).errors
                &&& final(self).phase is AwaitRunStart
                &&& a matches SyncAction::StartRun { source, mode } && source@ == old(self).source@
                    && mode == old(self).mode
            }),
            // the run is open: fetch the first item, or close the run at once
            old(self).phase is AwaitRunStart ==> (event matches SyncEvent::RunStarted { run_id } ==> {
                &&& final(self).run_id == run_id
                &&& final(self).mode == old(self).mode
                &&& final(self).cursor == old(self).cursor
                &&& final(self).remote == old(self).remote
                &&& final(self).present == old(self).present
                &&& final(self).to_fetch == old(self).to_fetch
                &&& final(self).already_local == old(self).already_local
                &&& final(self).declined == old(self).declined
                &&& final(self).synced == old(self).synced
                &&& final(self).errors == old(self).errors
                &&& !old(self).declined ==> final(self).after_item(0, a)
                &&& old(self).declined ==> final(self).phase is AwaitRunEnd && (a matches SyncAction::CompleteRun {
                    run_id: r, remote_total, synced, skipped, errors, status }
                    && r == run_id && remote_total == old(self).remote.len() && synced == 0
                    && skipped == old(self).to_fetch.len() && errors == 0
                    && status is Completed)
            }),
            // a fetch: store it, or count the error and go on
            old(self).phase matches SyncPhase::AwaitFetch { next } ==> (event matches SyncEvent::Fetched {
                ok } ==> {
                &&& final(self).keeps_plan(*old(self))
                &&& ok ==> final(self).synced == old(self).synced && final(self).errors
                    == old(self).errors && final(self).phase == (SyncPhase::AwaitStore { next })
                    && (a matches SyncAction::Store { id } && id@ == old(self).to_fetch@[next as int].id@)
                &&& !ok ==> final(self).synced == old(self).synced && final(self).errors
                    == old(self).errors + 1 && final(self).after_item((next + 1) as nat, a)
            }),
            // a store: count it either way and go on
            old(self).phase matches SyncPhase::AwaitStore { next } ==> (event matches SyncEvent::Stored {
                ok } ==> {
                &&& final(self).keeps_plan(*old(self))
                &&& ok ==> final(self).synced == old(self).synced + 1 && final(self).errors
                    == old(self).errors
                &&& !ok ==> final(self).synced == old(self).synced && final(self).errors
                    == old(self).errors + 1
                &&& final(self).after_item((next + 1) as nat, a)
            }),
            // the run is closed: a declined run keeps the cursor
            old(self).phase is AwaitRunEnd && event is RunCompleted ==> {
                &&& final(self).keeps_all(*old(self))
                &&& if old(self).declined {
                    a is Finish
                } else {
                    final(self).phase is AwaitClock && a is ReadClock
                }
            },
            // the cursor moves to now, and never back
            old(self).phase is AwaitClock ==> (event matches SyncEvent::Clock { now_secs } ==> {
                let newer = old(self).cursor matches Some(c) && rfc3339_millis(c@) matches Some(
                    ms) && ms > now_secs * 1000;
                &&& final(self).keeps_all(*old(self))
                &&& if newer {
                    a is Finish
                } else {
                    match utc_iso_of(now_secs) {
                        Some(t) => final(self).phase is AwaitCursorWrite
                            && (a matches SyncAction::WriteState { key, value } && key@
                            == cursor_key_of(old(self).source@) && value@ == t),
                        None => a is Finish,
                    }
                }
            }),
            old(self).phase is AwaitCursorWrite && event is StateWritten ==> final(self).keeps_all(*old(self))
                && a is Finish,
    {
        let ghost pre = *self;
        match (self.phase, event) {
            (SyncPhase::Start, SyncEvent::Begin) => {
                self.phase = SyncPhase::AwaitCursor;
                SyncAction::ReadState { key: cursor_key(self.source.as_str()) }
            },
            (SyncPhase::AwaitCursor, SyncEvent::StateValue { value }) => {
                let incremental = !self.full && value.is_some();
                self.mode = if incremental { SyncMode::Incremental } else { SyncMode::Initial };
                let since = if incremental {
                    match &value {
                        Some(v) => Some(v.clone()),
                        None => None,
                    }
                } else {
                    None
                };
                self.cursor = value;
                self.phase = SyncPhase::AwaitListing;
                SyncAction::ListRemote { since }
            },
            (SyncPhase::AwaitListing, SyncEvent::Listing { entries }) => {
                let mut ids: Vec<String> = Vec::new();
                let mut i: usize = 0;
                while i < entries.len()
                    invariant
                        i <= entries.len(),
                        ids@.len() == i,
                        forall|j: int| 0 <= j < i ==> #[trigger] ids@[j]@ == entries@[j].id@,
                    decreases entries.len() - i,
                {
                    ids.push(entries[i].id.clone());
                    i = i + 1;
                }
                self.remote = entries;
                self.phase = SyncPhase::AwaitPresence;
                SyncAction::CheckLocal { ids }
            },
            (SyncPhase::AwaitPresence, SyncEvent::LocalPresence { present }) => {
                if present.len() != self.remote.len() {
                    let ev = SyncEvent::LocalPresence { present };
                    assert(!pre.accepts(ev));
                    return SyncAction::Unexpected;
                }
                let mut to_fetch: Vec<RemoteTranscript> = Vec::new();
                let mut already_local: usize = 0;
                let mut i: usize = 0;
                while i < present.len()
                    invariant
                        i <= present.len(),
                        present.len() == self.remote.len(),
                        to_fetch@ == absent_upto(self.remote@, present@, i as nat),
                        already_local == present_upto(present@, i as nat),
                    decreases present.len() - i,
                {
                    proof {
                        lemma_partition_counts(self.remote@, present@, i as nat);
                    }
                    if present[i] {
                        already_local = already_local + 1;
                    } else {
                        to_fetch.push(self.remote[i].duplicate());
                    }
                    i = i + 1;
                }
                proof {
                    lemma_partition_counts(self.remote@, present@, present.len() as nat);
                }
                self.present = present;
                self.to_fetch = to_fetch;
                self.already_local = already_local;
                if self.to_fetch.len() == 0 {
                    if self.opts.dry_run {
                        self.phase = SyncPhase::Done;
                        SyncAction::Finish { report: self.report() }
                    } else {
                        self.phase = SyncPhase::AwaitRunStart;
                        SyncAction::StartRun { source: self.source.clone(), mode: self.mode }
                    }
                } else if self.opts.dry_run {
                    self.phase = SyncPhase::Done;
                    SyncAction::Finish { report: self.report() }
                } else if self.mode == SyncMode::Initial && !self.opts.yes {
                    self.phase = SyncPhase::AwaitConfirmation;
                    SyncAction::Confirm { count: self.to_fetch.len() }
                } else {
                    self.phase = SyncPhase::AwaitRunStart;
                    SyncAction::StartRun { source: self.source.clone(), mode: self.mode }
                }
            },
            (SyncPhase::AwaitConfirmation, SyncEvent::Confirmation { proceed }) => {
                self.declined = !proceed;
                self.phase = SyncPhase::AwaitRunStart;
                SyncAction::StartRun { source: self.source.clone(), mode: self.mode }
            },
            (SyncPhase::AwaitRunStart, SyncEvent::RunStarted { run_id }) => {
                self.run_id = run_id;
                if self.declined {
                    self.phase = SyncPhase::AwaitRunEnd;
                    SyncAction::CompleteRun {
                        run_id,
                        remote_total: self.remote.len(),
                        synced: 0,
                        skipped: self.to_fetch.len(),
                        errors: 0,
                        status: RunStatus::Completed,
                    }
                } else {
                    self.next_item(0)
                }
            },
            (SyncPhase::AwaitFetch { next }, SyncEvent::Fetched { ok }) => {
                if ok {
                    self.phase = SyncPhase::AwaitStore { next };
                    SyncAction::Store { id: self.to_fetch[next].id.clone() }
                } else {
                    self.phase = SyncPhase::AwaitRunEnd;
                    self.errors = self.errors + 1;
                    self.next_item(next + 1)
                }
            },
            (SyncPhase::AwaitStore { next }, SyncEvent::Stored { ok }) => {
                self.phase = SyncPhase::AwaitRunEnd;
                if ok {
                    self.synced = self.synced + 1;
                } else {
                    self.errors = self.errors + 1;
                }
                self.next_item(next + 1)
            },
            (SyncPhase::AwaitRunEnd, SyncEvent::RunCompleted) => {
                if self.declined {
                    self.phase = SyncPhase::Done;
                    SyncAction::Finish { report: self.report() }
                } else {
                    self.phase = SyncPhase::AwaitClock;
                    SyncAction::ReadClock
                }
            },
            (SyncPhase::AwaitClock, SyncEvent::Clock { now_secs }) => {
                let newer = match &self.cursor {
                    Some(c) => match parse_rfc3339_millis(c.as_str()) {
                        Some(ms) => (ms as i128) > (now_secs as i128) * 1000,
                        None => false,
                    },
                    None => false,
                };
                if newer {
                    self.phase = SyncPhase::Done;
                    return SyncAction::Finish { report: self.report() };
                }
                match format_utc_secs(now_secs) {
                    Some(t) => {
                        self.phase = SyncPhase::AwaitCursorWrite;
                        SyncAction::WriteState { key: cursor_key(self.source.as_str()), value: t }
                    },
                    None => {
                        self.phase = SyncPhase::Done;
                        SyncAction::Finish { report: self.report() }
                    },
                }
            },
            (SyncPhase::AwaitCursorWrite, SyncEvent::StateWritten) => {
                self.phase = SyncPhase::Done;
                SyncAction::Finish { report: self.report() }
            },
            (_, ev) => {
                assert(!pre.accepts(ev));
                SyncAction::Unexpected
            },
        }
    }
}

} // verus!
