//! The audit session: a full listing compared with every local id of the
//! source, and one disposition of what differs.
use vstd::prelude::*;
use crate::model::{AuditReport, RemoteTranscript, RunStatus, SyncMode, SyncOptions};

verus! {

/// The ids that a listing names.
pub open spec fn remote_ids(r: Seq<RemoteTranscript>) -> Set<Seq<char>> {
    Set::new(|id: Seq<char>| exists|i: int| 0 <= i < r.len() && #[trigger] r[i].id@ == id)
}

/// The ids that a list of local ids names.
pub open spec fn id_set(l: Seq<String>) -> Set<Seq<char>> {
    Set::new(|id: Seq<char>| exists|i: int| 0 <= i < l.len() && #[trigger] l[i]@ == id)
}

/// The first `n` entries of `r` whose id is not in `local`, in listing order.
pub open spec fn missing_upto(r: Seq<RemoteTranscript>, local: Set<Seq<char>>, n: nat) -> Seq<RemoteTranscript>
    decreases n,
{
    if n == 0 {
        Seq::empty()
    } else {
        let s = missing_upto(r, local, (n - 1) as nat);
        if local.contains(r[n - 1].id@) {
            s
        } else {
            s.push(r[n - 1])
        }
    }
}

/// The first `n` ids of `l` that are not in `remote`, in local order.
pub open spec fn orphans_upto(l: Seq<String>, remote: Set<Seq<char>>, n: nat) -> Seq<String>
    decreases n,
{
    if n == 0 {
        Seq::empty()
    } else {
        let s = orphans_upto(l, remote, (n - 1) as nat);
        if remote.contains(l[n - 1]@) {
            s
        } else {
            s.push(l[n - 1])
        }
    }
}

/// Remote entries that the store lacks.
pub open spec fn missing_of(r: Seq<RemoteTranscript>, l: Seq<String>) -> Seq<RemoteTranscript> {
    missing_upto(r, id_set(l), r.len())
}

/// Local ids that the remote no longer lists.
pub open spec fn orphans_of(l: Seq<String>, r: Seq<RemoteTranscript>) -> Seq<String> {
    orphans_upto(l, remote_ids(r), l.len())
}

proof fn lemma_missing_members(r: Seq<RemoteTranscript>, local: Set<Seq<char>>, n: nat)
    requires
        n <= r.len(),
    ensures
        missing_upto(r, local, n).len() <= n,
        forall|id: Seq<char>| #[trigger] remote_ids(missing_upto(r, local, n)).contains(id) <==> (
            !local.contains(id) && exists|i: int| 0 <= i < n && #[trigger] r[i].id@ == id),
    decreases n,
{
    if n > 0 {
        lemma_missing_members(r, local, (n - 1) as nat);
        let s = missing_upto(r, local, (n - 1) as nat);
        assert forall|id: Seq<char>| remote_ids(missing_upto(r, local, n)).contains(id) <==> (
            !local.contains(id) && exists|i: int| 0 <= i < n && #[trigger] r[i].id@ == id) by {
            if remote_ids(missing_upto(r, local, n)).contains(id) {
                let m = missing_upto(r, local, n);
                let k = choose|k: int| 0 <= k < m.len() && #[trigger] m[k].id@ == id;
                if k < s.len() {
                    assert(remote_ids(s).contains(id));
                }
            }
            if !local.contains(id) && exists|i: int| 0 <= i < n && #[trigger] r[i].id@ == id {
                let i = choose|i: int| 0 <= i < n && #[trigger] r[i].id@ == id;
                if i < n - 1 {
                    assert(remote_ids(s).contains(id));
                    let k = choose|k: int| 0 <= k < s.len() && #[trigger] s[k].id@ == id;
                    assert(missing_upto(r, local, n)[k] == s[k]);
                } else {
                    let m = missing_upto(r, local, n);
                    assert(m[m.len() - 1].id@ == id);
                }
            }
        }
    }
}

proof fn lemma_orphan_members(l: Seq<String>, remote: Set<Seq<char>>, n: nat)
    requires
        n <= l.len(),
    ensures
        orphans_upto(l, remote, n).len() <= n,
        forall|id: Seq<char>| #[trigger] id_set(orphans_upto(l, remote, n)).contains(id) <==> (
            !remote.contains(id) && exists|i: int| 0 <= i < n && #[trigger] l[i]@ == id),
    decreases n,
{
    if n > 0 {
        lemma_orphan_members(l, remote, (n - 1) as nat);
        let s = orphans_upto(l, remote, (n - 1) as nat);
        assert forall|id: Seq<char>| id_set(orphans_upto(l, remote, n)).contains(id) <==> (
            !remote.contains(id) && exists|i: int| 0 <= i < n && #[trigger] l[i]@ == id) by {
            if id_set(orphans_upto(l, remote, n)).contains(id) {
                let m = orphans_upto(l, remote, n);
                let k = choose|k: int| 0 <= k < m.len() && #[trigger] m[k]@ == id;
                if k < s.len() {
                    assert(id_set(s).contains(id));
                }
            }
            if !remote.contains(id) && exists|i: int| 0 <= i < n && #[trigger] l[i]@ == id {
                let i = choose|i: int| 0 <= i < n && #[trigger] l[i]@ == id;
                if i < n - 1 {
                    assert(id_set(s).contains(id));
                    let k = choose|k: int| 0 <= k < s.len() && #[trigger] s[k]@ == id;
                    assert(orphans_upto(l, remote, n)[k] == s[k]);
                } else {
                    let m = orphans_upto(l, remote, n);
                    assert(m[m.len() - 1]@ == id);
                }
            }
        }
    }
}

/// The two discrepancy sets partition the ids: what is missing here together with
/// what both sides hold is every remote id; what is orphaned here together with
/// what both sides hold is every local id; and nothing is both missing and orphaned.
pub proof fn lemma_audit_partition(r: Seq<RemoteTranscript>, l: Seq<String>)
    ensures
        remote_ids(missing_of(r, l)) == remote_ids(r).difference(id_set(l)),
        id_set(orphans_of(l, r)) == id_set(l).difference(remote_ids(r)),
        remote_ids(missing_of(r, l)).union(remote_ids(r).intersect(id_set(l))) == remote_ids(r),
        id_set(orphans_of(l, r)).union(remote_ids(r).intersect(id_set(l))) == id_set(l),
        remote_ids(missing_of(r, l)).disjoint(id_set(orphans_of(l, r))),
{
    lemma_missing_members(r, id_set(l), r.len());
    lemma_orphan_members(l, remote_ids(r), l.len());
    assert forall|id: Seq<char>| remote_ids(missing_of(r, l)).contains(id) <==> remote_ids(r).difference(
        id_set(l),
    ).contains(id) by {
        let m = missing_of(r, l);
        if remote_ids(m).contains(id) {
            assert(!id_set(l).contains(id));
            let i = choose|i: int| 0 <= i < r.len() && #[trigger] r[i].id@ == id;
            assert(remote_ids(r).contains(id));
        }
        if remote_ids(r).contains(id) && !id_set(l).contains(id) {
            let i = choose|i: int| 0 <= i < r.len() && #[trigger] r[i].id@ == id;
            assert(r[i].id@ == id);
            assert(remote_ids(m).contains(id));
        }
    }
    assert forall|id: Seq<char>| id_set(orphans_of(l, r)).contains(id) <==> id_set(l).difference(
        remote_ids(r),
    ).contains(id) by {
        let o = orphans_of(l, r);
        if id_set(o).contains(id) {
            assert(!remote_ids(r).contains(id));
            let i = choose|i: int| 0 <= i < l.len() && #[trigger] l[i]@ == id;
            assert(id_set(l).contains(id));
        }
        if id_set(l).contains(id) && !remote_ids(r).contains(id) {
            let i = choose|i: int| 0 <= i < l.len() && #[trigger] l[i]@ == id;
            assert(l[i]@ == id);
            assert(id_set(o).contains(id));
        }
    }
    assert(remote_ids(missing_of(r, l)) =~= remote_ids(r).difference(id_set(l)));
    assert(id_set(orphans_of(l, r)) =~= id_set(l).difference(remote_ids(r)));
    assert(remote_ids(missing_of(r, l)).union(remote_ids(r).intersect(id_set(l))) =~= remote_ids(r));
    assert(id_set(orphans_of(l, r)).union(remote_ids(r).intersect(id_set(l))) =~= id_set(l));
}

/// Whether `id` occurs among the ids of `l`.
fn contains_id(l: &Vec<String>, id: &String) -> (r: bool)
    ensures
        r == id_set(l@).contains(id@),
{
    let mut i: usize = 0;
    while i < l.len()
        invariant
            i <= l.len(),
            forall|j: int| 0 <= j < i ==> l@[j]@ != id@,
        decreases l.len() - i,
    {
        if l[i] == *id {
            assert(l@[i as int]@ == id@);
            return true;
        }
        i = i + 1;
    }
    false
}

/// Whether `id` is the id of an entry of `r`.
fn lists_id(r: &Vec<RemoteTranscript>, id: &String) -> (b: bool)
    ensures
        b == remote_ids(r@).contains(id@),
{
    let mut i: usize = 0;
    while i < r.len()
        invariant
            i <= r.len(),
            forall|j: int| 0 <= j < i ==> r@[j].id@ != id@,
        decreases r.len() - i,
    {
        if r[i].id == *id {
            assert(r@[i as int].id@ == id@);
            return true;
        }
        i = i + 1;
    }
    false
}

/// The remote entries whose id is not among the local ids, in listing order.
pub fn missing_locally(remote: &Vec<RemoteTranscript>, local: &Vec<String>) -> (m: Vec<RemoteTranscript>)
    ensures
        m@ == missing_of(remote@, local@),
{
    let mut m: Vec<RemoteTranscript> = Vec::new();
    let mut i: usize = 0;
    while i < remote.len()
        invariant
            i <= remote.len(),
            m@ == missing_upto(remote@, id_set(local@), i as nat),
        decreases remote.len() - i,
    {
        if !contains_id(local, &remote[i].id) {
            m.push(remote[i].duplicate());
        }
        i = i + 1;
    }
    m
}

/// The local ids that no remote entry carries, in local order.
pub fn orphaned_locally(local: &Vec<String>, remote: &Vec<RemoteTranscript>) -> (o: Vec<String>)
    ensures
        o@ == orphans_of(local@, remote@),
{
    let mut o: Vec<String> = Vec::new();
    let mut i: usize = 0;
    while i < local.len()
        invariant
            i <= local.len(),
            o@ == orphans_upto(local@, remote_ids(remote@), i as nat),
        decreases local.len() - i,
    {
        if !lists_id(remote, &local[i]) {
            o.push(local[i].clone());
        }
        i = i + 1;
    }
    o
}

/// The one disposition an operator picks for an audit's findings.
#[derive(Debug, Clone, Copy, PartialEq, Eq, Structural)]
pub enum AuditChoice {
    SyncMissing,
    DeleteOrphans,
    Export,
    Nothing,
}

/// What the driver of an audit is asked to do next.
#[derive(Debug)]
pub enum AuditAction {
    /// List every remote transcript, with no cursor.
    ListAll,
    /// Report every local id of the source.
    ListLocal { source: String },
    /// Ask which disposition to take.
    Choose { missing: usize, orphaned: usize },
    StartRun { source: String, mode: SyncMode },
    FetchOne { id: String },
    Store { id: String },
    Delete { id: String },
    /// Write out both discrepancy sets; nothing is changed.
    Export { report: AuditReport },
    CompleteRun {
        run_id: i64,
        remote_total: usize,
        synced: usize,
        skipped: usize,
        errors: usize,
        status: RunStatus,
    },
    Finish { report: AuditReport },
    /// The event does not fit the session's phase; nothing changed.
    Unexpected,
}

impl AuditAction {
    /// Whether the action writes to the store or the run ledger.
    pub open spec fn mutates_store(&self) -> bool {
        ||| self is StartRun
        ||| self is Store
        ||| self is Delete
        ||| self is CompleteRun
    }
}

/// What the driver of an audit reports back.
#[derive(Debug)]
pub enum AuditEvent {
    Begin,
    Listing { entries: Vec<RemoteTranscript> },
    LocalIds { ids: Vec<String> },
    Disposition { choice: AuditChoice },
    RunStarted { run_id: i64 },
    Fetched { ok: bool },
    Stored { ok: bool },
    Deleted { ok: bool },
    Exported,
    RunCompleted,
}

#[derive(Debug, Clone, Copy, PartialEq, Eq, Structural)]
pub enum AuditPhase {
    Start,
    AwaitListing,
    AwaitLocal,
    AwaitChoice,
    AwaitRunStart,
    AwaitFetch { next: usize },
    AwaitStore { next: usize },
    AwaitDelete { next: usize },
    AwaitExport,
    AwaitRunEnd,
    Done,
}

/// One audit of one source.
pub struct AuditSession {
    pub source: String,
    pub opts: SyncOptions,
    pub remote: Vec<RemoteTranscript>,
    pub local: Vec<String>,
    pub missing: Vec<RemoteTranscript>,
    pub orphaned: Vec<String>,
    pub choice: AuditChoice,
    pub run_id: i64,
    pub synced: usize,
    pub errors: usize,
    pub deleted: usize,
    pub phase: AuditPhase,
}

impl AuditSession {
    /// Whether both listings are in.
    pub open spec fn listed(&self) -> bool {
        !(self.phase is Start || self.phase is AwaitListing || self.phase is AwaitLocal)
    }

    pub open spec fn wf(&self) -> bool {
        &&& (!self.listed() || self.phase is AwaitChoice || self.phase is AwaitRunStart) ==> self.synced
            == 0 && self.errors == 0 && self.deleted == 0
        &&& self.listed() ==> {
            &&& self.missing@ == missing_of(self.remote@, self.local@)
            &&& self.orphaned@ == orphans_of(self.local@, self.remote@)
        }
        &&& self.synced + self.errors <= self.missing.len()
        &&& self.deleted <= self.orphaned.len()
        &&& self.phase matches AuditPhase::AwaitFetch { next } ==> next < self.missing.len()
            && self.synced + self.errors == next && self.choice is SyncMissing
        &&& self.phase matches AuditPhase::AwaitStore { next } ==> next < self.missing.len()
            && self.synced + self.errors == next && self.choice is SyncMissing
        &&& self.phase matches AuditPhase::AwaitDelete { next } ==> next < self.orphaned.len()
            && self.choice is DeleteOrphans && self.deleted <= next
        &&& self.opts.dry_run ==> !(self.phase is AwaitChoice || self.phase is AwaitRunStart
            || self.phase is AwaitFetch || self.phase is AwaitStore || self.phase is AwaitDelete
            || self.phase is AwaitExport || self.phase is AwaitRunEnd)
    }

    /// The report matches the session's lists.
    pub open spec fn report_matches(&self, r: AuditReport) -> bool {
        &&& r.source@ == self.source@
        &&& r.remote_total == self.remote.len()
        &&& r.local_total == self.local.len()
        &&& r.missing_locally@ == self.missing@
        &&& r.orphaned_locally@ == self.orphaned@
    }

    pub open spec fn accepts(&self, e: AuditEvent) -> bool {
        match self.phase {
            AuditPhase::Start => e is Begin,
            AuditPhase::AwaitListing => e is Listing,
            AuditPhase::AwaitLocal => e is LocalIds,
            AuditPhase::AwaitChoice => e is Disposition,
            AuditPhase::AwaitRunStart => e is RunStarted,
            AuditPhase::AwaitFetch { .. } => e is Fetched,
            AuditPhase::AwaitStore { .. } => e is Stored,
            AuditPhase::AwaitDelete { .. } => e is Deleted,
            AuditPhase::AwaitExport => e is Exported,
            AuditPhase::AwaitRunEnd => e is RunCompleted,
            AuditPhase::Done => false,
        }
    }

    /// Whether `self` holds the same lists and options as `pre`.
    pub open spec fn keeps_lists(&self, pre: AuditSession) -> bool {
        &&& self.source == pre.source
        &&& self.opts == pre.opts
        &&& self.remote == pre.remote
        &&& self.local == pre.local
        &&& self.missing == pre.missing
        &&& self.orphaned == pre.orphaned
    }

    /// Whether `self` differs from `pre` at most in its phase.
    pub open spec fn keeps_all(&self, pre: AuditSession) -> bool {
        &&& self.keeps_lists(pre)
        &&& self.choice == pre.choice
        &&& self.run_id == pre.run_id
        &&& self.synced == pre.synced
        &&& self.errors == pre.errors
        &&& self.deleted == pre.deleted
    }

    /// The session waits for the run to close, with this record: only a sync of
    /// missing entries counts anything stored or failed.
    pub open spec fn closes_run(&self, a: AuditAction) -> bool {
        self.phase is AwaitRunEnd
            && (a matches AuditAction::CompleteRun { run_id, remote_total, synced, skipped, errors, status }
            && run_id == self.run_id && remote_total == self.remote.len() && synced == self.synced
            && skipped == self.local.len() && errors == self.errors
            && status == RunStatus::of_counts(self.synced as nat, self.errors as nat))
    }

    /// The phase and action after `done` missing entries were handled: the next
    /// fetch, or closing the run.
    pub open spec fn after_missing(&self, done: nat, a: AuditAction) -> bool {
        if done < self.missing.len() {
            self.phase == (AuditPhase::AwaitFetch { next: done as usize })
                && (a matches AuditAction::FetchOne { id } && id@ == self.missing@[done as int].id@)
        } else {
            self.closes_run(a)
        }
    }

    pub fn new(source: &str, opts: SyncOptions) -> (s: AuditSession)
        ensures
            s.wf(),
            s.phase is Start,
            s.source@ == source@,
            s.opts == opts,
    {
        AuditSession {
            source: String::from_str(source),
            opts,
            remote: Vec::new(),
            local: Vec::new(),
            missing: Vec::new(),
            orphaned: Vec::new(),
            choice: AuditChoice::Nothing,
            run_id: 0,
            synced: 0,
            errors: 0,
            deleted: 0,
            phase: AuditPhase::Start,
        }
    }

    /// The findings so far, copied out.
    pub fn report(&self) -> (r: AuditReport)
        ensures
            self.report_matches(r),
    {
        let mut missing: Vec<RemoteTranscript> = Vec::new();
        let mut i: usize = 0;
        while i < self.missing.len()
            invariant
                i <= self.missing.len(),
                missing@ == self.missing@.subrange(0, i as int),
            decreases self.missing.len() - i,
        {
            missing.push(self.missing[i].duplicate());
            i = i + 1;
        }
        let mut orphaned: Vec<String> = Vec::new();
        let mut j: usize = 0;
        while j < self.orphaned.len()
            invariant
                j <= self.orphaned.len(),
                orphaned@ == self.orphaned@.subrange(0, j as int),
            decreases self.orphaned.len() - j,
        {
            orphaned.push(self.orphaned[j].clone());
            j = j + 1;
        }
        assert(missing@ =~= self.missing@);
        assert(orphaned@ =~= self.orphaned@);
        AuditReport {
            source: self.source.clone(),
            remote_total: self.remote.len(),
            local_total: self.local.len(),
            missing_locally: missing,
            orphaned_locally: orphaned,
        }
    }

    fn close_run(&mut self) -> (a: AuditAction)
        requires
            old(self).wf(),
            old(self).listed(),
            !old(self).opts.dry_run,
        ensures
            final(self).wf(),
            final(self).keeps_all(*old(self)),
            final(self).closes_run(a),
    {
        self.phase = AuditPhase::AwaitRunEnd;
        AuditAction::CompleteRun {
            run_id: self.run_id,
            remote_total: self.remote.len(),
            synced: self.synced,
            skipped: self.local.len(),
            errors: self.errors,
            status: RunStatus::from_counts(self.synced, self.errors),
        }
    }

    /// After `done` missing entries were handled: fetch the next, or close the run.
    fn next_missing(&mut self, done: usize) -> (a: AuditAction)
        requires
            old(self).wf(),
            old(self).listed(),
            !old(self).opts.dry_run,
            !(old(self).phase is AwaitFetch || old(self).phase is AwaitStore || old(self).phase is AwaitDelete),
            old(self).choice is SyncMissing,
            done <= old(self).missing.len(),
            old(self).synced + old(self).errors == done,
        ensures
            final(self).wf(),
            final(self).keeps_all(*old(self)),
            final(self).after_missing(done as nat, a),
    {
        if done < self.missing.len() {
            self.phase = AuditPhase::AwaitFetch { next: done };
            AuditAction::FetchOne { id: self.missing[done].id.clone() }
        } else {
            self.close_run()
        }
    }

    /// After `done` orphans were handled: delete the next, or close the run.
    fn next_orphan(&mut self, done: usize) -> (a: AuditAction)
        requires
            old(self).wf(),
            old(self).listed(),
            !old(self).opts.dry_run,
            !(old(self).phase is AwaitFetch || old(self).phase is AwaitStore || old(self).phase is AwaitDelete),
            old(self).choice is DeleteOrphans,
            done <= old(self).orphaned.len(),
            old(self).deleted <= done,
        ensures
            final(self).wf(),
            final(self).keeps_all(*old(self)),
            done < old(self).orphaned.len() ==> final(self).phase == (AuditPhase::AwaitDelete { next: done })
                && (a matches AuditAction::Delete { id } && id@ == old(self).orphaned@[done as int]@),
            done == old(self).orphaned.len() ==> final(self).closes_run(a),
    {
        if done < self.orphaned.len() {
            self.phase = AuditPhase::AwaitDelete { next: done };
            AuditAction::Delete { id: self.orphaned[done].clone() }
        } else {
            self.close_run()
        }
    }

    /// Take the event that the last action produced; return the next action.
    #[verifier::rlimit(100)]
    pub fn step(&mut self, event: AuditEvent) -> (a: AuditAction)
        requires
            old(self).wf(),
        ensures
            final(self).wf(),
            final(self).source == old(self).source,
            final(self).opts == old(self).opts,
            // a dry run never writes
            old(self).opts.dry_run ==> !a.mutates_store(),
            (a is Unexpected) == !old(self).accepts(event),
            a is Unexpected ==> *final(self) == *old(self),
            a matches AuditAction::Finish { report } ==> final(self).report_matches(report)
                && final(self).phase is Done,
            // the listing is always unbounded
            old(self).phase is Start && event is Begin ==> final(self).keeps_all(*old(self))
                && final(self).phase is AwaitListing && a is ListAll,
            old(self).phase is AwaitListing ==> (event matches AuditEvent::Listing { entries } ==> {
                &&& final(self).remote == entries
                &&& final(self).local == old(self).local
                &&& final(self).missing == old(self).missing
                &&& final(self).orphaned == old(self).orphaned
                &&& final(self).choice == old(self).choice
                &&& final(self).run_id == old(self).run_id
                &&& final(self).synced == old(self).synced
                &&& final(self).errors == old(self).errors
                &&& final(self).deleted == old(self).deleted
                &&& final(self).phase is AwaitLocal
                &&& a matches AuditAction::ListLocal { source } && source@ == old(self).source@
            }),
            // the two discrepancy sets, and what follows them
            old(self).phase is AwaitLocal ==> (event matches AuditEvent::LocalIds { ids } ==> {
                &&& final(self).remote == old(self).remote
                &&& final(self).local == ids
                &&& final(self).missing@ == missing_of(old(self).remote@, ids@)
                &&& final(self).orphaned@ == orphans_of(ids@, old(self).remote@)
                &&& final(self).run_id == old(self).run_id
                &&& final(self).synced == old(self).synced
                &&& final(self).errors == old(self).errors
                &&& final(self).deleted == old(self).deleted
                &&& old(self).opts.dry_run ==> a is Finish
                &&& !old(self).opts.dry_run && final(self).missing.len() == 0
                    && final(self).orphaned.len() == 0 ==> {
                    &&& final(self).choice is Nothing
                    &&& final(self).phase is AwaitRunStart
                    &&& a matches AuditAction::StartRun { source, mode } && source@ == old(self).source@
                        && mode is Audit
                }
                &&& !old(self).opts.dry_run && (final(self).missing.len() > 0
                    || final(self).orphaned.len() > 0) ==> final(self).choice == old(self).choice
                    && final(self).phase is AwaitChoice && a == (AuditAction::Choose {
                    missing: final(self).missing.len(),
                    orphaned: final(self).orphaned.len(),
                })
            }),
            old(self).phase is AwaitChoice ==> (event matches AuditEvent::Disposition { choice } ==> {
                &&& final(self).keeps_lists(*old(self))
                &&& final(self).choice == choice
                &&& final(self).run_id == old(self).run_id
                &&& final(self).synced == old(self).synced
                &&& final(self).errors == old(self).errors
                &&& final(self).deleted == old(self).deleted
                &&& final(self).phase is AwaitRunStart
                &&& a matches AuditAction::StartRun { source, mode } && source@ == old(self).source@
                    && mode is Audit
            }),
            // the run is open: carry out the one disposition
            old(self).phase is AwaitRunStart ==> (event matches AuditEvent::RunStarted { run_id } ==> {
                let s = old(self);
                &&& final(self).keeps_lists(*s)
                &&& final(self).choice == s.choice
                &&& final(self).run_id == run_id
                &&& final(self).synced == s.synced
                &&& final(self).errors == s.errors
                &&& final(self).deleted == s.deleted
                &&& s.choice is SyncMissing ==> final(self).after_missing(0, a)
                &&& s.choice is DeleteOrphans && s.orphaned.len() > 0 ==> final(self).phase == (
                AuditPhase::AwaitDelete { next: 0 }) && (a matches AuditAction::Delete { id } && id@
                    == s.orphaned@[0]@)
                &&& s.choice is DeleteOrphans && s.orphaned.len() == 0 ==> final(self).closes_run(a)
                &&& s.choice is Export ==> final(self).phase is AwaitExport && (a matches AuditAction::Export {
                    report } && final(self).report_matches(report))
                &&& s.choice is Nothing ==> final(self).closes_run(a)
            }),
            old(self).phase matches AuditPhase::AwaitFetch { next } ==> (event matches AuditEvent::Fetched {
                ok } ==> {
                &&& final(self).keeps_lists(*old(self))
                &&& final(self).choice == old(self).choice
                &&& final(self).run_id == old(self).run_id
                &&& final(self).deleted == old(self).deleted
                &&& ok ==> final(self).synced == old(self).synced && final(self).errors == old(self).errors
                    && final(self).phase == (AuditPhase::AwaitStore { next })
                    && (a matches AuditAction::Store { id } && id@ == old(self).missing@[next as int].id@)
                &&& !ok ==> final(self).errors == old(self).errors + 1 && final(self).synced == old(self).synced
                &&& !ok ==> final(self).after_missing((next + 1) as nat, a)
            }),
            old(self).phase matches AuditPhase::AwaitStore { next } ==> (event matches AuditEvent::Stored { ok } ==> {
                &&& final(self).keeps_lists(*old(self))
                &&& final(self).choice == old(self).choice
                &&& final(self).run_id == old(self).run_id
                &&& final(self).deleted == old(self).deleted
                &&& ok ==> final(self).synced == old(self).synced + 1 && final(self).errors == old(self).errors
                &&& !ok ==> final(self).synced == old(self).synced && final(self).errors == old(self).errors + 1
                &&& final(self).after_missing((next + 1) as nat, a)
            }),
            old(self).phase matches AuditPhase::AwaitDelete { next } ==> (event matches AuditEvent::Deleted {
                ok } ==> {
                &&& final(self).keeps_lists(*old(self))
                &&& final(self).choice == old(self).choice
                &&& final(self).run_id == old(self).run_id
                &&& final(self).synced == old(self).synced
                &&& final(self).errors == old(self).errors
                &&& final(self).deleted == (if ok { old(self).deleted + 1 } else { old(self).deleted as int })
                &&& next + 1 < old(self).orphaned.len() ==> final(self).phase == (AuditPhase::AwaitDelete {
                    next: (next + 1) as usize }) && (a matches AuditAction::Delete { id } && id@
                    == old(self).orphaned@[next + 1]@)
                &&& next + 1 == old(self).orphaned.len() ==> final(self).closes_run(a)
            }),
            old(self).phase is AwaitExport && event is Exported ==> final(self).keeps_all(*old(self))
                && final(self).closes_run(a),
            old(self).phase is AwaitRunEnd && event is RunCompleted ==> final(self).keeps_all(*old(self))
                && a is Finish,
    {
        let ghost pre = *self;
        match (self.phase, event) {
            (AuditPhase::Start, AuditEvent::Begin) => {
                self.phase = AuditPhase::AwaitListing;
                AuditAction::ListAll
            },
            (AuditPhase::AwaitListing, AuditEvent::Listing { entries }) => {
                self.remote = entries;
                self.phase = AuditPhase::AwaitLocal;
                AuditAction::ListLocal { source: self.source.clone() }
            },
            (AuditPhase::AwaitLocal, AuditEvent::LocalIds { ids }) => {
                self.missing = missing_locally(&self.remote, &ids);
                self.orphaned = orphaned_locally(&ids, &self.remote);
                self.local = ids;
                if self.opts.dry_run {
                    self.phase = AuditPhase::Done;
                    AuditAction::Finish { report: self.report() }
                } else if self.missing.len() == 0 && self.orphaned.len() == 0 {
                    self.choice = AuditChoice::Nothing;
                    self.phase = AuditPhase::AwaitRunStart;
                    AuditAction::StartRun { source: self.source.clone(), mode: SyncMode::Audit }
                } else {
                    self.phase = AuditPhase::AwaitChoice;
                    AuditAction::Choose { missing: self.missing.len(), orphaned: self.orphaned.len() }
                }
            },
            (AuditPhase::AwaitChoice, AuditEvent::Disposition { choice }) => {
                self.choice = choice;
                self.phase = AuditPhase::AwaitRunStart;
                AuditAction::StartRun { source: self.source.clone(), mode: SyncMode::Audit }
            },
            (AuditPhase::AwaitRunStart, AuditEvent::RunStarted { run_id }) => {
                self.run_id = run_id;
                match self.choice {
                    AuditChoice::SyncMissing => self.next_missing(0),
                    AuditChoice::DeleteOrphans => self.next_orphan(0),
                    AuditChoice::Export => {
                        self.phase = AuditPhase::AwaitExport;
                        AuditAction::Export { report: self.report() }
                    },
                    AuditChoice::Nothing => self.close_run(),
                }
            },
            (AuditPhase::AwaitFetch { next }, AuditEvent::Fetched { ok }) => {
                if ok {
                    self.phase = AuditPhase::AwaitStore { next };
                    AuditAction::Store { id: self.missing[next].id.clone() }
                } else {
                    self.phase = AuditPhase::AwaitRunEnd;
                    self.errors = self.errors + 1;
                    self.next_missing(next + 1)
                }
            },
            (AuditPhase::AwaitStore { next }, AuditEvent::Stored { ok }) => {
                self.phase = AuditPhase::AwaitRunEnd;
                if ok {
                    self.synced = self.synced + 1;
                } else {
                    self.errors = self.errors + 1;
                }
                self.next_missing(next + 1)
            },
            (AuditPhase::AwaitDelete { next }, AuditEvent::Deleted { ok }) => {
                self.phase = AuditPhase::AwaitRunEnd;
                if ok {
                    self.deleted = self.deleted + 1;
                }
                self.next_orphan(next + 1)
            },
            (AuditPhase::AwaitExport, AuditEvent::Exported) => self.close_run(),
            (AuditPhase::AwaitRunEnd, AuditEvent::RunCompleted) => {
                self.phase = AuditPhase::Done;
                AuditAction::Finish { report: self.report() }
            },
            (_, ev) => {
                assert(!pre.accepts(ev));
                AuditAction::Unexpected
            },
        }
    }
}

} // verus!
