//! What the host-facing handle decides: which locks a write takes, what a lookup in the queue of
//! pending adjudications means, and how a sweep goes on.
//!
//! Waiting for locks, reading clocks and running blocking tasks is left to the host.
use vstd::prelude::*;

use crate::error::MemError;
use crate::ports::pending_adjudication::{OrphanedQueuedClaim, PendingAdjudicationRow};
use crate::sequences::{lemma_filter_next, lemma_filter_none};

verus! {

/// A lock that a write takes.
#[derive(Clone, Copy, Debug, PartialEq, Eq, Structural)]
pub enum WriteLock {
    /// The lock of the whole store.
    Store,
    /// The lock of the agent that is written for.
    Agent,
}

/// The locks of a write, the first to be taken first.
pub open spec fn lock_order(global: bool) -> Seq<WriteLock> {
    if global {
        seq![WriteLock::Store, WriteLock::Agent]
    } else {
        seq![WriteLock::Agent]
    }
}

/// The locks of a write, the first to be taken first. The lock of the store is taken where the
/// store asks for it, and before that of the agent, so that no two writes can wait for each other.
pub fn write_locks(requires_global_write_serialization: bool) -> (r: Vec<WriteLock>)
    ensures
        r@ == lock_order(requires_global_write_serialization),
{
    let mut locks: Vec<WriteLock> = Vec::new();
    if requires_global_write_serialization {
        locks.push(WriteLock::Store);
    }
    locks.push(WriteLock::Agent);
    assert(locks@ =~= lock_order(requires_global_write_serialization));
    locks
}

/// Every write takes the lock of its agent, and that of the store exactly where the store asks for
/// it; and all writes take their locks in one order, the store's before the agent's.
pub proof fn law_locks_are_taken_in_one_order(global: bool, i: int, j: int)
    ensures
        lock_order(global).contains(WriteLock::Agent),
        lock_order(global).contains(WriteLock::Store) <==> global,
        0 <= i < j < lock_order(global).len() ==> lock_order(global)[i] == WriteLock::Store
            && lock_order(global)[j] == WriteLock::Agent,
{
    let locks = lock_order(global);
    assert(locks[locks.len() - 1] == WriteLock::Agent);
    assert(global ==> locks[0] == WriteLock::Store);
}

/// What became of a blocking task, where `Err` holds why it could not be joined.
pub fn joined<T>(task: Result<Result<T, MemError>, String>) -> (r: Result<T, MemError>)
    ensures
        task matches Ok(outcome) ==> r == outcome,
        task matches Err(reason) ==> r == Err::<T, MemError>(MemError::SpawnBlocking { reason }),
{
    match task {
        Ok(outcome) => outcome,
        Err(reason) => Err(MemError::SpawnBlocking { reason }),
    }
}

/// What reading the queue of pending adjudications gave.
pub enum QueueRead<T> {
    /// There is no queue.
    NoQueue,
    /// The read failed with this message.
    Failed(String),
    /// What was read.
    Read(T),
}

/// The pending adjudication that a handle stands for.
pub fn resolve_handle(handle_id: u128, read: QueueRead<Option<PendingAdjudicationRow>>) -> (r:
    Result<PendingAdjudicationRow, MemError>)
    ensures
        r == match read {
            QueueRead::NoQueue => Err(MemError::AdjudicationHandleNotFound { handle_id }),
            QueueRead::Failed(source) => Err(MemError::PendingStore { source }),
            QueueRead::Read(None) => Err(MemError::AdjudicationHandleNotFound { handle_id }),
            QueueRead::Read(Some(row)) => Ok(row),
        },
{
    match read {
        QueueRead::NoQueue => Err(MemError::AdjudicationHandleNotFound { handle_id }),
        QueueRead::Failed(source) => Err(MemError::PendingStore { source }),
        QueueRead::Read(None) => Err(MemError::AdjudicationHandleNotFound { handle_id }),
        QueueRead::Read(Some(row)) => Ok(row),
    }
}

/// The rows that a read of the queue gave: none where there is no queue.
pub fn listed_rows<T>(read: QueueRead<Vec<T>>) -> (r: Result<Vec<T>, MemError>)
    ensures
        read is NoQueue ==> (r matches Ok(rows) && rows@.len() == 0),
        read matches QueueRead::Failed(source) ==> r == Err::<Vec<T>, MemError>(
            MemError::PendingStore { source },
        ),
        read matches QueueRead::Read(rows) ==> r == Ok::<Vec<T>, MemError>(rows),
{
    match read {
        QueueRead::NoQueue => Ok(Vec::new()),
        QueueRead::Failed(source) => Err(MemError::PendingStore { source }),
        QueueRead::Read(rows) => Ok(rows),
    }
}

/// Where a sweep stands.
#[derive(Clone, Copy, Debug, PartialEq, Eq, Structural)]
pub enum SweepPhase {
    ListingExpired,
    RevertingExpired,
    ListingOrphans,
    RevertingOrphans,
    Finished,
}

/// A sweep of the queue: every expired row is reverted, and then every claim that waits without a
/// row.
#[derive(Debug)]
pub struct Sweep {
    phase: SweepPhase,
    expired: Vec<PendingAdjudicationRow>,
    orphans: Vec<OrphanedQueuedClaim>,
    swept: usize,
}

/// What the sweep asks for next.
#[derive(Debug)]
pub enum SweepAction {
    /// List the expired rows.
    ListExpired,
    /// Revert the claim of the row, under the locks of a write.
    RevertExpired(PendingAdjudicationRow),
    /// List the claims that wait without a row.
    ListOrphans,
    /// Revert the claim, under the locks of a write.
    RevertOrphan(OrphanedQueuedClaim),
    /// The sweep is over: how many claims were reverted, or what went wrong.
    Finish(Result<usize, MemError>),
}

/// What came of what the sweep asked for.
#[derive(Debug)]
pub enum SweepEvent {
    ExpiredListed(Result<Vec<PendingAdjudicationRow>, MemError>),
    /// Whether the claim was reverted.
    Reverted(Result<bool, MemError>),
    OrphansListed(Result<Vec<OrphanedQueuedClaim>, MemError>),
}

/// What a [`Sweep`] stands for: the phase, what is still to be reverted, and how many claims were
/// reverted.
#[verifier::ext_equal]
pub struct SweepModel {
    pub phase: SweepPhase,
    pub expired: Seq<PendingAdjudicationRow>,
    pub orphans: Seq<OrphanedQueuedClaim>,
    pub swept: usize,
}

/// A sweep that is over.
pub open spec fn finished() -> SweepModel {
    SweepModel {
        phase: SweepPhase::Finished,
        expired: Seq::empty(),
        orphans: Seq::empty(),
        swept: 0,
    }
}

/// How a sweep begins: without a queue there is nothing to do.
pub open spec fn begun(has_queue: bool) -> (SweepModel, SweepAction) {
    if has_queue {
        (
            SweepModel { phase: SweepPhase::ListingExpired, ..finished() },
            SweepAction::ListExpired,
        )
    } else {
        (finished(), SweepAction::Finish(Ok(0)))
    }
}

/// How a sweep goes on with these expired rows.
pub open spec fn with_expired(expired: Seq<PendingAdjudicationRow>, swept: usize) -> (
    SweepModel,
    SweepAction,
) {
    if expired.len() > 0 {
        (
            SweepModel {
                phase: SweepPhase::RevertingExpired,
                expired: expired.drop_first(),
                swept,
                ..finished()
            },
            SweepAction::RevertExpired(expired[0]),
        )
    } else {
        (
            SweepModel { phase: SweepPhase::ListingOrphans, swept, ..finished() },
            SweepAction::ListOrphans,
        )
    }
}

/// How a sweep goes on with these orphans.
pub open spec fn with_orphans(orphans: Seq<OrphanedQueuedClaim>, swept: usize) -> (
    SweepModel,
    SweepAction,
) {
    if orphans.len() > 0 {
        (
            SweepModel {
                phase: SweepPhase::RevertingOrphans,
                orphans: orphans.drop_first(),
                swept,
                ..finished()
            },
            SweepAction::RevertOrphan(orphans[0]),
        )
    } else {
        (finished(), SweepAction::Finish(Ok(swept)))
    }
}

/// Whether an orphan can be reverted: an incumbent was found for it.
pub open spec fn has_incumbent() -> spec_fn(OrphanedQueuedClaim) -> bool {
    |orphan: OrphanedQueuedClaim| orphan.incumbent_claim_ref is Some
}

/// The count after one revert more. It stops at the largest count there is.
pub open spec fn counted(swept: usize, reverted: bool) -> usize {
    if reverted && swept < usize::MAX {
        (swept + 1) as usize
    } else {
        swept
    }
}

/// How a sweep goes on after an event. The first error ends it. Orphans without an incumbent are
/// skipped.
pub open spec fn after(sweep: SweepModel, event: SweepEvent) -> (SweepModel, SweepAction) {
    match event {
        SweepEvent::ExpiredListed(Ok(rows)) => with_expired(rows@, sweep.swept),
        SweepEvent::Reverted(Ok(reverted)) => if sweep.phase == SweepPhase::RevertingExpired {
            with_expired(sweep.expired, counted(sweep.swept, reverted))
        } else {
            with_orphans(sweep.orphans, counted(sweep.swept, reverted))
        },
        SweepEvent::OrphansListed(Ok(orphans)) => with_orphans(
            orphans@.filter(has_incumbent()),
            sweep.swept,
        ),
        SweepEvent::ExpiredListed(Err(e)) => (finished(), SweepAction::Finish(Err(e))),
        SweepEvent::Reverted(Err(e)) => (finished(), SweepAction::Finish(Err(e))),
        SweepEvent::OrphansListed(Err(e)) => (finished(), SweepAction::Finish(Err(e))),
    }
}

/// Whether an event is what a sweep in this phase waits for.
pub open spec fn awaits(phase: SweepPhase, event: SweepEvent) -> bool {
    match phase {
        SweepPhase::ListingExpired => event is ExpiredListed,
        SweepPhase::RevertingExpired => event is Reverted,
        SweepPhase::ListingOrphans => event is OrphansListed,
        SweepPhase::RevertingOrphans => event is Reverted,
        SweepPhase::Finished => false,
    }
}

fn revertible(orphans: Vec<OrphanedQueuedClaim>) -> (r: Vec<OrphanedQueuedClaim>)
    ensures
        r@ == orphans@.filter(has_incumbent()),
{
    let ghost all = orphans@;
    let ghost pred = has_incumbent();
    let mut rest = orphans;
    let mut out: Vec<OrphanedQueuedClaim> = Vec::new();
    proof {
        lemma_filter_none(all, pred);
    }
    let mut i: usize = 0;
    let total: usize = rest.len();
    while rest.len() > 0
        invariant
            pred == has_incumbent(),
            all.len() == total,
            i + rest@.len() == all.len(),
            rest@ == all.skip(i as int),
            out@ == all.take(i as int).filter(pred),
        decreases rest.len(),
    {
        proof {
            lemma_filter_next(all, i as int, pred);
            assert(rest@.drop_first() =~= all.skip(i + 1));
        }
        let orphan = rest.remove(0);
        assert(rest@ =~= all.skip(i + 1));
        if orphan.incumbent_claim_ref.is_some() {
            out.push(orphan);
        }
        i += 1;
    }
    proof {
        lemma_filter_none(all, pred);
        assert(all.take(i as int) =~= all);
    }
    out
}

fn resume_expired(expired: Vec<PendingAdjudicationRow>, swept: usize) -> (r: (Sweep, SweepAction))
    ensures
        (r.0@, r.1) == with_expired(expired@, swept),
{
    let mut expired = expired;
    if expired.len() > 0 {
        let ghost all = expired@;
        let row = expired.remove(0);
        assert(expired@ =~= all.drop_first());
        (
            Sweep { phase: SweepPhase::RevertingExpired, expired, orphans: Vec::new(), swept },
            SweepAction::RevertExpired(row),
        )
    } else {
        (
            Sweep { phase: SweepPhase::ListingOrphans, expired: Vec::new(), orphans: Vec::new(), swept },
            SweepAction::ListOrphans,
        )
    }
}

fn resume_orphans(orphans: Vec<OrphanedQueuedClaim>, swept: usize) -> (r: (Sweep, SweepAction))
    ensures
        (r.0@, r.1) == with_orphans(orphans@, swept),
{
    let mut orphans = orphans;
    if orphans.len() > 0 {
        let ghost all = orphans@;
        let orphan = orphans.remove(0);
        assert(orphans@ =~= all.drop_first());
        (
            Sweep { phase: SweepPhase::RevertingOrphans, expired: Vec::new(), orphans, swept },
            SweepAction::RevertOrphan(orphan),
        )
    } else {
        (Sweep::over(), SweepAction::Finish(Ok(swept)))
    }
}

impl View for Sweep {
    type V = SweepModel;

    closed spec fn view(&self) -> SweepModel {
        SweepModel {
            phase: self.phase,
            expired: self.expired@,
            orphans: self.orphans@,
            swept: self.swept,
        }
    }
}

impl Sweep {
    fn over() -> (r: Sweep)
        ensures
            r@ == finished(),
    {
        Sweep {
            phase: SweepPhase::Finished,
            expired: Vec::new(),
            orphans: Vec::new(),
            swept: 0,
        }
    }

    /// Begins a sweep. Without a queue it is over at once, and nothing was reverted.
    pub fn begin(has_queue: bool) -> (r: (Sweep, SweepAction))
        ensures
            (r.0@, r.1) == begun(has_queue),
    {
        if has_queue {
            (
                Sweep {
                    phase: SweepPhase::ListingExpired,
                    expired: Vec::new(),
                    orphans: Vec::new(),
                    swept: 0,
                },
                SweepAction::ListExpired,
            )
        } else {
            (Sweep::over(), SweepAction::Finish(Ok(0)))
        }
    }

    /// The phase of the sweep.
    pub fn phase(&self) -> (r: SweepPhase)
        ensures
            r == self@.phase,
    {
        self.phase
    }

    /// Goes on after an event.
    pub fn step(self, event: SweepEvent) -> (r: (Sweep, SweepAction))
        requires
            awaits(self@.phase, event),
        ensures
            (r.0@, r.1) == after(self@, event),
    {
        match event {
            SweepEvent::ExpiredListed(Ok(rows)) => resume_expired(rows, self.swept),
            SweepEvent::Reverted(Ok(reverted)) => {
                let swept: usize = if reverted && self.swept < usize::MAX {
                    self.swept + 1
                } else {
                    self.swept
                };
                if self.phase == SweepPhase::RevertingExpired {
                    resume_expired(self.expired, swept)
                } else {
                    resume_orphans(self.orphans, swept)
                }
            },
            SweepEvent::OrphansListed(Ok(orphans)) => resume_orphans(
                revertible(orphans),
                self.swept,
            ),
            SweepEvent::ExpiredListed(Err(e)) => (Sweep::over(), SweepAction::Finish(Err(e))),
            SweepEvent::Reverted(Err(e)) => (Sweep::over(), SweepAction::Finish(Err(e))),
            SweepEvent::OrphansListed(Err(e)) => (Sweep::over(), SweepAction::Finish(Err(e))),
        }
    }
}

/// How many claims were reverted.
pub open spec fn reverted_count(outcomes: Seq<bool>) -> int
    decreases outcomes.len(),
{
    if outcomes.len() == 0 {
        0
    } else {
        reverted_count(outcomes.drop_last()) + if outcomes.last() {
            1int
        } else {
            0
        }
    }
}

/// A sweep after these outcomes of reverts.
pub open spec fn after_reverts(sweep: (SweepModel, SweepAction), outcomes: Seq<bool>) -> (
    SweepModel,
    SweepAction,
)
    decreases outcomes.len(),
{
    if outcomes.len() == 0 {
        sweep
    } else {
        after(
            after_reverts(sweep, outcomes.drop_last()).0,
            SweepEvent::Reverted(Ok(outcomes.last())),
        )
    }
}

proof fn lemma_count_bounds(outcomes: Seq<bool>)
    ensures
        0 <= reverted_count(outcomes) <= outcomes.len(),
    decreases outcomes.len(),
{
    if outcomes.len() > 0 {
        lemma_count_bounds(outcomes.drop_last());
    }
}

proof fn lemma_expired_reverts(
    rows: Seq<PendingAdjudicationRow>,
    swept: usize,
    outcomes: Seq<bool>,
)
    requires
        outcomes.len() <= rows.len(),
        swept + outcomes.len() <= usize::MAX,
    ensures
        after_reverts(with_expired(rows, swept), outcomes) == with_expired(
            rows.skip(outcomes.len() as int),
            (swept + reverted_count(outcomes)) as usize,
        ),
    decreases outcomes.len(),
{
    lemma_count_bounds(outcomes);
    if outcomes.len() == 0 {
        assert(rows.skip(0) =~= rows);
    } else {
        let before = outcomes.drop_last();
        lemma_expired_reverts(rows, swept, before);
        lemma_count_bounds(before);
        assert(rows.skip(before.len() as int).drop_first() =~= rows.skip(outcomes.len() as int));
    }
}

proof fn lemma_orphan_reverts(
    orphans: Seq<OrphanedQueuedClaim>,
    swept: usize,
    outcomes: Seq<bool>,
)
    requires
        outcomes.len() <= orphans.len(),
        swept + outcomes.len() <= usize::MAX,
    ensures
        after_reverts(with_orphans(orphans, swept), outcomes) == with_orphans(
            orphans.skip(outcomes.len() as int),
            (swept + reverted_count(outcomes)) as usize,
        ),
    decreases outcomes.len(),
{
    lemma_count_bounds(outcomes);
    if outcomes.len() == 0 {
        assert(orphans.skip(0) =~= orphans);
    } else {
        let before = outcomes.drop_last();
        lemma_orphan_reverts(orphans, swept, before);
        lemma_count_bounds(before);
        assert(orphans.skip(before.len() as int).drop_first() =~= orphans.skip(
            outcomes.len() as int,
        ));
    }
}

/// A sweep without errors reverts every expired row and every orphan with an incumbent, one outcome
/// each, and returns how many of them were reverted.
pub proof fn law_sweep_counts_what_was_reverted(
    rows: Vec<PendingAdjudicationRow>,
    expired_outcomes: Seq<bool>,
    orphans: Vec<OrphanedQueuedClaim>,
    orphan_outcomes: Seq<bool>,
)
    requires
        expired_outcomes.len() == rows@.len(),
        orphan_outcomes.len() == orphans@.filter(has_incumbent()).len(),
        expired_outcomes.len() + orphan_outcomes.len() <= usize::MAX,
    ensures
        ({
            let listed = after(begun(true).0, SweepEvent::ExpiredListed(Ok(rows)));
            let reverted = after_reverts(listed, expired_outcomes);
            let with = after(reverted.0, SweepEvent::OrphansListed(Ok(orphans)));
            let last = after_reverts(with, orphan_outcomes);
            let total = reverted_count(expired_outcomes) + reverted_count(orphan_outcomes);
            &&& reverted.1 == SweepAction::ListOrphans
            &&& last.1 == SweepAction::Finish(Ok(total as usize))
            &&& 0 <= total <= usize::MAX
        }),
{
    lemma_count_bounds(expired_outcomes);
    lemma_count_bounds(orphan_outcomes);
    lemma_expired_reverts(rows@, 0, expired_outcomes);
    let swept = reverted_count(expired_outcomes) as usize;
    lemma_orphan_reverts(orphans@.filter(has_incumbent()), swept, orphan_outcomes);
}

/// The first error ends a sweep, and is what it returns.
pub proof fn law_first_error_ends_the_sweep(sweep: SweepModel, event: SweepEvent, e: MemError)
    requires
        event == SweepEvent::ExpiredListed(Err(e)) || event == SweepEvent::Reverted(Err(e)) || event
            == SweepEvent::OrphansListed(Err(e)),
    ensures
        after(sweep, event) == (finished(), SweepAction::Finish(Err(e))),
{
}

} // verus!
