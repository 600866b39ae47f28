//! Laws on the sweep of the queue of pending adjudications.
use vstd::prelude::*;

use crate::coordination::{
    after, begun, has_incumbent, SweepAction, SweepEvent, SweepModel, SweepPhase,
};
use crate::ports::pending_adjudication::{OrphanedQueuedClaim, PendingAdjudicationRow};
use crate::sequences::{lemma_first_kept, lemma_none_kept};

verus! {

/// Without a queue a sweep is over at once, and has reverted nothing; with one it asks for the
/// expired rows first.
pub proof fn law_a_sweep_begins_with_the_expired_rows()
    ensures
        begun(false).1 == SweepAction::Finish(Ok(0)),
        begun(false).0.phase == SweepPhase::Finished,
        begun(true).1 == SweepAction::ListExpired,
        begun(true).0.phase == SweepPhase::ListingExpired,
        begun(true).0.swept == 0,
{
}

/// The expired rows are reverted one by one, in the order of the list and none left out, and then
/// the orphans are asked for.
pub proof fn law_expired_rows_are_reverted_in_turn(
    sweep: SweepModel,
    rows: Vec<PendingAdjudicationRow>,
    reverted: bool,
    k: int,
)
    requires
        0 <= k < rows@.len(),
    ensures
        ({
            let (next, action) = after(sweep, SweepEvent::ExpiredListed(Ok(rows)));
            let (later, last_action) = after(next, SweepEvent::Reverted(Ok(reverted)));
            &&& action == SweepAction::RevertExpired(rows@[0])
            &&& next.phase == SweepPhase::RevertingExpired
            &&& next.swept == sweep.swept
            &&& next.expired.len() == rows@.len() - 1
            &&& k > 0 ==> next.expired[k - 1] == rows@[k]
            &&& rows@.len() > 1 ==> last_action == SweepAction::RevertExpired(rows@[1])
                && later.expired.len() == rows@.len() - 2 && (k > 1 ==> later.expired[k - 2]
                == rows@[k])
            &&& rows@.len() == 1 ==> last_action == SweepAction::ListOrphans && later.phase
                == SweepPhase::ListingOrphans
            &&& sweep.swept < usize::MAX ==> later.swept == sweep.swept + if reverted {
                1int
            } else {
                0
            }
        }),
{
}

/// Where no row is expired, the orphans are asked for at once.
pub proof fn law_no_expired_rows(sweep: SweepModel, rows: Vec<PendingAdjudicationRow>)
    requires
        rows@.len() == 0,
    ensures
        after(sweep, SweepEvent::ExpiredListed(Ok(rows))).1 == SweepAction::ListOrphans,
        after(sweep, SweepEvent::ExpiredListed(Ok(rows))).0.phase == SweepPhase::ListingOrphans,
        after(sweep, SweepEvent::ExpiredListed(Ok(rows))).0.swept == sweep.swept,
{
}

/// The orphans of which the incumbent is known are reverted, the first of them first, and no
/// others; where there is none, the sweep is over, and gives what it had counted.
pub proof fn law_orphans_with_an_incumbent_are_reverted(
    sweep: SweepModel,
    orphans: Vec<OrphanedQueuedClaim>,
    i: int,
)
    requires
        0 <= i <= orphans@.len(),
        i < orphans@.len() ==> orphans@[i].incumbent_claim_ref is Some,
        forall|k: int| 0 <= k < i ==> (#[trigger] orphans@[k]).incumbent_claim_ref is None,
    ensures
        ({
            let (next, action) = after(sweep, SweepEvent::OrphansListed(Ok(orphans)));
            &&& i == orphans@.len() ==> action == SweepAction::Finish(Ok(sweep.swept))
                && next.phase == SweepPhase::Finished
            &&& i < orphans@.len() ==> {
                &&& action == SweepAction::RevertOrphan(orphans@[i])
                &&& next.phase == SweepPhase::RevertingOrphans
                &&& next.swept == sweep.swept
                &&& forall|k: int|
                    0 <= k < next.orphans.len() ==> {
                        &&& (#[trigger] next.orphans[k]).incumbent_claim_ref is Some
                        &&& orphans@.contains(next.orphans[k])
                    }
            }
        }),
{
    broadcast use vstd::seq_lib::group_filter_ensures;

    let kept = orphans@.filter(has_incumbent());
    if i < orphans@.len() {
        lemma_first_kept(orphans@, has_incumbent(), i);
        let next = after(sweep, SweepEvent::OrphansListed(Ok(orphans))).0;
        assert forall|k: int| 0 <= k < next.orphans.len() implies {
            &&& (#[trigger] next.orphans[k]).incumbent_claim_ref is Some
            &&& orphans@.contains(next.orphans[k])
        } by {
            assert(next.orphans[k] == kept[k + 1]);
            assert(kept.contains(kept[k + 1]));
            orphans@.lemma_filter_contains_rev(has_incumbent(), kept[k + 1]);
            assert(has_incumbent()(kept[k + 1]));
        }
    } else {
        lemma_none_kept(orphans@, has_incumbent());
    }
}

/// No orphan of which the incumbent is known is left out.
pub proof fn law_no_orphan_with_an_incumbent_is_left_out(
    sweep: SweepModel,
    orphans: Vec<OrphanedQueuedClaim>,
    k: int,
)
    requires
        0 <= k < orphans@.len(),
        orphans@[k].incumbent_claim_ref is Some,
    ensures
        ({
            let (next, action) = after(sweep, SweepEvent::OrphansListed(Ok(orphans)));
            action == SweepAction::RevertOrphan(orphans@[k]) || next.orphans.contains(orphans@[k])
        }),
{
    broadcast use vstd::seq_lib::group_filter_ensures;

    let kept = orphans@.filter(has_incumbent());
    assert(has_incumbent()(orphans@[k]));
    assert(kept.contains(orphans@[k]));
    let p = choose|p: int| 0 <= p < kept.len() && kept[p] == orphans@[k];
    let next = after(sweep, SweepEvent::OrphansListed(Ok(orphans))).0;
    if p > 0 {
        assert(next.orphans[p - 1] == kept[p]);
    }
}

} // verus!
