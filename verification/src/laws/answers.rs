//! Laws on answers at an instant, and on the claims that a new claim may conflict with.
use vstd::prelude::*;

use crate::domain::claim::lemma_over_window;
use crate::domain::records::Disposition;
use crate::engine::fold_laws::{
    lemma_filter_keeps_references_unique, lemma_selection_is_single, references_are_unique,
};
use crate::engine::history::{
    believed_unless, conflict_candidates, effective, effective_claims, effective_valid_time,
    narrowed_fold,
};
use crate::engine::truth_engine::{about, claims_of, selected, ClaimWithStatus, FoldModel};
use crate::engine::valid_time_helpers::{first_covering, trusted_succession};
use crate::laws::fold::{
    lemma_filter_alike, lemma_place, lemma_selected_contains_the_instant,
    lemma_spaced_is_succession, spaced,
};
use crate::laws::windows::{earlier_end, law_windows_are_half_open, lies_in};
use crate::score::Score;
use crate::time::Timestamp;

verus! {

/// Which entries count as once believed: those that were not quarantined, invalidated or rejected,
/// and that are live, or were ended by a bound that no denial gave.
pub open spec fn counted(denied: Set<u128>) -> spec_fn(ClaimWithStatus) -> bool {
    |cs: ClaimWithStatus|
        {
            &&& cs.last_disposition != Some(Disposition::Quarantined)
            &&& cs.last_disposition != Some(Disposition::Invalidated)
            &&& cs.last_disposition != Some(Disposition::Rejected)
            &&& cs.is_live || (cs.bound_at is Some && !denied.contains(cs.claim.claim_ref().0))
        }
}

/// Where a window ends, as a function of the entry.
pub open spec fn under_bounds() -> spec_fn(ClaimWithStatus) -> Option<Timestamp> {
    |cs: ClaimWithStatus| earlier_end(cs)
}

proof fn lemma_counted_windows(all: Seq<ClaimWithStatus>, denied: Set<u128>, threshold: Score)
    requires
        references_are_unique(claims_of(all)),
    ensures
        all.filter(believed_unless(denied)) == all.filter(counted(denied)),
        references_are_unique(claims_of(all.filter(counted(denied)))),
        ({
            let kept = all.filter(counted(denied));
            let windows = effective_claims(kept);
            &&& trusted_succession(windows, threshold) <==> spaced(
                all,
                counted(denied),
                under_bounds(),
                threshold,
            )
            &&& windows.len() == kept.len()
            &&& forall|p: int|
                0 <= p < windows.len() ==> {
                    &&& (#[trigger] windows[p]).claim_ref() == kept[p].claim.claim_ref()
                    &&& windows[p].valid_time().start == kept[p].claim.valid_time().start
                    &&& windows[p].valid_time().end == earlier_end(kept[p])
                }
        }),
{
    let kept = all.filter(counted(denied));
    let windows = effective_claims(kept);
    lemma_filter_alike(all, believed_unless(denied), counted(denied));
    lemma_filter_keeps_references_unique(all, counted(denied));
    assert forall|p: int| 0 <= p < windows.len() implies {
        &&& (#[trigger] windows[p]).claim_ref() == kept[p].claim.claim_ref()
        &&& windows[p].valid_time().start == kept[p].claim.valid_time().start
        &&& windows[p].valid_time().end == earlier_end(kept[p])
        &&& windows[p].valid_time().valid_time_confidence
            == kept[p].claim.valid_time().valid_time_confidence
    } by {
        assert(windows[p] == effective(kept[p]));
        lemma_over_window(kept[p].claim, effective_valid_time(kept[p]));
    }
    lemma_spaced_is_succession(all, counted(denied), under_bounds(), windows, threshold);
}

/// Where the windows of what was once believed are trusted and do not meet, an entry answers at an
/// instant exactly where it was once believed and its window, up to its bound, contains the
/// instant: live or not, and whatever the fold kept. There is then one answer at most, and no
/// conflict.
pub proof fn law_spaced_windows_answer_by_instant(
    fold: FoldModel,
    instant: Timestamp,
    denied: Set<u128>,
    threshold: Score,
    i: int,
)
    requires
        references_are_unique(claims_of(fold.all)),
        0 <= i < fold.all.len(),
        spaced(fold.all, counted(denied), under_bounds(), threshold),
    ensures
        ({
            let answer = narrowed_fold(fold, instant, denied, threshold);
            let cs = fold.all[i];
            &&& answer.all == fold.all
            &&& answer.succession_selected
            &&& !answer.has_conflict
            &&& answer.live.len() <= 1
            &&& answer.live.contains(cs) <==> counted(denied)(cs) && lies_in(
                cs.claim.valid_time().start,
                earlier_end(cs),
                instant,
            )
        }),
{
    broadcast use vstd::seq_lib::group_filter_ensures;

    lemma_counted_windows(fold.all, denied, threshold);
    let kept = fold.all.filter(counted(denied));
    let windows = effective_claims(kept);
    let answer = narrowed_fold(fold, instant, denied, threshold);
    assert(answer.live == selected(kept, windows, instant));
    lemma_selection_is_single(kept, windows, instant);
    let cs = fold.all[i];
    if counted(denied)(cs) {
        let p = lemma_place(fold.all, counted(denied), i);
        lemma_selected_contains_the_instant(kept, windows, threshold, instant, cs, p);
        law_windows_are_half_open(*windows[p].valid_time(), instant);
    }
    if answer.live.contains(cs) {
        let claim = first_covering(windows, instant)->0;
        kept.lemma_filter_contains_rev(about(*claim.claim_ref()), cs);
        let m = choose|m: int| 0 <= m < kept.len() && kept[m] == cs;
        assert(counted(denied)(kept[m]));
    }
}

/// Where the windows of what was once believed meet, or one of them has no trusted start, the
/// answer at every instant is the fold as it was handed in: however many claims are live in it, and
/// whether or not one of them is bounded.
pub proof fn law_unspaced_windows_leave_the_fold_alone(
    fold: FoldModel,
    instant: Timestamp,
    denied: Set<u128>,
    threshold: Score,
)
    requires
        references_are_unique(claims_of(fold.all)),
        !spaced(fold.all, counted(denied), under_bounds(), threshold),
    ensures
        narrowed_fold(fold, instant, denied, threshold) == fold,
{
    lemma_counted_windows(fold.all, denied, threshold);
}

/// A single claim that is live and says nothing of when it holds is the answer at every instant.
pub proof fn law_undated_claim_answers_always(
    fold: FoldModel,
    instant: Timestamp,
    denied: Set<u128>,
    threshold: Score,
)
    requires
        fold.all.len() == 1,
        fold.all[0].is_live,
        fold.live == fold.all,
        fold.all[0].last_disposition != Some(Disposition::Quarantined),
        fold.all[0].last_disposition != Some(Disposition::Invalidated),
        fold.all[0].last_disposition != Some(Disposition::Rejected),
        fold.all[0].claim.valid_time().start is None,
    ensures
        narrowed_fold(fold, instant, denied, threshold).live.contains(fold.all[0]),
        narrowed_fold(fold, instant, denied, threshold) == fold,
{
    assert(counted(denied)(fold.all[0]));
    law_unspaced_windows_leave_the_fold_alone(fold, instant, denied, threshold);
    assert(fold.live[0] == fold.all[0]);
}

/// Every claim that was once believed is a candidate for a conflict, and nothing else is: a live
/// one as it is, another with its window up to its bound.
pub proof fn law_once_believed_claims_are_candidates(
    all: Seq<ClaimWithStatus>,
    denied: Set<u128>,
    i: int,
)
    requires
        references_are_unique(claims_of(all)),
        0 <= i < all.len(),
    ensures
        ({
            let candidates = conflict_candidates(all, denied);
            let cs = all[i];
            &&& counted(denied)(cs) <==> exists|k: int|
                0 <= k < candidates.len() && (#[trigger] candidates[k]).claim_ref()
                    == cs.claim.claim_ref()
            &&& forall|k: int|
                0 <= k < candidates.len() && (#[trigger] candidates[k]).claim_ref()
                    == cs.claim.claim_ref() ==> {
                    &&& cs.is_live ==> candidates[k] == cs.claim
                    &&& candidates[k].fact() == cs.claim.fact()
                    &&& candidates[k].valid_time().start == cs.claim.valid_time().start
                    &&& candidates[k].valid_time().valid_time_confidence
                        == cs.claim.valid_time().valid_time_confidence
                    &&& !cs.is_live ==> candidates[k].valid_time().end == earlier_end(cs)
                }
        }),
{
    broadcast use vstd::seq_lib::group_filter_ensures;

    let candidates = conflict_candidates(all, denied);
    let kept = all.filter(counted(denied));
    let cs = all[i];
    lemma_filter_alike(all, believed_unless(denied), counted(denied));
    assert forall|k: int| 0 <= k < candidates.len() implies (#[trigger] candidates[k]).claim_ref()
        == kept[k].claim.claim_ref() && candidates[k] == (if kept[k].is_live {
        kept[k].claim
    } else {
        effective(kept[k])
    }) by {
        lemma_over_window(kept[k].claim, effective_valid_time(kept[k]));
    }
    if counted(denied)(cs) {
        let p = lemma_place(all, counted(denied), i);
        assert(candidates[p].claim_ref() == cs.claim.claim_ref());
    }
    assert forall|k: int|
        0 <= k < candidates.len() && (#[trigger] candidates[k]).claim_ref()
            == cs.claim.claim_ref() implies kept[k] == cs && counted(denied)(cs) by {
        assert(kept.contains(kept[k]));
        all.lemma_filter_contains_rev(counted(denied), kept[k]);
        let n = choose|n: int| 0 <= n < all.len() && all[n] == kept[k];
        assert(claims_of(all)[n].claim_ref() == claims_of(all)[i].claim_ref());
        assert(counted(denied)(kept[k]));
    }
    assert forall|k: int|
        0 <= k < candidates.len() && (#[trigger] candidates[k]).claim_ref()
            == cs.claim.claim_ref() implies {
        &&& cs.is_live ==> candidates[k] == cs.claim
        &&& candidates[k].fact() == cs.claim.fact()
        &&& candidates[k].valid_time().start == cs.claim.valid_time().start
        &&& candidates[k].valid_time().valid_time_confidence
            == cs.claim.valid_time().valid_time_confidence
        &&& !cs.is_live ==> candidates[k].valid_time().end == earlier_end(cs)
    } by {
        lemma_over_window(cs.claim, effective_valid_time(cs));
        assert(kept[k] == cs);
    }
}

} // verus!
