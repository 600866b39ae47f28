//! Laws on the canonical fold: the order of claims, which of them stay, and when they conflict.
use vstd::prelude::*;

use crate::domain::claim::{Cardinality, Claim};
use crate::domain::records::{Disposition, ValidityAssertion};
use crate::engine::fold_laws::{
    law_fold_keeps_every_claim, law_live_claims_are_live, lemma_filter_keeps_references_unique,
    lemma_selection_is_single, references_are_unique,
};
use crate::engine::history::law_references_of_a_permutation;
use crate::engine::ordering::{key_le, law_ordering_is_a_permutation, law_ordering_sorts};
use crate::engine::truth_engine::{
    about, by_claim_key, canonical, claims_of, fold_with, found_live, instant_asked, selected,
    status_of, ClaimWithStatus,
};
use crate::engine::valid_time_helpers::{
    covers, first_covering, law_selection_is_membership, lemma_first_covering, trusted_succession,
};
use crate::ident::ClaimRef;
use crate::laws::windows::{clear_of, law_a_succession_is_trusted_and_spaced, lies_in};
use crate::score::Score;
use crate::sequences::lemma_places_of;
use crate::time::Timestamp;

verus! {

/// Claims with a trusted start stand by their starts, and the others by the time at which they were
/// written; where these agree the one that was written first stands first, and where those agree
/// too, the one with the smaller reference.
pub proof fn law_claims_stand_by_time(claims: Seq<Claim>, threshold: Score, i: int, j: int)
    requires
        0 <= i < j < canonical(claims, threshold).len(),
    ensures
        ({
            let a = canonical(claims, threshold)[i];
            let b = canonical(claims, threshold)[j];
            let a_start = a.valid_time().start;
            let b_start = b.valid_time().start;
            let a_dated = a_start is Some && a.valid_time().valid_time_confidence.reaches(
                threshold,
            );
            let b_dated = b_start is Some && b.valid_time().valid_time_confidence.reaches(
                threshold,
            );
            let a_written = a.transaction_time().0.at();
            let b_written = b.transaction_time().0.at();
            let a_place = if a_dated {
                a_start->0.at()
            } else {
                a_written
            };
            let b_place = if b_dated {
                b_start->0.at()
            } else {
                b_written
            };
            &&& a_place <= b_place
            &&& a_place == b_place ==> a_written <= b_written
            &&& a_place == b_place && a_written == b_written ==> a.claim_ref().0 <= b.claim_ref().0
        }),
{
    law_ordering_sorts(claims, by_claim_key(threshold));
    let key = by_claim_key(threshold);
    assert(key_le(
        key(canonical(claims, threshold)[i]),
        key(canonical(claims, threshold)[j]),
    ));
}

/// Each claim is judged by its own assertions and its own disposition: an entry of the fold is what
/// its claim is found to be by itself, whatever other claims stand beside it and whatever instant
/// is asked about.
pub proof fn law_each_claim_is_judged_by_itself(
    claims: Seq<Claim>,
    table: spec_fn(ClaimRef) -> Seq<ValidityAssertion>,
    as_of: Timestamp,
    valid_at: Option<Timestamp>,
    threshold: Score,
    dispositions: Map<u128, Disposition>,
    i: int,
)
    requires
        0 <= i < fold_with(claims, table, as_of, valid_at, threshold, dispositions).all.len(),
    ensures
        ({
            let all = fold_with(claims, table, as_of, valid_at, threshold, dispositions).all;
            all[i] == status_of(
                all[i].claim,
                table(*all[i].claim.claim_ref()),
                as_of,
                dispositions,
            )
        }),
{
}

/// Whether two of the entries are picked out.
pub open spec fn two_of(all: Seq<ClaimWithStatus>, pick: spec_fn(ClaimWithStatus) -> bool) -> bool {
    exists|i: int, j: int|
        0 <= i < j < all.len() && pick(#[trigger] all[i]) && pick(#[trigger] all[j])
}

/// Whether all that are picked out of the entries have a start that is trusted, and no two of them
/// meet, where `end` gives where a window ends.
pub open spec fn spaced(
    all: Seq<ClaimWithStatus>,
    pick: spec_fn(ClaimWithStatus) -> bool,
    end: spec_fn(ClaimWithStatus) -> Option<Timestamp>,
    threshold: Score,
) -> bool {
    &&& forall|i: int|
        0 <= i < all.len() && pick(#[trigger] all[i]) ==> all[i].claim.valid_time().start is Some
            && all[i].claim.valid_time().valid_time_confidence.reaches(threshold)
    &&& forall|i: int, j: int|
        0 <= i < all.len() && 0 <= j < all.len() && i != j && pick(#[trigger] all[i]) && pick(
            #[trigger] all[j],
        ) ==> clear_of(
            all[i].claim.valid_time().start->0,
            end(all[i]),
            all[j].claim.valid_time().start->0,
            end(all[j]),
        )
}

/// The windows of what is picked out form a trusted succession exactly where they are spaced.
pub(crate) proof fn lemma_spaced_is_succession(
    all: Seq<ClaimWithStatus>,
    pick: spec_fn(ClaimWithStatus) -> bool,
    end: spec_fn(ClaimWithStatus) -> Option<Timestamp>,
    windows: Seq<Claim>,
    threshold: Score,
)
    requires
        references_are_unique(claims_of(all)),
        windows.len() == all.filter(pick).len(),
        forall|p: int|
            0 <= p < windows.len() ==> {
                &&& (#[trigger] windows[p]).valid_time().start == all.filter(
                    pick,
                )[p].claim.valid_time().start
                &&& windows[p].valid_time().end == end(all.filter(pick)[p])
                &&& windows[p].valid_time().valid_time_confidence == all.filter(
                    pick,
                )[p].claim.valid_time().valid_time_confidence
            },
    ensures
        trusted_succession(windows, threshold) <==> spaced(all, pick, end, threshold),
        two_of(all, pick) <==> all.filter(pick).len() > 1,
{
    broadcast use vstd::seq_lib::group_filter_ensures;

    let kept = all.filter(pick);
    law_a_succession_is_trusted_and_spaced(windows, threshold);
    lemma_filter_keeps_references_unique(all, pick);
    assert forall|p: int|
        #![trigger kept[p]]
        0 <= p < kept.len() implies exists|i: int|
        0 <= i < all.len() && #[trigger] all[i] == kept[p] && pick(all[i]) by {
        assert(kept.contains(kept[p]));
        all.lemma_filter_contains_rev(pick, kept[p]);
        let i = choose|i: int| 0 <= i < all.len() && all[i] == kept[p];
        assert(pick(kept[p]));
        assert(all[i] == kept[p]);
    }
    if trusted_succession(windows, threshold) {
        assert forall|i: int| 0 <= i < all.len() && pick(#[trigger] all[i]) implies all[
            i
        ].claim.valid_time().start is Some
            && all[i].claim.valid_time().valid_time_confidence.reaches(threshold) by {
            let p = lemma_place(all, pick, i);
            assert(windows[p].valid_time().start is Some);
        }
        assert forall|i: int, j: int|
            0 <= i < all.len() && 0 <= j < all.len() && i != j && pick(#[trigger] all[i]) && pick(
                #[trigger] all[j],
            ) implies clear_of(
            all[i].claim.valid_time().start->0,
            end(all[i]),
            all[j].claim.valid_time().start->0,
            end(all[j]),
        ) by {
            let p = lemma_place(all, pick, i);
            let q = lemma_place(all, pick, j);
            assert(claims_of(all)[i].claim_ref() != claims_of(all)[j].claim_ref());
            assert(p != q);
            assert(clear_of(
                windows[p].valid_time().start->0,
                windows[p].valid_time().end,
                windows[q].valid_time().start->0,
                windows[q].valid_time().end,
            ));
        }
    }
    if spaced(all, pick, end, threshold) {
        assert forall|p: int| 0 <= p < windows.len() implies (
        #[trigger] windows[p]).valid_time().start is Some
            && windows[p].valid_time().valid_time_confidence.reaches(threshold) by {
            let i = choose|i: int|
                0 <= i < all.len() && #[trigger] all[i] == kept[p] && pick(all[i]);
            assert(pick(all[i]));
        }
        assert forall|p: int, q: int|
            0 <= p < windows.len() && 0 <= q < windows.len() && p != q implies clear_of(
            (#[trigger] windows[p]).valid_time().start->0,
            windows[p].valid_time().end,
            (#[trigger] windows[q]).valid_time().start->0,
            windows[q].valid_time().end,
        ) by {
            let i = choose|i: int|
                0 <= i < all.len() && #[trigger] all[i] == kept[p] && pick(all[i]);
            let j = choose|j: int|
                0 <= j < all.len() && #[trigger] all[j] == kept[q] && pick(all[j]);
            assert(claims_of(kept)[p].claim_ref() != claims_of(kept)[q].claim_ref());
            assert(i != j);
            assert(pick(all[i]) && pick(all[j]));
        }
    }
    if kept.len() > 1 {
        let i = choose|i: int| 0 <= i < all.len() && #[trigger] all[i] == kept[0] && pick(all[i]);
        let j = choose|j: int| 0 <= j < all.len() && #[trigger] all[j] == kept[1] && pick(all[j]);
        assert(claims_of(kept)[0].claim_ref() != claims_of(kept)[1].claim_ref());
        assert(i != j);
        if i < j {
            assert(pick(all[i]) && pick(all[j]));
        } else {
            assert(pick(all[j]) && pick(all[i]));
        }
    }
    if two_of(all, pick) {
        let (i, j) = choose|i: int, j: int|
            0 <= i < j < all.len() && pick(#[trigger] all[i]) && pick(#[trigger] all[j]);
        let p = lemma_place(all, pick, i);
        let q = lemma_place(all, pick, j);
        assert(claims_of(all)[i].claim_ref() != claims_of(all)[j].claim_ref());
        assert(p != q);
    }
}

/// Where an entry that is picked out stands among those.
pub(crate) proof fn lemma_place(
    all: Seq<ClaimWithStatus>,
    pick: spec_fn(ClaimWithStatus) -> bool,
    i: int,
) -> (p: int)
    requires
        0 <= i < all.len(),
        pick(all[i]),
    ensures
        0 <= p < all.filter(pick).len(),
        all.filter(pick)[p] == all[i],
{
    broadcast use vstd::seq_lib::group_filter_ensures;

    assert(all.filter(pick).contains(all[i]));
    choose|p: int| 0 <= p < all.filter(pick).len() && all.filter(pick)[p] == all[i]
}

/// What is selected out of spaced windows is exactly what contains the instant.
pub(crate) proof fn lemma_selected_contains_the_instant(
    kept: Seq<ClaimWithStatus>,
    windows: Seq<Claim>,
    threshold: Score,
    instant: Timestamp,
    cs: ClaimWithStatus,
    p: int,
)
    requires
        references_are_unique(claims_of(kept)),
        windows.len() == kept.len(),
        forall|k: int|
            0 <= k < windows.len() ==> (#[trigger] windows[k]).claim_ref()
                == kept[k].claim.claim_ref(),
        trusted_succession(windows, threshold),
        0 <= p < kept.len(),
        kept[p] == cs,
    ensures
        selected(kept, windows, instant).contains(cs) <==> covers(
            *windows[p].valid_time(),
            instant,
        ),
        selected(kept, windows, instant).len() <= 1,
{
    broadcast use vstd::seq_lib::group_filter_ensures;

    lemma_selection_is_single(kept, windows, instant);
    law_selection_is_membership(windows, threshold, instant, p);
    let place = lemma_first_covering(windows, instant);
    let chosen = selected(kept, windows, instant);
    if covers(*windows[p].valid_time(), instant) {
        assert(about(*windows[p].claim_ref())(kept[p]));
        assert(chosen.contains(kept[p]));
    }
    if chosen.contains(cs) {
        let claim = first_covering(windows, instant)->0;
        kept.lemma_filter_contains_rev(about(*claim.claim_ref()), cs);
        let m = choose|m: int| 0 <= m < chosen.len() && chosen[m] == cs;
        assert(about(*claim.claim_ref())(chosen[m]));
        assert(claims_of(kept)[p].claim_ref() == claims_of(kept)[place].claim_ref());
        assert(p == place);
    }
}

/// What stays of the live claims, and when they conflict.
///
/// Where several live claims have trusted windows that do not meet, a live claim stays exactly
/// where its window contains the instant that is asked about, for which the time of the fold stands
/// in, and there is no conflict. In all other cases every live claim stays; and there is a conflict
/// exactly where there are several and one of them is not set-valued, whatever values they give.
pub proof fn law_live_claims_stay_or_follow_each_other(
    claims: Seq<Claim>,
    table: spec_fn(ClaimRef) -> Seq<ValidityAssertion>,
    as_of: Timestamp,
    valid_at: Option<Timestamp>,
    threshold: Score,
    dispositions: Map<u128, Disposition>,
    i: int,
)
    requires
        references_are_unique(claims),
        0 <= i < claims.len(),
    ensures
        ({
            let fold = fold_with(claims, table, as_of, valid_at, threshold, dispositions);
            let instant = match valid_at {
                Some(t) => t,
                None => as_of,
            };
            let is_live = |cs: ClaimWithStatus| cs.is_live;
            let own_end = |cs: ClaimWithStatus| cs.claim.valid_time().end;
            let follow = two_of(fold.all, is_live) && spaced(fold.all, is_live, own_end, threshold);
            let cs = fold.all[i];
            &&& fold.all.len() == claims.len()
            &&& fold.succession_selected <==> follow
            &&& follow ==> (fold.live.contains(cs) <==> cs.is_live && lies_in(
                cs.claim.valid_time().start,
                cs.claim.valid_time().end,
                instant,
            ))
            &&& follow ==> fold.live.len() <= 1 && !fold.has_conflict
            &&& !follow ==> (fold.live.contains(cs) <==> cs.is_live)
            &&& !follow ==> (fold.has_conflict <==> two_of(fold.all, is_live) && exists|k: int|
                0 <= k < fold.all.len() && (#[trigger] fold.all[k]).is_live
                    && *fold.all[k].claim.cardinality() != Cardinality::SetValued)
        }),
{
    broadcast use vstd::seq_lib::group_filter_ensures;

    let fold = fold_with(claims, table, as_of, valid_at, threshold, dispositions);
    let instant = instant_asked(valid_at, as_of);
    let is_live = |cs: ClaimWithStatus| cs.is_live;
    let own_end = |cs: ClaimWithStatus| cs.claim.valid_time().end;
    let all = fold.all;
    law_fold_keeps_every_claim(claims, table, as_of, valid_at, threshold, dispositions);
    law_ordering_is_a_permutation(claims, by_claim_key(threshold));
    law_references_of_a_permutation(claims, claims_of(all));
    lemma_filter_alike(all, is_live, found_live());
    let kept = all.filter(found_live());
    let windows = claims_of(kept);
    lemma_spaced_is_succession(all, is_live, own_end, windows, threshold);
    lemma_filter_keeps_references_unique(all, found_live());
    let cs = all[i];
    if cs.is_live {
        assert(found_live()(all[i]));
        let p = lemma_place(all, found_live(), i);
        if fold.succession_selected {
            lemma_selected_contains_the_instant(kept, windows, threshold, instant, cs, p);
        }
    }
    if fold.live.contains(cs) {
        law_live_claims_are_live(all, instant, threshold, cs);
    }
    if fold.succession_selected {
        lemma_selection_is_single(kept, windows, instant);
    } else {
        if fold.has_conflict {
            let k = choose|k: int|
                0 <= k < kept.len() && *(#[trigger] kept[k]).claim.cardinality()
                    != Cardinality::SetValued;
            assert(kept.contains(kept[k]));
            all.lemma_filter_contains_rev(found_live(), kept[k]);
            let n = choose|n: int| 0 <= n < all.len() && all[n] == kept[k];
            assert(found_live()(kept[k]));
            assert(all[n].is_live);
        }
        if two_of(all, is_live) && exists|k: int|
            0 <= k < all.len() && (#[trigger] all[k]).is_live && *all[k].claim.cardinality()
                != Cardinality::SetValued {
            let k = choose|k: int|
                0 <= k < all.len() && (#[trigger] all[k]).is_live && *all[k].claim.cardinality()
                    != Cardinality::SetValued;
            assert(found_live()(all[k]));
            let p = lemma_place(all, found_live(), k);
            assert(*kept[p].claim.cardinality() != Cardinality::SetValued);
        }
    }
}

/// Live claims that stay, stay in the order of all claims, each as often as it stands there.
pub proof fn law_live_claims_keep_their_order(
    claims: Seq<Claim>,
    table: spec_fn(ClaimRef) -> Seq<ValidityAssertion>,
    as_of: Timestamp,
    valid_at: Option<Timestamp>,
    threshold: Score,
    dispositions: Map<u128, Disposition>,
    i: int,
    j: int,
)
    requires
        ({
            let fold = fold_with(claims, table, as_of, valid_at, threshold, dispositions);
            &&& !fold.succession_selected
            &&& 0 <= i < j < fold.all.len()
            &&& fold.all[i].is_live
            &&& fold.all[j].is_live
        }),
    ensures
        ({
            let fold = fold_with(claims, table, as_of, valid_at, threshold, dispositions);
            exists|p: int, q: int|
                0 <= p < q < fold.live.len() && #[trigger] fold.live[p] == fold.all[i]
                    && #[trigger] fold.live[q] == fold.all[j]
        }),
{
    let fold = fold_with(claims, table, as_of, valid_at, threshold, dispositions);
    assert(found_live()(fold.all[i]) && found_live()(fold.all[j]));
    let (p, q) = lemma_places_of(fold.all, found_live(), i, j);
    assert(fold.live[p] == fold.all[i] && fold.live[q] == fold.all[j]);
}

/// Filters that pick the same entries keep the same.
pub(crate) proof fn lemma_filter_alike(
    s: Seq<ClaimWithStatus>,
    p: spec_fn(ClaimWithStatus) -> bool,
    q: spec_fn(ClaimWithStatus) -> bool,
)
    requires
        forall|i: int| 0 <= i < s.len() ==> p(#[trigger] s[i]) == q(s[i]),
    ensures
        s.filter(p) == s.filter(q),
    decreases s.len(),
{
    reveal(Seq::filter);
    if s.len() > 0 {
        let front = s.drop_last();
        assert forall|i: int| 0 <= i < front.len() implies p(#[trigger] front[i]) == q(
            front[i],
        ) by {
            assert(front[i] == s[i]);
        }
        lemma_filter_alike(front, p, q);
        assert(p(s[s.len() - 1]) == q(s[s.len() - 1]));
    }
}

} // verus!
