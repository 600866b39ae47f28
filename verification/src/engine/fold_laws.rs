//! What holds of the canonical fold as a whole.
use vstd::prelude::*;

use crate::domain::claim::{Cardinality, Claim};
use crate::domain::records::{AssertionKind, Disposition, ValidityAssertion};
use crate::engine::ordering::{
    in_key_order, key_le, law_order_is_independent_of_arrival, law_ordering_commutes_with_filter,
    law_ordering_is_a_permutation, law_ordering_sorts, ordered,
};
use crate::engine::truth_engine::{
    about, active_bound, after_assertion, after_assertions, assertion_key, by_assertion_key,
    by_claim_key, canonical, claims_of, fold_entries, fold_with, found_live, in_conflict, selected,
    status_of, statuses, BoundState, ClaimWithStatus,
};
use crate::engine::valid_time_helpers::first_covering;
use crate::ident::ClaimRef;
use crate::score::Score;
use crate::time::Timestamp;

verus! {

/// Whether no two different claims share a reference.
pub open spec fn references_tell_apart(claims: Seq<Claim>) -> bool {
    forall|i: int, j: int|
        0 <= i < claims.len() && 0 <= j < claims.len() && (#[trigger] claims[i]).claim_ref() == (
        #[trigger] claims[j]).claim_ref() ==> claims[i] == claims[j]
}

/// Whether each claim stands there once, under a reference of its own.
pub open spec fn references_are_unique(claims: Seq<Claim>) -> bool {
    forall|i: int, j: int|
        0 <= i < claims.len() && 0 <= j < claims.len() && (#[trigger] claims[i]).claim_ref() == (
        #[trigger] claims[j]).claim_ref() ==> i == j
}

/// Whether no two different assertions share a reference.
pub open spec fn assertions_tell_apart(assertions: Seq<ValidityAssertion>) -> bool {
    forall|i: int, j: int|
        0 <= i < assertions.len() && 0 <= j < assertions.len() && (
        #[trigger] assertions[i]).assertion_ref == (#[trigger] assertions[j]).assertion_ref
            ==> assertions[i] == assertions[j]
}

/// The same claims in another order of arrival give the same fold.
pub proof fn law_fold_is_independent_of_arrival(
    a: Seq<Claim>,
    b: Seq<Claim>,
    table: spec_fn(ClaimRef) -> Seq<ValidityAssertion>,
    as_of: Timestamp,
    valid_at: Option<Timestamp>,
    threshold: Score,
    dispositions: Map<u128, Disposition>,
)
    requires
        a.to_multiset() == b.to_multiset(),
        references_tell_apart(a),
    ensures
        fold_with(a, table, as_of, valid_at, threshold, dispositions) == fold_with(
            b,
            table,
            as_of,
            valid_at,
            threshold,
            dispositions,
        ),
{
    law_order_is_independent_of_arrival(a, b, by_claim_key(threshold));
}

/// The same assertions in another order of arrival leave the same bound active.
pub proof fn law_bound_is_independent_of_arrival(
    a: Seq<ValidityAssertion>,
    b: Seq<ValidityAssertion>,
    as_of: Timestamp,
)
    requires
        a.to_multiset() == b.to_multiset(),
        assertions_tell_apart(a),
    ensures
        active_bound(a, as_of) == active_bound(b, as_of),
{
    law_order_is_independent_of_arrival(a, b, by_assertion_key());
}

/// The fold keeps every claim: what it returns are the claims that were handed in, in canonical
/// order, bounded ones among them.
pub proof fn law_fold_keeps_every_claim(
    claims: Seq<Claim>,
    table: spec_fn(ClaimRef) -> Seq<ValidityAssertion>,
    as_of: Timestamp,
    valid_at: Option<Timestamp>,
    threshold: Score,
    dispositions: Map<u128, Disposition>,
)
    ensures
        ({
            let fold = fold_with(claims, table, as_of, valid_at, threshold, dispositions);
            &&& claims_of(fold.all) == canonical(claims, threshold)
            &&& claims_of(fold.all).to_multiset() == claims.to_multiset()
            &&& in_key_order(claims_of(fold.all), by_claim_key(threshold))
        }),
{
    let fold = fold_with(claims, table, as_of, valid_at, threshold, dispositions);
    law_ordering_is_a_permutation(claims, by_claim_key(threshold));
    law_ordering_sorts(claims, by_claim_key(threshold));
    assert(claims_of(fold.all) =~= canonical(claims, threshold));
}

/// Without an instant on the valid-time axis, the fold asks about the one on the transaction-time
/// axis.
pub proof fn law_instant_defaults_to_as_of(
    claims: Seq<Claim>,
    table: spec_fn(ClaimRef) -> Seq<ValidityAssertion>,
    as_of: Timestamp,
    threshold: Score,
    dispositions: Map<u128, Disposition>,
)
    ensures
        fold_with(claims, table, as_of, None, threshold, dispositions) == fold_with(
            claims,
            table,
            as_of,
            Some(as_of),
            threshold,
            dispositions,
        ),
{
}

/// The two axes are independent: which claims are visible and live does not depend on the instant
/// that is asked about.
pub proof fn law_axes_are_independent(
    claims: Seq<Claim>,
    table: spec_fn(ClaimRef) -> Seq<ValidityAssertion>,
    as_of: Timestamp,
    one: Option<Timestamp>,
    other: Option<Timestamp>,
    threshold: Score,
    dispositions: Map<u128, Disposition>,
)
    ensures
        ({
            let a = fold_with(claims, table, as_of, one, threshold, dispositions);
            let b = fold_with(claims, table, as_of, other, threshold, dispositions);
            &&& a.all == b.all
            &&& a.succession_selected == b.succession_selected
            &&& !a.succession_selected ==> a == b
        }),
{
}

proof fn lemma_about_is_unique(entries: Seq<ClaimWithStatus>, claim_ref: ClaimRef)
    requires
        references_are_unique(claims_of(entries)),
    ensures
        entries.filter(about(claim_ref)).len() <= 1,
        entries.filter(about(claim_ref)).len() == 0 <==> forall|i: int|
            0 <= i < entries.len() ==> *(#[trigger] entries[i]).claim.claim_ref() != claim_ref,
    decreases entries.len(),
{
    reveal(Seq::filter);
    if entries.len() > 0 {
        let front = entries.drop_last();
        assert forall|i: int, j: int|
            0 <= i < front.len() && 0 <= j < front.len() && (#[trigger] claims_of(
                front,
            )[i]).claim_ref() == (#[trigger] claims_of(front)[j]).claim_ref() implies i == j by {
            assert(claims_of(front)[i] == claims_of(entries)[i]);
            assert(claims_of(front)[j] == claims_of(entries)[j]);
        }
        lemma_about_is_unique(front, claim_ref);
        let last = entries.last();
        if about(claim_ref)(last) {
            assert forall|i: int| 0 <= i < front.len() implies *(
            #[trigger] front[i]).claim.claim_ref() != claim_ref by {
                assert(claims_of(entries)[i] == front[i].claim);
                assert(claims_of(entries)[entries.len() - 1] == last.claim);
            }
            assert(*entries[entries.len() - 1].claim.claim_ref() == claim_ref);
        } else {
            assert forall|i: int|
                (forall|k: int|
                    0 <= k < front.len() ==> *(#[trigger] front[k]).claim.claim_ref() != claim_ref)
                    && 0 <= i < entries.len() implies *(#[trigger] entries[i]).claim.claim_ref()
                != claim_ref by {
                if i < front.len() {
                    assert(front[i] == entries[i]);
                }
            }
            if exists|k: int|
                0 <= k < front.len() && *(#[trigger] front[k]).claim.claim_ref() == claim_ref {
                let k = choose|k: int|
                    0 <= k < front.len() && *(#[trigger] front[k]).claim.claim_ref() == claim_ref;
                assert(entries[k] == front[k]);
            }
        }
    }
}

/// Filtering keeps references unique.
pub proof fn lemma_filter_keeps_references_unique(
    entries: Seq<ClaimWithStatus>,
    pred: spec_fn(ClaimWithStatus) -> bool,
)
    requires
        references_are_unique(claims_of(entries)),
    ensures
        references_are_unique(claims_of(entries.filter(pred))),
    decreases entries.len(),
{
    reveal(Seq::filter);
    if entries.len() > 0 {
        let front = entries.drop_last();
        assert forall|i: int, j: int|
            0 <= i < front.len() && 0 <= j < front.len() && (#[trigger] claims_of(
                front,
            )[i]).claim_ref() == (#[trigger] claims_of(front)[j]).claim_ref() implies i == j by {
            assert(claims_of(front)[i] == claims_of(entries)[i]);
            assert(claims_of(front)[j] == claims_of(entries)[j]);
        }
        lemma_filter_keeps_references_unique(front, pred);
        let before = front.filter(pred);
        let now = entries.filter(pred);
        let last = entries.last();
        if pred(last) {
            assert forall|i: int|
                0 <= i < before.len() implies (#[trigger] before[i]).claim.claim_ref()
                != last.claim.claim_ref() by {
                assert(before.contains(before[i]));
                front.lemma_filter_contains_rev(pred, before[i]);
                let k = choose|k: int| 0 <= k < front.len() && front[k] == before[i];
                assert(claims_of(entries)[k] == before[i].claim);
                assert(claims_of(entries)[entries.len() - 1] == last.claim);
            }
            assert forall|i: int, j: int|
                0 <= i < now.len() && 0 <= j < now.len() && (#[trigger] claims_of(
                    now,
                )[i]).claim_ref() == (#[trigger] claims_of(now)[j]).claim_ref() implies i == j by {
                if i < before.len() {
                    assert(now[i] == before[i]);
                    assert(claims_of(now)[i] == claims_of(before)[i]);
                }
                if j < before.len() {
                    assert(now[j] == before[j]);
                    assert(claims_of(now)[j] == claims_of(before)[j]);
                }
            }
        }
    }
}

/// Selecting among entries with unique references leaves one at most.
pub proof fn lemma_selection_is_single(
    entries: Seq<ClaimWithStatus>,
    windows: Seq<Claim>,
    instant: Timestamp,
)
    requires
        references_are_unique(claims_of(entries)),
    ensures
        selected(entries, windows, instant).len() <= 1,
{
    match first_covering(windows, instant) {
        Some(claim) => {
            lemma_about_is_unique(entries, *claim.claim_ref());
        },
        None => {},
    }
}

/// Where one of a trusted succession was selected, one claim at most is left, and there is no
/// conflict.
pub proof fn law_selected_succession_has_no_conflict(
    all: Seq<ClaimWithStatus>,
    instant: Timestamp,
    threshold: Score,
)
    requires
        references_are_unique(claims_of(all)),
    ensures
        fold_entries(all, instant, threshold).succession_selected ==> {
            &&& fold_entries(all, instant, threshold).live.len() <= 1
            &&& !fold_entries(all, instant, threshold).has_conflict
        },
{
    let live = all.filter(found_live());
    lemma_filter_keeps_references_unique(all, found_live());
    lemma_selection_is_single(live, claims_of(live), instant);
}

/// What the fold calls live is live and among its claims. Nothing is made up.
pub proof fn law_live_claims_are_live(
    all: Seq<ClaimWithStatus>,
    instant: Timestamp,
    threshold: Score,
    cs: ClaimWithStatus,
)
    requires
        fold_entries(all, instant, threshold).live.contains(cs),
    ensures
        all.contains(cs),
        cs.is_live,
{
    broadcast use vstd::seq_lib::group_filter_ensures;

    let live = all.filter(found_live());
    let kept = fold_entries(all, instant, threshold).live;
    if kept != live {
        let claim = first_covering(claims_of(live), instant)->0;
        if first_covering(claims_of(live), instant) is Some {
            live.lemma_filter_contains_rev(about(*claim.claim_ref()), cs);
        }
    }
    let k = choose|k: int| 0 <= k < live.len() && live[k] == cs;
    assert(found_live()(live[k]));
    all.lemma_filter_contains_rev(found_live(), cs);
}

/// A claim is live exactly if no bound is active and its disposition does not rule it out.
pub proof fn law_liveness(
    claim: Claim,
    assertions: Seq<ValidityAssertion>,
    as_of: Timestamp,
    dispositions: Map<u128, Disposition>,
)
    ensures
        ({
            let cs = status_of(claim, assertions, as_of, dispositions);
            let ruled_out = dispositions.contains_key(claim.claim_ref().0)
                && crate::engine::truth_engine::non_live(dispositions[claim.claim_ref().0]);
            &&& cs.is_live <==> active_bound(assertions, as_of) is None && !ruled_out
            &&& cs.bound_at is Some <==> active_bound(assertions, as_of) is Some
        }),
{
}

/// Several live claims, not all set-valued, that form no trusted succession are in conflict, and
/// all of them stay: none is picked in silence.
pub proof fn law_conflict_keeps_all_live_claims(
    all: Seq<ClaimWithStatus>,
    instant: Timestamp,
    threshold: Score,
)
    requires
        !fold_entries(all, instant, threshold).succession_selected,
    ensures
        ({
            let fold = fold_entries(all, instant, threshold);
            &&& fold.live == all.filter(found_live())
            &&& fold.has_conflict <==> fold.live.len() > 1 && exists|i: int|
                0 <= i < fold.live.len() && *(#[trigger] fold.live[i]).claim.cardinality()
                    != Cardinality::SetValued
        }),
{
}

/// Set-valued claims hold together: they are never in conflict.
pub proof fn law_set_valued_claims_hold_together(live: Seq<ClaimWithStatus>)
    requires
        forall|i: int|
            0 <= i < live.len() ==> *(#[trigger] live[i]).claim.cardinality()
                == Cardinality::SetValued,
    ensures
        !in_conflict(live),
{
}

/// Whether an assertion is visible: it was asserted by then.
pub open spec fn visible(as_of: Timestamp) -> spec_fn(ValidityAssertion) -> bool {
    |assertion: ValidityAssertion| assertion.asserted_at.0.at() <= as_of.at()
}

proof fn lemma_invisible_assertions_do_nothing(
    assertions: Seq<ValidityAssertion>,
    as_of: Timestamp,
)
    ensures
        after_assertions(assertions, as_of) == after_assertions(
            assertions.filter(visible(as_of)),
            as_of,
        ),
    decreases assertions.len(),
{
    reveal(Seq::filter);
    if assertions.len() > 0 {
        lemma_invisible_assertions_do_nothing(assertions.drop_last(), as_of);
        if visible(as_of)(assertions.last()) {
            assert(assertions.filter(visible(as_of)).drop_last()
                =~= assertions.drop_last().filter(visible(as_of)));
        }
    }
}

/// What was asserted later does not change what was known before: the active bound depends on the
/// visible assertions alone.
pub proof fn law_only_visible_assertions_count(
    assertions: Seq<ValidityAssertion>,
    as_of: Timestamp,
)
    ensures
        active_bound(assertions, as_of) == active_bound(assertions.filter(visible(as_of)), as_of),
{
    lemma_invisible_assertions_do_nothing(ordered(assertions, by_assertion_key()), as_of);
    law_ordering_commutes_with_filter(assertions, by_assertion_key(), visible(as_of));
}

/// History is fixed: appending an assertion changes no claim's status at a time before it was
/// asserted.
pub proof fn law_later_assertions_leave_the_past_alone(
    claim: Claim,
    assertions: Seq<ValidityAssertion>,
    later: ValidityAssertion,
    as_of: Timestamp,
    dispositions: Map<u128, Disposition>,
)
    requires
        later.asserted_at.0.at() > as_of.at(),
    ensures
        status_of(claim, assertions.push(later), as_of, dispositions) == status_of(
            claim,
            assertions,
            as_of,
            dispositions,
        ),
{
    reveal(Seq::filter);
    law_only_visible_assertions_count(assertions, as_of);
    law_only_visible_assertions_count(assertions.push(later), as_of);
    assert(assertions.push(later).drop_last() =~= assertions);
}

/// Two stores that agree on what was asserted by then give the same fold then, whatever each of
/// them was told later.
pub proof fn law_fold_depends_on_visible_history(
    claims: Seq<Claim>,
    one: spec_fn(ClaimRef) -> Seq<ValidityAssertion>,
    other: spec_fn(ClaimRef) -> Seq<ValidityAssertion>,
    as_of: Timestamp,
    valid_at: Option<Timestamp>,
    threshold: Score,
    dispositions: Map<u128, Disposition>,
)
    requires
        forall|claim_ref: ClaimRef|
            (#[trigger] one(claim_ref)).filter(visible(as_of)) == other(claim_ref).filter(
                visible(as_of),
            ),
    ensures
        fold_with(claims, one, as_of, valid_at, threshold, dispositions) == fold_with(
            claims,
            other,
            as_of,
            valid_at,
            threshold,
            dispositions,
        ),
{
    let sorted = canonical(claims, threshold);
    let lists = Seq::new(sorted.len(), |i: int| one(*sorted[i].claim_ref()));
    let other_lists = Seq::new(sorted.len(), |i: int| other(*sorted[i].claim_ref()));
    assert forall|i: int| 0 <= i < sorted.len() implies #[trigger] statuses(
        sorted,
        lists,
        as_of,
        dispositions,
    )[i] == statuses(sorted, other_lists, as_of, dispositions)[i] by {
        let claim_ref = *sorted[i].claim_ref();
        law_only_visible_assertions_count(one(claim_ref), as_of);
        law_only_visible_assertions_count(other(claim_ref), as_of);
    }
    assert(statuses(sorted, lists, as_of, dispositions) =~= statuses(
        sorted,
        other_lists,
        as_of,
        dispositions,
    ));
}

/// Whether an assertion has an effect at this time.
pub open spec fn takes_effect(assertion: ValidityAssertion, as_of: Timestamp) -> bool {
    &&& assertion.asserted_at.0.at() <= as_of.at()
    &&& match assertion.kind {
        AssertionKind::Bound { bound_at, .. } => bound_at.at() <= as_of.at(),
        AssertionKind::Reopen { reopen_at } => reopen_at.at() <= as_of.at(),
    }
}

/// The last assertion decides, where it takes effect: a bound closes the claim whatever came
/// before, and a reopening reopens it.
pub proof fn law_last_assertion_decides(
    assertions: Seq<ValidityAssertion>,
    last: ValidityAssertion,
    as_of: Timestamp,
)
    requires
        forall|i: int|
            0 <= i < assertions.len() ==> key_le(
                assertion_key(#[trigger] assertions[i]),
                assertion_key(last),
            ),
        takes_effect(last, as_of),
    ensures
        active_bound(assertions.push(last), as_of) == match last.kind {
            AssertionKind::Bound { bound_at, bound_at_granularity } => Some(
                BoundState {
                    bound_at,
                    assertion_ref: last.assertion_ref,
                    bound_at_granularity,
                },
            ),
            AssertionKind::Reopen { .. } => None,
        },
{
    let key = by_assertion_key();
    let sorted = ordered(assertions, key);
    law_ordering_is_a_permutation(assertions, key);
    assert(assertions.push(last).drop_last() =~= assertions);
    if sorted.len() > 0 {
        broadcast use vstd::seq_lib::group_to_multiset_ensures;

        let end = sorted.last();
        assert(sorted.contains(end)) by {
            assert(sorted[sorted.len() - 1] == end);
        }
        assert(assertions.to_multiset().count(end) > 0);
        assert(assertions.contains(end));
    }
    assert(ordered(assertions.push(last), key) == sorted.push(last));
    assert(sorted.push(last).drop_last() =~= sorted);
}

/// An assertion that takes no effect changes nothing.
pub proof fn law_ineffective_assertions_do_nothing(
    state: Option<BoundState>,
    assertion: ValidityAssertion,
    as_of: Timestamp,
)
    requires
        !takes_effect(assertion, as_of),
    ensures
        after_assertion(state, assertion, as_of) == state,
{
}

} // verus!
