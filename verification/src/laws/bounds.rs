//! Laws on validity assertions: which bound is active, and which claims are live.
use vstd::prelude::*;

use crate::domain::claim::Claim;
use crate::domain::records::{AssertionKind, Disposition, ValidityAssertion};
use crate::engine::ordering::{
    insert_ordered, key_le, law_ordering_is_a_permutation, law_ordering_sorts, ordered,
};
use crate::engine::truth_engine::{
    active_bound, after_assertions, by_assertion_key, status_of, BoundState,
};
use crate::time::Timestamp;

verus! {

/// The instant that an assertion speaks of.
pub open spec fn instant_spoken_of(assertion: ValidityAssertion) -> Timestamp {
    match assertion.kind {
        AssertionKind::Bound { bound_at, .. } => bound_at,
        AssertionKind::Reopen { reopen_at } => reopen_at,
    }
}

/// Whether an assertion counts at a time: it was asserted by then, and the instant that it speaks
/// of has come.
pub open spec fn counts(assertion: ValidityAssertion, as_of: Timestamp) -> bool {
    assertion.asserted_at.0.at() <= as_of.at() && instant_spoken_of(assertion).at() <= as_of.at()
}

/// Whether one assertion was made before another: it was asserted earlier, or at the same time
/// under a smaller reference.
pub open spec fn made_before(a: ValidityAssertion, b: ValidityAssertion) -> bool {
    a.asserted_at.0.at() < b.asserted_at.0.at() || (a.asserted_at.0.at() == b.asserted_at.0.at()
        && a.assertion_ref < b.assertion_ref)
}

/// The bound that an assertion by itself leaves.
pub open spec fn bound_left_by(assertion: ValidityAssertion) -> Option<BoundState> {
    match assertion.kind {
        AssertionKind::Bound { bound_at, bound_at_granularity } => Some(
            BoundState { bound_at, assertion_ref: assertion.assertion_ref, bound_at_granularity },
        ),
        AssertionKind::Reopen { .. } => None,
    }
}

proof fn lemma_tail_does_not_count(s: Seq<ValidityAssertion>, as_of: Timestamp, p: int)
    requires
        0 <= p < s.len(),
        counts(s[p], as_of),
        forall|k: int| p < k < s.len() ==> !counts(#[trigger] s[k], as_of),
    ensures
        after_assertions(s, as_of) == bound_left_by(s[p]),
    decreases s.len(),
{
    let front = s.drop_last();
    if p < s.len() - 1 {
        assert forall|k: int| p < k < front.len() implies !counts(#[trigger] front[k], as_of) by {
            assert(front[k] == s[k]);
        }
        lemma_tail_does_not_count(front, as_of, p);
        assert(!counts(s[s.len() - 1], as_of));
    }
}

proof fn lemma_nothing_counts(s: Seq<ValidityAssertion>, as_of: Timestamp)
    requires
        forall|k: int| 0 <= k < s.len() ==> !counts(#[trigger] s[k], as_of),
    ensures
        after_assertions(s, as_of) is None,
    decreases s.len(),
{
    if s.len() > 0 {
        let front = s.drop_last();
        assert forall|k: int| 0 <= k < front.len() implies !counts(#[trigger] front[k], as_of) by {
            assert(front[k] == s[k]);
        }
        lemma_nothing_counts(front, as_of);
        assert(!counts(s[s.len() - 1], as_of));
    }
}

proof fn lemma_last_that_counts(s: Seq<ValidityAssertion>, as_of: Timestamp, q: int) -> (p: int)
    requires
        0 <= q < s.len(),
        counts(s[q], as_of),
    ensures
        q <= p < s.len(),
        counts(s[p], as_of),
        forall|k: int| p < k < s.len() ==> !counts(#[trigger] s[k], as_of),
    decreases s.len() - q,
{
    if exists|k: int| q < k < s.len() && counts(#[trigger] s[k], as_of) {
        let k = choose|k: int| q < k < s.len() && counts(#[trigger] s[k], as_of);
        lemma_last_that_counts(s, as_of, k)
    } else {
        q
    }
}

/// The assertion that was made last decides, in whatever order the assertions come and whatever
/// instants they speak of: of those that count, the last made leaves its bound active, or none
/// where it is a reopening.
pub proof fn law_last_made_decides(
    assertions: Seq<ValidityAssertion>,
    as_of: Timestamp,
    last: int,
)
    requires
        0 <= last < assertions.len(),
        counts(assertions[last], as_of),
        forall|i: int|
            0 <= i < assertions.len() && i != last && counts(#[trigger] assertions[i], as_of)
                ==> made_before(assertions[i], assertions[last]),
    ensures
        active_bound(assertions, as_of) == bound_left_by(assertions[last]),
{
    broadcast use vstd::seq_lib::group_to_multiset_ensures;

    let key = by_assertion_key();
    let sorted = ordered(assertions, key);
    law_ordering_is_a_permutation(assertions, key);
    law_ordering_sorts(assertions, key);
    let decisive = assertions[last];
    assert(assertions.contains(decisive));
    assert(assertions.to_multiset().count(decisive) > 0);
    assert(sorted.contains(decisive));
    let q = choose|q: int| 0 <= q < sorted.len() && sorted[q] == decisive;
    let p = lemma_last_that_counts(sorted, as_of, q);
    lemma_tail_does_not_count(sorted, as_of, p);
    assert(sorted.contains(sorted[p]));
    assert(sorted.to_multiset().count(sorted[p]) > 0);
    assert(assertions.contains(sorted[p]));
    let n = choose|n: int| 0 <= n < assertions.len() && assertions[n] == sorted[p];
    if n != last {
        assert(made_before(assertions[n], decisive));
        assert(key_le(key(sorted[q]), key(sorted[p])));
        assert(false);
    }
}

/// Where no assertion counts, no bound is active.
pub proof fn law_nothing_that_counts_is_no_bound(
    assertions: Seq<ValidityAssertion>,
    as_of: Timestamp,
)
    requires
        forall|i: int| 0 <= i < assertions.len() ==> !counts(#[trigger] assertions[i], as_of),
    ensures
        active_bound(assertions, as_of) is None,
{
    broadcast use vstd::seq_lib::group_to_multiset_ensures;

    let key = by_assertion_key();
    let sorted = ordered(assertions, key);
    law_ordering_is_a_permutation(assertions, key);
    assert forall|k: int| 0 <= k < sorted.len() implies !counts(#[trigger] sorted[k], as_of) by {
        assert(sorted.contains(sorted[k]));
        assert(sorted.to_multiset().count(sorted[k]) > 0);
        assert(assertions.contains(sorted[k]));
        let n = choose|n: int| 0 <= n < assertions.len() && assertions[n] == sorted[k];
        assert(!counts(assertions[n], as_of));
    }
    lemma_nothing_counts(sorted, as_of);
}

/// A correction holds: an assertion that is made after all others decides from then on, whether its
/// instant lies before or after theirs. A bound closes the claim at its own instant, and a
/// reopening opens it.
pub proof fn law_a_correction_holds(
    assertions: Seq<ValidityAssertion>,
    last: ValidityAssertion,
    as_of: Timestamp,
)
    requires
        forall|i: int|
            0 <= i < assertions.len() ==> (#[trigger] assertions[i]).asserted_at.0.at()
                < last.asserted_at.0.at(),
        last.asserted_at.0.at() <= as_of.at(),
    ensures
        last.kind matches AssertionKind::Bound { bound_at, bound_at_granularity } ==> (
        bound_at.at() <= as_of.at() ==> (active_bound(assertions.push(last), as_of) matches Some(
            state,
        ) && state.bound_at == bound_at && state.bound_at_granularity == bound_at_granularity
            && state.assertion_ref == last.assertion_ref)),
        last.kind matches AssertionKind::Reopen { reopen_at } ==> (reopen_at.at() <= as_of.at()
            ==> active_bound(assertions.push(last), as_of) is None),
{
    let all = assertions.push(last);
    if instant_spoken_of(last).at() <= as_of.at() {
        assert(all[assertions.len() as int] == last);
        assert forall|i: int|
            0 <= i < all.len() && i != assertions.len() && counts(
                #[trigger] all[i],
                as_of,
            ) implies made_before(all[i], all[assertions.len() as int]) by {
            assert(all[i] == assertions[i]);
        }
        law_last_made_decides(all, as_of, assertions.len() as int);
    }
}

/// What has not been asserted yet, or speaks of an instant that has not come, changes nothing,
/// wherever it stands among the assertions.
pub proof fn law_what_does_not_count_changes_nothing(
    assertions: Seq<ValidityAssertion>,
    other: ValidityAssertion,
    as_of: Timestamp,
)
    requires
        other.asserted_at.0.at() > as_of.at() || instant_spoken_of(other).at() > as_of.at(),
    ensures
        active_bound(assertions.push(other), as_of) == active_bound(assertions, as_of),
{
    let key = by_assertion_key();
    assert(assertions.push(other).drop_last() =~= assertions);
    lemma_insert_without_effect(ordered(assertions, key), other, as_of);
}

proof fn lemma_insert_without_effect(
    s: Seq<ValidityAssertion>,
    other: ValidityAssertion,
    as_of: Timestamp,
)
    requires
        !counts(other, as_of),
    ensures
        after_assertions(
            insert_ordered(s, other, by_assertion_key()),
            as_of,
        ) == after_assertions(s, as_of),
    decreases s.len(),
{
    let key = by_assertion_key();
    let placed = insert_ordered(s, other, key);
    if s.len() == 0 || key_le(key(s.last()), key(other)) {
        assert(s.push(other).drop_last() =~= s);
    } else {
        let front = insert_ordered(s.drop_last(), other, key);
        lemma_insert_without_effect(s.drop_last(), other, as_of);
        assert(front.push(s.last()).drop_last() =~= front);
    }
}

/// A claim is live exactly where no bound is active and its latest disposition is none of the four
/// that rule it out: quarantined, superseded, invalidated and rejected. A claim without a
/// disposition is not ruled out. What is shown of its bound is the active one.
pub proof fn law_a_claim_is_live_until_it_is_bounded_or_ruled_out(
    claim: Claim,
    assertions: Seq<ValidityAssertion>,
    as_of: Timestamp,
    dispositions: Map<u128, Disposition>,
)
    ensures
        ({
            let cs = status_of(claim, assertions, as_of, dispositions);
            let bound = active_bound(assertions, as_of);
            let known = dispositions.contains_key(claim.claim_ref().0);
            let d = dispositions[claim.claim_ref().0];
            &&& cs.claim == claim
            &&& cs.is_live <==> bound is None && !(known && (d == Disposition::Quarantined || d
                == Disposition::Superseded || d == Disposition::Invalidated || d
                == Disposition::Rejected))
            &&& known ==> cs.last_disposition == Some(d)
            &&& !known ==> cs.last_disposition is None
            &&& bound matches Some(state) ==> cs.bound_at == Some(state.bound_at)
                && cs.bound_at_granularity == state.bound_at_granularity
            &&& bound is None ==> cs.bound_at is None && cs.bound_at_granularity is None
        }),
{
}

} // verus!
