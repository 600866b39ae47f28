//! Laws on how a new claim relates to what is believed.
use vstd::prelude::*;

use crate::domain::belief::Belief;
use crate::domain::claim::Claim;
use crate::engine::gate::ConflictType;
use crate::engine::reconciler::{
    conflict_in, conflict_of, contradicts_any_in_time, contradicts_in_time, derived_from_any,
    line_with, other_than, ReconcilerInput,
};
use crate::engine::valid_time_helpers::trusted_succession;
use crate::ident::ClaimRef;
use crate::json::{same_value, JsonValue, Number};
use crate::laws::history::dated;
use crate::laws::values::{kind_of, law_kinds_are_told_apart};
use crate::laws::windows::{clear_of, law_a_succession_is_trusted_and_spaced};
use crate::score::Score;
use crate::sequences::{lemma_places_in_filter, lemma_places_of};

verus! {

/// Whether a claim lists one of these among those that it was derived from.
pub open spec fn rests_on(candidate: Claim, refs: Seq<ClaimRef>) -> bool {
    exists|i: int, k: int|
        0 <= i < candidate.derived_from()@.len() && 0 <= k < refs.len()
            && #[trigger] candidate.derived_from()@[i] == #[trigger] refs[k]
}

/// Whether two claims have windows with a start, and the windows meet.
pub open spec fn windows_meet(a: Claim, b: Claim) -> bool {
    &&& a.valid_time().start is Some
    &&& b.valid_time().start is Some
    &&& !clear_of(
        a.valid_time().start->0,
        a.valid_time().end,
        b.valid_time().start->0,
        b.valid_time().end,
    )
}

/// Whether a live claim other than the candidate gives another value at some of the same time.
pub open spec fn gainsaid(candidate: Claim, live: Seq<Claim>) -> bool {
    exists|i: int|
        0 <= i < live.len() && (#[trigger] live[i]).claim_ref() != candidate.claim_ref()
            && !same_value(live[i].fact().value@, candidate.fact().value@) && windows_meet(
            candidate,
            live[i],
        )
}

/// Whether the candidate and all other live claims are dated, and no two of them meet.
pub open spec fn fits_the_line(candidate: Claim, live: Seq<Claim>, threshold: Score) -> bool {
    &&& dated(candidate, threshold)
    &&& forall|i: int|
        0 <= i < live.len() && (#[trigger] live[i]).claim_ref() != candidate.claim_ref() ==> dated(
            live[i],
            threshold,
        ) && !windows_meet(candidate, live[i])
    &&& forall|i: int, j: int|
        0 <= i < j < live.len() && (#[trigger] live[i]).claim_ref() != candidate.claim_ref() && (
        #[trigger] live[j]).claim_ref() != candidate.claim_ref() ==> !windows_meet(live[i], live[j])
}

proof fn lemma_fitting_is_succession(candidate: Claim, live: Seq<Claim>, threshold: Score)
    ensures
        trusted_succession(line_with(candidate, live), threshold) <==> fits_the_line(
            candidate,
            live,
            threshold,
        ),
{
    broadcast use vstd::seq_lib::group_filter_ensures;

    let others = other_than(*candidate.claim_ref());
    let kept = live.filter(others);
    let line = line_with(candidate, live);
    law_a_succession_is_trusted_and_spaced(line, threshold);
    assert(line[0] == candidate);
    assert forall|p: int| 0 <= p < kept.len() implies line[p + 1] == #[trigger] kept[p] by {}
    if trusted_succession(line, threshold) {
        assert forall|i: int|
            0 <= i < live.len() && (#[trigger] live[i]).claim_ref()
                != candidate.claim_ref() implies dated(live[i], threshold) && !windows_meet(
            candidate,
            live[i],
        ) by {
            assert(others(live[i]));
            assert(kept.contains(live[i]));
            let p = choose|p: int| 0 <= p < kept.len() && kept[p] == live[i];
            assert(line[p + 1] == kept[p]);
            assert(clear_of(
                line[0].valid_time().start->0,
                line[0].valid_time().end,
                line[p + 1].valid_time().start->0,
                line[p + 1].valid_time().end,
            ));
        }
        assert forall|i: int, j: int|
            0 <= i < j < live.len() && (#[trigger] live[i]).claim_ref() != candidate.claim_ref()
                && (#[trigger] live[j]).claim_ref()
                != candidate.claim_ref() implies !windows_meet(live[i], live[j]) by {
            assert(others(live[i]) && others(live[j]));
            let (p, q) = lemma_places_of(live, others, i, j);
            assert(line[p + 1] == kept[p] && line[q + 1] == kept[q]);
            assert(clear_of(
                line[p + 1].valid_time().start->0,
                line[p + 1].valid_time().end,
                line[q + 1].valid_time().start->0,
                line[q + 1].valid_time().end,
            ));
        }
    }
    if fits_the_line(candidate, live, threshold) {
        assert forall|p: int| 0 <= p < line.len() implies dated(#[trigger] line[p], threshold) && (
        p > 0 ==> !windows_meet(candidate, line[p])) by {
            if p > 0 {
                assert(line[p] == kept[p - 1]);
                assert(kept.contains(kept[p - 1]));
                live.lemma_filter_contains_rev(others, kept[p - 1]);
                let i = choose|i: int| 0 <= i < live.len() && live[i] == kept[p - 1];
                assert(others(kept[p - 1]));
                assert(live[i].claim_ref() != candidate.claim_ref());
            }
        }
        assert forall|p: int, q: int|
            0 <= p < line.len() && 0 <= q < line.len() && p != q implies clear_of(
            (#[trigger] line[p]).valid_time().start->0,
            line[p].valid_time().end,
            (#[trigger] line[q]).valid_time().start->0,
            line[q].valid_time().end,
        ) by {
            assert(dated(line[p], threshold) && dated(line[q], threshold));
            if p > 0 && q > 0 {
                let low = if p < q { p } else { q };
                let high = if p < q { q } else { p };
                let (i, j) = lemma_places_in_filter(live, others, low - 1, high - 1);
                assert(line[low] == kept[low - 1] && line[high] == kept[high - 1]);
                assert(live[i].claim_ref() != candidate.claim_ref());
                assert(live[j].claim_ref() != candidate.claim_ref());
                assert(!windows_meet(live[i], live[j]));
            }
        }
    }
}

/// How a candidate relates to what is believed, one relation in each case.
///
/// Where nothing is believed it contradicts nothing. Otherwise what rests on a superseded claim is
/// found first; what is about another subject contradicts nothing; and what is about another
/// predicate of the same subject is a conflict across lines. On one line a restatement that nothing
/// gainsays contradicts nothing; anything else is a succession where it fits the line, and a
/// conflict where it does not.
pub proof fn law_each_relation_has_its_case(
    candidate: Claim,
    incumbent: Option<Belief>,
    superseded: Seq<ClaimRef>,
    threshold: Score,
    live: Seq<Claim>,
)
    ensures
        ({
            let found = conflict_of(candidate, incumbent, superseded, threshold, live);
            incumbent matches Some(belief) ==> {
                let one_subject = candidate.fact().subject@ == belief.fact.subject@;
                let one_line = one_subject && candidate.fact().predicate@ == belief.fact.predicate@;
                let passes = same_value(candidate.fact().value@, belief.fact.value@) && !gainsaid(
                    candidate,
                    live,
                );
                let derived = rests_on(candidate, superseded);
                let fits = fits_the_line(candidate, live, threshold);
                &&& found == ConflictType::DependsOnSuperseded <==> derived
                &&& found == ConflictType::CrossLineConflict <==> !derived && one_subject
                    && !one_line
                &&& found == ConflictType::NoConflict <==> !derived && (!one_subject || (one_line
                    && passes))
                &&& found == ConflictType::Succession <==> !derived && one_line && !passes && fits
                &&& found == ConflictType::SameLineConflict <==> !derived && one_line && !passes
                    && !fits
            }
        }),
        incumbent is None ==> conflict_of(candidate, incumbent, superseded, threshold, live)
            == ConflictType::NoConflict,
{
    lemma_fitting_is_succession(candidate, live, threshold);
    if derived_from_any(candidate, superseded) {
        let i = choose|i: int|
            0 <= i < candidate.derived_from()@.len() && superseded.contains(
                #[trigger] candidate.derived_from()@[i],
            );
        let k = choose|k: int|
            0 <= k < superseded.len() && superseded[k] == candidate.derived_from()@[i];
        assert(candidate.derived_from()@[i] == superseded[k]);
    }
    if rests_on(candidate, superseded) {
        let (i, k) = choose|i: int, k: int|
            0 <= i < candidate.derived_from()@.len() && 0 <= k < superseded.len()
                && #[trigger] candidate.derived_from()@[i] == #[trigger] superseded[k];
        assert(superseded.contains(candidate.derived_from()@[i]));
    }
    if contradicts_any_in_time(candidate, live) {
        let i = choose|i: int|
            0 <= i < live.len() && contradicts_in_time(candidate, #[trigger] live[i]);
        assert(live[i].claim_ref() != candidate.claim_ref());
    }
    if gainsaid(candidate, live) {
        let i = choose|i: int|
            0 <= i < live.len() && (#[trigger] live[i]).claim_ref() != candidate.claim_ref()
                && !same_value(live[i].fact().value@, candidate.fact().value@) && windows_meet(
                candidate,
                live[i],
            );
        assert(contradicts_in_time(candidate, live[i]));
    }
}

/// A candidate that gives another truth value, another text, another number or a value of another
/// kind on the line of the incumbent is never passed over: it rests on something superseded, it
/// succeeds, or it conflicts.
pub proof fn law_differing_values_are_never_passed_over(
    candidate: Claim,
    belief: Belief,
    superseded: Seq<ClaimRef>,
    threshold: Score,
    live: Seq<Claim>,
)
    requires
        candidate.fact().subject@ == belief.fact.subject@,
        candidate.fact().predicate@ == belief.fact.predicate@,
        ({
            ||| kind_of(candidate.fact().value@) != kind_of(belief.fact.value@)
            ||| candidate.fact().value@ matches JsonValue::Bool(x)
                && belief.fact.value@ matches JsonValue::Bool(y) && x != y
            ||| candidate.fact().value@ matches JsonValue::Text(x)
                && belief.fact.value@ matches JsonValue::Text(y) && x != y
            ||| candidate.fact().value@ matches JsonValue::Number(Number::PosInt(x))
                && belief.fact.value@ matches JsonValue::Number(Number::PosInt(y)) && x != y
            ||| candidate.fact().value@ matches JsonValue::Number(Number::NegInt(x))
                && belief.fact.value@ matches JsonValue::Number(Number::NegInt(y)) && x != y
        }),
    ensures
        conflict_of(candidate, Some(belief), superseded, threshold, live)
            != ConflictType::NoConflict,
        conflict_of(candidate, Some(belief), superseded, threshold, live)
            != ConflictType::CrossLineConflict,
{
    if kind_of(candidate.fact().value@) != kind_of(belief.fact.value@) {
        law_kinds_are_told_apart(candidate.fact().value@, belief.fact.value@);
    }
}

/// What is found of an input goes by the candidate, the incumbent, the superseded claims, the
/// threshold for successions and the live claims, and by nothing else: inputs that agree in these
/// are found alike, however they were measured and whether or not an oracle is there.
pub proof fn law_what_is_found_goes_by_five_things(a: ReconcilerInput, b: ReconcilerInput)
    requires
        *a.candidate == *b.candidate,
        a.incumbent is Some <==> b.incumbent is Some,
        a.incumbent is Some ==> *a.incumbent->0 == *b.incumbent->0,
        a.superseded_claim_refs@ == b.superseded_claim_refs@,
        a.succession_threshold == b.succession_threshold,
        a.all_live_claims@ == b.all_live_claims@,
    ensures
        conflict_in(a) == conflict_in(b),
        a.incumbent is None ==> conflict_in(a) == ConflictType::NoConflict,
        a.incumbent matches Some(belief) ==> conflict_in(a) == conflict_of(
            *a.candidate,
            Some(*belief),
            a.superseded_claim_refs@,
            a.succession_threshold,
            a.all_live_claims@,
        ),
{
}

} // verus!
