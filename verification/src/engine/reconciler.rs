//! The reconciler: finds out how a candidate relates to what is believed.
//!
//! The reconciler proposes and never commits. What it finds out is a function of what is handed in.
use vstd::prelude::*;

use crate::config::EngineConfig;
use crate::domain::belief::Belief;
use crate::domain::claim::{Cardinality, Claim};
use crate::engine::gate::{ConflictType, Proposal};
use crate::engine::valid_time_helpers::{
    is_trusted_succession, trusted, trusted_succession, windows_apart, windows_non_overlapping,
};
use crate::ident::ClaimRef;
use crate::json::same_value;
use crate::score::Score;
use crate::sequences::{lemma_filter_next, lemma_filter_none};

verus! {

/// What the reconciler is handed about one candidate.
#[derive(Debug)]
pub struct ReconcilerInput<'a> {
    pub candidate: &'a Claim,
    /// The belief on the subject line, if there is one.
    pub incumbent: Option<&'a Belief>,
    /// The claims that are superseded or invalidated.
    pub superseded_claim_refs: &'a [ClaimRef],
    /// How confident the proposal was measured to be.
    pub measured_confidence: Score,
    pub cardinality_proposal: Cardinality,
    /// Whether an oracle is there to be asked.
    pub oracle_present: bool,
    /// From this confidence on a valid time is trusted.
    pub succession_threshold: Score,
    /// The live claims of the subject line. The candidate may be among them.
    pub all_live_claims: &'a [Claim],
}

/// Whether a claim was derived from one of these.
pub open spec fn derived_from_any(candidate: Claim, refs: Seq<ClaimRef>) -> bool {
    exists|i: int|
        0 <= i < candidate.derived_from()@.len() && refs.contains(
            #[trigger] candidate.derived_from()@[i],
        )
}

/// Whether two claims are different claims with different values and with windows that overlap.
/// Claims without a start are not compared.
pub open spec fn contradicts_in_time(candidate: Claim, other: Claim) -> bool {
    &&& other.claim_ref() != candidate.claim_ref()
    &&& !same_value(other.fact().value@, candidate.fact().value@)
    &&& candidate.valid_time().start is Some
    &&& other.valid_time().start is Some
    &&& !windows_apart(*candidate.valid_time(), *other.valid_time())
}

/// Whether the candidate contradicts some live claim in time.
pub open spec fn contradicts_any_in_time(candidate: Claim, live: Seq<Claim>) -> bool {
    exists|i: int| 0 <= i < live.len() && contradicts_in_time(candidate, #[trigger] live[i])
}

/// Whether a claim is another one than that with the reference.
pub open spec fn other_than(claim_ref: ClaimRef) -> spec_fn(Claim) -> bool {
    |claim: Claim| *claim.claim_ref() != claim_ref
}

/// The candidate and all other live claims.
pub open spec fn line_with(candidate: Claim, live: Seq<Claim>) -> Seq<Claim> {
    seq![candidate] + live.filter(other_than(*candidate.claim_ref()))
}

/// How a candidate relates to what is believed.
pub open spec fn conflict_of(
    candidate: Claim,
    incumbent: Option<Belief>,
    superseded: Seq<ClaimRef>,
    threshold: Score,
    live: Seq<Claim>,
) -> ConflictType {
    match incumbent {
        None => ConflictType::NoConflict,
        Some(belief) => {
            let same_subject = candidate.fact().subject@ == belief.fact.subject@;
            let same_predicate = candidate.fact().predicate@ == belief.fact.predicate@;
            let restated = same_value(candidate.fact().value@, belief.fact.value@);
            if derived_from_any(candidate, superseded) {
                ConflictType::DependsOnSuperseded
            } else if !same_subject {
                ConflictType::NoConflict
            } else if !same_predicate {
                ConflictType::CrossLineConflict
            } else if restated && !contradicts_any_in_time(candidate, live) {
                ConflictType::NoConflict
            } else if trusted_succession(line_with(candidate, live), threshold) {
                ConflictType::Succession
            } else {
                ConflictType::SameLineConflict
            }
        },
    }
}

/// What [`ReconcilerInput`] asks [`conflict_of`].
pub open spec fn conflict_in(input: ReconcilerInput) -> ConflictType {
    conflict_of(
        *input.candidate,
        match input.incumbent {
            Some(belief) => Some(*belief),
            None => None,
        },
        input.superseded_claim_refs@,
        input.succession_threshold,
        input.all_live_claims@,
    )
}

fn is_derived_from_any(candidate: &Claim, refs: &[ClaimRef]) -> (r: bool)
    ensures
        r == derived_from_any(*candidate, refs@),
{
    let lineage = candidate.derived_from();
    let mut i: usize = 0;
    while i < lineage.len()
        invariant
            i <= lineage.len(),
            lineage == candidate.derived_from(),
            forall|k: int| 0 <= k < i ==> !refs@.contains(#[trigger] lineage@[k]),
        decreases lineage.len() - i,
    {
        let mut j: usize = 0;
        while j < refs.len()
            invariant
                i < lineage.len(),
                j <= refs.len(),
                lineage == candidate.derived_from(),
                forall|k: int| 0 <= k < j ==> #[trigger] refs@[k] != lineage@[i as int],
            decreases refs.len() - j,
        {
            if refs[j] == lineage[i] {
                assert(refs@[j as int] == lineage@[i as int]);
                assert(refs@.contains(candidate.derived_from()@[i as int]));
                return true;
            }
            j += 1;
        }
        i += 1;
    }
    false
}

fn is_contradicted_in_time(candidate: &Claim, live: &[Claim]) -> (r: bool)
    ensures
        r == contradicts_any_in_time(*candidate, live@),
{
    if candidate.valid_time().start.is_none() {
        return false;
    }
    let mut i: usize = 0;
    while i < live.len()
        invariant
            i <= live.len(),
            candidate.valid_time().start is Some,
            forall|k: int| 0 <= k < i ==> !contradicts_in_time(*candidate, #[trigger] live@[k]),
        decreases live.len() - i,
    {
        let other = &live[i];
        if *other.claim_ref() != *candidate.claim_ref() && !other.fact().value.same(
            &candidate.fact().value,
        ) && other.valid_time().start.is_some() && !windows_non_overlapping(candidate, other) {
            assert(contradicts_in_time(*candidate, live@[i as int]));
            return true;
        }
        i += 1;
    }
    false
}

fn forms_succession(candidate: &Claim, live: &[Claim], threshold: Score) -> (r: bool)
    ensures
        r == trusted_succession(line_with(*candidate, live@), threshold),
{
    let ghost others = other_than(*candidate.claim_ref());
    let mut line: Vec<&Claim> = Vec::new();
    line.push(candidate);
    let mut i: usize = 0;
    proof {
        lemma_filter_none(live@, others);
    }
    assert(line@.unref() =~= seq![*candidate] + live@.take(0).filter(others));
    while i < live.len()
        invariant
            i <= live.len(),
            others == other_than(*candidate.claim_ref()),
            line@.unref() == seq![*candidate] + live@.take(i as int).filter(others),
        decreases live.len() - i,
    {
        let ghost before = line@.unref();
        proof {
            lemma_filter_next(live@, i as int, others);
        }
        if *live[i].claim_ref() != *candidate.claim_ref() {
            line.push(&live[i]);
            assert(line@.unref() =~= before.push(live@[i as int]));
        }
        i += 1;
        assert(line@.unref() =~= seq![*candidate] + live@.take(i as int).filter(others));
    }
    proof {
        lemma_filter_none(live@, others);
    }
    is_trusted_succession(line.as_slice(), threshold)
}

/// How the candidate relates to what is believed.
///
/// Without an incumbent it contradicts nothing. A candidate that was derived from a superseded
/// claim needs review. On the same subject line it contradicts nothing where it restates the
/// incumbent's value and contradicts no live claim in time; otherwise it is a succession where the
/// windows of the whole line are trusted and lie apart, and a conflict where they do not. On
/// another predicate of the same subject it is a conflict across lines.
pub fn classify_conflict(input: &ReconcilerInput<'_>) -> (r: ConflictType)
    ensures
        r == conflict_in(*input),
{
    let incumbent = match input.incumbent {
        Some(belief) => belief,
        None => {
            return ConflictType::NoConflict;
        },
    };
    let candidate = input.candidate;
    if is_derived_from_any(candidate, input.superseded_claim_refs) {
        return ConflictType::DependsOnSuperseded;
    }
    if candidate.fact().subject != incumbent.fact.subject {
        return ConflictType::NoConflict;
    }
    if candidate.fact().predicate != incumbent.fact.predicate {
        return ConflictType::CrossLineConflict;
    }
    if candidate.fact().value.same(&incumbent.fact.value) && !is_contradicted_in_time(
        candidate,
        input.all_live_claims,
    ) {
        return ConflictType::NoConflict;
    }
    if forms_succession(candidate, input.all_live_claims, input.succession_threshold) {
        ConflictType::Succession
    } else {
        ConflictType::SameLineConflict
    }
}

/// Builds the proposal for a candidate. It commits nothing.
pub fn reconcile(input: ReconcilerInput<'_>, config: &EngineConfig) -> (r: Proposal)
    ensures
        r.candidate == *input.candidate,
        r.incumbent == match input.incumbent {
            Some(belief) => Some(*belief),
            None => None,
        },
        r.conflict_type == conflict_in(input),
        r.measured_confidence == input.measured_confidence,
        r.cardinality_proposal == input.cardinality_proposal,
        r.oracle_present == input.oracle_present,
{
    let conflict_type = classify_conflict(&input);
    Proposal {
        candidate: input.candidate.clone(),
        incumbent: match input.incumbent {
            Some(belief) => Some(belief.clone()),
            None => None,
        },
        conflict_type,
        measured_confidence: input.measured_confidence,
        cardinality_proposal: input.cardinality_proposal,
        oracle_present: input.oracle_present,
    }
}

/// The first claim of a subject line contradicts nothing.
pub proof fn law_first_write_is_no_conflict(
    candidate: Claim,
    superseded: Seq<ClaimRef>,
    threshold: Score,
    live: Seq<Claim>,
)
    ensures
        conflict_of(candidate, None, superseded, threshold, live) == ConflictType::NoConflict,
{
}

/// A succession is granted against the whole line alone: a candidate whose window overlaps that of
/// any other live claim is never a succession, whichever of them is the incumbent.
pub proof fn law_succession_is_granted_by_the_whole_line(
    candidate: Claim,
    incumbent: Option<Belief>,
    superseded: Seq<ClaimRef>,
    threshold: Score,
    live: Seq<Claim>,
    i: int,
)
    requires
        0 <= i < live.len(),
        live[i].claim_ref() != candidate.claim_ref(),
        conflict_of(candidate, incumbent, superseded, threshold, live) == ConflictType::Succession,
    ensures
        trusted(*candidate.valid_time(), threshold),
        trusted(*live[i].valid_time(), threshold),
        windows_apart(*candidate.valid_time(), *live[i].valid_time()),
{
    broadcast use vstd::seq_lib::group_filter_ensures;

    let others = other_than(*candidate.claim_ref());
    let kept = live.filter(others);
    let line = line_with(candidate, live);
    assert(others(live[i]));
    assert(kept.contains(live[i]));
    let k = choose|k: int| 0 <= k < kept.len() && kept[k] == live[i];
    assert(line[0] == candidate);
    assert(line[k + 1] == live[i]);
    assert(windows_apart(*line[0].valid_time(), *line[k + 1].valid_time()));
}

/// A restatement of the incumbent's value contradicts nothing, unless its window overlaps that of
/// a live claim with another value; and then it is not taken for a restatement.
pub proof fn law_restatement_must_not_overlap_another_value(
    candidate: Claim,
    incumbent: Belief,
    superseded: Seq<ClaimRef>,
    threshold: Score,
    live: Seq<Claim>,
)
    requires
        !derived_from_any(candidate, superseded),
        candidate.fact().subject@ == incumbent.fact.subject@,
        candidate.fact().predicate@ == incumbent.fact.predicate@,
        same_value(candidate.fact().value@, incumbent.fact.value@),
    ensures
        ({
            let found = conflict_of(candidate, Some(incumbent), superseded, threshold, live);
            &&& !contradicts_any_in_time(candidate, live) ==> found == ConflictType::NoConflict
            &&& contradicts_any_in_time(candidate, live) ==> found
                == ConflictType::SameLineConflict
        }),
{
    if contradicts_any_in_time(candidate, live) {
        let i = choose|i: int|
            0 <= i < live.len() && contradicts_in_time(candidate, #[trigger] live[i]);
        if conflict_of(candidate, Some(incumbent), superseded, threshold, live)
            == ConflictType::Succession {
            law_succession_is_granted_by_the_whole_line(
                candidate,
                Some(incumbent),
                superseded,
                threshold,
                live,
                i,
            );
        }
    }
}

/// Another value on the same subject line is a succession or a conflict, and never passed over.
pub proof fn law_another_value_is_never_passed_over(
    candidate: Claim,
    incumbent: Belief,
    superseded: Seq<ClaimRef>,
    threshold: Score,
    live: Seq<Claim>,
)
    requires
        candidate.fact().subject@ == incumbent.fact.subject@,
        candidate.fact().predicate@ == incumbent.fact.predicate@,
        !same_value(candidate.fact().value@, incumbent.fact.value@),
    ensures
        conflict_of(candidate, Some(incumbent), superseded, threshold, live)
            != ConflictType::NoConflict,
        conflict_of(candidate, Some(incumbent), superseded, threshold, live)
            != ConflictType::CrossLineConflict,
{
}

/// Whether the candidate itself stands among the live claims makes no difference.
pub proof fn law_candidate_among_live_claims_is_ignored(
    candidate: Claim,
    incumbent: Option<Belief>,
    superseded: Seq<ClaimRef>,
    threshold: Score,
    live: Seq<Claim>,
)
    ensures
        conflict_of(candidate, incumbent, superseded, threshold, live.push(candidate))
            == conflict_of(candidate, incumbent, superseded, threshold, live),
{
    reveal(Seq::filter);
    let with = live.push(candidate);
    assert(with.drop_last() =~= live);
    if contradicts_any_in_time(candidate, live) {
        let i = choose|i: int|
            0 <= i < live.len() && contradicts_in_time(candidate, #[trigger] live[i]);
        assert(contradicts_in_time(candidate, with[i]));
    }
    if contradicts_any_in_time(candidate, with) {
        let i = choose|i: int|
            0 <= i < with.len() && contradicts_in_time(candidate, #[trigger] with[i]);
        assert(contradicts_in_time(candidate, live[i]));
    }
}

} // verus!
