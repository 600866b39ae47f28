//! Laws on what becomes of a proposal.
use vstd::prelude::*;

use crate::config::EngineConfig;
use crate::domain::claim::{Claim, ProvenanceLabel};
use crate::domain::records::Disposition;
use crate::engine::gate::{decision, incoherent, ConflictType, Proposal, Route};
use crate::json::{score_value, JsonValue, Number};
use crate::score::Score;

verus! {

/// Whether a rationale has so many members, and this one among them.
pub open spec fn tells(
    rationale: JsonValue,
    count: nat,
    key: Seq<char>,
    value: JsonValue,
) -> bool {
    rationale matches JsonValue::Object(members) && members.len() == count && members.contains(
        (key, value),
    )
}

/// Whether a claim starts after it ends, or after it was written.
pub open spec fn starts_too_late(claim: Claim) -> bool {
    claim.valid_time().start matches Some(start) && ((claim.valid_time().end matches Some(end)
        && end.at() < start.at()) || claim.transaction_time().0.at() < start.at())
}

/// A window is impossible where it starts too late and its confidence reaches the threshold. A
/// window that ends where it starts, or starts when it was written, is possible; and what is not
/// trusted is not called impossible.
pub proof fn law_impossible_windows_start_too_late(claim: Claim, threshold: Score)
    ensures
        incoherent(claim, threshold) <==> starts_too_late(claim)
            && claim.valid_time().valid_time_confidence.reaches(threshold),
        claim.valid_time().start is None ==> !incoherent(claim, threshold),
{
}

proof fn lemma_member(members: Seq<(Seq<char>, JsonValue)>, k: int)
    requires
        0 <= k < members.len(),
    ensures
        members.contains(members[k]),
{
}

/// Output that came back in is taken up cheaply and marked as tainted, whatever it says and
/// whatever it contradicts: nothing else of it is looked at.
pub proof fn law_reentries_are_tainted(proposal: Proposal, config: EngineConfig)
    requires
        *proposal.candidate.provenance() == ProvenanceLabel::RecallReEntry,
    ensures
        decision(proposal, config).route == Route::RecallTainted,
        decision(proposal, config).disposition == Disposition::CommittedCheap,
        tells(
            decision(proposal, config).rationale,
            1,
            "route"@,
            JsonValue::Text("recall_reentry"@),
        ),
{
    let members = decision(proposal, config).rationale->Object_0;
    lemma_member(members, 0);
}

/// Anything else with a trusted window that starts too late is quarantined, whatever its origin and
/// whatever it contradicts; and nothing is quarantined besides.
pub proof fn law_impossible_windows_are_quarantined(proposal: Proposal, config: EngineConfig)
    ensures
        ({
            let impossible = *proposal.candidate.provenance() != ProvenanceLabel::RecallReEntry
                && starts_too_late(proposal.candidate)
                && proposal.candidate.valid_time().valid_time_confidence.reaches(
                config.valid_time_confidence_threshold,
            );
            let decided = decision(proposal, config);
            &&& decided.route == Route::Quarantine <==> impossible
            &&& decided.disposition == Disposition::Quarantined <==> impossible
            &&& impossible ==> tells(
                decided.rationale,
                2,
                "route"@,
                JsonValue::Text("quarantine"@),
            ) && tells(
                decided.rationale,
                2,
                "reason"@,
                JsonValue::Text("incoherent_temporal_window"@),
            )
        }),
{
    if decision(proposal, config).route == Route::Quarantine {
        let members = decision(proposal, config).rationale->Object_0;
        lemma_member(members, 0);
        lemma_member(members, 1);
    }
}

/// What a model derived is taken up as inferred, whatever it contradicts and however it was
/// measured; the steps of its derivation are noted.
pub proof fn law_model_content_is_inferred(proposal: Proposal, config: EngineConfig)
    requires
        *proposal.candidate.provenance() == ProvenanceLabel::ModelDerived,
        !incoherent(proposal.candidate, config.valid_time_confidence_threshold),
    ensures
        decision(proposal, config).route == Route::InferredRoute,
        decision(proposal, config).disposition == Disposition::CommittedInferred,
        tells(decision(proposal, config).rationale, 2, "route"@, JsonValue::Text("inferred"@)),
        tells(
            decision(proposal, config).rationale,
            2,
            "derivation_depth"@,
            JsonValue::Number(
                Number::PosInt(proposal.candidate.external_anchor().derivation_depth as u64),
            ),
        ),
{
    let members = decision(proposal, config).rationale->Object_0;
    lemma_member(members, 0);
    lemma_member(members, 1);
}

/// First-hand content that contradicts nothing, or finds nothing to contradict, is taken up
/// cheaply; and so is what succeeds in time, which says so.
pub proof fn law_uncontradicting_content_is_taken_up(proposal: Proposal, config: EngineConfig)
    requires
        proposal.candidate.provenance() is External,
        !incoherent(proposal.candidate, config.valid_time_confidence_threshold),
        proposal.incumbent is None || proposal.conflict_type == ConflictType::NoConflict
            || proposal.conflict_type == ConflictType::Succession,
    ensures
        ({
            let decided = decision(proposal, config);
            let succeeds = proposal.incumbent is Some && proposal.conflict_type
                == ConflictType::Succession;
            &&& decided.route == Route::CheapPath
            &&& decided.disposition == Disposition::CommittedCheap
            &&& !succeeds ==> tells(decided.rationale, 1, "route"@, JsonValue::Text("cheap_path"@))
            &&& succeeds ==> tells(
                decided.rationale,
                2,
                "route"@,
                JsonValue::Text("succession_cheap_path"@),
            ) && tells(
                decided.rationale,
                2,
                "reason"@,
                JsonValue::Text("trusted_temporal_succession"@),
            )
        }),
{
    let members = decision(proposal, config).rationale->Object_0;
    lemma_member(members, 0);
    if members.len() > 1 {
        lemma_member(members, 1);
    }
}

/// First-hand content that contradicts the incumbent, on its line or across lines, is contested
/// where there is no oracle and queued where there is one; what rests on a superseded claim is
/// queued in either case. What was measured is noted and decides nothing.
pub proof fn law_contradictions_are_contested_or_queued(proposal: Proposal, config: EngineConfig)
    requires
        proposal.candidate.provenance() is External,
        !incoherent(proposal.candidate, config.valid_time_confidence_threshold),
        proposal.incumbent is Some,
        proposal.conflict_type == ConflictType::SameLineConflict || proposal.conflict_type
            == ConflictType::CrossLineConflict || proposal.conflict_type
            == ConflictType::DependsOnSuperseded,
    ensures
        ({
            let decided = decision(proposal, config);
            let contested = !proposal.oracle_present && proposal.conflict_type
                != ConflictType::DependsOnSuperseded;
            let count: nat = if contested {
                4
            } else {
                5
            };
            &&& decided.route == Route::HeavyPath
            &&& contested ==> decided.disposition == Disposition::Contested
            &&& !contested ==> decided.disposition == Disposition::QueuedForAdjudication
            &&& contested ==> tells(
                decided.rationale,
                count,
                "route"@,
                JsonValue::Text("heavy_path_contested_oracle_absent"@),
            )
            &&& !contested ==> tells(
                decided.rationale,
                count,
                "route"@,
                JsonValue::Text("heavy_path"@),
            )
            &&& !contested ==> tells(
                decided.rationale,
                count,
                "corroboration_count"@,
                JsonValue::Number(Number::PosInt(0)),
            )
            &&& proposal.conflict_type == ConflictType::SameLineConflict ==> tells(
                decided.rationale,
                count,
                "conflict_type"@,
                JsonValue::Text("SameLineConflict"@),
            )
            &&& proposal.conflict_type == ConflictType::CrossLineConflict ==> tells(
                decided.rationale,
                count,
                "conflict_type"@,
                JsonValue::Text("CrossLineConflict"@),
            )
            &&& proposal.conflict_type == ConflictType::DependsOnSuperseded ==> tells(
                decided.rationale,
                count,
                "conflict_type"@,
                JsonValue::Text("DependsOnSuperseded"@),
            )
            &&& tells(
                decided.rationale,
                count,
                "measured_confidence"@,
                score_value(proposal.measured_confidence),
            )
            &&& tells(
                decided.rationale,
                count,
                "oracle_present"@,
                JsonValue::Bool(proposal.oracle_present),
            )
        }),
{
    let members = decision(proposal, config).rationale->Object_0;
    lemma_member(members, 0);
    lemma_member(members, 1);
    lemma_member(members, 2);
    lemma_member(members, 3);
    if members.len() > 4 {
        lemma_member(members, 4);
    }
}

/// A measured number is noted as it is; what is not a finite number is noted as nothing.
pub proof fn law_measured_numbers_are_noted(score: Score)
    ensures
        score.is_finite_number() ==> score_value(score) == JsonValue::Number(Number::Float(score)),
        !score.is_finite_number() ==> score_value(score) == JsonValue::Null,
{
}

/// What was measured, and the cardinality that was proposed, change neither the way that a proposal
/// goes nor what becomes of it.
pub proof fn law_measurements_decide_nothing(
    proposal: Proposal,
    other: Proposal,
    config: EngineConfig,
)
    requires
        proposal.candidate == other.candidate,
        proposal.incumbent == other.incumbent,
        proposal.conflict_type == other.conflict_type,
        proposal.oracle_present == other.oracle_present,
    ensures
        decision(proposal, config).route == decision(other, config).route,
        decision(proposal, config).disposition == decision(other, config).disposition,
{
}

} // verus!
