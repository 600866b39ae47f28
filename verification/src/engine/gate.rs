//! The adjudication gate: decides what becomes of a proposal.
//!
//! The decision is a function of the proposal and the parameters: no clock is read, no random number
//! is drawn and nobody is asked. How confident the proposal was measured to be is recorded with the
//! decision and does not change it.
use vstd::prelude::*;

use crate::config::EngineConfig;
use crate::domain::belief::Belief;
use crate::domain::claim::{Cardinality, Claim, ProvenanceLabel};
use crate::domain::records::Disposition;
use crate::json::{
    json_count, json_object, json_score, json_text, member, member_values, score_value, Json,
    JsonValue, Number,
};
use crate::score::Score;

verus! {

/// What is known of a candidate when it is decided about.
#[derive(Clone, Debug)]
pub struct Proposal {
    /// The candidate, as it was stamped.
    pub candidate: Claim,
    /// The belief on the subject line, if there is one.
    pub incumbent: Option<Belief>,
    pub conflict_type: ConflictType,
    /// How confident the proposal was measured to be. It is recorded and decides nothing.
    pub measured_confidence: Score,
    pub cardinality_proposal: Cardinality,
    /// Whether an oracle is there to be asked.
    pub oracle_present: bool,
}

/// How a candidate relates to the incumbent belief.
#[derive(Clone, Copy, Debug, PartialEq, Eq, Structural)]
pub enum ConflictType {
    /// It contradicts nothing.
    NoConflict,
    /// It gives another value on the same subject line.
    SameLineConflict,
    /// It is on another predicate of the same subject.
    CrossLineConflict,
    /// It was derived from a claim that was superseded.
    DependsOnSuperseded,
    /// It follows the incumbent in time, and their windows lie apart.
    Succession,
}

/// Which way a proposal goes.
#[derive(Clone, Copy, Debug, PartialEq, Eq, Structural)]
pub enum Route {
    /// First-hand content that contradicts nothing.
    CheapPath,
    /// Content of a model.
    InferredRoute,
    /// Output of the engine that came back in.
    RecallTainted,
    /// A contradiction of the incumbent.
    HeavyPath,
    /// An impossible window.
    Quarantine,
}

/// What is decided about a proposal.
#[derive(Debug)]
pub struct GateDecision {
    pub route: Route,
    pub disposition: Disposition,
    /// What the decision rests on, for the ledger.
    pub rationale: Json,
}

/// What a [`GateDecision`] stands for.
pub struct Decision {
    pub route: Route,
    pub disposition: Disposition,
    pub rationale: JsonValue,
}

impl View for GateDecision {
    type V = Decision;

    open spec fn view(&self) -> Decision {
        Decision {
            route: self.route,
            disposition: self.disposition,
            rationale: self.rationale@,
        }
    }
}

impl ConflictType {
    /// The name of the conflict type.
    pub open spec fn name_text(self) -> Seq<char> {
        match self {
            ConflictType::NoConflict => "NoConflict"@,
            ConflictType::SameLineConflict => "SameLineConflict"@,
            ConflictType::CrossLineConflict => "CrossLineConflict"@,
            ConflictType::DependsOnSuperseded => "DependsOnSuperseded"@,
            ConflictType::Succession => "Succession"@,
        }
    }

    /// The name of the conflict type.
    pub fn name(&self) -> (r: &'static str)
        ensures
            r@ == self.name_text(),
    {
        match self {
            ConflictType::NoConflict => "NoConflict",
            ConflictType::SameLineConflict => "SameLineConflict",
            ConflictType::CrossLineConflict => "CrossLineConflict",
            ConflictType::DependsOnSuperseded => "DependsOnSuperseded",
            ConflictType::Succession => "Succession",
        }
    }
}

/// Whether a claim's window is impossible: it starts after it ends, or after it was learned. This
/// is asked where the confidence of the valid time reaches the threshold.
pub open spec fn incoherent(claim: Claim, threshold: Score) -> bool {
    let vt = *claim.valid_time();
    &&& vt.valid_time_confidence.reaches(threshold)
    &&& vt.start is Some
    &&& (vt.end is Some && vt.start->0.at() > vt.end->0.at()) || vt.start->0.at()
        > claim.transaction_time().0.at()
}

/// Whether a claim's window is impossible.
pub fn is_temporally_incoherent(claim: &Claim, config: &EngineConfig) -> (r: bool)
    ensures
        r == incoherent(*claim, config.valid_time_confidence_threshold),
{
    let vt = claim.valid_time();
    if !vt.valid_time_confidence.at_least(&config.valid_time_confidence_threshold) {
        return false;
    }
    match vt.start {
        Some(start) => {
            let after_end = match vt.end {
                Some(end) => end.before(&start),
                None => false,
            };
            after_end || claim.transaction_time().0.before(&start)
        },
        None => false,
    }
}

/// A text member of a rationale.
pub open spec fn says(key: Seq<char>, text: Seq<char>) -> (Seq<char>, JsonValue) {
    (key, JsonValue::Text(text))
}

/// Whether a proposal is a first-hand contradiction of the incumbent.
pub open spec fn contradicts_first_hand(proposal: Proposal) -> bool {
    &&& proposal.candidate.provenance() is External
    &&& proposal.conflict_type is SameLineConflict || proposal.conflict_type is CrossLineConflict
}

/// What is decided about a proposal, the first rule that applies first.
pub open spec fn decision(proposal: Proposal, config: EngineConfig) -> Decision {
    let candidate = proposal.candidate;
    if candidate.provenance() is RecallReEntry {
        Decision {
            route: Route::RecallTainted,
            disposition: Disposition::CommittedCheap,
            rationale: JsonValue::Object(seq![says("route"@, "recall_reentry"@)]),
        }
    } else if incoherent(candidate, config.valid_time_confidence_threshold) {
        Decision {
            route: Route::Quarantine,
            disposition: Disposition::Quarantined,
            rationale: JsonValue::Object(
                seq![
                    says("route"@, "quarantine"@),
                    says("reason"@, "incoherent_temporal_window"@),
                ],
            ),
        }
    } else if candidate.provenance() is ModelDerived {
        Decision {
            route: Route::InferredRoute,
            disposition: Disposition::CommittedInferred,
            rationale: JsonValue::Object(
                seq![
                    says("route"@, "inferred"@),
                    (
                        "derivation_depth"@,
                        JsonValue::Number(
                            Number::PosInt(candidate.external_anchor().derivation_depth as u64),
                        ),
                    ),
                ],
            ),
        }
    } else if proposal.conflict_type is NoConflict || proposal.incumbent is None {
        Decision {
            route: Route::CheapPath,
            disposition: Disposition::CommittedCheap,
            rationale: JsonValue::Object(seq![says("route"@, "cheap_path"@)]),
        }
    } else if proposal.conflict_type is Succession {
        Decision {
            route: Route::CheapPath,
            disposition: Disposition::CommittedCheap,
            rationale: JsonValue::Object(
                seq![
                    says("route"@, "succession_cheap_path"@),
                    says("reason"@, "trusted_temporal_succession"@),
                ],
            ),
        }
    } else if contradicts_first_hand(proposal) && !proposal.oracle_present {
        Decision {
            route: Route::HeavyPath,
            disposition: Disposition::Contested,
            rationale: JsonValue::Object(
                seq![
                    says("route"@, "heavy_path_contested_oracle_absent"@),
                    says("conflict_type"@, proposal.conflict_type.name_text()),
                    ("measured_confidence"@, score_value(proposal.measured_confidence)),
                    ("oracle_present"@, JsonValue::Bool(false)),
                ],
            ),
        }
    } else {
        Decision {
            route: Route::HeavyPath,
            disposition: Disposition::QueuedForAdjudication,
            rationale: JsonValue::Object(
                seq![
                    says("route"@, "heavy_path"@),
                    says("conflict_type"@, proposal.conflict_type.name_text()),
                    ("corroboration_count"@, JsonValue::Number(Number::PosInt(0))),
                    ("measured_confidence"@, score_value(proposal.measured_confidence)),
                    ("oracle_present"@, JsonValue::Bool(proposal.oracle_present)),
                ],
            ),
        }
    }
}

fn one_reason(route: &str) -> (r: Json)
    ensures
        r@ == JsonValue::Object(seq![says("route"@, route@)]),
{
    let members = vec![member("route", json_text(route))];
    assert(member_values(members@) =~= seq![says("route"@, route@)]);
    json_object(members)
}

fn two_reasons(route: &str, reason: &str) -> (r: Json)
    ensures
        r@ == JsonValue::Object(seq![says("route"@, route@), says("reason"@, reason@)]),
{
    let members = vec![member("route", json_text(route)), member("reason", json_text(reason))];
    assert(member_values(members@) =~= seq![says("route"@, route@), says("reason"@, reason@)]);
    json_object(members)
}

/// Decides about a proposal.
pub fn adjudicate(proposal: &Proposal, config: &EngineConfig) -> (r: GateDecision)
    ensures
        r@ == decision(*proposal, *config),
{
    if proposal.candidate.provenance().is_recall_reentry() {
        return GateDecision {
            route: Route::RecallTainted,
            disposition: Disposition::CommittedCheap,
            rationale: one_reason("recall_reentry"),
        };
    }
    if is_temporally_incoherent(&proposal.candidate, config) {
        return GateDecision {
            route: Route::Quarantine,
            disposition: Disposition::Quarantined,
            rationale: two_reasons("quarantine", "incoherent_temporal_window"),
        };
    }
    if *proposal.candidate.provenance() == ProvenanceLabel::ModelDerived {
        let depth: u32 = proposal.candidate.external_anchor().derivation_depth;
        let members = vec![
            member("route", json_text("inferred")),
            member("derivation_depth", json_count(depth)),
        ];
        assert(member_values(members@) =~= decision(*proposal, *config).rationale->Object_0);
        return GateDecision {
            route: Route::InferredRoute,
            disposition: Disposition::CommittedInferred,
            rationale: json_object(members),
        };
    }
    if proposal.conflict_type == ConflictType::NoConflict || proposal.incumbent.is_none() {
        return GateDecision {
            route: Route::CheapPath,
            disposition: Disposition::CommittedCheap,
            rationale: one_reason("cheap_path"),
        };
    }
    if proposal.conflict_type == ConflictType::Succession {
        return GateDecision {
            route: Route::CheapPath,
            disposition: Disposition::CommittedCheap,
            rationale: two_reasons("succession_cheap_path", "trusted_temporal_succession"),
        };
    }
    let first_hand = proposal.candidate.provenance().is_cheap_path_eligible() && (
    proposal.conflict_type == ConflictType::SameLineConflict || proposal.conflict_type
        == ConflictType::CrossLineConflict);
    if first_hand && !proposal.oracle_present {
        let members = vec![
            member("route", json_text("heavy_path_contested_oracle_absent")),
            member("conflict_type", json_text(proposal.conflict_type.name())),
            member("measured_confidence", json_score(proposal.measured_confidence)),
            member("oracle_present", Json::Bool(false)),
        ];
        assert(member_values(members@) =~= decision(*proposal, *config).rationale->Object_0);
        return GateDecision {
            route: Route::HeavyPath,
            disposition: Disposition::Contested,
            rationale: json_object(members),
        };
    }
    let members = vec![
        member("route", json_text("heavy_path")),
        member("conflict_type", json_text(proposal.conflict_type.name())),
        member("corroboration_count", json_count(0)),
        member("measured_confidence", json_score(proposal.measured_confidence)),
        member("oracle_present", Json::Bool(proposal.oracle_present)),
    ];
    assert(member_values(members@) =~= decision(*proposal, *config).rationale->Object_0);
    GateDecision {
        route: Route::HeavyPath,
        disposition: Disposition::QueuedForAdjudication,
        rationale: json_object(members),
    }
}

/// A first-hand contradiction of the incumbent with no oracle to ask is contested at once. The
/// incumbent never wins in silence.
pub proof fn law_contradiction_without_oracle_is_contested(
    proposal: Proposal,
    config: EngineConfig,
)
    requires
        contradicts_first_hand(proposal),
        proposal.incumbent is Some,
        !proposal.oracle_present,
        !incoherent(proposal.candidate, config.valid_time_confidence_threshold),
    ensures
        decision(proposal, config).route == Route::HeavyPath,
        decision(proposal, config).disposition == Disposition::Contested,
{
}

/// Nothing else is contested: where an oracle is there it is asked, and content of a model and
/// content that came back in contest nothing.
pub proof fn law_nothing_else_is_contested(proposal: Proposal, config: EngineConfig)
    ensures
        decision(proposal, config).disposition == Disposition::Contested ==> {
            &&& contradicts_first_hand(proposal)
            &&& proposal.incumbent is Some
            &&& !proposal.oracle_present
        },
{
}

/// A first-hand claim that follows the incumbent in time is committed, with or without an oracle.
pub proof fn law_succession_is_committed(proposal: Proposal, config: EngineConfig)
    requires
        proposal.candidate.provenance() is External,
        proposal.conflict_type == ConflictType::Succession,
        !incoherent(proposal.candidate, config.valid_time_confidence_threshold),
    ensures
        decision(proposal, config).route == Route::CheapPath,
        decision(proposal, config).disposition == Disposition::CommittedCheap,
{
}

/// An impossible window is parked, unless the content came back in.
pub proof fn law_impossible_window_is_quarantined(proposal: Proposal, config: EngineConfig)
    ensures
        decision(proposal, config).disposition == Disposition::Quarantined <==> {
            &&& incoherent(proposal.candidate, config.valid_time_confidence_threshold)
            &&& proposal.candidate.provenance() !is RecallReEntry
        },
{
}

/// Content of a model never overturns a belief: it is committed at lower weight, or quarantined.
pub proof fn law_model_content_never_overturns(proposal: Proposal, config: EngineConfig)
    requires
        proposal.candidate.provenance() is ModelDerived,
    ensures
        decision(proposal, config).disposition == Disposition::CommittedInferred || decision(
            proposal,
            config,
        ).disposition == Disposition::Quarantined,
        decision(proposal, config).route != Route::HeavyPath,
        decision(proposal, config).route != Route::CheapPath,
{
}

/// Content that came back in is marked so, whatever else is known of it.
pub proof fn law_reentry_is_always_tainted(proposal: Proposal, config: EngineConfig)
    ensures
        decision(proposal, config).route == Route::RecallTainted
            <==> proposal.candidate.provenance() is RecallReEntry,
{
}

/// The cheap path is for first-hand content alone.
pub proof fn law_cheap_path_is_first_hand(proposal: Proposal, config: EngineConfig)
    ensures
        decision(proposal, config).route == Route::CheapPath
            ==> proposal.candidate.provenance() is External,
{
}

/// The measured confidence changes neither the route nor the disposition.
pub proof fn law_measured_confidence_decides_nothing(
    proposal: Proposal,
    config: EngineConfig,
    other: Score,
)
    ensures
        ({
            let again = Proposal { measured_confidence: other, ..proposal };
            &&& decision(again, config).route == decision(proposal, config).route
            &&& decision(again, config).disposition == decision(proposal, config).disposition
        }),
{
}

/// Whether an oracle is there changes the outcome of first-hand contradictions alone, from
/// contested to queued.
pub proof fn law_oracle_queues_what_was_contested(proposal: Proposal, config: EngineConfig)
    ensures
        ({
            let with = decision(Proposal { oracle_present: true, ..proposal }, config);
            let without = decision(Proposal { oracle_present: false, ..proposal }, config);
            &&& with.route == without.route
            &&& without.disposition == Disposition::Contested ==> with.disposition
                == Disposition::QueuedForAdjudication
            &&& without.disposition != Disposition::Contested ==> with.disposition
                == without.disposition
        }),
{
}

} // verus!
