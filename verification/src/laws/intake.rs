//! Laws on what comes in: how it is stamped, and what the guard lets through.
use vstd::prelude::*;

use crate::config::EngineConfig;
use crate::domain::claim::{Claim, ProvenanceLabel};
use crate::engine::firewall::{verdict, Verdict};
use crate::engine::gateway::{stamped_from, IngestInput};
use crate::ident::ClaimRef;
use crate::text::decimal;
use crate::time::TransactionTime;

verus! {

/// A stamped claim says what came in, of the same origin, with the identifier and the time that it
/// was given and with no others. Where nothing was said of when it holds, it has neither start nor
/// end, and no confidence in them.
pub proof fn law_a_stamped_claim_says_what_came_in(
    claim: Claim,
    input: IngestInput,
    claim_ref: ClaimRef,
    tx_time: TransactionTime,
)
    requires
        stamped_from(claim, input, claim_ref, tx_time),
    ensures
        claim.claim_ref().0 == claim_ref.0,
        claim.transaction_time().0.at() == tx_time.0.at(),
        *claim.agent_id() == input.agent_id,
        claim.fact().subject@ == input.fact.subject@,
        claim.fact().predicate@ == input.fact.predicate@,
        claim.fact().value@ == input.fact.value@,
        *claim.cardinality() == input.cardinality,
        input.provenance == Some(*claim.provenance()),
        claim.external_anchor().derivation_depth == input.external_anchor.derivation_depth,
        *claim.external_anchor() == input.external_anchor,
        claim.confidence().value_confidence == input.confidence.value_confidence,
        claim.confidence().valid_time_confidence == input.confidence.valid_time_confidence,
        *claim.criticality() == input.criticality,
        claim.derived_from()@ == input.derived_from@,
        *claim.metadata() == input.metadata,
        claim.snapshot_schema_version() is None,
        input.valid_time matches Some(given) ==> *claim.valid_time() == given,
        input.valid_time is None ==> {
            &&& claim.valid_time().start is None
            &&& claim.valid_time().end is None
            &&& claim.valid_time().valid_time_confidence.bits == 0
            &&& claim.valid_time().start_granularity is None
            &&& claim.valid_time().end_granularity is None
        },
{
}

/// From the threshold of a burst on everything is quarantined, with both numbers in the reason.
pub proof fn law_bursts_are_quarantined(
    config: EngineConfig,
    candidate: Claim,
    injected: Seq<ClaimRef>,
    count: u32,
)
    requires
        count >= config.quarantine_burst_threshold,
    ensures
        verdict(config, candidate, injected, count) == (Verdict::Quarantine {
            reason: "burst_detected: "@ + decimal(count as nat)
                + " identical re-entries in batch (threshold: "@ + decimal(
                config.quarantine_burst_threshold as nat,
            ) + ")"@,
        }),
{
}

/// Below that threshold output that came back in stands for the first claim that it was derived
/// from; where it names none, for the first that was served; it is never evidence of its own.
pub proof fn law_reentries_stand_for_what_they_restate(
    config: EngineConfig,
    candidate: Claim,
    injected: Seq<ClaimRef>,
    count: u32,
)
    requires
        count < config.quarantine_burst_threshold,
        *candidate.provenance() == ProvenanceLabel::RecallReEntry,
        candidate.derived_from()@.len() > 0 || injected.len() > 0,
    ensures
        verdict(config, candidate, injected, count) == (Verdict::CorroborateByIdentity {
            existing_claim: if candidate.derived_from()@.len() > 0 {
                candidate.derived_from()@[0]
            } else {
                injected[0]
            },
            provenance_independent: false,
        }),
{
}

/// Below that threshold all else goes by how many steps it was derived in: more than the cap are
/// refused, with both numbers, and no more than the cap are let through. Output that came back in
/// and restates nothing known is no exception.
pub proof fn law_depth_decides_the_rest(
    config: EngineConfig,
    candidate: Claim,
    injected: Seq<ClaimRef>,
    count: u32,
)
    requires
        count < config.quarantine_burst_threshold,
        *candidate.provenance() == ProvenanceLabel::RecallReEntry
            ==> candidate.derived_from()@.len() == 0 && injected.len() == 0,
    ensures
        candidate.external_anchor().derivation_depth
            <= config.derivation_depth_cap_for_overturning ==> verdict(
            config,
            candidate,
            injected,
            count,
        ) == Verdict::Admit,
        candidate.external_anchor().derivation_depth
            > config.derivation_depth_cap_for_overturning ==> verdict(
            config,
            candidate,
            injected,
            count,
        ) == (Verdict::DepthCapExceeded {
            depth: candidate.external_anchor().derivation_depth,
            cap: config.derivation_depth_cap_for_overturning,
        }),
{
}

} // verus!
