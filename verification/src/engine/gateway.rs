//! The gateway: stamps what comes in.
//!
//! A claim gets its identifier and its transaction time here, and keeps the provenance that it came
//! with. Nothing is decided and nothing is stored here.
use std::sync::Arc;

use vstd::prelude::*;

use crate::domain::claim::{
    AgentId, Cardinality, Claim, Confidence, Criticality, ExternalAnchor, Fact, ProvenanceLabel,
    ValidTime,
};
use crate::error::MemError;
use crate::ident::{is_random_uuid, ClaimRef};
use crate::json::Json;
use crate::score::Score;
use crate::time::TransactionTime;

verus! {

/// What comes in.
#[derive(Clone, Debug)]
pub struct IngestInput {
    pub agent_id: AgentId,
    pub fact: Fact,
    pub cardinality: Cardinality,
    /// Required: without it the input is refused.
    pub provenance: Option<ProvenanceLabel>,
    pub external_anchor: ExternalAnchor,
    /// `None` where it is not known when the fact holds.
    pub valid_time: Option<ValidTime>,
    pub confidence: Confidence,
    pub criticality: Criticality,
    pub derived_from: Vec<ClaimRef>,
    pub metadata: Option<Arc<Json>>,
}

/// A stamped claim.
#[derive(Clone, Debug)]
pub struct StampedClaim {
    pub claim: Claim,
}

/// A valid time of which nothing is known.
pub open spec fn unknown_valid_time() -> ValidTime {
    ValidTime {
        start: None,
        end: None,
        valid_time_confidence: Score { bits: 0 },
        start_granularity: None,
        end_granularity: None,
    }
}

/// Whether a claim is the input, stamped with an identifier and a transaction time.
pub open spec fn stamped_from(
    claim: Claim,
    input: IngestInput,
    claim_ref: ClaimRef,
    tx_time: TransactionTime,
) -> bool {
    &&& *claim.claim_ref() == claim_ref
    &&& *claim.agent_id() == input.agent_id
    &&& *claim.fact() == input.fact
    &&& *claim.cardinality() == input.cardinality
    &&& Some(*claim.provenance()) == input.provenance
    &&& *claim.external_anchor() == input.external_anchor
    &&& *claim.transaction_time() == tx_time
    &&& *claim.valid_time() == match input.valid_time {
        Some(valid_time) => valid_time,
        None => unknown_valid_time(),
    }
    &&& *claim.confidence() == input.confidence
    &&& *claim.criticality() == input.criticality
    &&& *claim.derived_from() == input.derived_from
    &&& *claim.metadata() == input.metadata
    &&& claim.snapshot_schema_version() is None
}

/// Stamps the input with a new identifier and with the transaction time that the engine gives.
pub fn stamp(input: IngestInput, tx_time: TransactionTime) -> (r: Result<StampedClaim, MemError>)
    ensures
        r is Ok <==> input.provenance is Some,
        r matches Ok(stamped) ==> is_random_uuid(stamped.claim.claim_ref().0) && stamped_from(
            stamped.claim,
            input,
            *stamped.claim.claim_ref(),
            tx_time,
        ),
        r matches Err(e) ==> e is MissingProvenance,
{
    stamp_as(input, ClaimRef::new_random(), tx_time)
}

/// Stamps the input with this identifier and this transaction time.
pub fn stamp_as(input: IngestInput, claim_ref: ClaimRef, tx_time: TransactionTime) -> (r: Result<
    StampedClaim,
    MemError,
>)
    ensures
        r is Ok <==> input.provenance is Some,
        r matches Ok(stamped) ==> stamped_from(stamped.claim, input, claim_ref, tx_time),
        r matches Err(e) ==> e is MissingProvenance,
{
    let provenance = match input.provenance {
        Some(provenance) => provenance,
        None => {
            return Err(MemError::MissingProvenance);
        },
    };
    let valid_time = match input.valid_time {
        Some(valid_time) => valid_time,
        None => ValidTime {
            start: None,
            end: None,
            valid_time_confidence: Score { bits: 0 },
            start_granularity: None,
            end_granularity: None,
        },
    };
    Ok(
        StampedClaim {
            claim: Claim::new(
                claim_ref,
                input.agent_id,
                input.fact,
                input.cardinality,
                provenance,
                input.external_anchor,
                tx_time,
                valid_time,
                input.confidence,
                input.criticality,
                input.derived_from,
                input.metadata,
                None,
            ),
        },
    )
}

/// The channels by which the write path tells provenance apart.
#[derive(Clone, Copy, Debug, PartialEq, Eq, Structural)]
pub enum ProvenanceClass {
    External,
    RecallReEntry,
    ModelDerived,
}

/// The channel of a provenance label.
pub fn classify_provenance(provenance: &ProvenanceLabel) -> (r: ProvenanceClass)
    ensures
        r == match *provenance {
            ProvenanceLabel::External(_) => ProvenanceClass::External,
            ProvenanceLabel::RecallReEntry => ProvenanceClass::RecallReEntry,
            ProvenanceLabel::ModelDerived => ProvenanceClass::ModelDerived,
        },
{
    match provenance {
        ProvenanceLabel::RecallReEntry => ProvenanceClass::RecallReEntry,
        ProvenanceLabel::External(_) => ProvenanceClass::External,
        ProvenanceLabel::ModelDerived => ProvenanceClass::ModelDerived,
    }
}

} // verus!
