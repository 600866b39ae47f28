//! Claims: immutable statements with provenance, confidence and a valid-time window.
use std::sync::Arc;

use vstd::prelude::*;

use crate::ident::ClaimRef;
use crate::json::Json;
use crate::score::Score;
use crate::time::{Timestamp, TransactionTime};

verus! {

/// Calls `Arc::clone`: a second pointer to the same value.
#[verifier::external_body]
pub(crate) fn share<T>(value: &Arc<T>) -> (r: Arc<T>)
    ensures
        r == *value,
{
    Arc::clone(value)
}

/// Names the agent whose memory a record belongs to.
#[derive(Debug, PartialEq, Eq, Hash)]
pub struct AgentId(pub String);

impl Clone for AgentId {
    fn clone(&self) -> (r: Self)
        ensures
            r == *self,
    {
        AgentId(self.0.clone())
    }
}

/// What a claim states: a value for a predicate of a subject.
#[derive(Debug)]
pub struct Fact {
    pub subject: String,
    pub predicate: String,
    pub value: Arc<Json>,
}

impl Clone for Fact {
    fn clone(&self) -> (r: Self)
        ensures
            r == *self,
    {
        Fact {
            subject: self.subject.clone(),
            predicate: self.predicate.clone(),
            value: share(&self.value),
        }
    }
}

/// How many values a predicate takes at one time.
#[derive(Clone, Copy, Debug, PartialEq, Eq, Structural, Hash)]
#[non_exhaustive]
pub enum Cardinality {
    /// One value at a time.
    Functional,
    /// Any number of values at a time.
    SetValued,
}

/// Where first-hand content came from.
#[derive(Clone, Copy, Debug, PartialEq, Eq, Structural, Hash)]
#[non_exhaustive]
pub enum ExternalKind {
    /// A human said so.
    UserAsserted,
    /// A tool or a system of record said so.
    ExternalFirstHand,
}

/// The channel through which a claim came in. Assigned at injection, and immutable.
#[derive(Clone, Copy, Debug, PartialEq, Eq, Structural, Hash)]
#[non_exhaustive]
pub enum ProvenanceLabel {
    /// First-hand content.
    External(ExternalKind),
    /// Output of the engine that comes back in.
    RecallReEntry,
    /// Content that a model emitted or inferred.
    ModelDerived,
}

impl ProvenanceLabel {
    /// Whether the content is output of the engine that comes back in.
    pub fn is_recall_reentry(&self) -> (r: bool)
        ensures
            r == (*self is RecallReEntry),
    {
        matches!(self, ProvenanceLabel::RecallReEntry)
    }

    /// Whether the content may be committed on the cheap path: first-hand content alone may.
    pub fn is_cheap_path_eligible(&self) -> (r: bool)
        ensures
            r == (*self is External),
    {
        matches!(self, ProvenanceLabel::External(_))
    }
}

/// How far a claim is from first-hand content.
#[derive(Clone, Copy, Debug, PartialEq, Eq, Structural, Hash)]
pub struct ExternalAnchor {
    pub nearest_external_anchor: Option<ClaimRef>,
    pub derivation_depth: u32,
}

/// The precision to which a date was given. It is for display only.
#[derive(Clone, Copy, Debug, PartialEq, Eq, Structural, Hash)]
#[non_exhaustive]
pub enum DateGranularity {
    Year,
    Month,
    Day,
    Instant,
}

/// The window in which a fact is said to hold, from `start` up to but without `end`.
#[derive(Clone, Copy, Debug, PartialEq, Eq, Structural, Hash)]
pub struct ValidTime {
    pub start: Option<Timestamp>,
    /// `None` stands for "until further notice".
    pub end: Option<Timestamp>,
    pub valid_time_confidence: Score,
    pub start_granularity: Option<DateGranularity>,
    pub end_granularity: Option<DateGranularity>,
}

impl ValidTime {
    /// Whether neither end of the window is known.
    pub fn is_unknown(&self) -> (r: bool)
        ensures
            r == (self.start is None && self.end is None),
    {
        self.start.is_none() && self.end.is_none()
    }
}

/// How confident the source is in the value and in the valid time.
#[derive(Clone, Copy, Debug, PartialEq, Eq, Structural, Hash)]
pub struct Confidence {
    pub value_confidence: Score,
    pub valid_time_confidence: Score,
}

/// How much rests on a claim.
#[derive(Clone, Copy, Debug, PartialEq, Eq, Structural, PartialOrd, Ord, Hash)]
#[non_exhaustive]
pub enum Criticality {
    Low,
    Medium,
    High,
}

impl Criticality {
    /// The place of this level among the levels, the lowest first.
    pub open spec fn level(self) -> int {
        match self {
            Criticality::Low => 0,
            Criticality::Medium => 1,
            Criticality::High => 2,
        }
    }

    /// Whether this level is higher than `other`.
    pub fn exceeds(&self, other: &Criticality) -> (r: bool)
        ensures
            r == (self.level() > other.level()),
    {
        match (self, other) {
            (Criticality::High, Criticality::High) => false,
            (Criticality::High, _) => true,
            (Criticality::Medium, Criticality::Low) => true,
            _ => false,
        }
    }
}

/// A claim. It is written once; nothing changes it afterwards.
#[derive(Debug)]
pub struct Claim {
    claim_ref: ClaimRef,
    agent_id: AgentId,
    fact: Fact,
    cardinality: Cardinality,
    provenance: ProvenanceLabel,
    external_anchor: ExternalAnchor,
    transaction_time: TransactionTime,
    valid_time: ValidTime,
    confidence: Confidence,
    criticality: Criticality,
    derived_from: Arc<Vec<ClaimRef>>,
    metadata: Option<Arc<Json>>,
    snapshot_schema_version: Option<u32>,
}

impl Clone for Claim {
    fn clone(&self) -> (r: Self)
        ensures
            r == *self,
    {
        self.with_valid_time(self.valid_time)
    }
}

impl Claim {
    pub closed spec fn spec_claim_ref(&self) -> &ClaimRef {
        &self.claim_ref
    }

    pub closed spec fn spec_agent_id(&self) -> &AgentId {
        &self.agent_id
    }

    pub closed spec fn spec_fact(&self) -> &Fact {
        &self.fact
    }

    pub closed spec fn spec_cardinality(&self) -> &Cardinality {
        &self.cardinality
    }

    pub closed spec fn spec_provenance(&self) -> &ProvenanceLabel {
        &self.provenance
    }

    pub closed spec fn spec_external_anchor(&self) -> &ExternalAnchor {
        &self.external_anchor
    }

    pub closed spec fn spec_transaction_time(&self) -> &TransactionTime {
        &self.transaction_time
    }

    pub closed spec fn spec_valid_time(&self) -> &ValidTime {
        &self.valid_time
    }

    pub closed spec fn spec_confidence(&self) -> &Confidence {
        &self.confidence
    }

    pub closed spec fn spec_criticality(&self) -> &Criticality {
        &self.criticality
    }

    pub closed spec fn spec_derived_from(&self) -> &Vec<ClaimRef> {
        &*self.derived_from
    }

    pub closed spec fn spec_metadata(&self) -> &Option<Arc<Json>> {
        &self.metadata
    }

    pub closed spec fn spec_snapshot_schema_version(&self) -> Option<u32> {
        self.snapshot_schema_version
    }

    /// The same claim with another valid-time window.
    pub closed spec fn over_window(self, valid_time: ValidTime) -> Claim {
        Claim { valid_time, ..self }
    }

    /// Mints a claim with these parts.
    pub fn new(
        claim_ref: ClaimRef,
        agent_id: AgentId,
        fact: Fact,
        cardinality: Cardinality,
        provenance: ProvenanceLabel,
        external_anchor: ExternalAnchor,
        transaction_time: TransactionTime,
        valid_time: ValidTime,
        confidence: Confidence,
        criticality: Criticality,
        derived_from: Vec<ClaimRef>,
        metadata: Option<Arc<Json>>,
        snapshot_schema_version: Option<u32>,
    ) -> (r: Claim)
        ensures
            *r.claim_ref() == claim_ref,
            *r.agent_id() == agent_id,
            *r.fact() == fact,
            *r.cardinality() == cardinality,
            *r.provenance() == provenance,
            *r.external_anchor() == external_anchor,
            *r.transaction_time() == transaction_time,
            *r.valid_time() == valid_time,
            *r.confidence() == confidence,
            *r.criticality() == criticality,
            *r.derived_from() == derived_from,
            *r.metadata() == metadata,
            r.snapshot_schema_version() == snapshot_schema_version,
    {
        Claim {
            claim_ref,
            agent_id,
            fact,
            cardinality,
            provenance,
            external_anchor,
            transaction_time,
            valid_time,
            confidence,
            criticality,
            derived_from: Arc::new(derived_from),
            metadata,
            snapshot_schema_version,
        }
    }

    #[verifier::when_used_as_spec(spec_claim_ref)]
    pub fn claim_ref(&self) -> (r: &ClaimRef)
        ensures
            r == self.claim_ref(),
    {
        &self.claim_ref
    }

    #[verifier::when_used_as_spec(spec_agent_id)]
    pub fn agent_id(&self) -> (r: &AgentId)
        ensures
            r == self.agent_id(),
    {
        &self.agent_id
    }

    #[verifier::when_used_as_spec(spec_fact)]
    pub fn fact(&self) -> (r: &Fact)
        ensures
            r == self.fact(),
    {
        &self.fact
    }

    #[verifier::when_used_as_spec(spec_cardinality)]
    pub fn cardinality(&self) -> (r: &Cardinality)
        ensures
            r == self.cardinality(),
    {
        &self.cardinality
    }

    #[verifier::when_used_as_spec(spec_provenance)]
    pub fn provenance(&self) -> (r: &ProvenanceLabel)
        ensures
            r == self.provenance(),
    {
        &self.provenance
    }

    #[verifier::when_used_as_spec(spec_external_anchor)]
    pub fn external_anchor(&self) -> (r: &ExternalAnchor)
        ensures
            r == self.external_anchor(),
    {
        &self.external_anchor
    }

    #[verifier::when_used_as_spec(spec_transaction_time)]
    pub fn transaction_time(&self) -> (r: &TransactionTime)
        ensures
            r == self.transaction_time(),
    {
        &self.transaction_time
    }

    #[verifier::when_used_as_spec(spec_valid_time)]
    pub fn valid_time(&self) -> (r: &ValidTime)
        ensures
            r == self.valid_time(),
    {
        &self.valid_time
    }

    #[verifier::when_used_as_spec(spec_confidence)]
    pub fn confidence(&self) -> (r: &Confidence)
        ensures
            r == self.confidence(),
    {
        &self.confidence
    }

    #[verifier::when_used_as_spec(spec_criticality)]
    pub fn criticality(&self) -> (r: &Criticality)
        ensures
            r == self.criticality(),
    {
        &self.criticality
    }

    #[verifier::when_used_as_spec(spec_derived_from)]
    pub fn derived_from(&self) -> (r: &Vec<ClaimRef>)
        ensures
            r == self.derived_from(),
    {
        &self.derived_from
    }

    #[verifier::when_used_as_spec(spec_metadata)]
    pub fn metadata(&self) -> (r: &Option<Arc<Json>>)
        ensures
            r == self.metadata(),
    {
        &self.metadata
    }

    #[verifier::when_used_as_spec(spec_snapshot_schema_version)]
    pub fn snapshot_schema_version(&self) -> (r: Option<u32>)
        ensures
            r == self.snapshot_schema_version(),
    {
        self.snapshot_schema_version
    }

    /// A copy of the claim with another valid-time window. The claim itself stays as it is.
    pub fn with_valid_time(&self, valid_time: ValidTime) -> (r: Claim)
        ensures
            r == self.over_window(valid_time),
            valid_time == *self.valid_time() ==> r == *self,
    {
        Claim {
            claim_ref: self.claim_ref,
            agent_id: self.agent_id.clone(),
            fact: self.fact.clone(),
            cardinality: self.cardinality,
            provenance: self.provenance,
            external_anchor: self.external_anchor,
            transaction_time: self.transaction_time,
            valid_time,
            confidence: self.confidence,
            criticality: self.criticality,
            derived_from: share(&self.derived_from),
            metadata: match &self.metadata {
                Some(json) => Some(share(json)),
                None => None,
            },
            snapshot_schema_version: self.snapshot_schema_version,
        }
    }
}

/// Giving a claim another window changes its window and nothing else.
pub broadcast proof fn lemma_over_window(claim: Claim, valid_time: ValidTime)
    ensures
        ({
            let moved = #[trigger] claim.over_window(valid_time);
            &&& *moved.valid_time() == valid_time
            &&& moved.claim_ref() == claim.claim_ref()
            &&& moved.agent_id() == claim.agent_id()
            &&& moved.fact() == claim.fact()
            &&& moved.cardinality() == claim.cardinality()
            &&& moved.provenance() == claim.provenance()
            &&& moved.external_anchor() == claim.external_anchor()
            &&& moved.transaction_time() == claim.transaction_time()
            &&& moved.confidence() == claim.confidence()
            &&& moved.criticality() == claim.criticality()
            &&& moved.derived_from() == claim.derived_from()
            &&& moved.metadata() == claim.metadata()
            &&& moved.snapshot_schema_version() == claim.snapshot_schema_version()
            &&& valid_time == *claim.valid_time() ==> moved == claim
        }),
{
}

} // verus!
