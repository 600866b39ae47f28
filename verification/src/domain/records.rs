//! The append-only records around claims: validity assertions, ledger entries and edges.
use std::sync::Arc;

use vstd::prelude::*;

use crate::domain::belief::Belief;
use crate::domain::claim::{
    AgentId, Claim, Confidence, Criticality, DateGranularity, ProvenanceLabel,
};
use crate::ident::ClaimRef;
use crate::json::Json;
use crate::time::{Timestamp, TransactionTime};

verus! {

/// The outcome of a write, and what has become of a claim since.
#[derive(Clone, Copy, Debug, PartialEq, Eq, Structural, Hash)]
#[non_exhaustive]
pub enum Disposition {
    /// A non-conflicting first-hand fact.
    CommittedCheap,
    /// Content of a model, committed at lower weight.
    CommittedInferred,
    /// A claim that would overturn a belief, and waits for a verdict.
    QueuedForAdjudication,
    /// A first-hand contradiction that nobody is there to resolve.
    Contested,
    /// Too little evidence to overturn.
    PendingConflict,
    /// A claim that this one depends on was superseded.
    PendingReview,
    /// An ambiguous source.
    PendingLowConfidence,
    /// A burst of re-entries, or an impossible window; parked.
    Quarantined,
    /// Overturned: bounded, and kept.
    Superseded,
    /// No longer true: kept in the history.
    Invalidated,
    /// Reopened by a first-hand assertion.
    Reinstated,
    /// Refused at the write.
    Rejected,
}

/// What a validity assertion says of its claim.
#[derive(Clone, Copy, Debug, PartialEq, Eq, Structural, Hash)]
#[non_exhaustive]
pub enum AssertionKind {
    /// The claim holds no longer from this instant on.
    Bound { bound_at: Timestamp, bound_at_granularity: Option<DateGranularity> },
    /// The claim holds again from this instant on.
    Reopen { reopen_at: Timestamp },
}

/// A record that bounds or reopens a claim.
#[derive(Debug)]
pub struct ValidityAssertion {
    pub assertion_ref: u128,
    pub agent_id: AgentId,
    pub target_claim: ClaimRef,
    pub kind: AssertionKind,
    pub provenance: ProvenanceLabel,
    pub confidence: Confidence,
    pub asserted_at: TransactionTime,
}

impl Clone for ValidityAssertion {
    fn clone(&self) -> (r: Self)
        ensures
            r == *self,
    {
        ValidityAssertion {
            assertion_ref: self.assertion_ref,
            agent_id: self.agent_id.clone(),
            target_claim: self.target_claim,
            kind: self.kind,
            provenance: self.provenance,
            confidence: self.confidence,
            asserted_at: self.asserted_at,
        }
    }
}

/// What a ledger entry reports.
#[derive(Clone, Copy, Debug, PartialEq, Eq, Structural, Hash)]
#[non_exhaustive]
pub enum LedgerEventKind {
    ClaimCommitted,
    ValidityAsserted,
    AdjudicationRequested,
    AdjudicationExpired,
    DependentFlaggedPendingReview,
    ServedAsInjected,
}

/// An audit record of a decision.
#[derive(Clone, Debug)]
pub struct LedgerEntry {
    pub entry_id: u128,
    pub agent_id: AgentId,
    pub claim_ref: ClaimRef,
    pub event_kind: LedgerEventKind,
    pub disposition: Disposition,
    pub rationale: Option<Arc<Json>>,
    pub recorded_at: TransactionTime,
}

/// How one claim relates to another.
#[derive(Clone, Copy, Debug, PartialEq, Eq, Structural, Hash)]
#[non_exhaustive]
pub enum EdgeKind {
    DependsOn,
    DerivedFrom,
    Supersedes,
    MutualExclusion,
}

/// A relation between two claims.
#[derive(Clone, Debug)]
pub struct ClaimEdge {
    pub edge_id: u128,
    pub agent_id: AgentId,
    pub from_claim: ClaimRef,
    pub to_claim: ClaimRef,
    pub kind: EdgeKind,
    pub created_at: TransactionTime,
}

/// Names a subject line: all claims on one predicate of one subject.
#[derive(Clone, Debug)]
pub struct SubjectLineRef {
    pub agent_id: AgentId,
    pub subject: String,
    pub predicate: String,
}

/// Why an adjudication is asked for.
#[derive(Clone, Copy, Debug, PartialEq, Eq, Structural, Hash)]
#[non_exhaustive]
pub enum OverturnReason {
    ExternalContradiction,
}

/// What an oracle is asked to decide.
#[derive(Clone, Debug)]
pub struct AdjudicationRequest {
    pub subject_line: SubjectLineRef,
    pub incumbent: Belief,
    pub challenger: Claim,
    pub criticality: Criticality,
    pub reason: OverturnReason,
}

} // verus!
