//! Beliefs: what the fold and the projection derive from the claims.
use vstd::prelude::*;

use crate::domain::claim::{Confidence, Criticality, Fact, ProvenanceLabel, ValidTime};
use crate::ident::ClaimRef;
use crate::time::TransactionTime;

verus! {

/// How long ago a claim was last restated.
#[derive(Clone, Copy, Debug, PartialEq, Eq, Structural, Hash)]
#[non_exhaustive]
pub enum CurrencyState {
    Fresh,
    AgingUnconfirmed,
    Decayed,
}

/// How current a belief is.
#[derive(Clone, Copy, Debug, PartialEq, Eq, Structural, Hash)]
pub struct CurrencySignal {
    pub last_refreshed_at: TransactionTime,
    pub state: CurrencyState,
    pub corroboration_count: u32,
}

/// A belief: a claim as the reader of the memory sees it.
#[derive(Debug)]
pub struct Belief {
    pub claim_ref: ClaimRef,
    pub fact: Fact,
    pub provenance: ProvenanceLabel,
    pub valid_time: ValidTime,
    pub transaction_time: TransactionTime,
    pub confidence: Confidence,
    pub currency_signal: CurrencySignal,
    pub criticality: Criticality,
}

impl Clone for Belief {
    fn clone(&self) -> (r: Self)
        ensures
            r == *self,
    {
        Belief {
            claim_ref: self.claim_ref,
            fact: self.fact.clone(),
            provenance: self.provenance,
            valid_time: self.valid_time,
            transaction_time: self.transaction_time,
            confidence: self.confidence,
            currency_signal: self.currency_signal,
            criticality: self.criticality,
        }
    }
}

/// What is known of a subject line.
#[derive(Clone, Copy, Debug, PartialEq, Eq, Structural, Hash)]
#[non_exhaustive]
pub enum BeliefStatus {
    /// No live claim.
    NoBelief,
    /// Live claims that exclude each other.
    Conflict,
    /// A contradiction that nobody has resolved.
    Contested,
    /// One answer, or several that hold together.
    Resolved,
    /// One answer, of which it is not known when it holds.
    TimingUncertain,
}

/// Whether an answer is stale, and why.
#[derive(Debug)]
pub struct StalenessFlag {
    pub is_stale: bool,
    pub reason: Option<String>,
}

impl StalenessFlag {
    /// The text of the reason.
    pub open spec fn reason_text(self) -> Option<Seq<char>> {
        match self.reason {
            Some(text) => Some(text@),
            None => None,
        }
    }
}

/// What a reader should know about an answer.
#[derive(Clone, Copy, Debug, PartialEq, Eq, Structural, Hash)]
#[non_exhaustive]
pub enum Marker {
    /// A contradiction is unresolved.
    Contested,
    /// A claim that a live claim depends on was superseded.
    PendingReview,
    /// A live claim is output of the engine that came back in.
    RecallTainted,
    /// A live claim is too far from first-hand content to be refreshed.
    LowDerivationAnchor,
}

/// The answer to a query on a subject line.
#[derive(Debug)]
pub struct BeliefProjection {
    pub status: BeliefStatus,
    pub primary: Option<Belief>,
    pub alternatives: Vec<Belief>,
    pub currency: CurrencyState,
    pub criticality: Criticality,
    pub staleness: StalenessFlag,
    pub markers: Vec<Marker>,
}

} // verus!
