//! The port to the queue of adjudications that wait for a verdict.
use vstd::pervasive::unreached;
use vstd::prelude::*;

use crate::domain::claim::AgentId;
use crate::domain::records::AdjudicationRequest;
use crate::ident::ClaimRef;
use crate::noop::Never;
use crate::time::Timestamp;

verus! {

/// A queued adjudication.
#[derive(Clone, Debug)]
pub struct PendingAdjudicationRow {
    /// The UUID of the request: what `OraclePort::handle_to_uuid` gave.
    pub handle_id: u128,
    pub agent_id: AgentId,
    pub subject: String,
    pub predicate: String,
    /// The claim that came in.
    pub challenger_claim_ref: ClaimRef,
    /// The claim that it would overturn.
    pub incumbent_claim_ref: ClaimRef,
    pub request_payload: AdjudicationRequest,
    pub queued_at: Timestamp,
    /// `None` where the row does not expire.
    pub expires_at: Option<Timestamp>,
    /// `"pending"`, `"resolved"` or `"expired"`.
    pub status: String,
}

/// A claim that waits for a verdict without a row in the queue.
#[derive(Clone, Debug)]
pub struct OrphanedQueuedClaim {
    pub agent_id: AgentId,
    pub challenger_claim_ref: ClaimRef,
    /// The live claim of the same subject line, where one was found.
    pub incumbent_claim_ref: Option<ClaimRef>,
    pub subject: String,
    pub predicate: String,
}

/// Whether a row has expired by an instant.
pub open spec fn has_expired(row: PendingAdjudicationRow, now: Timestamp) -> bool {
    row.expires_at matches Some(t) && t.at() <= now.at()
}

/// Whether the row that was queued first stands first.
pub open spec fn first_queued_first(rows: Seq<PendingAdjudicationRow>) -> bool {
    forall|i: int, j: int|
        0 <= i <= j < rows.len() ==> (#[trigger] rows[i]).queued_at.at() <= (
        #[trigger] rows[j]).queued_at.at()
}

/// Whether the row that expired first stands first.
pub open spec fn first_expired_first(rows: Seq<PendingAdjudicationRow>) -> bool {
    forall|i: int, j: int|
        0 <= i <= j < rows.len() ==> (#[trigger] rows[i]).expires_at->0.at() <= (
        #[trigger] rows[j]).expires_at->0.at()
}

/// The queue of pending adjudications. What is stored there is authoritative.
pub trait PendingAdjudicationPort: Send + Sync + 'static {
    type Error;

    /// Whether there is a queue behind the value. Without one no method may be called.
    open spec fn is_wired(&self) -> bool {
        true
    }

    /// Stores a new row. A second row with the same handle is an error.
    fn insert_pending(&self, row: &PendingAdjudicationRow) -> Result<(), Self::Error>
        requires
            self.is_wired(),
    ;

    /// The row with this handle.
    fn get_pending(&self, handle_id: u128) -> (r: Result<
        Option<PendingAdjudicationRow>,
        Self::Error,
    >)
        requires
            self.is_wired(),
        ensures
            r matches Ok(Some(row)) ==> row.handle_id == handle_id,
    ;

    /// The pending rows of one agent, or of all, the first queued first.
    fn list_pending(&self, agent_id: Option<&AgentId>) -> (r: Result<
        Vec<PendingAdjudicationRow>,
        Self::Error,
    >)
        requires
            self.is_wired(),
        ensures
            r matches Ok(rows) ==> first_queued_first(rows@) && forall|i: int|
                0 <= i < rows@.len() ==> {
                    &&& (#[trigger] rows@[i]).status@ == "pending"@
                    &&& agent_id matches Some(agent) ==> rows@[i].agent_id == *agent
                },
    ;

    /// The pending rows that have expired by `now`, the first expired first.
    fn list_expired(&self, now: Timestamp) -> (r: Result<Vec<PendingAdjudicationRow>, Self::Error>)
        requires
            self.is_wired(),
        ensures
            r matches Ok(rows) ==> first_expired_first(rows@) && forall|i: int|
                0 <= i < rows@.len() ==> {
                    &&& (#[trigger] rows@[i]).status@ == "pending"@
                    &&& has_expired(rows@[i], now)
                },
    ;

    /// Marks a row resolved. Doing so twice is no error.
    fn mark_resolved(&self, handle_id: u128) -> Result<(), Self::Error>
        requires
            self.is_wired(),
    ;

    /// Marks a row expired. Doing so twice is no error.
    fn mark_expired(&self, handle_id: u128) -> Result<(), Self::Error>
        requires
            self.is_wired(),
    ;

    /// The claims that wait for a verdict without a pending row.
    fn list_queued_orphan_claims(&self) -> Result<Vec<OrphanedQueuedClaim>, Self::Error>
        requires
            self.is_wired(),
    ;
}

/// Stands where no queue is wired in. None of its methods may be called.
#[derive(Debug)]
pub struct NoPendingStore;

/// The error of [`NoPendingStore`]: there is none.
#[derive(Debug)]
pub enum NoPendingStoreError {
    Never(Never),
}

impl NoPendingStoreError {
    /// The message of the error.
    pub fn message(&self) -> String {
        match self {
            NoPendingStoreError::Never(never) => never.absurd(),
        }
    }
}

impl PendingAdjudicationPort for NoPendingStore {
    type Error = NoPendingStoreError;

    open spec fn is_wired(&self) -> bool {
        false
    }

    fn insert_pending(&self, row: &PendingAdjudicationRow) -> Result<(), NoPendingStoreError> {
        unreached()
    }

    fn get_pending(&self, handle_id: u128) -> Result<
        Option<PendingAdjudicationRow>,
        NoPendingStoreError,
    > {
        unreached()
    }

    fn list_pending(&self, agent_id: Option<&AgentId>) -> Result<
        Vec<PendingAdjudicationRow>,
        NoPendingStoreError,
    > {
        unreached()
    }

    fn list_expired(&self, now: Timestamp) -> Result<
        Vec<PendingAdjudicationRow>,
        NoPendingStoreError,
    > {
        unreached()
    }

    fn mark_resolved(&self, handle_id: u128) -> Result<(), NoPendingStoreError> {
        unreached()
    }

    fn mark_expired(&self, handle_id: u128) -> Result<(), NoPendingStoreError> {
        unreached()
    }

    fn list_queued_orphan_claims(&self) -> Result<Vec<OrphanedQueuedClaim>, NoPendingStoreError> {
        unreached()
    }
}

} // verus!
