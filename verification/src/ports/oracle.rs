//! The oracle port: asked for verdicts, and never waited for.
use vstd::prelude::*;

use crate::domain::claim::AgentId;
use crate::domain::records::AdjudicationRequest;

verus! {

/// Takes requests for adjudication. The verdict comes back later, by the handle.
pub trait OraclePort: Send + Sync + 'static {
    type Error;

    /// Correlates a verdict with its request.
    type Handle: Send + 'static;

    /// Asks for a verdict, and returns at once.
    fn request_adjudication(&self, agent_id: &AgentId, request: AdjudicationRequest) -> Result<
        Self::Handle,
        Self::Error,
    >;

    /// The UUID under which the request is kept.
    fn handle_to_uuid(handle: &Self::Handle) -> u128;
}

} // verus!
