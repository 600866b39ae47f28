//! The embedding port and the vector port. The components of a vector are held by bit pattern.
use vstd::prelude::*;

use crate::domain::claim::AgentId;
use crate::domain::records::SubjectLineRef;
use crate::ident::ClaimRef;
use crate::score::Score;

verus! {

/// Finds subject lines that resemble a text. The engine works without it.
pub trait EmbeddingPort: Send + Sync + 'static {
    type Error;

    fn embed(&self, text: &str) -> Result<Vec<Score>, Self::Error>;

    fn select_candidates(&self, agent_id: &AgentId, query_vector: &[Score], k: usize) -> Result<
        Vec<SubjectLineRef>,
        Self::Error,
    >;
}

/// Stores and searches vectors. The engine works without it.
pub trait VectorPort: Send + Sync + 'static {
    type Error;

    /// Stores the vector of a claim, with the model that made it.
    fn store_embedding(
        &self,
        agent_id: &AgentId,
        claim_ref: &ClaimRef,
        vector: &[Score],
        embedding_model_id: &str,
    ) -> Result<(), Self::Error>;

    fn search(
        &self,
        agent_id: &AgentId,
        query_vector: &[Score],
        k: usize,
        embedding_model_id: &str,
    ) -> Result<Vec<ClaimRef>, Self::Error>;
}

} // verus!
