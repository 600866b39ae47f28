//! Ports that do nothing, for tests and as defaults.
use vstd::pervasive::unreached;
use vstd::prelude::*;

use crate::domain::claim::AgentId;
use crate::domain::records::AdjudicationRequest;
use crate::ident::{fresh_id, is_random_uuid, ClaimRef};
use crate::ports::oracle::OraclePort;
use crate::ports::embedding::VectorPort;
use crate::score::Score;

verus! {

/// A value of which there is none.
#[derive(Debug)]
pub struct Never {
    sealed: (),
}

impl Never {
    #[verifier::type_invariant]
    spec fn has_no_value(self) -> bool {
        false
    }

    /// Whatever is asked for: there is no value to ask it of.
    pub(crate) fn absurd<T>(&self) -> T {
        proof {
            use_type_invariant(self);
        }
        unreached()
    }
}

/// The error of the ports that do nothing: there is none.
#[derive(Debug)]
pub enum NoOpError {
    Never(Never),
}

impl NoOpError {
    /// The message of the error.
    pub fn message(&self) -> String {
        match self {
            NoOpError::Never(never) => never.absurd(),
        }
    }
}

/// An oracle that takes every request and never answers.
#[derive(Clone, Debug)]
pub struct NoOpOracle;

impl OraclePort for NoOpOracle {
    type Error = NoOpError;

    type Handle = ();

    fn request_adjudication(&self, agent_id: &AgentId, request: AdjudicationRequest) -> (r: Result<
        (),
        NoOpError,
    >)
        ensures
            r == Ok::<(), NoOpError>(()),
    {
        Ok(())
    }

    fn handle_to_uuid(handle: &()) -> (r: u128)
        ensures
            is_random_uuid(r),
    {
        fresh_id()
    }
}

/// A vector store that stores nothing and finds nothing.
#[derive(Clone, Debug)]
pub struct NoOpVector;

impl VectorPort for NoOpVector {
    type Error = NoOpError;

    fn store_embedding(
        &self,
        agent_id: &AgentId,
        claim_ref: &ClaimRef,
        vector: &[Score],
        embedding_model_id: &str,
    ) -> (r: Result<(), NoOpError>)
        ensures
            r == Ok::<(), NoOpError>(()),
    {
        Ok(())
    }

    fn search(
        &self,
        agent_id: &AgentId,
        query_vector: &[Score],
        k: usize,
        embedding_model_id: &str,
    ) -> (r: Result<Vec<ClaimRef>, NoOpError>)
        ensures
            r matches Ok(found) && found@.len() == 0,
    {
        Ok(Vec::new())
    }
}

} // verus!
