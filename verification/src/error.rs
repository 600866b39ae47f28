//! The errors of the engine.
use vstd::prelude::*;

use crate::domain::belief::BeliefProjection;
use crate::domain::claim::AgentId;
use crate::ident::{hyphenated, id_text, ClaimRef};
use crate::text::join;

verus! {

/// An error of the engine. Every violation of an invariant has a variant of its own.
#[derive(Debug)]
pub enum MemError {
    /// A write without a provenance label.
    MissingProvenance,
    /// The caller may not write for the agent.
    WriteAuthorityViolation { agent_id: AgentId },
    /// The fact is malformed.
    MalformedFact { reason: String },
    /// The engine does not know the agent.
    UnknownAgentId { agent_id: AgentId },
    /// There is no such claim.
    ClaimNotFound { claim_ref: ClaimRef },
    /// The write lock of the agent is held already.
    WriteLockContention { agent_id: AgentId },
    /// A blocking task could not be joined.
    SpawnBlocking { reason: String },
    /// A part of a unit was written without the rest.
    AtomicCommitViolation { agent_id: AgentId },
    /// A belief changed without a write.
    MonotonicityViolation { agent_id: AgentId },
    /// A cached belief is not what the fold gives.
    BeliefCacheInconsistency,
    /// A window starts after it ends.
    IncoherentTemporalWindow { start: String, end: String },
    /// The store failed; `source` is its message.
    Persistence { source: String },
    /// The store could not be initialized.
    PragmaInitFailed { reason: String },
    /// The oracle failed.
    OracleError { reason: String },
    /// The queue of pending adjudications failed; `source` is its message.
    PendingStore { source: String },
    /// There is no pending adjudication with the handle.
    AdjudicationHandleNotFound { handle_id: u128 },
    /// A parameter has a value that it may not have.
    ConfigurationError { param: String, value: String, reason: String },
}

/// What a query returns.
pub type BeliefResult = Result<BeliefProjection, MemError>;

/// What the `Debug` form of a `str` is for this text: the text in quotes, with escapes.
pub uninterp spec fn quoted_text(text: Seq<char>) -> Seq<char>;

/// Calls the `Debug` form of `str`. It is a function of the text alone; how it escapes is left
/// unsaid.
#[verifier::external_body]
fn quoted(text: &str) -> (r: String)
    ensures
        r@ == quoted_text(text@),
{
    format!("{:?}", text)
}

impl MemError {
    /// The agent that the error is about.
    pub open spec fn agent(self) -> Option<AgentId> {
        match self {
            MemError::WriteAuthorityViolation { agent_id } => Some(agent_id),
            MemError::UnknownAgentId { agent_id } => Some(agent_id),
            MemError::WriteLockContention { agent_id } => Some(agent_id),
            MemError::AtomicCommitViolation { agent_id } => Some(agent_id),
            MemError::MonotonicityViolation { agent_id } => Some(agent_id),
            _ => None,
        }
    }

    /// The message of the error, where the agent's name in quotes is `agent`.
    pub open spec fn message_for(self, agent: Seq<char>) -> Seq<char> {
        let agent_text = "AgentId("@ + agent + ")"@;
        match self {
            MemError::MissingProvenance => "Missing or untyped provenance on write: claim cannot be committed without a provenance label"@,
            MemError::WriteAuthorityViolation { .. } => {
                "Caller does not hold write authority for agent_id "@ + agent_text
            },
            MemError::MalformedFact { reason } => "Malformed fact: "@ + reason@,
            MemError::UnknownAgentId { .. } => "Unknown or invalid agent_id: "@ + agent_text,
            MemError::ClaimNotFound { claim_ref } => {
                "Claim not found: ClaimRef("@ + hyphenated(claim_ref.0) + ")"@
            },
            MemError::WriteLockContention { .. } => {
                "Write lock for agent_id "@ + agent_text
                    + " is already held (single-writer-per-agent-id violation)"@
            },
            MemError::SpawnBlocking { reason } => "spawn_blocking task failed: "@ + reason@,
            MemError::AtomicCommitViolation { .. } => {
                "Atomic commit unit violated: partial write detected for agent_id "@ + agent_text
            },
            MemError::MonotonicityViolation { .. } => {
                "Fixed-history monotonicity violated: belief changed between reads without an intervening write for agent_id "@
                    + agent_text
            },
            MemError::BeliefCacheInconsistency => "Belief cache inconsistency: materialized belief cache disagrees with canonical fold (cache must be subordinate)"@,
            MemError::IncoherentTemporalWindow { start, end } => {
                "Temporal coherence failure: valid_time_start ("@ + start@
                    + ") is after valid_time_end ("@ + end@ + ")"@
            },
            MemError::Persistence { source } => "Persistence error: "@ + source@,
            MemError::PragmaInitFailed { reason } => {
                "SQLite PRAGMA initialization failed: "@ + reason@
            },
            MemError::OracleError { reason } => "Oracle port error: "@ + reason@,
            MemError::PendingStore { source } => "Pending-adjudication store error: "@ + source@,
            MemError::AdjudicationHandleNotFound { handle_id } => {
                "Adjudication handle not found: "@ + hyphenated(handle_id)
            },
            MemError::ConfigurationError { param, value, reason } => {
                "Engine calibration parameter invalid: "@ + param@ + " = "@ + value@ + ": "@
                    + reason@
            },
        }
    }

    /// The message of the error, where the agent's name in quotes is `agent`.
    pub fn message_with(&self, agent: &str) -> (r: String)
        ensures
            r@ == self.message_for(agent@),
    {
        let mut agent_text = join("AgentId(", agent);
        agent_text.append(")");
        match self {
            MemError::MissingProvenance => "Missing or untyped provenance on write: claim cannot be committed without a provenance label".to_owned(),
            MemError::WriteAuthorityViolation { .. } => join(
                "Caller does not hold write authority for agent_id ",
                agent_text.as_str(),
            ),
            MemError::MalformedFact { reason } => join("Malformed fact: ", reason.as_str()),
            MemError::UnknownAgentId { .. } => join(
                "Unknown or invalid agent_id: ",
                agent_text.as_str(),
            ),
            MemError::ClaimNotFound { claim_ref } => {
                let mut text = join("Claim not found: ClaimRef(", id_text(claim_ref.0).as_str());
                text.append(")");
                text
            },
            MemError::WriteLockContention { .. } => {
                let mut text = join("Write lock for agent_id ", agent_text.as_str());
                text.append(" is already held (single-writer-per-agent-id violation)");
                text
            },
            MemError::SpawnBlocking { reason } => join(
                "spawn_blocking task failed: ",
                reason.as_str(),
            ),
            MemError::AtomicCommitViolation { .. } => join(
                "Atomic commit unit violated: partial write detected for agent_id ",
                agent_text.as_str(),
            ),
            MemError::MonotonicityViolation { .. } => join(
                "Fixed-history monotonicity violated: belief changed between reads without an intervening write for agent_id ",
                agent_text.as_str(),
            ),
            MemError::BeliefCacheInconsistency => "Belief cache inconsistency: materialized belief cache disagrees with canonical fold (cache must be subordinate)".to_owned(),
            MemError::IncoherentTemporalWindow { start, end } => {
                let mut text = join(
                    "Temporal coherence failure: valid_time_start (",
                    start.as_str(),
                );
                text.append(") is after valid_time_end (");
                text.append(end.as_str());
                text.append(")");
                text
            },
            MemError::Persistence { source } => join("Persistence error: ", source.as_str()),
            MemError::PragmaInitFailed { reason } => join(
                "SQLite PRAGMA initialization failed: ",
                reason.as_str(),
            ),
            MemError::OracleError { reason } => join("Oracle port error: ", reason.as_str()),
            MemError::PendingStore { source } => join(
                "Pending-adjudication store error: ",
                source.as_str(),
            ),
            MemError::AdjudicationHandleNotFound { handle_id } => join(
                "Adjudication handle not found: ",
                id_text(*handle_id).as_str(),
            ),
            MemError::ConfigurationError { param, value, reason } => {
                let mut text = join("Engine calibration parameter invalid: ", param.as_str());
                text.append(" = ");
                text.append(value.as_str());
                text.append(": ");
                text.append(reason.as_str());
                text
            },
        }
    }

    /// The message of the error.
    pub fn message(&self) -> (r: String)
        ensures
            self.agent() is Some ==> r@ == self.message_for(quoted_text((self.agent()->0).0@)),
            self.agent() is None ==> r@ == self.message_for(Seq::empty()),
    {
        match self {
            MemError::WriteAuthorityViolation { agent_id } => self.message_with(
                quoted(agent_id.0.as_str()).as_str(),
            ),
            MemError::UnknownAgentId { agent_id } => self.message_with(
                quoted(agent_id.0.as_str()).as_str(),
            ),
            MemError::WriteLockContention { agent_id } => self.message_with(
                quoted(agent_id.0.as_str()).as_str(),
            ),
            MemError::AtomicCommitViolation { agent_id } => self.message_with(
                quoted(agent_id.0.as_str()).as_str(),
            ),
            MemError::MonotonicityViolation { agent_id } => self.message_with(
                quoted(agent_id.0.as_str()).as_str(),
            ),
            _ => {
                let none = String::new();
                self.message_with(none.as_str())
            },
        }
    }
}

} // verus!
