//! The messages of the errors.
use mempill_core::domain::claim::AgentId;
use mempill_core::error::MemError;
use mempill_core::ident::ClaimRef;

#[test]
fn mem_error_missing_provenance_display() {
    let e = MemError::MissingProvenance;
    let s = e.message();
    assert!(s.contains("provenance"));
}

#[test]
fn mem_error_malformed_fact_carries_reason() {
    let e = MemError::MalformedFact { reason: "empty subject".into() };
    assert!(e.message().contains("empty subject"));
}

#[test]
fn mem_error_spawn_blocking_present_and_displays() {
    let e = MemError::SpawnBlocking { reason: "task panicked".into() };
    let s = e.message();
    assert!(s.contains("spawn_blocking"));
    assert!(s.contains("task panicked"));
}

#[test]
fn mem_error_write_authority_violation_displays_agent_id() {
    let e = MemError::WriteAuthorityViolation {
        agent_id: AgentId("agent-42".into()),
    };
    assert!(e.message().contains("agent-42"));
}

#[test]
fn mem_error_claim_not_found_displays_claim_ref() {
    let id = uuid::Uuid::new_v4();
    let e = MemError::ClaimNotFound {
        claim_ref: ClaimRef(id.as_u128()),
    };
    assert!(e.message().contains(&id.to_string()));
}

#[test]
fn mem_error_atomic_commit_violation_displays_agent_id() {
    let e = MemError::AtomicCommitViolation {
        agent_id: AgentId("agent-99".into()),
    };
    assert!(e.message().contains("agent-99"));
}

#[test]
fn mem_error_incoherent_temporal_window_displays_times() {
    let e = MemError::IncoherentTemporalWindow {
        start: "2025-01-02T00:00:00Z".into(),
        end: "2025-01-01T00:00:00Z".into(),
    };
    let s = e.message();
    assert!(s.contains("2025-01-02"));
    assert!(s.contains("2025-01-01"));
}

#[test]
fn mem_error_oracle_error_carries_reason() {
    let e = MemError::OracleError { reason: "timeout".into() };
    assert!(e.message().contains("timeout"));
}

#[test]
fn mem_error_configuration_error_displays_all_fields() {
    let e = MemError::ConfigurationError {
        param: "valid_time_confidence_threshold".into(),
        value: "-0.1".into(),
        reason: "must be in [0.0, 1.0]".into(),
    };
    let s = e.message();
    assert!(s.contains("valid_time_confidence_threshold"));
    assert!(s.contains("-0.1"));
    assert!(s.contains("must be in [0.0, 1.0]"));
}

#[test]
fn mem_error_adjudication_handle_not_found() {
    let id = uuid::Uuid::new_v4();
    let e = MemError::AdjudicationHandleNotFound { handle_id: id.as_u128() };
    assert!(e.message().contains(&id.to_string()));
}

#[test]
fn mem_error_pragma_init_failed() {
    let e = MemError::PragmaInitFailed { reason: "WAL failed".into() };
    assert!(e.message().contains("WAL failed"));
}

#[test]
fn mem_error_is_debug() {
    let e = MemError::MissingProvenance;
    let s = format!("{e:?}");
    assert!(s.contains("MissingProvenance"));
}
