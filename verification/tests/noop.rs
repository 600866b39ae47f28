//! The ports that do nothing.
use std::sync::Arc;

use chrono::{DateTime, Utc};
use mempill_core::domain::belief::{Belief, CurrencySignal, CurrencyState};
use mempill_core::domain::claim::{AgentId, Cardinality, Claim, Confidence, Criticality, ExternalAnchor, ExternalKind, Fact, ProvenanceLabel, ValidTime};
use mempill_core::domain::records::{AdjudicationRequest, OverturnReason, SubjectLineRef};
use mempill_core::ident::ClaimRef;
use mempill_core::json::{Json, Member, Number};
use mempill_core::noop::{NoOpOracle, NoOpVector};
use mempill_core::ports::embedding::VectorPort;
use mempill_core::ports::oracle::OraclePort;
use mempill_core::score::Score;
use mempill_core::time::{Timestamp, TransactionTime};

fn make_agent() -> AgentId {
    AgentId("test-agent".into())
}

fn make_belief() -> Belief {
    Belief {
        claim_ref: ClaimRef::new_random(),
        fact: Fact {
            subject: "alice".into(),
            predicate: "age".into(),
            value: json(30),
        },
        provenance: ProvenanceLabel::External(ExternalKind::UserAsserted),
        valid_time: ValidTime { start: None, end: None, valid_time_confidence: score(0.0), start_granularity: None, end_granularity: None },
        transaction_time: TransactionTime(at(Utc::now())),
        confidence: Confidence { value_confidence: score(0.9), valid_time_confidence: score(0.0) },
        currency_signal: CurrencySignal {
            last_refreshed_at: TransactionTime(at(Utc::now())),
            state: CurrencyState::Fresh,
            corroboration_count: 0,
        },
        criticality: Criticality::Low,
    }
}

fn make_challenger(agent: &AgentId) -> Claim {
    Claim::new(
        ClaimRef::new_random(),
        agent.clone(),
        Fact {
            subject: "alice".into(),
            predicate: "age".into(),
            value: json(31),
        },
        Cardinality::Functional,
        ProvenanceLabel::External(ExternalKind::UserAsserted),
        ExternalAnchor { nearest_external_anchor: None, derivation_depth: 0 },
        TransactionTime(at(Utc::now())),
        ValidTime { start: None, end: None, valid_time_confidence: score(0.0), start_granularity: None, end_granularity: None },
        Confidence { value_confidence: score(0.9), valid_time_confidence: score(0.0) },
        Criticality::Low,
        vec![],
        None,
        None,
    )
}

#[test]
fn noop_oracle_implements_oracle_port_and_returns_ok() {
    let oracle = NoOpOracle;
    let agent = make_agent();
    let request = AdjudicationRequest {
        subject_line: SubjectLineRef {
            agent_id: agent.clone(),
            subject: "alice".into(),
            predicate: "age".into(),
        },
        incumbent: make_belief(),
        challenger: make_challenger(&agent),
        criticality: Criticality::Low,
        reason: OverturnReason::ExternalContradiction,
    };

    let result = oracle.request_adjudication(&agent, request);
    assert!(result.is_ok());
    let _handle: () = result.unwrap();
}

#[test]
fn noop_vector_store_embedding_is_noop() {
    let vector = NoOpVector;
    let agent = make_agent();
    let claim_ref = ClaimRef::new_random();
    let embedding = vec![score(0.1), score(0.2), score(0.3)];
    let result = vector.store_embedding(&agent, &claim_ref, &embedding, "text-embedding-3-small");
    assert!(result.is_ok());
}

#[test]
fn noop_vector_search_returns_empty() {
    let vector = NoOpVector;
    let agent = make_agent();
    let query = vec![score(0.1), score(0.2), score(0.3)];
    let result = vector.search(&agent, &query, 10, "text-embedding-3-small");
    assert!(result.is_ok());
    assert!(result.unwrap().is_empty());
}

#[test]
fn noop_oracle_is_clone_and_debug() {
    let oracle = NoOpOracle;
    let _cloned = oracle.clone();
    let s = format!("{oracle:?}");
    assert!(s.contains("NoOpOracle"));
}

#[test]
fn noop_vector_is_clone_and_debug() {
    let vector = NoOpVector;
    let _cloned = vector.clone();
    let s = format!("{vector:?}");
    assert!(s.contains("NoOpVector"));
}

#[test]
fn noop_oracle_satisfies_trait_bounds() {
    fn assert_oracle_bounds<T: OraclePort + Send + Sync + 'static>() {}
    assert_oracle_bounds::<NoOpOracle>();
}

#[test]
fn noop_vector_satisfies_trait_bounds() {
    fn assert_vector_bounds<T: VectorPort + Send + Sync + 'static>() {}
    assert_vector_bounds::<NoOpVector>();
}

#[test]
fn noop_oracle_handle_to_uuid_returns_non_nil_uuid() {
    let uuid1 = NoOpOracle::handle_to_uuid(&());
    let uuid2 = NoOpOracle::handle_to_uuid(&());
    assert!(uuid1 != 0, "handle_to_uuid must return a non-nil UUID");
    assert_ne!(uuid1, uuid2, "successive handle_to_uuid calls must return distinct UUIDs");
}

fn at(time: DateTime<Utc>) -> Timestamp {
    Timestamp::new(time.timestamp(), time.timestamp_subsec_nanos()).unwrap()
}

fn score(value: f32) -> Score {
    Score { bits: f64::from(value).to_bits() }
}

fn json<T: Into<serde_json::Value>>(value: T) -> Arc<Json> {
    Arc::new(from_value(value.into()))
}

fn from_value(value: serde_json::Value) -> Json {
    match value {
        serde_json::Value::Null => Json::Null,
        serde_json::Value::Bool(b) => Json::Bool(b),
        serde_json::Value::Number(n) => Json::Number(match (n.as_u64(), n.as_i64()) {
            (Some(n), _) => Number::PosInt(n),
            (None, Some(n)) => Number::NegInt(n),
            _ => Number::Float(Score { bits: n.as_f64().unwrap().to_bits() }),
        }),
        serde_json::Value::String(s) => Json::Text(s),
        serde_json::Value::Array(items) => Json::Array(items.into_iter().map(from_value).collect()),
        serde_json::Value::Object(members) => Json::Object(
            members.into_iter().map(|(key, value)| Member { key, value: from_value(value) }).collect(),
        ),
    }
}
