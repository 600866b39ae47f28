//! Answers to queries.
use std::collections::HashMap;
use std::sync::Arc;

use chrono::{DateTime, Utc};
use mempill_core::config::EngineConfig;
use mempill_core::domain::belief::{BeliefStatus, CurrencyState, Marker};
use mempill_core::domain::claim::{AgentId, Cardinality, Claim, Confidence, Criticality, ExternalAnchor, ExternalKind, Fact, ProvenanceLabel, ValidTime};
use mempill_core::domain::records::{AssertionKind, Disposition, LedgerEntry, LedgerEventKind, ValidityAssertion};
use mempill_core::engine::projection::project;
use mempill_core::engine::truth_engine::fold;
use mempill_core::ident::ClaimRef;
use mempill_core::json::{Json, Member, Number};
use mempill_core::score::Score;
use mempill_core::time::{Timestamp, TransactionTime};

fn agent() -> AgentId {
    AgentId("agent-proj".into())
}

fn make_claim(
    agent_id: &AgentId,
    value: Arc<Json>,
    tx_time: Timestamp,
    vt_start: Option<Timestamp>,
    vt_confidence: f32,
) -> Claim {
    Claim::new(
        ClaimRef::new_random(),
        agent_id.clone(),
        Fact { subject: "user".into(), predicate: "city".into(), value },
        Cardinality::Functional,
        ProvenanceLabel::External(ExternalKind::UserAsserted),
        ExternalAnchor { nearest_external_anchor: None, derivation_depth: 0 },
        TransactionTime(tx_time),
        ValidTime { start: vt_start, end: None, valid_time_confidence: score(vt_confidence), start_granularity: None, end_granularity: None },
        Confidence { value_confidence: score(0.9), valid_time_confidence: score(vt_confidence) },
        Criticality::Medium,
        vec![],
        None,
        None,
    )
}

fn no_assertions(_: &ClaimRef) -> Vec<ValidityAssertion> {
    vec![]
}

fn no_dispositions() -> HashMap<u128, Disposition> {
    HashMap::new()
}

fn now() -> Timestamp {
    at(Utc::now())
}

#[test]
fn currency_decay_decayed_threshold_reached() {
    let config = EngineConfig::default();
    let agent = agent();
    let old_tx = at(Utc::now() - chrono::Duration::days(100));
    let query_now = now();

    let claim = make_claim(&agent, json("Paris"), old_tx, None, 0.0);
    let fold_result = fold(vec![claim.clone()], no_assertions, query_now, None, &config, &no_dispositions());

    let projection = project(&fold_result, &[], query_now, &config, false);

    assert_eq!(projection.currency, CurrencyState::Decayed, "should be Decayed after 100 days");

    assert!(projection.primary.is_some() || !projection.alternatives.is_empty(),
        "decayed claim must still be present in projection (never deleted)");
}

#[test]
fn currency_decay_aging_unconfirmed() {
    let config = EngineConfig::default();
    let agent = agent();
    let tx = at(Utc::now() - chrono::Duration::days(45));
    let query_now = now();

    let claim = make_claim(&agent, json("Rome"), tx, None, 0.0);
    let fold_result = fold(vec![claim], no_assertions, query_now, None, &config, &no_dispositions());

    let projection = project(&fold_result, &[], query_now, &config, false);

    assert_eq!(projection.currency, CurrencyState::AgingUnconfirmed, "should be AgingUnconfirmed");
}

#[test]
fn currency_decay_fresh() {
    let config = EngineConfig::default();
    let agent = agent();
    let tx = at(Utc::now() - chrono::Duration::days(10));
    let query_now = now();

    let claim = make_claim(&agent, json("Berlin"), tx, None, 0.0);
    let fold_result = fold(vec![claim], no_assertions, query_now, None, &config, &no_dispositions());

    let projection = project(&fold_result, &[], query_now, &config, false);

    assert_eq!(projection.currency, CurrencyState::Fresh, "should be Fresh within 30 days");
}

#[test]
fn explicit_invalidation_via_bound_assertion_removes_from_live() {
    let config = EngineConfig::default();
    let agent = agent();
    let tx = at(Utc::now() - chrono::Duration::days(1));
    let bound_at = at(Utc::now() - chrono::Duration::hours(1));
    let query_now = now();

    let claim = make_claim(&agent, json("London"), tx, None, 0.0);
    let claim_ref = claim.claim_ref().clone();

    let bound_assertion = ValidityAssertion {
        assertion_ref: uuid::Uuid::new_v4().as_u128(),
        agent_id: agent.clone(),
        target_claim: claim_ref.clone(),
        kind: AssertionKind::Bound { bound_at, bound_at_granularity: None },
        provenance: ProvenanceLabel::External(ExternalKind::UserAsserted),
        confidence: Confidence { value_confidence: score(1.0), valid_time_confidence: score(1.0) },
        asserted_at: TransactionTime(bound_at),
    };

    let bound_ref = claim_ref.clone();
    let assertions_fn = move |cr: &ClaimRef| -> Vec<ValidityAssertion> {
        if *cr == bound_ref {
            vec![bound_assertion.clone()]
        } else {
            vec![]
        }
    };

    let fold_result = fold(vec![claim], assertions_fn, query_now, None, &config, &no_dispositions());
    let projection = project(&fold_result, &[], query_now, &config, false);

    assert!(projection.primary.is_none(), "invalidated claim must not be the primary belief");
    assert!(projection.alternatives.is_empty(), "invalidated claim must not be in alternatives");
    assert_eq!(projection.status, BeliefStatus::NoBelief, "NoBelief after invalidation");
}

#[test]
fn contested_fold_conflict_surfaces_contested_status() {
    let config = EngineConfig::default();
    let agent = agent();
    let t1 = at(Utc::now() - chrono::Duration::hours(5));
    let t2 = at(Utc::now() - chrono::Duration::hours(1));

    let c1 = make_claim(&agent, json("Paris"), t1, None, 0.0);
    let c2 = make_claim(&agent, json("Rome"), t2, None, 0.0);
    let fold_result = fold(vec![c1, c2], no_assertions, now(), None, &config, &no_dispositions());

    let projection = project(&fold_result, &[], now(), &config, false);

    assert_eq!(projection.status, BeliefStatus::Contested, "conflict must surface as Contested");
    assert!(projection.primary.is_none(), "no silent primary when contested");
    assert_eq!(projection.alternatives.len(), 2, "both contested claims in alternatives");
    assert!(projection.markers.contains(&Marker::Contested), "Contested marker must be present");
}

#[test]
fn pending_review_a26_ledger_entry_surfaces_marker() {
    let config = EngineConfig::default();
    let agent = agent();
    let tx = at(Utc::now() - chrono::Duration::days(1));
    let query_now = now();

    let claim = make_claim(&agent, json("Madrid"), tx, None, 0.0);
    let claim_ref = claim.claim_ref().clone();

    let fold_result = fold(vec![claim], no_assertions, query_now, None, &config, &no_dispositions());

    let pending_entry = LedgerEntry {
        entry_id: uuid::Uuid::new_v4().as_u128(),
        agent_id: agent.clone(),
        claim_ref: claim_ref.clone(),
        event_kind: LedgerEventKind::DependentFlaggedPendingReview,
        disposition: Disposition::PendingReview,
        rationale: None,
        recorded_at: TransactionTime(tx),
    };

    let projection = project(&fold_result, &[pending_entry], query_now, &config, false);

    assert!(
        projection.markers.contains(&Marker::PendingReview),
        "PendingReview marker must appear when DependentFlaggedPendingReview ledger entry exists"
    );
}

#[test]
fn now_injection_different_now_different_currency_state() {
    let config = EngineConfig::default();
    let agent = agent();

    let tx = at(Utc::now() - chrono::Duration::days(91));

    let claim = make_claim(&agent, json("Lisbon"), tx, None, 0.0);

    let now_a = at(Utc::now());
    let disp = no_dispositions();
    let fold_a = fold(vec![claim.clone()], no_assertions, now_a, None, &config, &disp);
    let proj_a = project(&fold_a, &[], now_a, &config, false);

    let now_b = at(Utc::now() - chrono::Duration::days(50));
    let fold_b = fold(vec![claim], no_assertions, now_b, None, &config, &disp);
    let proj_b = project(&fold_b, &[], now_b, &config, false);

    assert_eq!(proj_a.currency, CurrencyState::Decayed, "now_a: should be Decayed");
    assert_eq!(proj_b.currency, CurrencyState::AgingUnconfirmed, "now_b: should be AgingUnconfirmed");
    assert_ne!(proj_a.currency, proj_b.currency, "different now values must yield different currency state");
}

#[test]
fn no_belief_for_empty_subject_line() {
    let config = EngineConfig::default();
    let fold_result = fold(vec![], no_assertions, now(), None, &config, &no_dispositions());
    let projection = project(&fold_result, &[], now(), &config, false);

    assert_eq!(projection.status, BeliefStatus::NoBelief);
    assert!(projection.primary.is_none());
    assert!(projection.alternatives.is_empty());
    assert!(projection.staleness.is_stale);
}

fn at(time: DateTime<Utc>) -> Timestamp {
    Timestamp::new(time.timestamp(), time.timestamp_subsec_nanos()).unwrap()
}

fn score(value: f32) -> Score {
    Score { bits: f64::from(value).to_bits() }
}

fn json<T: Into<serde_json::Value>>(value: T) -> Arc<Json> {
    Arc::new(from_value(value.into()))
}

fn from_value(value: serde_json::Value) -> Json {
    match value {
        serde_json::Value::Null => Json::Null,
        serde_json::Value::Bool(b) => Json::Bool(b),
        serde_json::Value::Number(n) => Json::Number(match (n.as_u64(), n.as_i64()) {
            (Some(n), _) => Number::PosInt(n),
            (None, Some(n)) => Number::NegInt(n),
            _ => Number::Float(Score { bits: n.as_f64().unwrap().to_bits() }),
        }),
        serde_json::Value::String(s) => Json::Text(s),
        serde_json::Value::Array(items) => Json::Array(items.into_iter().map(from_value).collect()),
        serde_json::Value::Object(members) => Json::Object(
            members.into_iter().map(|(key, value)| Member { key, value: from_value(value) }).collect(),
        ),
    }
}
