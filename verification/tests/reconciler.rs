//! How candidates relate to what is believed.
use std::sync::Arc;

use chrono::{DateTime, TimeZone, Utc};
use mempill_core::config::EngineConfig;
use mempill_core::domain::belief::{Belief, CurrencySignal, CurrencyState};
use mempill_core::domain::claim::{AgentId, Cardinality, Claim, Confidence, Criticality, ExternalAnchor, ExternalKind, Fact, ProvenanceLabel, ValidTime};
use mempill_core::engine::gate::{ConflictType, Proposal, Route, adjudicate};
use mempill_core::engine::reconciler::{ReconcilerInput, reconcile};
use mempill_core::ident::ClaimRef;
use mempill_core::json::{Json, Member, Number};
use mempill_core::score::Score;
use mempill_core::time::{Timestamp, TransactionTime};

fn tx() -> TransactionTime {
    TransactionTime(at(Utc.with_ymd_and_hms(2026, 6, 22, 0, 0, 0).unwrap()))
}

fn tx_past() -> TransactionTime {
    TransactionTime(at(Utc.with_ymd_and_hms(2025, 1, 1, 0, 0, 0).unwrap()))
}

fn no_vt() -> ValidTime {
    ValidTime { start: None, end: None, valid_time_confidence: score(0.0), start_granularity: None, end_granularity: None }
}

fn make_claim(
    subject: &str,
    predicate: &str,
    value: Arc<Json>,
    derived_from: Vec<ClaimRef>,
) -> Claim {
    Claim::new(
        ClaimRef::new_random(),
        AgentId("agent-rc".into()),
        Fact {
            subject: subject.into(),
            predicate: predicate.into(),
            value,
        },
        Cardinality::Functional,
        ProvenanceLabel::External(ExternalKind::ExternalFirstHand),
        ExternalAnchor { nearest_external_anchor: None, derivation_depth: 0 },
        tx(),
        no_vt(),
        Confidence { value_confidence: score(0.9), valid_time_confidence: score(0.0) },
        Criticality::Medium,
        derived_from,
        None,
        None,
    )
}

fn make_belief(subject: &str, predicate: &str, value: Arc<Json>) -> Belief {
    Belief {
        claim_ref: ClaimRef::new_random(),
        fact: Fact {
            subject: subject.into(),
            predicate: predicate.into(),
            value,
        },
        provenance: ProvenanceLabel::External(ExternalKind::UserAsserted),
        valid_time: no_vt(),
        transaction_time: tx_past(),
        confidence: Confidence { value_confidence: score(0.8), valid_time_confidence: score(0.0) },
        currency_signal: CurrencySignal {
            last_refreshed_at: tx_past(),
            state: CurrencyState::Fresh,
            corroboration_count: 0,
        },
        criticality: Criticality::Medium,
    }
}

fn cfg() -> EngineConfig {
    EngineConfig::default()
}

fn input<'a>(
    candidate: &'a Claim,
    incumbent: Option<&'a Belief>,
    superseded: &'a [ClaimRef],
    oracle: bool,
) -> ReconcilerInput<'a> {
    ReconcilerInput {
        candidate,
        incumbent,
        superseded_claim_refs: superseded,
        measured_confidence: score(0.85),
        cardinality_proposal: Cardinality::Functional,
        oracle_present: oracle,
        succession_threshold: score(0.7),
        all_live_claims: &[],
    }
}

#[test]
fn same_line_different_value_is_same_line_conflict() {
    let candidate = make_claim("user", "city", json("Paris"), vec![]);
    let incumbent = make_belief("user", "city", json("Berlin"));
    let inp = input(&candidate, Some(&incumbent), &[], false);
    let proposal = reconcile(inp, &cfg());
    assert_eq!(proposal.conflict_type, ConflictType::SameLineConflict,
        "same (subject, predicate) with different values must be SameLineConflict");
}

#[test]
fn same_line_conflict_proposal_carries_candidate_and_incumbent() {
    let candidate = make_claim("user", "city", json("Paris"), vec![]);
    let incumbent = make_belief("user", "city", json("Berlin"));
    let inp = input(&candidate, Some(&incumbent), &[], false);
    let proposal = reconcile(inp, &cfg());
    assert_eq!(to_value(&proposal.candidate.fact().value), serde_json::Value::from("Paris"));
    assert!(proposal.incumbent.is_some());
    assert_eq!(
        to_value(&proposal.incumbent.as_ref().unwrap().fact.value), serde_json::Value::from("Berlin")
    );
}

#[test]
fn cross_line_different_predicate_same_subject_is_cross_line_conflict() {
    let candidate = make_claim("user", "allergies", json("none"), vec![]);
    let incumbent = make_belief("user", "medications", json("penicillin"));
    let inp = input(&candidate, Some(&incumbent), &[], false);
    let proposal = reconcile(inp, &cfg());
    assert_eq!(proposal.conflict_type, ConflictType::CrossLineConflict,
        "same subject, different predicate → CrossLineConflict");
}

#[test]
fn cross_line_conflict_builds_correct_proposal_for_gate() {
    let candidate = make_claim("user", "country", json("France"), vec![]);
    let incumbent = make_belief("user", "location", json("Berlin"));
    let inp = input(&candidate, Some(&incumbent), &[], true);
    let proposal = reconcile(inp, &cfg());
    assert_eq!(proposal.conflict_type, ConflictType::CrossLineConflict);
    assert!(proposal.oracle_present, "oracle_present must be threaded into the proposal");
}

#[test]
fn same_line_same_value_is_no_conflict() {
    let candidate = make_claim("user", "city", json("Paris"), vec![]);
    let incumbent = make_belief("user", "city", json("Paris"));
    let inp = input(&candidate, Some(&incumbent), &[], false);
    let proposal = reconcile(inp, &cfg());
    assert_eq!(proposal.conflict_type, ConflictType::NoConflict,
        "identical value re-statement must be NoConflict (idempotent write)");
}

#[test]
fn same_line_same_value_different_type_is_same_line_conflict() {
    let candidate = make_claim("user", "age", json("30"), vec![]);
    let incumbent = make_belief("user", "age", json(30));
    let inp = input(&candidate, Some(&incumbent), &[], false);
    let proposal = reconcile(inp, &cfg());
    assert_eq!(proposal.conflict_type, ConflictType::SameLineConflict,
        "JSON type mismatch (string vs number) must be treated as different values → SameLineConflict");
}

#[test]
fn derived_from_superseded_claim_is_depends_on_superseded() {
    let superseded_ref = ClaimRef::new_random();
    let candidate = make_claim(
        "user", "city", json("Paris"),
        vec![superseded_ref.clone()],
    );
    let incumbent = make_belief("user", "city", json("Berlin"));
    let superseded = vec![superseded_ref];
    let inp = input(&candidate, Some(&incumbent), &superseded, false);
    let proposal = reconcile(inp, &cfg());
    assert_eq!(proposal.conflict_type, ConflictType::DependsOnSuperseded,
        "candidate derived_from a superseded claim must classify as DependsOnSuperseded");
}

#[test]
fn derived_from_non_superseded_claim_does_not_trigger_depends_on_superseded() {
    let ancestor_ref = ClaimRef::new_random();
    let candidate = make_claim(
        "user", "city", json("Paris"),
        vec![ancestor_ref.clone()],
    );
    let incumbent = make_belief("user", "city", json("Berlin"));

    let superseded: Vec<ClaimRef> = vec![];
    let inp = input(&candidate, Some(&incumbent), &superseded, false);
    let proposal = reconcile(inp, &cfg());

    assert_eq!(proposal.conflict_type, ConflictType::SameLineConflict);
}

#[test]
fn depends_on_superseded_fires_before_same_line_check() {
    let superseded_ref = ClaimRef::new_random();
    let candidate = make_claim(
        "user", "city", json("Paris"),
        vec![superseded_ref.clone()],
    );
    let incumbent = make_belief("user", "city", json("Berlin"));
    let superseded = vec![superseded_ref];
    let inp = input(&candidate, Some(&incumbent), &superseded, false);
    let proposal = reconcile(inp, &cfg());
    assert_eq!(proposal.conflict_type, ConflictType::DependsOnSuperseded,
        "DependsOnSuperseded check (step 2) fires before same-line check (step 3/4)");
}

#[test]
fn no_incumbent_is_no_conflict() {
    let candidate = make_claim("user", "city", json("Paris"), vec![]);
    let inp = input(&candidate, None, &[], false);
    let proposal = reconcile(inp, &cfg());
    assert_eq!(proposal.conflict_type, ConflictType::NoConflict,
        "no incumbent = first write on subject-line = NoConflict");
    assert!(proposal.incumbent.is_none());
}

#[test]
fn proposal_carries_measured_confidence() {
    let candidate = make_claim("user", "city", json("Paris"), vec![]);
    let inp = ReconcilerInput {
        candidate: &candidate,
        incumbent: None,
        superseded_claim_refs: &[],
        measured_confidence: score(0.73),
        cardinality_proposal: Cardinality::Functional,
        oracle_present: false,
        succession_threshold: score(0.7),
        all_live_claims: &[],
    };
    let proposal = reconcile(inp, &cfg());
    assert!((f64::from_bits(proposal.measured_confidence.bits) - 0.73).abs() < f64::from(f32::EPSILON),
        "measured_confidence must be threaded into the Proposal unchanged");
}

#[test]
fn proposal_carries_oracle_present_flag() {
    let candidate = make_claim("user", "city", json("Paris"), vec![]);
    let inp = input(&candidate, None, &[], true);
    let proposal = reconcile(inp, &cfg());
    assert!(proposal.oracle_present, "oracle_present=true must be in the Proposal");
}

#[test]
fn proposal_carries_cardinality_proposal() {
    let candidate = make_claim("user", "tags", json(vec!["rust"]), vec![]);
    let inp = ReconcilerInput {
        candidate: &candidate,
        incumbent: None,
        superseded_claim_refs: &[],
        measured_confidence: score(0.8),
        cardinality_proposal: Cardinality::SetValued,
        oracle_present: false,
        succession_threshold: score(0.7),
        all_live_claims: &[],
    };
    let proposal = reconcile(inp, &cfg());
    assert_eq!(proposal.cardinality_proposal, Cardinality::SetValued);
}

#[test]
fn reconcile_is_deterministic_same_line_conflict() {
    let candidate = make_claim("user", "city", json("Paris"), vec![]);
    let incumbent = make_belief("user", "city", json("Berlin"));
    let cfg = cfg();

    let p1 = reconcile(input(&candidate, Some(&incumbent), &[], false), &cfg);
    let p2 = reconcile(input(&candidate, Some(&incumbent), &[], false), &cfg);

    assert_eq!(p1.conflict_type, p2.conflict_type,
        "reconcile() must be deterministic for SameLineConflict");
    assert_eq!(
        format!("{:?}", p1.conflict_type),
        format!("{:?}", p2.conflict_type)
    );
}

#[test]
fn reconcile_is_deterministic_across_all_conflict_types() {
    let cfg = cfg();

    let c1 = make_claim("user", "city", json("Paris"), vec![]);
    let p1a = reconcile(input(&c1, None, &[], false), &cfg);
    let p1b = reconcile(input(&c1, None, &[], false), &cfg);
    assert_eq!(p1a.conflict_type, p1b.conflict_type);

    let c2 = make_claim("user", "city", json("Paris"), vec![]);
    let inc = make_belief("user", "city", json("Berlin"));
    let p2a = reconcile(input(&c2, Some(&inc), &[], false), &cfg);
    let p2b = reconcile(input(&c2, Some(&inc), &[], false), &cfg);
    assert_eq!(p2a.conflict_type, p2b.conflict_type);

    let c3 = make_claim("user", "country", json("France"), vec![]);
    let inc3 = make_belief("user", "city", json("Berlin"));
    let p3a = reconcile(input(&c3, Some(&inc3), &[], false), &cfg);
    let p3b = reconcile(input(&c3, Some(&inc3), &[], false), &cfg);
    assert_eq!(p3a.conflict_type, p3b.conflict_type);

    let sup_ref = ClaimRef::new_random();
    let c4 = make_claim("user", "city", json("Paris"), vec![sup_ref.clone()]);
    let inc4 = make_belief("user", "city", json("Berlin"));
    let sup = vec![sup_ref];
    let p4a = reconcile(input(&c4, Some(&inc4), &sup, false), &cfg);
    let p4b = reconcile(input(&c4, Some(&inc4), &sup, false), &cfg);
    assert_eq!(p4a.conflict_type, p4b.conflict_type);
}

#[test]
fn reconciler_proposal_is_consumable_by_gate() {
    let candidate = make_claim("user", "city", json("Paris"), vec![]);
    let incumbent = make_belief("user", "city", json("Berlin"));
    let inp = input(&candidate, Some(&incumbent), &[], false);
    let proposal = reconcile(inp, &cfg());

    let decision = adjudicate(&proposal, &cfg());

    assert_eq!(decision.route, Route::HeavyPath);
}

#[test]
fn no_conflict_proposal_routes_cheap_path_in_gate() {
    let candidate = make_claim("user", "city", json("Paris"), vec![]);
    let inp = input(&candidate, None, &[], false);
    let proposal = reconcile(inp, &cfg());
    let decision = adjudicate(&proposal, &cfg());
    assert_eq!(decision.route, Route::CheapPath);
}

fn make_belief_with_vt(
    subject: &str,
    predicate: &str,
    value: Arc<Json>,
    vt_start: Option<Timestamp>,
    vt_end: Option<Timestamp>,
    vt_confidence: f32,
) -> Belief {
    Belief {
        claim_ref: ClaimRef::new_random(),
        fact: Fact {
            subject: subject.into(),
            predicate: predicate.into(),
            value,
        },
        provenance: ProvenanceLabel::External(ExternalKind::UserAsserted),
        valid_time: ValidTime { start: vt_start, end: vt_end, valid_time_confidence: score(vt_confidence), start_granularity: None, end_granularity: None },
        transaction_time: tx_past(),
        confidence: Confidence { value_confidence: score(0.8), valid_time_confidence: score(vt_confidence) },
        currency_signal: CurrencySignal {
            last_refreshed_at: tx_past(),
            state: CurrencyState::Fresh,
            corroboration_count: 0,
        },
        criticality: Criticality::Medium,
    }
}

fn make_claim_with_vt(
    subject: &str,
    predicate: &str,
    value: Arc<Json>,
    vt_start: Option<Timestamp>,
    vt_end: Option<Timestamp>,
    vt_confidence: f32,
) -> Claim {
    Claim::new(
        ClaimRef::new_random(),
        AgentId("agent-rc".into()),
        Fact { subject: subject.into(), predicate: predicate.into(), value },
        Cardinality::Functional,
        ProvenanceLabel::External(ExternalKind::ExternalFirstHand),
        ExternalAnchor { nearest_external_anchor: None, derivation_depth: 0 },
        tx(),
        ValidTime { start: vt_start, end: vt_end, valid_time_confidence: score(vt_confidence), start_granularity: None, end_granularity: None },
        Confidence { value_confidence: score(0.9), valid_time_confidence: score(vt_confidence) },
        Criticality::Medium,
        vec![],
        None,
        None,
    )
}

fn dt(year: i32, month: u32, day: u32) -> Timestamp {
    at(Utc.with_ymd_and_hms(year, month, day, 0, 0, 0).unwrap())
}

#[test]
fn w1b_non_overlapping_confident_windows_is_succession() {
    let candidate = make_claim_with_vt(
        "user", "city", json("Paris"),
        Some(dt(2024, 3, 1)), None, 0.9,
    );
    let incumbent = make_belief_with_vt(
        "user", "city", json("Berlin"),
        Some(dt(2024, 1, 1)), Some(dt(2024, 3, 1)), 0.9,
    );
    let incumbent_claim = make_claim_with_vt(
        "user", "city", json("Berlin"),
        Some(dt(2024, 1, 1)), Some(dt(2024, 3, 1)), 0.9,
    );
    let inp = ReconcilerInput {
        candidate: &candidate,
        incumbent: Some(&incumbent),
        superseded_claim_refs: &[],
        measured_confidence: score(0.9),
        cardinality_proposal: Cardinality::Functional,
        oracle_present: false,
        succession_threshold: score(0.7),
        all_live_claims: std::slice::from_ref(&incumbent_claim),
    };
    let proposal = reconcile(inp, &cfg());
    assert_eq!(
        proposal.conflict_type, ConflictType::Succession,
        "non-overlapping trusted windows must classify as Succession (not SameLineConflict)"
    );
}

#[test]
fn w1b_overlapping_confident_windows_is_same_line_conflict() {
    let candidate = make_claim_with_vt(
        "user", "city", json("Paris"),
        Some(dt(2024, 3, 1)), None, 0.9,
    );
    let incumbent = make_belief_with_vt(
        "user", "city", json("Berlin"),
        Some(dt(2024, 1, 1)), Some(dt(2024, 4, 1)), 0.9,
    );
    let incumbent_claim = make_claim_with_vt(
        "user", "city", json("Berlin"),
        Some(dt(2024, 1, 1)), Some(dt(2024, 4, 1)), 0.9,
    );
    let inp = ReconcilerInput {
        candidate: &candidate,
        incumbent: Some(&incumbent),
        superseded_claim_refs: &[],
        measured_confidence: score(0.9),
        cardinality_proposal: Cardinality::Functional,
        oracle_present: false,
        succession_threshold: score(0.7),
        all_live_claims: std::slice::from_ref(&incumbent_claim),
    };
    let proposal = reconcile(inp, &cfg());
    assert_eq!(
        proposal.conflict_type, ConflictType::SameLineConflict,
        "overlapping windows must remain SameLineConflict"
    );
}

#[test]
fn w1b_low_confidence_windows_is_same_line_conflict() {
    let candidate = make_claim_with_vt(
        "user", "city", json("Paris"),
        Some(dt(2024, 3, 1)), None, 0.3,
    );
    let incumbent = make_belief_with_vt(
        "user", "city", json("Berlin"),
        Some(dt(2024, 1, 1)), Some(dt(2024, 3, 1)), 0.9,
    );
    let incumbent_claim = make_claim_with_vt(
        "user", "city", json("Berlin"),
        Some(dt(2024, 1, 1)), Some(dt(2024, 3, 1)), 0.9,
    );
    let inp = ReconcilerInput {
        candidate: &candidate,
        incumbent: Some(&incumbent),
        superseded_claim_refs: &[],
        measured_confidence: score(0.9),
        cardinality_proposal: Cardinality::Functional,
        oracle_present: false,
        succession_threshold: score(0.7),
        all_live_claims: std::slice::from_ref(&incumbent_claim),
    };
    let proposal = reconcile(inp, &cfg());
    assert_eq!(
        proposal.conflict_type, ConflictType::SameLineConflict,
        "low valid_time_confidence → not trusted → SameLineConflict (not Succession)"
    );
}

#[test]
fn w1b_succession_routes_cheap_path_in_gate() {
    let candidate = make_claim_with_vt(
        "user", "city", json("Paris"),
        Some(dt(2024, 3, 1)), None, 0.9,
    );
    let incumbent = make_belief_with_vt(
        "user", "city", json("Berlin"),
        Some(dt(2024, 1, 1)), Some(dt(2024, 3, 1)), 0.9,
    );
    let incumbent_claim = make_claim_with_vt(
        "user", "city", json("Berlin"),
        Some(dt(2024, 1, 1)), Some(dt(2024, 3, 1)), 0.9,
    );
    let inp = ReconcilerInput {
        candidate: &candidate,
        incumbent: Some(&incumbent),
        superseded_claim_refs: &[],
        measured_confidence: score(0.9),
        cardinality_proposal: Cardinality::Functional,
        oracle_present: false,
        succession_threshold: score(0.7),
        all_live_claims: std::slice::from_ref(&incumbent_claim),
    };
    let proposal = reconcile(inp, &cfg());
    let decision = adjudicate(&proposal, &cfg());
    assert_eq!(
        decision.route, Route::CheapPath,
        "Succession must route CheapPath (not HeavyPath/Contested)"
    );
}

#[test]
fn n_wide_succession_challenger_overlaps_noncurrent_chain_member_is_same_line_conflict() {
    let joan = make_claim_with_vt(
        "acme", "ceo", json("Joan"),
        Some(dt(2024, 9, 1)), Some(dt(2025, 11, 1)), 0.9,
    );
    let linda = make_claim_with_vt(
        "acme", "ceo", json("Linda"),
        Some(dt(2024, 9, 23)), Some(dt(2026, 1, 24)), 0.9,
    );
    let john = make_claim_with_vt(
        "acme", "ceo", json("John"),
        Some(dt(2026, 1, 24)), None, 0.9,
    );

    let incumbent_belief = make_belief_with_vt(
        "acme", "ceo", json("Linda"),
        Some(dt(2024, 9, 23)), Some(dt(2026, 1, 24)), 0.9,
    );
    let all_live = vec![linda.clone(), john.clone()];
    let inp = ReconcilerInput {
        candidate: &joan,
        incumbent: Some(&incumbent_belief),
        superseded_claim_refs: &[],
        measured_confidence: score(0.9),
        cardinality_proposal: Cardinality::Functional,
        oracle_present: false,
        succession_threshold: score(0.7),
        all_live_claims: &all_live,
    };
    let proposal = reconcile(inp, &cfg());
    assert_eq!(
        proposal.conflict_type, ConflictType::SameLineConflict,
        "Joan overlaps Linda (non-current chain member) → must be SameLineConflict, \
         never a silently cheap-pathed Succession"
    );
}

#[test]
fn n_wide_succession_challenger_non_overlapping_all_members_is_succession() {
    let linda = make_claim_with_vt(
        "acme", "ceo", json("Linda"),
        Some(dt(2024, 9, 23)), Some(dt(2026, 1, 24)), 0.9,
    );
    let john = make_claim_with_vt(
        "acme", "ceo", json("John"),
        Some(dt(2026, 1, 24)), Some(dt(2027, 1, 1)), 0.9,
    );
    let sam = make_claim_with_vt(
        "acme", "ceo", json("Sam"),
        Some(dt(2027, 1, 1)), None, 0.9,
    );
    let incumbent_belief = make_belief_with_vt(
        "acme", "ceo", json("Linda"),
        Some(dt(2024, 9, 23)), Some(dt(2026, 1, 24)), 0.9,
    );
    let all_live = vec![linda.clone(), john.clone()];
    let inp = ReconcilerInput {
        candidate: &sam,
        incumbent: Some(&incumbent_belief),
        superseded_claim_refs: &[],
        measured_confidence: score(0.9),
        cardinality_proposal: Cardinality::Functional,
        oracle_present: false,
        succession_threshold: score(0.7),
        all_live_claims: &all_live,
    };
    let proposal = reconcile(inp, &cfg());
    assert_eq!(
        proposal.conflict_type, ConflictType::Succession,
        "Sam is non-overlapping against every raw-live chain member → Succession"
    );
}

#[test]
fn n_wide_succession_point_claim_challenger_overlaps_noncurrent_member_is_same_line_conflict() {
    let point_claim = make_claim_with_vt(
        "acme", "ceo", json("Joan"),
        Some(dt(2025, 1, 1)), Some(dt(2025, 1, 1)), 0.9,
    );
    let linda = make_claim_with_vt(
        "acme", "ceo", json("Linda"),
        Some(dt(2024, 9, 23)), Some(dt(2026, 1, 24)), 0.9,
    );
    let john = make_claim_with_vt(
        "acme", "ceo", json("John"),
        Some(dt(2026, 1, 24)), None, 0.9,
    );
    let incumbent_belief = make_belief_with_vt(
        "acme", "ceo", json("Linda"),
        Some(dt(2024, 9, 23)), Some(dt(2026, 1, 24)), 0.9,
    );
    let all_live = vec![linda.clone(), john.clone()];
    let inp = ReconcilerInput {
        candidate: &point_claim,
        incumbent: Some(&incumbent_belief),
        superseded_claim_refs: &[],
        measured_confidence: score(0.9),
        cardinality_proposal: Cardinality::Functional,
        oracle_present: false,
        succession_threshold: score(0.7),
        all_live_claims: &all_live,
    };
    let proposal = reconcile(inp, &cfg());
    assert_eq!(
        proposal.conflict_type, ConflictType::SameLineConflict,
        "zero-width challenger window inside Linda's window must still be SameLineConflict"
    );
}

#[test]
fn step3_identical_value_overlapping_older_different_value_claim_is_same_line_conflict() {
    let a = make_claim_with_vt(
        "user", "city", json("Berlin"),
        Some(dt(2024, 1, 1)), Some(dt(2024, 2, 1)), 0.9,
    );
    let b = make_claim_with_vt(
        "user", "city", json("Paris"),
        Some(dt(2024, 2, 1)), None, 0.9,
    );
    let incumbent_b = make_belief_with_vt(
        "user", "city", json("Paris"),
        Some(dt(2024, 2, 1)), None, 0.9,
    );

    let candidate = make_claim_with_vt(
        "user", "city", json("Paris"),
        Some(dt(2024, 1, 15)), None, 0.9,
    );
    let all_live = vec![a.clone(), b.clone()];
    let inp = ReconcilerInput {
        candidate: &candidate,
        incumbent: Some(&incumbent_b),
        superseded_claim_refs: &[],
        measured_confidence: score(0.9),
        cardinality_proposal: Cardinality::Functional,
        oracle_present: false,
        succession_threshold: score(0.7),
        all_live_claims: &all_live,
    };
    let proposal = reconcile(inp, &cfg());
    assert_eq!(
        proposal.conflict_type, ConflictType::SameLineConflict,
        "identical value to the CURRENT incumbent must not skip the N-wide check when the \
         window overlaps an OLDER, differently-valued live claim"
    );
}

#[test]
fn step3_identical_value_no_overlap_with_different_value_claim_is_no_conflict() {
    let a = make_claim_with_vt(
        "user", "city", json("Berlin"),
        Some(dt(2024, 1, 1)), Some(dt(2024, 2, 1)), 0.9,
    );
    let b = make_claim_with_vt(
        "user", "city", json("Paris"),
        Some(dt(2024, 2, 1)), None, 0.9,
    );
    let incumbent_b = make_belief_with_vt(
        "user", "city", json("Paris"),
        Some(dt(2024, 2, 1)), None, 0.9,
    );

    let candidate = make_claim_with_vt(
        "user", "city", json("Paris"),
        Some(dt(2024, 3, 1)), None, 0.9,
    );
    let all_live = vec![a.clone(), b.clone()];
    let inp = ReconcilerInput {
        candidate: &candidate,
        incumbent: Some(&incumbent_b),
        superseded_claim_refs: &[],
        measured_confidence: score(0.9),
        cardinality_proposal: Cardinality::Functional,
        oracle_present: false,
        succession_threshold: score(0.7),
        all_live_claims: &all_live,
    };
    let proposal = reconcile(inp, &cfg());
    assert_eq!(
        proposal.conflict_type, ConflictType::NoConflict,
        "identical value overlapping ONLY the current incumbent's own window remains a \
         legitimate idempotent re-assertion"
    );
}

fn at(time: DateTime<Utc>) -> Timestamp {
    Timestamp::new(time.timestamp(), time.timestamp_subsec_nanos()).unwrap()
}

fn score(value: f32) -> Score {
    Score { bits: f64::from(value).to_bits() }
}

fn json<T: Into<serde_json::Value>>(value: T) -> Arc<Json> {
    Arc::new(from_value(value.into()))
}

fn from_value(value: serde_json::Value) -> Json {
    match value {
        serde_json::Value::Null => Json::Null,
        serde_json::Value::Bool(b) => Json::Bool(b),
        serde_json::Value::Number(n) => Json::Number(match (n.as_u64(), n.as_i64()) {
            (Some(n), _) => Number::PosInt(n),
            (None, Some(n)) => Number::NegInt(n),
            _ => Number::Float(Score { bits: n.as_f64().unwrap().to_bits() }),
        }),
        serde_json::Value::String(s) => Json::Text(s),
        serde_json::Value::Array(items) => Json::Array(items.into_iter().map(from_value).collect()),
        serde_json::Value::Object(members) => Json::Object(
            members.into_iter().map(|(key, value)| Member { key, value: from_value(value) }).collect(),
        ),
    }
}

fn to_value(json: &Json) -> serde_json::Value {
    match json {
        Json::Null => serde_json::Value::Null,
        Json::Bool(b) => serde_json::Value::from(*b),
        Json::Number(Number::PosInt(n)) => serde_json::Value::from(*n),
        Json::Number(Number::NegInt(n)) => serde_json::Value::from(*n),
        Json::Number(Number::Float(score)) => serde_json::Value::from(f64::from_bits(score.bits)),
        Json::Text(s) => serde_json::Value::from(s.as_str()),
        Json::Array(items) => serde_json::Value::Array(items.iter().map(to_value).collect()),
        Json::Object(members) => serde_json::Value::Object(
            members.iter().map(|member| (member.key.clone(), to_value(&member.value))).collect(),
        ),
    }
}
