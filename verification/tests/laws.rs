//! The laws of the engine, each on concrete values.
use std::collections::{HashMap, HashSet};
use std::sync::Arc;

use mempill_core::config::EngineConfig;
use mempill_core::domain::belief::{BeliefStatus, CurrencyState, Marker};
use mempill_core::domain::claim::{
    AgentId, Cardinality, Claim, Confidence, Criticality, DateGranularity, ExternalAnchor,
    ExternalKind, Fact, ProvenanceLabel, ValidTime,
};
use mempill_core::domain::records::{
    AssertionKind, ClaimEdge, Disposition, EdgeKind, LedgerEntry, LedgerEventKind, ValidityAssertion,
};
use mempill_core::engine::audit_ledger::in_writing_order;
use mempill_core::engine::firewall::{AmplificationGuard, FirewallVerdict};
use mempill_core::engine::gate::{adjudicate, is_temporally_incoherent, ConflictType, Proposal, Route};
use mempill_core::engine::gateway::{classify_provenance, stamp_as, IngestInput, ProvenanceClass};
use mempill_core::engine::history::{
    build_conflict_candidate_claims, claim_with_effective_window, compute_history_windows,
    end_is_bound_derived, is_hard_excluded_disposition, narrow_live_claims_for_valid_at,
    narrowed_valid_end, primary_key_and_granularity,
};
use mempill_core::engine::projection::{
    build_markers, compute_currency_state, compute_staleness, currency_after_seconds, decayed_text,
    is_pending_review, pending_review_refs, project,
};
use mempill_core::engine::reconciler::{classify_conflict, reconcile, ReconcilerInput};
use mempill_core::engine::supersession::{
    cascade_entry, closing_assertion, dependents, supersession_entry, SupersessionRequest,
};
use mempill_core::engine::truth_engine::{
    active_bound_at, claim_to_belief_raw, fold, fold_staleness, fold_status, is_claim_live,
    is_non_live_disposition, sort_claims, ClaimWithStatus, FoldResult,
};
use mempill_core::engine::valid_time_helpers::{
    is_trusted_succession, select_by_valid_time_instant, windows_non_overlapping_bounds,
};
use mempill_core::ident::ClaimRef;
use mempill_core::json::{json_text, Json, Number};
use mempill_core::score::Score;
use mempill_core::time::{Timestamp, TransactionTime};

const DAY: i64 = 86_400;

fn score(value: f32) -> Score {
    Score { bits: f64::from(value).to_bits() }
}

fn t(day: i64) -> Timestamp {
    Timestamp::new(day * DAY, 0).unwrap()
}

fn agent() -> AgentId {
    AgentId("agent".to_string())
}

fn external() -> ProvenanceLabel {
    ProvenanceLabel::External(ExternalKind::UserAsserted)
}

/// A claim that was written on a day, with a trusted window from one day to another.
struct Draft {
    id: u128,
    value: &'static str,
    written: i64,
    window: Option<(i64, Option<i64>)>,
    cardinality: Cardinality,
    provenance: ProvenanceLabel,
    depth: u32,
    criticality: Criticality,
    derived_from: Vec<ClaimRef>,
    predicate: &'static str,
}

fn draft(id: u128, value: &'static str, written: i64, window: Option<(i64, Option<i64>)>) -> Draft {
    Draft {
        id,
        value,
        written,
        window,
        cardinality: Cardinality::Functional,
        provenance: external(),
        depth: 0,
        criticality: Criticality::Low,
        derived_from: vec![],
        predicate: "city",
    }
}

impl Draft {
    fn claim(self) -> Claim {
        let (start, end, sure) = match self.window {
            Some((start, end)) => (Some(t(start)), end.map(t), 0.9),
            None => (None, None, 0.0),
        };
        Claim::new(
            ClaimRef(self.id),
            agent(),
            Fact {
                subject: "ada".to_string(),
                predicate: self.predicate.to_string(),
                value: Arc::new(json_text(self.value)),
            },
            self.cardinality,
            self.provenance,
            ExternalAnchor { nearest_external_anchor: None, derivation_depth: self.depth },
            TransactionTime(t(self.written)),
            ValidTime {
                start,
                end,
                valid_time_confidence: score(sure),
                start_granularity: None,
                end_granularity: None,
            },
            Confidence { value_confidence: score(0.9), valid_time_confidence: score(sure) },
            self.criticality,
            self.derived_from,
            None,
            None,
        )
    }
}

fn claim(id: u128, value: &'static str, written: i64, window: Option<(i64, Option<i64>)>) -> Claim {
    draft(id, value, written, window).claim()
}

fn assertion(id: u128, target: u128, asserted: i64, kind: AssertionKind) -> ValidityAssertion {
    ValidityAssertion {
        assertion_ref: id,
        agent_id: agent(),
        target_claim: ClaimRef(target),
        kind,
        provenance: external(),
        confidence: Confidence { value_confidence: score(1.0), valid_time_confidence: score(1.0) },
        asserted_at: TransactionTime(t(asserted)),
    }
}

fn bound(day: i64) -> AssertionKind {
    AssertionKind::Bound { bound_at: t(day), bound_at_granularity: None }
}

fn reopen(day: i64) -> AssertionKind {
    AssertionKind::Reopen { reopen_at: t(day) }
}

fn ids(entries: &[ClaimWithStatus]) -> Vec<u128> {
    entries.iter().map(|cs| cs.claim.claim_ref().0).collect()
}

fn folded(
    claims: Vec<Claim>,
    assertions: Vec<ValidityAssertion>,
    as_of: i64,
    valid_at: Option<i64>,
    dispositions: &[(u128, Disposition)],
) -> FoldResult {
    let map: HashMap<u128, Disposition> = dispositions.iter().copied().collect();
    fold(
        claims,
        |r: &ClaimRef| assertions.iter().filter(|a| a.target_claim == *r).cloned().collect(),
        t(as_of),
        valid_at.map(t),
        &EngineConfig::default(),
        &map,
    )
}

fn entry(id: u128, about: u128, kind: LedgerEventKind, disposition: Disposition, day: i64) -> LedgerEntry {
    LedgerEntry {
        entry_id: id,
        agent_id: agent(),
        claim_ref: ClaimRef(about),
        event_kind: kind,
        disposition,
        rationale: None,
        recorded_at: TransactionTime(t(day)),
    }
}

fn edge(id: u128, from: u128, to: u128, kind: EdgeKind) -> ClaimEdge {
    ClaimEdge {
        edge_id: id,
        agent_id: agent(),
        from_claim: ClaimRef(from),
        to_claim: ClaimRef(to),
        kind,
        created_at: TransactionTime(t(0)),
    }
}

fn text_of(json: &Json, key: &str) -> String {
    match json {
        Json::Object(members) => match &members.iter().find(|m| m.key == key).unwrap().value {
            Json::Text(text) => text.clone(),
            other => panic!("not a text: {:?}", other),
        },
        other => panic!("not an object: {:?}", other),
    }
}

// Windows.

#[test]
fn windows_lie_apart_whichever_is_named_first() {
    let cases = [(1, Some(5), 5, None), (1, Some(6), 5, None), (1, None, 5, None), (5, Some(9), 1, Some(5))];
    for (a, a_end, b, b_end) in cases {
        assert_eq!(
            windows_non_overlapping_bounds(t(a), a_end.map(t), t(b), b_end.map(t)),
            windows_non_overlapping_bounds(t(b), b_end.map(t), t(a), a_end.map(t))
        );
    }
    assert!(windows_non_overlapping_bounds(t(1), Some(t(5)), t(5), None));
    assert!(!windows_non_overlapping_bounds(t(1), Some(t(6)), t(5), None));
    assert!(!windows_non_overlapping_bounds(t(1), None, t(5), None));
}

#[test]
fn one_window_of_a_succession_contains_an_instant() {
    let a = claim(1, "x", 1, Some((10, Some(20))));
    let b = claim(2, "y", 2, Some((20, None)));
    let line = [&a, &b];
    assert!(is_trusted_succession(&line, EngineConfig::default().valid_time_confidence_threshold));
    for (day, expected) in [(9, None), (10, Some(1)), (19, Some(1)), (20, Some(2)), (99, Some(2))] {
        let found = select_by_valid_time_instant(&line, t(day));
        assert_eq!(found.map(|c| c.claim_ref().0), expected, "day {}", day);
    }
}

// Order.

#[test]
fn the_order_of_claims_does_not_depend_on_arrival() {
    let config = EngineConfig::default();
    let make = || vec![
        claim(3, "a", 5, None),
        claim(1, "b", 5, None),
        claim(2, "c", 9, Some((2, None))),
        claim(4, "d", 1, Some((7, None))),
    ];
    let forward = sort_claims(make(), &config);
    let mut reversed = make();
    reversed.reverse();
    let backward = sort_claims(reversed, &config);
    let order = |claims: &[Claim]| claims.iter().map(|c| c.claim_ref().0).collect::<Vec<_>>();
    assert_eq!(order(&forward), vec![2, 1, 3, 4]);
    assert_eq!(order(&backward), order(&forward));
}

#[test]
fn claims_with_one_key_stay_as_they_came() {
    let config = EngineConfig::default();
    let sorted = sort_claims(vec![claim(1, "first", 5, None), claim(1, "second", 5, None)], &config);
    assert!(sorted[0].fact().value.same(&json_text("first")));
    assert!(sorted[1].fact().value.same(&json_text("second")));
}

#[test]
fn leaving_claims_out_keeps_the_order_of_the_rest() {
    let config = EngineConfig::default();
    let make = || vec![claim(3, "a", 9, None), claim(1, "b", 5, None), claim(2, "c", 7, None)];
    let all: Vec<u128> = sort_claims(make(), &config).iter().map(|c| c.claim_ref().0).filter(|id| *id != 2).collect();
    let rest: Vec<Claim> = make().into_iter().filter(|c| c.claim_ref().0 != 2).collect();
    let sorted: Vec<u128> = sort_claims(rest, &config).iter().map(|c| c.claim_ref().0).collect();
    assert_eq!(all, sorted);
}

// The fold.

#[test]
fn the_fold_does_not_depend_on_arrival() {
    let make = || vec![claim(2, "x", 2, None), claim(1, "y", 1, None)];
    let mut other = make();
    other.reverse();
    let a = folded(make(), vec![], 9, None, &[]);
    let b = folded(other, vec![], 9, None, &[]);
    assert_eq!(ids(&a.live_claims), ids(&b.live_claims));
    assert_eq!(ids(&a.live_claims), vec![1, 2]);
    assert!(a.has_conflict && b.has_conflict);
}

#[test]
fn the_active_bound_does_not_depend_on_arrival() {
    let first = assertion(1, 1, 3, bound(3));
    let second = assertion(2, 1, 5, reopen(5));
    assert!(active_bound_at(&[first.clone(), second.clone()], t(9)).is_none());
    assert!(active_bound_at(&[second, first], t(9)).is_none());
}

#[test]
fn the_fold_keeps_every_claim() {
    let r = folded(
        vec![claim(1, "x", 1, None), claim(2, "y", 2, None), claim(3, "z", 3, None)],
        vec![assertion(9, 2, 4, bound(4))],
        9,
        None,
        &[(3, Disposition::Quarantined)],
    );
    assert_eq!(ids(&r.all_claims), vec![1, 2, 3]);
    assert_eq!(ids(&r.live_claims), vec![1]);
    assert_eq!(r.all_claims[1].bound_at, Some(t(4)));
    assert_eq!(r.all_claims[2].last_disposition, Some(Disposition::Quarantined));
}

#[test]
fn without_an_instant_the_fold_asks_about_the_present() {
    let line = || vec![claim(1, "x", 1, Some((1, Some(10)))), claim(2, "y", 2, Some((10, None)))];
    let now = folded(line(), vec![], 12, None, &[]);
    let same = folded(line(), vec![], 12, Some(12), &[]);
    assert_eq!(ids(&now.live_claims), ids(&same.live_claims));
    assert_eq!(ids(&now.live_claims), vec![2]);
}

#[test]
fn the_axes_are_independent() {
    let line = || vec![claim(1, "x", 1, Some((1, Some(10)))), claim(2, "y", 2, Some((10, None)))];
    let early = folded(line(), vec![], 12, Some(5), &[]);
    let late = folded(line(), vec![], 12, Some(11), &[]);
    assert_eq!(ids(&early.live_claims), vec![1]);
    assert_eq!(ids(&late.live_claims), vec![2]);
    assert_eq!(ids(&early.all_claims), ids(&late.all_claims));
    for (a, b) in early.all_claims.iter().zip(late.all_claims.iter()) {
        assert_eq!(a.is_live, b.is_live);
    }
}

#[test]
fn a_selected_succession_has_no_conflict() {
    let line = vec![claim(1, "x", 1, Some((1, Some(10)))), claim(2, "y", 2, Some((10, None)))];
    let r = folded(line, vec![], 12, Some(3), &[]);
    assert!(r.succession_selected && !r.has_conflict);
    assert_eq!(r.live_claims.len(), 1);
}

#[test]
fn an_instant_before_a_succession_has_no_answer() {
    let line = vec![claim(1, "x", 1, Some((5, Some(10)))), claim(2, "y", 2, Some((10, None)))];
    let r = folded(line, vec![], 12, Some(3), &[]);
    assert!(r.succession_selected && r.live_claims.is_empty());
}

#[test]
fn several_live_claims_are_all_kept_in_conflict() {
    let r = folded(vec![claim(1, "x", 1, None), claim(2, "y", 2, None)], vec![], 9, None, &[]);
    assert!(r.has_conflict && !r.succession_selected);
    assert_eq!(ids(&r.live_claims), vec![1, 2]);
    assert!(r.live_claims.iter().all(|cs| cs.is_live));
}

#[test]
fn set_valued_claims_are_not_in_conflict() {
    let mut a = draft(1, "x", 1, None);
    a.cardinality = Cardinality::SetValued;
    let mut b = draft(2, "y", 2, None);
    b.cardinality = Cardinality::SetValued;
    let r = folded(vec![a.claim(), b.claim()], vec![], 9, None, &[]);
    assert!(!r.has_conflict);
    assert_eq!(r.live_claims.len(), 2);
}

#[test]
fn every_disposition_is_live_or_not() {
    let cases = [
        (Disposition::CommittedCheap, true),
        (Disposition::CommittedInferred, true),
        (Disposition::QueuedForAdjudication, true),
        (Disposition::Contested, true),
        (Disposition::PendingConflict, true),
        (Disposition::PendingReview, true),
        (Disposition::PendingLowConfidence, true),
        (Disposition::Quarantined, false),
        (Disposition::Superseded, false),
        (Disposition::Invalidated, false),
        (Disposition::Reinstated, true),
        (Disposition::Rejected, false),
    ];
    for (disposition, live) in cases {
        assert_eq!(is_non_live_disposition(&disposition), !live);
        let r = folded(vec![claim(1, "x", 1, None)], vec![], 9, None, &[(1, disposition)]);
        assert_eq!(r.all_claims[0].is_live, live, "{:?}", disposition);
        assert_eq!(
            is_hard_excluded_disposition(&disposition),
            !live && disposition != Disposition::Superseded
        );
    }
}

#[test]
fn later_assertions_leave_the_past_alone() {
    let known = vec![assertion(1, 1, 3, bound(3))];
    let mut more = known.clone();
    more.push(assertion(2, 1, 8, reopen(8)));
    let before = active_bound_at(&known, t(7));
    assert_eq!(active_bound_at(&more, t(7)), before);
    assert_eq!(before.unwrap().bound_at, t(3));
    assert!(active_bound_at(&more, t(8)).is_none());
    let line = || vec![claim(1, "x", 1, None)];
    assert_eq!(
        ids(&folded(line(), known, 7, None, &[]).live_claims),
        ids(&folded(line(), more, 7, None, &[]).live_claims)
    );
}

#[test]
fn later_claims_are_not_known_yet() {
    let all = vec![claim(1, "x", 1, None), claim(2, "y", 5, None), claim(3, "z", 9, None)];
    let known: Vec<Claim> = all.into_iter().filter(|c| c.transaction_time().0 <= t(5)).collect();
    let r = folded(known, vec![], 5, None, &[]);
    assert_eq!(ids(&r.all_claims), vec![1, 2]);
    assert!(r.all_claims.iter().all(|cs| cs.claim.transaction_time().0 <= t(5)));
}

#[test]
fn the_last_assertion_decides() {
    let bounded = [assertion(1, 1, 2, reopen(2)), assertion(2, 1, 4, bound(3))];
    let state = active_bound_at(&bounded, t(9)).unwrap();
    assert_eq!((state.bound_at, state.assertion_ref), (t(3), 2));
    assert!(!is_claim_live(&bounded, t(9)));
    let reopened = [assertion(1, 1, 2, bound(2)), assertion(2, 1, 4, reopen(4))];
    assert!(is_claim_live(&reopened, t(9)));
}

#[test]
fn an_assertion_about_the_future_does_nothing_yet() {
    let ahead = [assertion(1, 1, 2, bound(8))];
    assert!(is_claim_live(&ahead, t(7)));
    assert!(!is_claim_live(&ahead, t(8)));
}

// Answers at an instant, and the history.

#[test]
fn a_bound_narrows_and_never_widens() {
    let c = claim(1, "x", 1, Some((1, Some(10))));
    assert_eq!(narrowed_valid_end(&c, Some(t(5)), Some(DateGranularity::Day)), (Some(t(5)), Some(DateGranularity::Day)));
    assert_eq!(narrowed_valid_end(&c, Some(t(12)), Some(DateGranularity::Day)), (Some(t(10)), None));
    assert_eq!(narrowed_valid_end(&c, None, None), (Some(t(10)), None));
    assert!(end_is_bound_derived(&c, Some(t(5))));
    assert!(!end_is_bound_derived(&c, Some(t(10))));
    let open = claim(2, "x", 1, Some((1, None)));
    assert_eq!(narrowed_valid_end(&open, Some(t(5)), None), (Some(t(5)), None));
    assert_eq!(narrowed_valid_end(&open, None, None), (None, None));
}

#[test]
fn reading_under_a_bound_changes_the_end_alone() {
    let r = folded(vec![claim(1, "x", 1, Some((1, None)))], vec![assertion(9, 1, 5, bound(5))], 9, None, &[]);
    let read = claim_with_effective_window(&r.all_claims[0]);
    assert_eq!(read.valid_time().end, Some(t(5)));
    assert_eq!(read.valid_time().start, Some(t(1)));
    assert_eq!(*read.claim_ref(), ClaimRef(1));
    assert!(read.fact().value.same(&json_text("x")));
    assert_eq!(r.all_claims[0].claim.valid_time().end, None);
}

#[test]
fn a_believed_claim_answers_in_its_window() {
    let line = || vec![claim(1, "x", 1, Some((1, None))), claim(2, "y", 6, Some((6, None)))];
    let closing = || vec![assertion(9, 1, 6, bound(6))];
    let config = EngineConfig::default();
    let at = |day: i64, denied: &HashSet<u128>| {
        narrow_live_claims_for_valid_at(folded(line(), closing(), 9, Some(day), &[]), t(day), denied, &config)
    };
    let none = HashSet::new();
    assert_eq!(ids(&at(3, &none).live_claims), vec![1]);
    assert_eq!(ids(&at(6, &none).live_claims), vec![2]);
    assert!(at(0, &none).live_claims.is_empty());
    assert!(!at(3, &none).has_conflict && at(3, &none).succession_selected);
    let denied: HashSet<u128> = [1].into_iter().collect();
    assert!(at(3, &denied).live_claims.is_empty());
    assert_eq!(ids(&at(6, &denied).live_claims), vec![2]);
}

#[test]
fn what_was_never_believed_never_comes_back() {
    let line = || vec![claim(1, "x", 1, Some((1, None))), claim(2, "y", 6, Some((6, None)))];
    let closing = || vec![assertion(9, 1, 6, bound(6))];
    for disposition in [Disposition::Quarantined, Disposition::Invalidated, Disposition::Rejected] {
        let r = folded(line(), closing(), 9, Some(3), &[(1, disposition)]);
        let candidates = build_conflict_candidate_claims(&r, &HashSet::new());
        assert_eq!(candidates.iter().map(|c| c.claim_ref().0).collect::<Vec<_>>(), vec![2]);
        let answer = narrow_live_claims_for_valid_at(r, t(3), &HashSet::new(), &EngineConfig::default());
        assert!(answer.live_claims.is_empty());
    }
}

#[test]
fn conflict_candidates_are_read_under_their_bounds() {
    let r = folded(
        vec![claim(1, "x", 1, Some((1, None))), claim(2, "y", 6, Some((6, None)))],
        vec![assertion(9, 1, 6, bound(6))],
        9,
        None,
        &[(1, Disposition::Superseded)],
    );
    let candidates = build_conflict_candidate_claims(&r, &HashSet::new());
    assert_eq!(candidates.len(), 2);
    assert_eq!(candidates[0].valid_time().end, Some(t(6)));
    assert_eq!(candidates[1].valid_time().end, None);
    let denied: HashSet<u128> = [1].into_iter().collect();
    assert_eq!(build_conflict_candidate_claims(&r, &denied).len(), 1);
}

#[test]
fn the_answer_at_an_instant_agrees_with_the_fold() {
    let line = || vec![claim(1, "x", 1, Some((1, Some(10)))), claim(2, "y", 2, Some((10, None)))];
    for day in [0, 1, 9, 10, 50] {
        let by_fold = folded(line(), vec![], 99, Some(day), &[]);
        let expected = ids(&by_fold.live_claims);
        let answer = narrow_live_claims_for_valid_at(by_fold, t(day), &HashSet::new(), &EngineConfig::default());
        assert_eq!(ids(&answer.live_claims), expected);
    }
}

#[test]
fn claims_without_a_trusted_window_are_left_as_they_are() {
    let r = folded(vec![claim(1, "x", 1, None), claim(2, "y", 2, None)], vec![], 9, Some(3), &[]);
    let answer = narrow_live_claims_for_valid_at(r, t(3), &HashSet::new(), &EngineConfig::default());
    assert!(answer.has_conflict && !answer.succession_selected);
    assert_eq!(ids(&answer.live_claims), vec![1, 2]);
}

#[test]
fn history_windows_end_with_their_successors() {
    let r = folded(
        vec![claim(1, "x", 1, None), claim(2, "y", 5, None), claim(3, "z", 5, None)],
        vec![],
        9,
        None,
        &[],
    );
    let windows = compute_history_windows(&r.all_claims, false, t(6), &EngineConfig::default());
    assert_eq!(windows.len(), 3);
    assert_eq!(windows[0].valid_until, Some(t(5)));
    assert_eq!(windows[1].valid_until, None);
    assert_eq!(windows[2].valid_until, None);
    assert!(!windows[0].contains_now && windows[1].contains_now);
}

#[test]
fn overlapping_history_windows_are_contested() {
    let r = folded(
        vec![claim(1, "x", 1, Some((1, Some(9)))), claim(2, "y", 2, Some((5, None)))],
        vec![],
        9,
        None,
        &[],
    );
    let windows = compute_history_windows(&r.all_claims, false, t(6), &EngineConfig::default());
    assert!(windows[0].contested && windows[0].valid_until == Some(t(9)));
    assert!(windows[1].contested && windows[1].valid_until.is_none());
    let all = compute_history_windows(&r.all_claims, true, t(6), &EngineConfig::default());
    assert!(all.iter().all(|w| w.contested));
}

#[test]
fn what_is_no_part_of_an_overlap_is_not_contested() {
    let r = folded(
        vec![
            claim(1, "x", 1, Some((1, Some(9)))),
            claim(2, "y", 2, Some((5, Some(12)))),
            claim(3, "z", 3, Some((12, Some(15)))),
            claim(4, "w", 4, Some((20, None))),
        ],
        vec![],
        30,
        None,
        &[],
    );
    let windows = compute_history_windows(&r.all_claims, false, t(30), &EngineConfig::default());
    let contested: Vec<bool> = windows.iter().map(|w| w.contested).collect();
    assert_eq!(contested, vec![true, true, false, false]);
    assert_eq!(windows[0].valid_until, Some(t(9)));
    assert_eq!(windows[1].valid_until, Some(t(12)));
}

#[test]
fn a_bound_that_ends_an_overlap_leaves_nothing_contested() {
    let r = folded(
        vec![claim(1, "x", 1, Some((1, None))), claim(2, "y", 2, Some((5, None)))],
        vec![assertion(9, 1, 6, bound(5))],
        30,
        None,
        &[],
    );
    let windows = compute_history_windows(&r.all_claims, false, t(30), &EngineConfig::default());
    assert!(!windows[0].contested && !windows[1].contested);
    assert_eq!(windows[0].valid_until, Some(t(5)));
}

#[test]
fn the_answer_agrees_with_the_fold_beside_what_was_ruled_out() {
    let config = EngineConfig::default();
    let ruled_out = [(3, Disposition::Rejected)];
    let succession = || vec![
        claim(1, "x", 1, Some((1, Some(10)))),
        claim(2, "y", 2, Some((10, None))),
        claim(3, "z", 3, None),
    ];
    let conflict = || vec![claim(1, "x", 1, None), claim(2, "y", 2, None), claim(3, "z", 3, None)];
    for day in [0, 5, 20] {
        for line in [succession(), conflict()] {
            let by_fold = folded(line, vec![], 99, Some(day), &ruled_out);
            let expected = (ids(&by_fold.live_claims), by_fold.has_conflict, by_fold.succession_selected);
            let answer = narrow_live_claims_for_valid_at(by_fold, t(day), &HashSet::new(), &config);
            assert_eq!((ids(&answer.live_claims), answer.has_conflict, answer.succession_selected), expected);
        }
    }
}

#[test]
fn the_primary_instant_has_the_precision_of_the_start() {
    let config = EngineConfig::default();
    let unsure = claim(1, "x", 4, None);
    assert_eq!(primary_key_and_granularity(&unsure, &config), (t(4), None));
    let sure = claim(2, "x", 4, Some((2, None)));
    let precise = sure.with_valid_time(ValidTime {
        start_granularity: Some(DateGranularity::Month),
        ..*sure.valid_time()
    });
    assert_eq!(primary_key_and_granularity(&precise, &config), (t(2), Some(DateGranularity::Month)));
}

// The projection.

#[test]
fn claims_only_age() {
    let config = EngineConfig::default();
    assert_eq!(currency_after_seconds(-5, &config), CurrencyState::Fresh);
    assert_eq!(currency_after_seconds(30 * DAY - 1, &config), CurrencyState::Fresh);
    assert_eq!(currency_after_seconds(30 * DAY, &config), CurrencyState::AgingUnconfirmed);
    assert_eq!(currency_after_seconds(90 * DAY - 1, &config), CurrencyState::AgingUnconfirmed);
    assert_eq!(currency_after_seconds(90 * DAY, &config), CurrencyState::Decayed);
    assert_eq!(compute_currency_state(t(0), t(29), &config), CurrencyState::Fresh);
    assert_eq!(compute_currency_state(t(0), t(31), &config), CurrencyState::AgingUnconfirmed);
    assert_eq!(compute_currency_state(t(0), t(91), &config), CurrencyState::Decayed);
}

#[test]
fn decay_removes_nothing() {
    let config = EngineConfig::default();
    let r = folded(vec![claim(1, "x", 1, None)], vec![], 1, None, &[]);
    let fresh = project(&r, &[], t(2), &config, false);
    let decayed = project(&r, &[], t(500), &config, false);
    assert_eq!(fresh.primary.as_ref().unwrap().claim_ref, decayed.primary.as_ref().unwrap().claim_ref);
    assert_eq!(fresh.currency, CurrencyState::Fresh);
    assert_eq!(decayed.currency, CurrencyState::Decayed);
    assert!(!fresh.staleness.is_stale);
    assert!(decayed.staleness.is_stale);
    assert_eq!(
        decayed.staleness.reason.as_deref(),
        Some("currency decayed: last refreshed at 1970-01-02T00:00:00+00:00")
    );
    assert_eq!(decayed_text("then"), "currency decayed: last refreshed at then");
}

#[test]
fn an_aging_answer_says_so_and_is_not_stale() {
    let config = EngineConfig::default();
    let r = folded(vec![claim(1, "x", 0, None)], vec![], 1, None, &[]);
    let belief = claim_to_belief_raw(&r.live_claims[0].claim);
    let flag = compute_staleness(Some(&belief), &r, t(40), &config);
    assert!(!flag.is_stale);
    assert_eq!(flag.reason.as_deref(), Some("aging unconfirmed: asserted long ago, not yet reconfirmed"));
    let none = compute_staleness(None, &r, t(40), &config);
    assert!(!none.is_stale && none.reason.is_none());
}

#[test]
fn a_conflict_is_surfaced() {
    let r = folded(vec![claim(1, "x", 1, None), claim(2, "y", 2, None)], vec![], 9, None, &[]);
    let answer = project(&r, &[], t(9), &EngineConfig::default(), false);
    assert_eq!(answer.status, BeliefStatus::Contested);
    assert!(answer.primary.is_none());
    assert_eq!(answer.alternatives.iter().map(|b| b.claim_ref.0).collect::<Vec<_>>(), vec![1, 2]);
    assert_eq!(answer.markers, vec![Marker::Contested]);
    assert_eq!(fold_status(&r, false), BeliefStatus::Conflict);
    assert_eq!(fold_status(&r, true), BeliefStatus::Conflict);
}

#[test]
fn no_live_claim_is_no_belief() {
    let r = folded(vec![claim(1, "x", 1, None)], vec![], 9, None, &[(1, Disposition::Rejected)]);
    let answer = project(&r, &[], t(9), &EngineConfig::default(), false);
    assert_eq!(answer.status, BeliefStatus::NoBelief);
    assert!(answer.primary.is_none() && answer.alternatives.is_empty());
    assert!(answer.staleness.is_stale);
    assert_eq!(answer.staleness.reason.as_deref(), Some("no live claim"));
    let by_fold = fold_staleness(&r);
    assert!(by_fold.is_stale);
    assert_eq!(by_fold.reason.as_deref(), Some("no live claim on subject-line"));
    assert_eq!(fold_status(&r, false), BeliefStatus::NoBelief);
}

#[test]
fn a_marker_is_set_where_it_applies() {
    let config = EngineConfig::default();
    let mut tainted = draft(1, "x", 1, None);
    tainted.provenance = ProvenanceLabel::RecallReEntry;
    tainted.depth = 4;
    let r = folded(vec![tainted.claim()], vec![], 9, None, &[]);
    assert_eq!(
        build_markers(&r, &[ClaimRef(1)], true, &config),
        vec![Marker::Contested, Marker::PendingReview, Marker::RecallTainted, Marker::LowDerivationAnchor]
    );
    assert_eq!(
        build_markers(&r, &[ClaimRef(2)], false, &config),
        vec![Marker::RecallTainted, Marker::LowDerivationAnchor]
    );
    let plain = folded(vec![claim(1, "x", 1, None)], vec![], 9, None, &[]);
    assert!(build_markers(&plain, &[], false, &config).is_empty());
}

#[test]
fn criticality_is_the_highest_of_the_live_claims() {
    let mut low = draft(1, "x", 1, None);
    low.criticality = Criticality::Medium;
    let mut high = draft(2, "y", 2, None);
    high.criticality = Criticality::High;
    let r = folded(vec![low.claim(), high.claim()], vec![], 9, None, &[]);
    assert_eq!(project(&r, &[], t(9), &EngineConfig::default(), false).criticality, Criticality::High);
    let without = folded(vec![], vec![], 9, None, &[]);
    assert_eq!(project(&without, &[], t(9), &EngineConfig::default(), false).criticality, Criticality::Low);
}

#[test]
fn flagged_dependents_are_shown() {
    let ledger = [
        entry(1, 1, LedgerEventKind::ClaimCommitted, Disposition::PendingReview, 1),
        entry(2, 2, LedgerEventKind::DependentFlaggedPendingReview, Disposition::PendingReview, 2),
    ];
    assert_eq!(pending_review_refs(&ledger), vec![ClaimRef(2)]);
    assert!(is_pending_review(&ClaimRef(2), &[ClaimRef(2)]));
    assert!(!is_pending_review(&ClaimRef(1), &[ClaimRef(2)]));
    let flagged = folded(vec![claim(2, "x", 1, None)], vec![], 9, None, &[]);
    let answer = project(&flagged, &ledger, t(9), &EngineConfig::default(), false);
    assert_eq!(answer.markers, vec![Marker::PendingReview]);
    let other = folded(vec![claim(1, "x", 1, None)], vec![], 9, None, &[]);
    assert!(project(&other, &ledger, t(9), &EngineConfig::default(), false).markers.is_empty());
}

// Decisions about proposals.

fn proposal(candidate: Claim, conflict_type: ConflictType, oracle_present: bool, measured: f32) -> Proposal {
    Proposal {
        candidate,
        incumbent: Some(claim_to_belief_raw(&claim(100, "old", 1, None))),
        conflict_type,
        measured_confidence: score(measured),
        cardinality_proposal: Cardinality::Functional,
        oracle_present,
    }
}

fn decided(candidate: Claim, conflict_type: ConflictType, oracle: bool) -> (Route, Disposition) {
    let d = adjudicate(&proposal(candidate, conflict_type, oracle, 0.5), &EngineConfig::default());
    (d.route, d.disposition)
}

const CONFLICTS: [ConflictType; 5] = [
    ConflictType::NoConflict,
    ConflictType::SameLineConflict,
    ConflictType::CrossLineConflict,
    ConflictType::DependsOnSuperseded,
    ConflictType::Succession,
];

#[test]
fn a_contradiction_is_contested_or_asked_about() {
    for conflict in [ConflictType::SameLineConflict, ConflictType::CrossLineConflict] {
        assert_eq!(
            decided(claim(1, "x", 5, None), conflict, false),
            (Route::HeavyPath, Disposition::Contested)
        );
        assert_eq!(
            decided(claim(1, "x", 5, None), conflict, true),
            (Route::HeavyPath, Disposition::QueuedForAdjudication)
        );
    }
    for oracle in [false, true] {
        assert_eq!(
            decided(claim(1, "x", 5, None), ConflictType::DependsOnSuperseded, oracle),
            (Route::HeavyPath, Disposition::QueuedForAdjudication)
        );
        for conflict in [ConflictType::NoConflict, ConflictType::Succession] {
            assert_eq!(
                decided(claim(1, "x", 5, None), conflict, oracle),
                (Route::CheapPath, Disposition::CommittedCheap)
            );
        }
    }
}

#[test]
fn model_content_and_reentries_contest_nothing() {
    for conflict in CONFLICTS {
        for oracle in [false, true] {
            let mut model = draft(1, "x", 5, None);
            model.provenance = ProvenanceLabel::ModelDerived;
            assert_eq!(
                decided(model.claim(), conflict, oracle),
                (Route::InferredRoute, Disposition::CommittedInferred)
            );
            let mut reentry = draft(1, "x", 5, Some((9, Some(7))));
            reentry.provenance = ProvenanceLabel::RecallReEntry;
            assert_eq!(
                decided(reentry.claim(), conflict, oracle),
                (Route::RecallTainted, Disposition::CommittedCheap)
            );
        }
    }
}

#[test]
fn an_impossible_window_is_parked() {
    let config = EngineConfig::default();
    for window in [(4, Some(2)), (6, None)] {
        for provenance in [external(), ProvenanceLabel::ModelDerived] {
            let mut candidate = draft(1, "x", 5, Some(window));
            candidate.provenance = provenance;
            let candidate = candidate.claim();
            assert!(is_temporally_incoherent(&candidate, &config));
            assert_eq!(
                decided(candidate, ConflictType::NoConflict, false),
                (Route::Quarantine, Disposition::Quarantined)
            );
        }
    }
    assert!(!is_temporally_incoherent(&claim(1, "x", 5, Some((5, Some(5)))), &config));
    assert!(!is_temporally_incoherent(&claim(1, "x", 5, None), &config));
}

#[test]
fn a_confidence_that_is_no_number_makes_no_window_impossible() {
    let config = EngineConfig::default();
    let backward = claim(1, "x", 5, Some((4, Some(2))));
    let unsure = backward.with_valid_time(ValidTime {
        valid_time_confidence: score(f32::NAN),
        ..*backward.valid_time()
    });
    assert!(is_temporally_incoherent(&backward, &config));
    assert!(!is_temporally_incoherent(&unsure, &config));
    assert_eq!(
        decided(unsure, ConflictType::NoConflict, false),
        (Route::CheapPath, Disposition::CommittedCheap)
    );
}

#[test]
fn measured_confidence_is_recorded_and_decides_nothing() {
    for conflict in CONFLICTS {
        let sure = adjudicate(&proposal(claim(1, "x", 5, None), conflict, false, 1.0), &EngineConfig::default());
        let unsure = adjudicate(&proposal(claim(1, "x", 5, None), conflict, false, 0.0), &EngineConfig::default());
        assert_eq!((sure.route, sure.disposition), (unsure.route, unsure.disposition));
    }
    let d = adjudicate(
        &proposal(claim(1, "x", 5, None), ConflictType::SameLineConflict, true, 0.25),
        &EngineConfig::default(),
    );
    assert_eq!(text_of(&d.rationale, "route"), "heavy_path");
    assert_eq!(text_of(&d.rationale, "conflict_type"), "SameLineConflict");
    match &d.rationale {
        Json::Object(members) => {
            let keys: Vec<&str> = members.iter().map(|m| m.key.as_str()).collect();
            assert_eq!(
                keys,
                vec!["route", "conflict_type", "corroboration_count", "measured_confidence", "oracle_present"]
            );
            assert!(members[3].value.same(&Json::Number(Number::Float(score(0.25)))));
            assert!(members[4].value.same(&Json::Bool(true)));
        },
        other => panic!("not an object: {:?}", other),
    }
}

#[test]
fn every_provenance_has_its_channel() {
    assert_eq!(classify_provenance(&external()), ProvenanceClass::External);
    assert_eq!(classify_provenance(&ProvenanceLabel::ModelDerived), ProvenanceClass::ModelDerived);
    assert_eq!(classify_provenance(&ProvenanceLabel::RecallReEntry), ProvenanceClass::RecallReEntry);
}

// The guard.

#[test]
fn bursts_are_looked_for_first() {
    let guard = AmplificationGuard::new(Arc::new(EngineConfig::default()));
    let mut reentry = draft(1, "x", 5, None);
    reentry.provenance = ProvenanceLabel::RecallReEntry;
    let reentry = reentry.claim();
    match guard.check(&reentry, &[ClaimRef(9)], 10) {
        FirewallVerdict::Quarantine { reason } => {
            assert_eq!(reason, "burst_detected: 10 identical re-entries in batch (threshold: 10)")
        },
        other => panic!("unexpected: {:?}", other),
    }
    match guard.check(&reentry, &[ClaimRef(9)], 9) {
        FirewallVerdict::CorroborateByIdentity { existing_claim, provenance_independent } => {
            assert_eq!(existing_claim, ClaimRef(9));
            assert!(!provenance_independent);
        },
        other => panic!("unexpected: {:?}", other),
    }
}

#[test]
fn deep_content_is_never_admitted() {
    let guard = AmplificationGuard::new(Arc::new(EngineConfig::default()));
    for depth in 0..6 {
        let mut candidate = draft(1, "x", 5, None);
        candidate.depth = depth;
        let verdict = guard.check(&candidate.claim(), &[], 0);
        if depth <= 2 {
            assert!(matches!(verdict, FirewallVerdict::Admit));
        } else {
            assert!(matches!(verdict, FirewallVerdict::DepthCapExceeded { depth: d, cap: 2 } if d == depth));
        }
    }
}

// How candidates relate to what is believed.

fn related(candidate: &Claim, incumbent: Option<&Claim>, live: &[Claim], superseded: &[ClaimRef]) -> ConflictType {
    let belief = incumbent.map(claim_to_belief_raw);
    classify_conflict(&ReconcilerInput {
        candidate,
        incumbent: belief.as_ref(),
        superseded_claim_refs: superseded,
        measured_confidence: score(0.5),
        cardinality_proposal: Cardinality::Functional,
        oracle_present: false,
        succession_threshold: EngineConfig::default().valid_time_confidence_threshold,
        all_live_claims: live,
    })
}

#[test]
fn a_first_write_contradicts_nothing() {
    let candidate = claim(1, "x", 5, None);
    assert_eq!(related(&candidate, None, &[claim(2, "y", 1, None)], &[]), ConflictType::NoConflict);
}

#[test]
fn a_succession_is_granted_by_the_whole_line() {
    let incumbent = claim(2, "old", 1, Some((1, Some(10))));
    let candidate = claim(1, "new", 20, Some((10, None)));
    let line = [incumbent.clone()];
    assert_eq!(related(&candidate, Some(&incumbent), &line, &[]), ConflictType::Succession);
    let overlapping = [incumbent.clone(), claim(3, "third", 2, Some((15, Some(16))))];
    assert_eq!(related(&candidate, Some(&incumbent), &overlapping, &[]), ConflictType::SameLineConflict);
    let with_itself = [incumbent.clone(), candidate.clone()];
    assert_eq!(related(&candidate, Some(&incumbent), &with_itself, &[]), ConflictType::Succession);
}

#[test]
fn a_restatement_must_not_overlap_another_value() {
    let incumbent = claim(2, "same", 1, Some((1, Some(10))));
    let candidate = claim(1, "same", 20, Some((10, None)));
    assert_eq!(related(&candidate, Some(&incumbent), &[incumbent.clone()], &[]), ConflictType::NoConflict);
    let line = [incumbent.clone(), claim(3, "other", 2, Some((15, None)))];
    assert_eq!(related(&candidate, Some(&incumbent), &line, &[]), ConflictType::SameLineConflict);
}

#[test]
fn another_predicate_is_a_conflict_across_lines() {
    let incumbent = claim(2, "x", 1, None);
    let mut other = draft(1, "x", 5, None);
    other.predicate = "country";
    assert_eq!(related(&other.claim(), Some(&incumbent), &[], &[]), ConflictType::CrossLineConflict);
    let mut derived = draft(1, "x", 5, None);
    derived.derived_from = vec![ClaimRef(7)];
    assert_eq!(
        related(&derived.claim(), Some(&incumbent), &[], &[ClaimRef(7)]),
        ConflictType::DependsOnSuperseded
    );
}

// Supersession.

fn request() -> SupersessionRequest {
    SupersessionRequest {
        agent_id: agent(),
        superseded_ref: ClaimRef(1),
        overturning_ref: ClaimRef(2),
        bound_at: t(6),
        recorded_at: TransactionTime(t(7)),
    }
}

#[test]
fn each_direct_dependent_is_flagged_once() {
    let edges = [
        edge(1, 10, 1, EdgeKind::DependsOn),
        edge(2, 10, 1, EdgeKind::DependsOn),
        edge(3, 11, 1, EdgeKind::DerivedFrom),
        edge(4, 12, 10, EdgeKind::DependsOn),
        edge(5, 1, 13, EdgeKind::DependsOn),
        edge(6, 14, 1, EdgeKind::DependsOn),
    ];
    assert_eq!(dependents(&edges, &ClaimRef(1)), vec![ClaimRef(10), ClaimRef(14)]);
}

#[test]
fn a_superseded_claim_is_closed() {
    let closing = closing_assertion(&request(), 50);
    assert_eq!(closing.target_claim, ClaimRef(1));
    assert_eq!(closing.assertion_ref, 50);
    let line = || vec![claim(1, "x", 1, None)];
    assert_eq!(ids(&folded(line(), vec![closing.clone()], 6, None, &[]).live_claims), vec![1]);
    let after = folded(line(), vec![closing], 7, None, &[]);
    assert!(after.live_claims.is_empty());
    assert_eq!(after.all_claims[0].bound_at, Some(t(6)));
}

#[test]
fn supersession_entries_say_what_happened() {
    let closed = supersession_entry(&request(), 60);
    assert_eq!((closed.entry_id, closed.claim_ref), (60, ClaimRef(1)));
    let why = closed.rationale.as_ref().unwrap();
    assert_eq!(text_of(why, "event"), "supersession");
    assert_eq!(text_of(why, "overturning_claim"), "00000000-0000-0000-0000-000000000002");
    assert_eq!(text_of(why, "bound_at"), "1970-01-07T00:00:00+00:00");
    let flagged = cascade_entry(&request(), &ClaimRef(10), 61);
    assert_eq!((flagged.entry_id, flagged.claim_ref), (61, ClaimRef(10)));
    assert_eq!(flagged.event_kind, LedgerEventKind::DependentFlaggedPendingReview);
    assert_eq!(flagged.disposition, Disposition::PendingReview);
    let why = flagged.rationale.as_ref().unwrap();
    assert_eq!(text_of(why, "event"), "depends_on_cascade");
    assert_eq!(text_of(why, "superseded_parent"), "00000000-0000-0000-0000-000000000001");
    assert_eq!(text_of(why, "overturning_claim"), "00000000-0000-0000-0000-000000000002");
}

// Audit.

#[test]
fn an_audit_has_the_oldest_entry_first() {
    let newest_first = vec![
        entry(3, 1, LedgerEventKind::ValidityAsserted, Disposition::Superseded, 3),
        entry(2, 2, LedgerEventKind::ClaimCommitted, Disposition::CommittedCheap, 2),
        entry(1, 1, LedgerEventKind::ClaimCommitted, Disposition::CommittedCheap, 1),
    ];
    let all: Vec<u128> = in_writing_order(newest_first.clone(), None).iter().map(|e| e.entry_id).collect();
    assert_eq!(all, vec![1, 2, 3]);
    let one: Vec<u128> = in_writing_order(newest_first, Some(ClaimRef(1))).iter().map(|e| e.entry_id).collect();
    assert_eq!(one, vec![1, 3]);
}

// All together.

/// Writes a candidate on a line with at most one claim before it, and returns what was decided.
fn written(candidate: &Claim, incumbent: Option<&Claim>, oracle_present: bool) -> Disposition {
    let config = EngineConfig::default();
    let belief = incumbent.map(claim_to_belief_raw);
    let live: Vec<Claim> = incumbent.into_iter().cloned().collect();
    let proposal = reconcile(
        ReconcilerInput {
            candidate,
            incumbent: belief.as_ref(),
            superseded_claim_refs: &[],
            measured_confidence: score(0.5),
            cardinality_proposal: Cardinality::Functional,
            oracle_present,
            succession_threshold: config.valid_time_confidence_threshold,
            all_live_claims: &live,
        },
        &config,
    );
    adjudicate(&proposal, &config).disposition
}

#[test]
fn what_is_written_first_is_recalled() {
    for window in [None, Some((1, None)), Some((1, Some(3)))] {
        let first = claim(1, "Berlin", 5, window);
        let disposition = written(&first, None, false);
        assert_eq!(disposition, Disposition::CommittedCheap);
        let r = folded(vec![first], vec![], 9, None, &[(1, disposition)]);
        let answer = project(&r, &[], t(9), &EngineConfig::default(), false);
        assert!(answer.primary.as_ref().unwrap().fact.value.same(&json_text("Berlin")));
        assert!(answer.alternatives.is_empty());
        let expected = if window.is_none() { BeliefStatus::TimingUncertain } else { BeliefStatus::Resolved };
        assert_eq!(answer.status, expected);
    }
}

#[test]
fn a_succession_is_recalled_by_instant() {
    let config = EngineConfig::default();
    let old = claim(1, "Berlin", 1, Some((1, Some(10))));
    let new = claim(2, "Paris", 20, Some((12, None)));
    for oracle in [false, true] {
        let disposition = written(&new, Some(&old), oracle);
        assert_eq!(disposition, Disposition::CommittedCheap);
        let answer_at = |day: i64| {
            let r = folded(
                vec![old.clone(), new.clone()],
                vec![],
                30,
                Some(day),
                &[(1, Disposition::CommittedCheap), (2, disposition)],
            );
            project(&r, &[], t(30), &config, false)
        };
        assert!(answer_at(5).primary.unwrap().fact.value.same(&json_text("Berlin")));
        assert!(answer_at(12).primary.unwrap().fact.value.same(&json_text("Paris")));
        assert_eq!(answer_at(11).status, BeliefStatus::NoBelief);
        assert_eq!(answer_at(0).status, BeliefStatus::NoBelief);
    }
}

#[test]
fn a_contradiction_is_recalled_as_contested() {
    let config = EngineConfig::default();
    let old = claim(1, "Berlin", 1, None);
    let new = claim(2, "Paris", 20, None);
    let disposition = written(&new, Some(&old), false);
    assert_eq!(disposition, Disposition::Contested);
    assert_eq!(written(&new, Some(&old), true), Disposition::QueuedForAdjudication);
    let r = folded(
        vec![old, new],
        vec![],
        30,
        None,
        &[(1, Disposition::CommittedCheap), (2, disposition)],
    );
    let answer = project(&r, &[], t(30), &config, false);
    assert_eq!(answer.status, BeliefStatus::Contested);
    assert!(answer.primary.is_none());
    assert_eq!(answer.alternatives.iter().map(|b| b.claim_ref.0).collect::<Vec<_>>(), vec![1, 2]);
    assert!(answer.markers.contains(&Marker::Contested));
}

#[test]
fn provenance_is_never_rewritten() {
    for provenance in [external(), ProvenanceLabel::ModelDerived, ProvenanceLabel::RecallReEntry] {
        let input = IngestInput {
            agent_id: agent(),
            fact: Fact {
                subject: "ada".to_string(),
                predicate: "city".to_string(),
                value: Arc::new(json_text("Berlin")),
            },
            cardinality: Cardinality::Functional,
            provenance: Some(provenance),
            external_anchor: ExternalAnchor { nearest_external_anchor: None, derivation_depth: 0 },
            valid_time: None,
            confidence: Confidence { value_confidence: score(1.0), valid_time_confidence: score(0.0) },
            criticality: Criticality::Low,
            derived_from: vec![],
            metadata: None,
        };
        let stamped = stamp_as(input, ClaimRef(1), TransactionTime(t(1))).unwrap();
        assert_eq!(*stamped.claim.claim_ref(), ClaimRef(1));
        assert_eq!(*stamped.claim.provenance(), provenance);
        assert_eq!(claim_to_belief_raw(&stamped.claim).provenance, provenance);
        let r = folded(vec![stamped.claim], vec![assertion(9, 1, 5, bound(5))], 9, None, &[]);
        assert_eq!(*claim_with_effective_window(&r.all_claims[0]).provenance(), provenance);
    }
}
