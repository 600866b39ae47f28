//! The canonical fold: which claims of a subject line are live, and which one answers.
//!
//! The fold depends on what is handed in alone: it reads no clock and no store. Claims are ordered
//! by their start where their valid time is trusted enough, and by the time at which they were
//! written otherwise. Belief is derived by the fold at read time; it is never stored.
use std::collections::HashMap;

use vstd::prelude::*;
use vstd::std_specs::hash::*;

use crate::config::EngineConfig;
use crate::domain::belief::{
    Belief, BeliefStatus, CurrencySignal, CurrencyState, StalenessFlag,
};
use crate::domain::claim::{Cardinality, Claim, DateGranularity};
use crate::domain::records::{AssertionKind, Disposition, ValidityAssertion};
use crate::engine::ordering::{key_le, lemma_insert_at_place, ordered, place_for, OrderKey};
use crate::engine::valid_time_helpers::{
    all_started, first_covering, is_trusted_succession, select_by_valid_time_instant,
    trusted_succession,
};
use crate::ident::ClaimRef;
use crate::score::Score;
use crate::sequences::{lemma_filter_next, lemma_filter_none};
use crate::time::Timestamp;

verus! {

broadcast use vstd::std_specs::hash::group_hash_axioms;

/// Whether a disposition makes a claim non-live, whatever validity assertions there are.
pub open spec fn non_live(d: Disposition) -> bool {
    d is Quarantined || d is Superseded || d is Invalidated || d is Rejected
}

/// Whether a disposition makes a claim non-live, whatever validity assertions there are.
pub fn is_non_live_disposition(d: &Disposition) -> (r: bool)
    ensures
        r == non_live(*d),
{
    matches!(
        d,
        Disposition::Quarantined | Disposition::Superseded | Disposition::Invalidated
            | Disposition::Rejected
    )
}

/// A claim with what the fold found out about it.
#[derive(Debug)]
pub struct ClaimWithStatus {
    pub claim: Claim,
    /// Whether the claim is neither bounded nor ruled out by its disposition.
    pub is_live: bool,
    /// The disposition of the claim's last ledger entry, if there is one.
    pub last_disposition: Option<Disposition>,
    /// The instant of the claim's active bound, if there is one.
    pub bound_at: Option<Timestamp>,
    /// The precision of that instant, if it is known.
    pub bound_at_granularity: Option<DateGranularity>,
}

impl Clone for ClaimWithStatus {
    fn clone(&self) -> (r: Self)
        ensures
            r == *self,
    {
        ClaimWithStatus {
            claim: self.claim.clone(),
            is_live: self.is_live,
            last_disposition: self.last_disposition,
            bound_at: self.bound_at,
            bound_at_granularity: self.bound_at_granularity,
        }
    }
}

/// What the fold of a subject line found out.
#[derive(Clone, Debug)]
pub struct FoldResult {
    /// The live claims in canonical order, or what was selected of them.
    pub live_claims: Vec<ClaimWithStatus>,
    /// Whether several live claims exclude each other.
    pub has_conflict: bool,
    /// Whether the live claims were a trusted succession, of which one was selected.
    pub succession_selected: bool,
    /// All claims in canonical order, with their liveness before any selection.
    pub all_claims: Vec<ClaimWithStatus>,
}

/// What a [`FoldResult`] stands for.
#[verifier::ext_equal]
pub struct FoldModel {
    pub live: Seq<ClaimWithStatus>,
    pub has_conflict: bool,
    pub succession_selected: bool,
    pub all: Seq<ClaimWithStatus>,
}

impl View for FoldResult {
    type V = FoldModel;

    open spec fn view(&self) -> FoldModel {
        FoldModel {
            live: self.live_claims@,
            has_conflict: self.has_conflict,
            succession_selected: self.succession_selected,
            all: self.all_claims@,
        }
    }
}

/// The instant that a claim is ordered by: its start where that is trusted, else the time at which
/// it was written.
pub open spec fn primary_instant(claim: Claim, threshold: Score) -> Timestamp {
    if claim.valid_time().valid_time_confidence.reaches(threshold) && claim.valid_time().start is Some {
        claim.valid_time().start->0
    } else {
        claim.transaction_time().0
    }
}

/// What a claim is ordered by.
pub open spec fn claim_key(claim: Claim, threshold: Score) -> OrderKey {
    (primary_instant(claim, threshold), claim.transaction_time().0, claim.claim_ref().0)
}

/// [`claim_key`] as a function of the claim.
pub open spec fn by_claim_key(threshold: Score) -> spec_fn(Claim) -> OrderKey {
    |claim: Claim| claim_key(claim, threshold)
}

/// What a claim is ordered by: its primary instant, the time at which it was written, and its
/// identifier, so that the order is total and does not depend on the order of arrival.
pub fn ordering_key(claim: &Claim, config: &EngineConfig) -> (r: (Timestamp, Timestamp, u128))
    ensures
        r == claim_key(*claim, config.valid_time_confidence_threshold),
{
    let written = claim.transaction_time().0;
    let trusted = claim.valid_time().valid_time_confidence.at_least(
        &config.valid_time_confidence_threshold,
    );
    let primary = match claim.valid_time().start {
        Some(start) if trusted => start,
        _ => written,
    };
    (primary, written, claim.claim_ref().0)
}

/// The claims in canonical order.
pub open spec fn canonical(claims: Seq<Claim>, threshold: Score) -> Seq<Claim> {
    ordered(claims, by_claim_key(threshold))
}

/// An active bound.
#[derive(Clone, Copy, Debug, PartialEq, Eq, Structural)]
pub struct BoundState {
    /// The instant at which the claim's validity ends.
    pub bound_at: Timestamp,
    /// The assertion that set the bound.
    pub assertion_ref: u128,
    /// The precision of the instant, if it is known.
    pub bound_at_granularity: Option<DateGranularity>,
}

/// What validity assertions are ordered by: when they were asserted, and then their identifier.
pub open spec fn assertion_key(assertion: ValidityAssertion) -> OrderKey {
    (assertion.asserted_at.0, assertion.asserted_at.0, assertion.assertion_ref)
}

/// [`assertion_key`] as a function of the assertion.
pub open spec fn by_assertion_key() -> spec_fn(ValidityAssertion) -> OrderKey {
    |assertion: ValidityAssertion| assertion_key(assertion)
}

/// The bound that is active after one assertion more. An assertion counts from the time at which
/// it was asserted, and from the instant that it speaks of.
pub open spec fn after_assertion(
    state: Option<BoundState>,
    assertion: ValidityAssertion,
    as_of: Timestamp,
) -> Option<BoundState> {
    if assertion.asserted_at.0.at() > as_of.at() {
        state
    } else {
        match assertion.kind {
            AssertionKind::Bound { bound_at, bound_at_granularity } => if bound_at.at()
                <= as_of.at() {
                Some(
                    BoundState {
                        bound_at,
                        assertion_ref: assertion.assertion_ref,
                        bound_at_granularity,
                    },
                )
            } else {
                state
            },
            AssertionKind::Reopen { reopen_at } => if reopen_at.at() <= as_of.at() {
                None
            } else {
                state
            },
        }
    }
}

/// The bound that is active after these assertions, taken one after the other.
pub open spec fn after_assertions(assertions: Seq<ValidityAssertion>, as_of: Timestamp) -> Option<
    BoundState,
>
    decreases assertions.len(),
{
    if assertions.len() == 0 {
        None
    } else {
        after_assertion(
            after_assertions(assertions.drop_last(), as_of),
            assertions.last(),
            as_of,
        )
    }
}

/// The bound that is active at an instant of the transaction-time axis.
pub open spec fn active_bound(assertions: Seq<ValidityAssertion>, as_of: Timestamp) -> Option<
    BoundState,
> {
    after_assertions(ordered(assertions, by_assertion_key()), as_of)
}

/// The bound that is active at `as_of_tx_time`, or `None` where the claim is open: never bounded,
/// or bounded and reopened.
pub fn active_bound_at(assertions: &[ValidityAssertion], as_of_tx_time: Timestamp) -> (r: Option<
    BoundState,
>)
    ensures
        r == active_bound(assertions@, as_of_tx_time),
{
    let ghost key = by_assertion_key();
    let mut sorted: Vec<&ValidityAssertion> = Vec::new();
    let mut keys: Vec<OrderKey> = Vec::new();
    let mut i: usize = 0;
    assert(assertions@.take(0) =~= Seq::<ValidityAssertion>::empty());
    assert(sorted@.unref() =~= ordered(assertions@.take(0), key));
    while i < assertions.len()
        invariant
            i <= assertions.len(),
            key == by_assertion_key(),
            sorted@.unref() == ordered(assertions@.take(i as int), key),
            keys.len() == sorted.len(),
            forall|k: int| 0 <= k < keys.len() ==> #[trigger] keys@[k] == assertion_key(*sorted@[k]),
        decreases assertions.len() - i,
    {
        let assertion: &ValidityAssertion = &assertions[i];
        let instant = assertion.asserted_at.0;
        let own: OrderKey = (instant, instant, assertion.assertion_ref);
        let place: usize = place_for(&keys, &own);
        let ghost before = sorted@.unref();
        proof {
            assert forall|k: int| place <= k < before.len() implies !(#[trigger] key_le(
                key(before[k]),
                key(*assertion),
            )) by {
                assert(keys@[k] == assertion_key(*sorted@[k]));
            }
            if place > 0 {
                assert(keys@[place - 1] == assertion_key(*sorted@[place - 1]));
            }
            lemma_insert_at_place(before, *assertion, key, place as int);
            assert(assertions@.take(i + 1).drop_last() =~= assertions@.take(i as int));
        }
        keys.insert(place, own);
        sorted.insert(place, assertion);
        assert(sorted@.unref() =~= before.insert(place as int, *assertion));
        i += 1;
    }
    assert(assertions@.take(i as int) =~= assertions@);
    let ghost all = sorted@.unref();
    let mut state: Option<BoundState> = None;
    let mut i: usize = 0;
    assert(all.take(0) =~= Seq::<ValidityAssertion>::empty());
    while i < sorted.len()
        invariant
            i <= sorted.len(),
            all == sorted@.unref(),
            state == after_assertions(all.take(i as int), as_of_tx_time),
        decreases sorted.len() - i,
    {
        let assertion = sorted[i];
        assert(all.take(i + 1).drop_last() =~= all.take(i as int));
        assert(all.take(i + 1).last() == *assertion);
        if assertion.asserted_at.0.at_or_before(&as_of_tx_time) {
            match assertion.kind {
                AssertionKind::Bound { bound_at, bound_at_granularity } => {
                    if bound_at.at_or_before(&as_of_tx_time) {
                        state = Some(
                            BoundState {
                                bound_at,
                                assertion_ref: assertion.assertion_ref,
                                bound_at_granularity,
                            },
                        );
                    }
                },
                AssertionKind::Reopen { reopen_at } => {
                    if reopen_at.at_or_before(&as_of_tx_time) {
                        state = None;
                    }
                },
            }
        }
        i += 1;
    }
    assert(all.take(i as int) =~= all);
    state
}

/// Whether a claim with these assertions is live: whether no bound is active.
pub fn is_claim_live(assertions: &[ValidityAssertion], as_of_tx_time: Timestamp) -> (r: bool)
    ensures
        r == (active_bound(assertions@, as_of_tx_time) is None),
{
    active_bound_at(assertions, as_of_tx_time).is_none()
}

/// The latest disposition of a claim, if the map has one.
pub open spec fn disposition_of(dispositions: Map<u128, Disposition>, claim: Claim) -> Option<
    Disposition,
> {
    if dispositions.contains_key(claim.claim_ref().0) {
        Some(dispositions[claim.claim_ref().0])
    } else {
        None
    }
}

/// What the fold finds out about one claim with these assertions.
pub open spec fn status_of(
    claim: Claim,
    assertions: Seq<ValidityAssertion>,
    as_of: Timestamp,
    dispositions: Map<u128, Disposition>,
) -> ClaimWithStatus {
    let disposition = disposition_of(dispositions, claim);
    let bound = active_bound(assertions, as_of);
    ClaimWithStatus {
        claim,
        is_live: bound is None && !(disposition is Some && non_live(disposition->0)),
        last_disposition: disposition,
        bound_at: match bound {
            Some(state) => Some(state.bound_at),
            None => None,
        },
        bound_at_granularity: match bound {
            Some(state) => state.bound_at_granularity,
            None => None,
        },
    }
}

/// What the fold finds out about all claims, each with its own assertions.
pub open spec fn statuses(
    claims: Seq<Claim>,
    lists: Seq<Seq<ValidityAssertion>>,
    as_of: Timestamp,
    dispositions: Map<u128, Disposition>,
) -> Seq<ClaimWithStatus> {
    Seq::new(claims.len(), |i: int| status_of(claims[i], lists[i], as_of, dispositions))
}

/// Whether the fold found a claim to be live.
pub open spec fn found_live() -> spec_fn(ClaimWithStatus) -> bool {
    |cs: ClaimWithStatus| cs.is_live
}

/// Whether an entry is about the claim with this reference.
pub open spec fn about(claim_ref: ClaimRef) -> spec_fn(ClaimWithStatus) -> bool {
    |cs: ClaimWithStatus| *cs.claim.claim_ref() == claim_ref
}

/// The claims of the entries.
pub open spec fn claims_of(entries: Seq<ClaimWithStatus>) -> Seq<Claim> {
    Seq::new(entries.len(), |i: int| entries[i].claim)
}

/// The entries about the first claim of `windows` that covers an instant.
pub open spec fn selected(
    entries: Seq<ClaimWithStatus>,
    windows: Seq<Claim>,
    instant: Timestamp,
) -> Seq<ClaimWithStatus> {
    match first_covering(windows, instant) {
        Some(claim) => entries.filter(about(*claim.claim_ref())),
        None => Seq::empty(),
    }
}

/// Whether live claims exclude each other: several of them, and not all set-valued.
pub open spec fn in_conflict(live: Seq<ClaimWithStatus>) -> bool {
    live.len() > 1 && exists|i: int|
        0 <= i < live.len() && *(#[trigger] live[i]).claim.cardinality() != Cardinality::SetValued
}

/// What the fold makes of these entries. Several live claims that form a trusted succession are
/// narrowed to the one whose window contains the instant; whether the claims are in conflict is
/// asked of what is left.
pub open spec fn fold_entries(
    all: Seq<ClaimWithStatus>,
    instant: Timestamp,
    threshold: Score,
) -> FoldModel {
    let live = all.filter(found_live());
    let succession = live.len() > 1 && trusted_succession(claims_of(live), threshold);
    let kept = if succession {
        selected(live, claims_of(live), instant)
    } else {
        live
    };
    FoldModel { live: kept, has_conflict: in_conflict(kept), succession_selected: succession, all }
}

/// The instant on the valid-time axis that is asked about: the given one, else that of the
/// transaction-time axis.
pub open spec fn instant_asked(valid_at: Option<Timestamp>, as_of: Timestamp) -> Timestamp {
    match valid_at {
        Some(instant) => instant,
        None => as_of,
    }
}

/// The canonical fold of claims in canonical order, each with its own assertions.
pub open spec fn fold_model(
    claims: Seq<Claim>,
    lists: Seq<Seq<ValidityAssertion>>,
    as_of: Timestamp,
    valid_at: Option<Timestamp>,
    threshold: Score,
    dispositions: Map<u128, Disposition>,
) -> FoldModel {
    fold_entries(
        statuses(claims, lists, as_of, dispositions),
        instant_asked(valid_at, as_of),
        threshold,
    )
}

/// The contents of lists of assertions.
pub open spec fn contents(lists: Seq<Vec<ValidityAssertion>>) -> Seq<Seq<ValidityAssertion>> {
    Seq::new(lists.len(), |i: int| lists[i]@)
}

/// The canonical fold of claims in any order, with the assertions of each claim given by a table.
pub open spec fn fold_with(
    claims: Seq<Claim>,
    table: spec_fn(ClaimRef) -> Seq<ValidityAssertion>,
    as_of: Timestamp,
    valid_at: Option<Timestamp>,
    threshold: Score,
    dispositions: Map<u128, Disposition>,
) -> FoldModel {
    let sorted = canonical(claims, threshold);
    fold_model(
        sorted,
        Seq::new(sorted.len(), |i: int| table(*sorted[i].claim_ref())),
        as_of,
        valid_at,
        threshold,
        dispositions,
    )
}

/// Whether a function gives the assertions that a table has.
pub open spec fn looks_up<F: Fn(&ClaimRef) -> Vec<ValidityAssertion>>(
    f: F,
    table: spec_fn(ClaimRef) -> Seq<ValidityAssertion>,
) -> bool {
    forall|claim_ref: &ClaimRef, out: Vec<ValidityAssertion>|
        #[trigger] call_ensures(f, (claim_ref,), out) ==> out@ == table(*claim_ref)
}

/// The claims in canonical order.
pub fn sort_claims(claims: Vec<Claim>, config: &EngineConfig) -> (r: Vec<Claim>)
    ensures
        r@ == canonical(claims@, config.valid_time_confidence_threshold),
{
    let ghost key = by_claim_key(config.valid_time_confidence_threshold);
    let mut sorted: Vec<Claim> = Vec::new();
    let mut keys: Vec<OrderKey> = Vec::new();
    let mut i: usize = 0;
    assert(claims@.take(0) =~= Seq::<Claim>::empty());
    assert(sorted@ =~= ordered(claims@.take(0), key));
    while i < claims.len()
        invariant
            i <= claims.len(),
            key == by_claim_key(config.valid_time_confidence_threshold),
            sorted@ == ordered(claims@.take(i as int), key),
            keys.len() == sorted.len(),
            forall|k: int| 0 <= k < keys.len() ==> #[trigger] keys@[k] == key(sorted@[k]),
        decreases claims.len() - i,
    {
        let claim = claims[i].clone();
        let own: OrderKey = ordering_key(&claim, config);
        let place: usize = place_for(&keys, &own);
        proof {
            assert forall|k: int| place <= k < sorted.len() implies !(#[trigger] key_le(
                key(sorted@[k]),
                key(claim),
            )) by {
                assert(keys@[k] == key(sorted@[k]));
            }
            if place > 0 {
                assert(keys@[place - 1] == key(sorted@[place - 1]));
            }
            lemma_insert_at_place(sorted@, claim, key, place as int);
            assert(claims@.take(i + 1).drop_last() =~= claims@.take(i as int));
        }
        keys.insert(place, own);
        sorted.insert(place, claim);
        i += 1;
    }
    assert(claims@.take(i as int) =~= claims@);
    sorted
}

/// What the fold finds out about one claim with these assertions.
pub fn claim_status(
    claim: &Claim,
    assertions: &[ValidityAssertion],
    as_of_tx_time: Timestamp,
    latest_disposition: &HashMap<u128, Disposition>,
) -> (r: ClaimWithStatus)
    ensures
        r == status_of(*claim, assertions@, as_of_tx_time, latest_disposition@),
{
    let last_disposition: Option<Disposition> = match latest_disposition.get(
        &claim.claim_ref().0,
    ) {
        Some(d) => Some(*d),
        None => None,
    };
    let ruled_out = match &last_disposition {
        Some(d) => is_non_live_disposition(d),
        None => false,
    };
    let bound = active_bound_at(assertions, as_of_tx_time);
    let (bound_at, bound_at_granularity) = match bound {
        Some(state) => (Some(state.bound_at), state.bound_at_granularity),
        None => (None, None),
    };
    ClaimWithStatus {
        claim: claim.clone(),
        is_live: bound.is_none() && !ruled_out,
        last_disposition,
        bound_at,
        bound_at_granularity,
    }
}

fn live_entries(entries: &Vec<ClaimWithStatus>) -> (r: Vec<ClaimWithStatus>)
    ensures
        r@ == entries@.filter(found_live()),
{
    let mut out: Vec<ClaimWithStatus> = Vec::new();
    let mut i: usize = 0;
    proof {
        lemma_filter_none(entries@, found_live());
    }
    while i < entries.len()
        invariant
            i <= entries.len(),
            out@ == entries@.take(i as int).filter(found_live()),
        decreases entries.len() - i,
    {
        proof {
            lemma_filter_next(entries@, i as int, found_live());
        }
        if entries[i].is_live {
            out.push(entries[i].clone());
        }
        i += 1;
    }
    proof {
        lemma_filter_none(entries@, found_live());
    }
    out
}

fn entries_about(entries: &Vec<ClaimWithStatus>, claim_ref: ClaimRef) -> (r: Vec<ClaimWithStatus>)
    ensures
        r@ == entries@.filter(about(claim_ref)),
{
    let mut out: Vec<ClaimWithStatus> = Vec::new();
    let mut i: usize = 0;
    proof {
        lemma_filter_none(entries@, about(claim_ref));
    }
    while i < entries.len()
        invariant
            i <= entries.len(),
            out@ == entries@.take(i as int).filter(about(claim_ref)),
        decreases entries.len() - i,
    {
        proof {
            lemma_filter_next(entries@, i as int, about(claim_ref));
        }
        if *entries[i].claim.claim_ref() == claim_ref {
            out.push(entries[i].clone());
        }
        i += 1;
    }
    proof {
        lemma_filter_none(entries@, about(claim_ref));
    }
    out
}

fn claim_refs<'a>(entries: &'a Vec<ClaimWithStatus>) -> (r: Vec<&'a Claim>)
    ensures
        r@.unref() == claims_of(entries@),
{
    let mut out: Vec<&'a Claim> = Vec::new();
    let mut i: usize = 0;
    while i < entries.len()
        invariant
            i <= entries.len(),
            out.len() == i,
            forall|k: int| 0 <= k < i ==> *(#[trigger] out@[k]) == entries@[k].claim,
        decreases entries.len() - i,
    {
        out.push(&entries[i].claim);
        i += 1;
    }
    assert(out@.unref() =~= claims_of(entries@));
    out
}

/// The entries about the first claim of `windows` that covers the instant.
pub(crate) fn select_entries(
    entries: &Vec<ClaimWithStatus>,
    windows: &Vec<&Claim>,
    instant: Timestamp,
) -> (r: Vec<ClaimWithStatus>)
    requires
        all_started(windows@.unref()),
    ensures
        r@ == selected(entries@, windows@.unref(), instant),
{
    match select_by_valid_time_instant(windows.as_slice(), instant) {
        Some(claim) => entries_about(entries, *claim.claim_ref()),
        None => Vec::new(),
    }
}

fn conflicting(live: &Vec<ClaimWithStatus>) -> (r: bool)
    ensures
        r == in_conflict(live@),
{
    if live.len() <= 1 {
        return false;
    }
    let mut i: usize = 0;
    while i < live.len()
        invariant
            i <= live.len(),
            live.len() > 1,
            forall|k: int|
                0 <= k < i ==> *(#[trigger] live@[k]).claim.cardinality() == Cardinality::SetValued,
        decreases live.len() - i,
    {
        if *live[i].claim.cardinality() != Cardinality::SetValued {
            assert(*live@[i as int].claim.cardinality() != Cardinality::SetValued);
            return true;
        }
        i += 1;
    }
    false
}

/// The fold of claims whose statuses are known, at an instant of the valid-time axis.
pub fn fold_statuses(
    all_claims: Vec<ClaimWithStatus>,
    instant: Timestamp,
    config: &EngineConfig,
) -> (r: FoldResult)
    ensures
        r@ == fold_entries(all_claims@, instant, config.valid_time_confidence_threshold),
{
    let live = live_entries(&all_claims);
    if live.len() > 1 {
        let windows = claim_refs(&live);
        if is_trusted_succession(windows.as_slice(), config.valid_time_confidence_threshold) {
            assert(all_started(windows@.unref()));
            let live_claims = select_entries(&live, &windows, instant);
            let has_conflict = conflicting(&live_claims);
            return FoldResult { live_claims, has_conflict, succession_selected: true, all_claims };
        }
    }
    let has_conflict = conflicting(&live);
    FoldResult { live_claims: live, has_conflict, succession_selected: false, all_claims }
}

/// The canonical fold of a subject line.
///
/// `assertions_for` gives the validity assertions of a claim. `as_of_tx_time` decides which
/// assertions are visible; `valid_at_instant` is the instant that is asked about on the valid-time
/// axis, for which `as_of_tx_time` stands in where there is none. `latest_disposition` gives the
/// latest disposition of a claim by its identifier.
pub fn fold<F>(
    claims: Vec<Claim>,
    assertions_for: F,
    as_of_tx_time: Timestamp,
    valid_at_instant: Option<Timestamp>,
    config: &EngineConfig,
    latest_disposition: &HashMap<u128, Disposition>,
) -> (r: FoldResult) where F: Fn(&ClaimRef) -> Vec<ValidityAssertion>
    requires
        forall|claim_ref: &ClaimRef| call_requires(assertions_for, (claim_ref,)),
    ensures
        ({
            let sorted = canonical(claims@, config.valid_time_confidence_threshold);
            exists|lists: Seq<Vec<ValidityAssertion>>|
                {
                    &&& lists.len() == sorted.len()
                    &&& forall|i: int|
                        0 <= i < sorted.len() ==> call_ensures(
                            assertions_for,
                            (#[trigger] sorted[i].claim_ref(),),
                            lists[i],
                        )
                    &&& r@ == fold_model(
                        sorted,
                        #[trigger] contents(lists),
                        as_of_tx_time,
                        valid_at_instant,
                        config.valid_time_confidence_threshold,
                        latest_disposition@,
                    )
                }
        }),
        forall|table: spec_fn(ClaimRef) -> Seq<ValidityAssertion>|
            #[trigger] looks_up(assertions_for, table) ==> r@ == fold_with(
                claims@,
                table,
                as_of_tx_time,
                valid_at_instant,
                config.valid_time_confidence_threshold,
                latest_disposition@,
            ),
{
    let sorted = sort_claims(claims, config);
    let ghost mut lists: Seq<Vec<ValidityAssertion>> = Seq::empty();
    let mut all_claims: Vec<ClaimWithStatus> = Vec::new();
    let mut i: usize = 0;
    while i < sorted.len()
        invariant
            i <= sorted.len(),
            forall|claim_ref: &ClaimRef| call_requires(assertions_for, (claim_ref,)),
            lists.len() == i,
            all_claims.len() == i,
            forall|k: int|
                0 <= k < i ==> call_ensures(
                    assertions_for,
                    (#[trigger] sorted@[k].claim_ref(),),
                    lists[k],
                ),
            forall|k: int|
                0 <= k < i ==> #[trigger] all_claims@[k] == status_of(
                    sorted@[k],
                    lists[k]@,
                    as_of_tx_time,
                    latest_disposition@,
                ),
        decreases sorted.len() - i,
    {
        let assertions = assertions_for(sorted[i].claim_ref());
        proof {
            lists = lists.push(assertions);
        }
        all_claims.push(
            claim_status(
                &sorted[i],
                assertions.as_slice(),
                as_of_tx_time,
                latest_disposition,
            ),
        );
        i += 1;
    }
    assert(all_claims@ =~= statuses(
        sorted@,
        contents(lists),
        as_of_tx_time,
        latest_disposition@,
    ));
    proof {
        assert forall|table: spec_fn(ClaimRef) -> Seq<ValidityAssertion>|
            #[trigger] looks_up(assertions_for, table) implies contents(lists) =~= Seq::new(
            sorted@.len(),
            |k: int| table(*sorted@[k].claim_ref()),
        ) by {
            assert forall|k: int| 0 <= k < sorted@.len() implies lists[k]@ == table(
                *(#[trigger] sorted@[k]).claim_ref(),
            ) by {
                assert(call_ensures(assertions_for, (sorted@[k].claim_ref(),), lists[k]));
            }
        }
    }
    let instant = match valid_at_instant {
        Some(instant) => instant,
        None => as_of_tx_time,
    };
    fold_statuses(all_claims, instant, config)
}

/// A claim as the reader of the memory sees it, before its currency is known.
pub open spec fn belief_of(claim: Claim) -> Belief {
    Belief {
        claim_ref: *claim.claim_ref(),
        fact: *claim.fact(),
        provenance: *claim.provenance(),
        valid_time: *claim.valid_time(),
        transaction_time: *claim.transaction_time(),
        confidence: *claim.confidence(),
        currency_signal: CurrencySignal {
            last_refreshed_at: *claim.transaction_time(),
            state: CurrencyState::Fresh,
            corroboration_count: 0,
        },
        criticality: *claim.criticality(),
    }
}

/// The claim of an entry as a belief. Its currency is left to the projection.
pub fn claim_to_belief(cs: &ClaimWithStatus) -> (r: Belief)
    ensures
        r == belief_of(cs.claim),
{
    claim_to_belief_raw(&cs.claim)
}

/// A claim as a belief. Its currency is left to the projection.
pub fn claim_to_belief_raw(claim: &Claim) -> (r: Belief)
    ensures
        r == belief_of(*claim),
{
    Belief {
        claim_ref: *claim.claim_ref(),
        fact: claim.fact().clone(),
        provenance: *claim.provenance(),
        valid_time: *claim.valid_time(),
        transaction_time: *claim.transaction_time(),
        confidence: *claim.confidence(),
        currency_signal: CurrencySignal {
            last_refreshed_at: *claim.transaction_time(),
            state: CurrencyState::Fresh,
            corroboration_count: 0,
        },
        criticality: *claim.criticality(),
    }
}

/// The status of live claims, where they are in conflict with `conflict`.
pub open spec fn status_with(
    live: Seq<ClaimWithStatus>,
    is_conflict: bool,
    conflict: BeliefStatus,
) -> BeliefStatus {
    if live.len() == 0 {
        BeliefStatus::NoBelief
    } else if is_conflict {
        conflict
    } else if live.len() == 1 && live[0].claim.valid_time().start is None
        && live[0].claim.valid_time().end is None {
        BeliefStatus::TimingUncertain
    } else {
        BeliefStatus::Resolved
    }
}

/// The status that the fold by itself gives. A pending review does not change it: the projection
/// shows it as a marker.
pub fn fold_status(fold: &FoldResult, has_pending_review: bool) -> (r: BeliefStatus)
    ensures
        r == status_with(fold@.live, fold.has_conflict, BeliefStatus::Conflict),
{
    live_status(&fold.live_claims, fold.has_conflict, BeliefStatus::Conflict)
}

pub(crate) fn live_status(
    live: &Vec<ClaimWithStatus>,
    is_conflict: bool,
    conflict: BeliefStatus,
) -> (r: BeliefStatus)
    ensures
        r == status_with(live@, is_conflict, conflict),
{
    if live.len() == 0 {
        BeliefStatus::NoBelief
    } else if is_conflict {
        conflict
    } else if live.len() == 1 && live[0].claim.valid_time().is_unknown() {
        BeliefStatus::TimingUncertain
    } else {
        BeliefStatus::Resolved
    }
}

/// Whether the fold by itself calls the answer stale: it does where there is none.
pub fn fold_staleness(fold: &FoldResult) -> (r: StalenessFlag)
    ensures
        r.is_stale == (fold@.live.len() == 0),
        r.reason_text() == if fold@.live.len() == 0 {
            Some("no live claim on subject-line"@)
        } else {
            None
        },
{
    if fold.live_claims.len() == 0 {
        StalenessFlag { is_stale: true, reason: Some("no live claim on subject-line".to_owned()) }
    } else {
        StalenessFlag { is_stale: false, reason: None }
    }
}

} // verus!
