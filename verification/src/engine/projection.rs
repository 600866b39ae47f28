//! The projection: the answer to a query, with its currency, staleness and markers.
//!
//! The present is handed in; no clock is read here.
use vstd::prelude::*;

use crate::config::EngineConfig;
use crate::domain::belief::{
    Belief, BeliefProjection, BeliefStatus, CurrencySignal, CurrencyState, Marker, StalenessFlag,
};
use crate::domain::claim::Criticality;
use crate::domain::records::{Disposition, LedgerEntry, LedgerEventKind};
use crate::engine::truth_engine::{
    belief_of, claim_to_belief, fold_staleness, live_status, status_with, ClaimWithStatus,
    FoldModel, FoldResult,
};
use crate::ident::ClaimRef;
use crate::sequences::{lemma_filter_next, lemma_filter_none};
use crate::text::join;
use crate::time::{elapsed_nanos, elapsed_seconds, rfc3339_text, Timestamp};

verus! {

/// The currency of a claim that was last refreshed so many seconds ago.
pub open spec fn currency_after(seconds: int, config: EngineConfig) -> CurrencyState {
    if seconds < config.aging_unconfirmed_threshold_days * 86_400 {
        CurrencyState::Fresh
    } else if seconds < config.decayed_threshold_days * 86_400 {
        CurrencyState::AgingUnconfirmed
    } else {
        CurrencyState::Decayed
    }
}

/// The currency at `now` of a claim that was last refreshed at an instant.
pub open spec fn currency_at(
    refreshed: Timestamp,
    now: Timestamp,
    config: EngineConfig,
) -> CurrencyState {
    currency_after(
        elapsed_seconds(now.secs(), now.nanos(), refreshed.secs(), refreshed.nanos()),
        config,
    )
}

/// The currency of a claim that was last refreshed so many seconds ago.
pub fn currency_after_seconds(seconds: i64, config: &EngineConfig) -> (r: CurrencyState)
    ensures
        r == currency_after(seconds as int, *config),
{
    if seconds < config.aging_unconfirmed_threshold_days as i64 * 86_400 {
        CurrencyState::Fresh
    } else if seconds < config.decayed_threshold_days as i64 * 86_400 {
        CurrencyState::AgingUnconfirmed
    } else {
        CurrencyState::Decayed
    }
}

/// The currency at `now` of a claim that was last refreshed at an instant: fresh for fewer days
/// than the first threshold, aging for fewer than the second, and decayed from then on.
pub fn compute_currency_state(
    last_refreshed_at: Timestamp,
    now: Timestamp,
    config: &EngineConfig,
) -> (r: CurrencyState)
    ensures
        r == currency_at(last_refreshed_at, now, *config),
{
    currency_after_seconds(now.seconds_since(&last_refreshed_at), config)
}

/// The currency of a belief at `now`.
pub open spec fn signal_of(belief: Belief, now: Timestamp, config: EngineConfig) -> CurrencySignal {
    CurrencySignal {
        last_refreshed_at: belief.transaction_time,
        state: currency_at(belief.transaction_time.0, now, config),
        corroboration_count: belief.currency_signal.corroboration_count,
    }
}

/// The currency of a belief at `now`.
pub fn build_currency_signal(belief: &Belief, now: Timestamp, config: &EngineConfig) -> (r:
    CurrencySignal)
    ensures
        r == signal_of(*belief, now, *config),
{
    CurrencySignal {
        last_refreshed_at: belief.transaction_time,
        state: compute_currency_state(belief.transaction_time.0, now, config),
        corroboration_count: belief.currency_signal.corroboration_count,
    }
}

/// The reason that is given for a decayed belief, from the text of the instant at which it was
/// last refreshed.
pub open spec fn decayed_reason(refreshed_at: Seq<char>) -> Seq<char> {
    "currency decayed: last refreshed at "@ + refreshed_at
}

/// The reason that is given for a decayed belief.
pub fn decayed_text(refreshed_at: &str) -> (r: String)
    ensures
        r@ == decayed_reason(refreshed_at@),
{
    join("currency decayed: last refreshed at ", refreshed_at)
}

/// Whether an answer is stale, and why.
pub struct Staleness {
    pub is_stale: bool,
    pub reason: Option<Seq<char>>,
}

/// Whether an answer is stale: where there is no live claim, and where its primary belief has
/// decayed.
pub open spec fn staleness_of(
    primary: Option<Belief>,
    live: Seq<ClaimWithStatus>,
    now: Timestamp,
    config: EngineConfig,
) -> Staleness {
    if live.len() == 0 {
        Staleness { is_stale: true, reason: Some("no live claim"@) }
    } else {
        match primary {
            None => Staleness { is_stale: false, reason: None },
            Some(belief) => {
                let refreshed = belief.transaction_time.0;
                match currency_at(refreshed, now, config) {
                    CurrencyState::Decayed => Staleness {
                        is_stale: true,
                        reason: Some(
                            decayed_reason(rfc3339_text(refreshed.secs(), refreshed.nanos())),
                        ),
                    },
                    CurrencyState::AgingUnconfirmed => Staleness {
                        is_stale: false,
                        reason: Some("aging unconfirmed: asserted long ago, not yet reconfirmed"@),
                    },
                    CurrencyState::Fresh => Staleness { is_stale: false, reason: None },
                }
            },
        }
    }
}

/// Whether an answer with this primary belief is stale, and why.
pub fn compute_staleness(
    primary: Option<&Belief>,
    fold: &FoldResult,
    now: Timestamp,
    config: &EngineConfig,
) -> (r: StalenessFlag)
    ensures
        ({
            let expected = staleness_of(
                match primary {
                    Some(belief) => Some(*belief),
                    None => None,
                },
                fold@.live,
                now,
                *config,
            );
            &&& r.is_stale == expected.is_stale
            &&& r.reason_text() == expected.reason
        }),
{
    if fold.live_claims.len() == 0 {
        return StalenessFlag { is_stale: true, reason: Some("no live claim".to_owned()) };
    }
    match primary {
        Some(belief) => match compute_currency_state(belief.transaction_time.0, now, config) {
            CurrencyState::Decayed => StalenessFlag {
                is_stale: true,
                reason: Some(decayed_text(belief.transaction_time.0.to_rfc3339().as_str())),
            },
            CurrencyState::AgingUnconfirmed => StalenessFlag {
                is_stale: false,
                reason: Some(
                    "aging unconfirmed: asserted long ago, not yet reconfirmed".to_owned(),
                ),
            },
            CurrencyState::Fresh => fold_staleness(fold),
        },
        None => fold_staleness(fold),
    }
}

/// Whether a ledger entry flags its claim for review.
pub open spec fn flags_review() -> spec_fn(LedgerEntry) -> bool {
    |entry: LedgerEntry|
        entry.event_kind == LedgerEventKind::DependentFlaggedPendingReview && entry.disposition
            == Disposition::PendingReview
}

/// The claims that ledger entries are about.
pub open spec fn subjects(entries: Seq<LedgerEntry>) -> Seq<ClaimRef> {
    Seq::new(entries.len(), |i: int| entries[i].claim_ref)
}

/// The claims that are flagged for review in the ledger.
pub fn pending_review_refs(ledger_entries: &[LedgerEntry]) -> (r: Vec<ClaimRef>)
    ensures
        r@ == subjects(ledger_entries@.filter(flags_review())),
{
    let mut out: Vec<ClaimRef> = Vec::new();
    let mut i: usize = 0;
    proof {
        lemma_filter_none(ledger_entries@, flags_review());
    }
    assert(out@ =~= subjects(ledger_entries@.take(0).filter(flags_review())));
    while i < ledger_entries.len()
        invariant
            i <= ledger_entries.len(),
            out@ == subjects(ledger_entries@.take(i as int).filter(flags_review())),
        decreases ledger_entries.len() - i,
    {
        let entry = &ledger_entries[i];
        proof {
            lemma_filter_next(ledger_entries@, i as int, flags_review());
        }
        if entry.event_kind == LedgerEventKind::DependentFlaggedPendingReview && entry.disposition
            == Disposition::PendingReview {
            out.push(entry.claim_ref);
        }
        i += 1;
        assert(out@ =~= subjects(ledger_entries@.take(i as int).filter(flags_review())));
    }
    proof {
        lemma_filter_none(ledger_entries@, flags_review());
    }
    out
}

/// Whether a claim is among those that are flagged for review.
pub fn is_pending_review(claim_ref: &ClaimRef, pending_refs: &[ClaimRef]) -> (r: bool)
    ensures
        r == pending_refs@.contains(*claim_ref),
{
    let mut i: usize = 0;
    while i < pending_refs.len()
        invariant
            i <= pending_refs.len(),
            forall|k: int| 0 <= k < i ==> #[trigger] pending_refs@[k] != *claim_ref,
        decreases pending_refs.len() - i,
    {
        if pending_refs[i] == *claim_ref {
            assert(pending_refs@[i as int] == *claim_ref);
            return true;
        }
        i += 1;
    }
    false
}

/// Whether some live claim is flagged for review.
pub open spec fn some_flagged(live: Seq<ClaimWithStatus>, flagged: Seq<ClaimRef>) -> bool {
    exists|i: int| 0 <= i < live.len() && flagged.contains(*(#[trigger] live[i]).claim.claim_ref())
}

/// Whether some live claim is output of the engine that came back in.
pub open spec fn some_reentered(live: Seq<ClaimWithStatus>) -> bool {
    exists|i: int| 0 <= i < live.len() && (#[trigger] live[i]).claim.provenance() is RecallReEntry
}

/// Whether some live claim is derived beyond the cap.
pub open spec fn some_beyond(live: Seq<ClaimWithStatus>, cap: u32) -> bool {
    exists|i: int|
        0 <= i < live.len() && (#[trigger] live[i]).claim.external_anchor().derivation_depth > cap
}

/// The marker where it applies, and nothing where it does not.
pub open spec fn marked(marker: Marker, applies: bool) -> Seq<Marker> {
    if applies {
        seq![marker]
    } else {
        seq![]
    }
}

/// The markers of an answer.
pub open spec fn markers_of(
    fold: FoldModel,
    flagged: Seq<ClaimRef>,
    contested: bool,
    config: EngineConfig,
) -> Seq<Marker> {
    marked(Marker::Contested, contested || fold.has_conflict) + marked(
        Marker::PendingReview,
        some_flagged(fold.live, flagged),
    ) + marked(Marker::RecallTainted, some_reentered(fold.live)) + marked(
        Marker::LowDerivationAnchor,
        some_beyond(fold.live, config.derivation_depth_cap_for_currency_boost),
    )
}

fn any_flagged(live: &Vec<ClaimWithStatus>, flagged: &[ClaimRef]) -> (r: bool)
    ensures
        r == some_flagged(live@, flagged@),
{
    let mut i: usize = 0;
    while i < live.len()
        invariant
            i <= live.len(),
            forall|k: int|
                0 <= k < i ==> !flagged@.contains(*(#[trigger] live@[k]).claim.claim_ref()),
        decreases live.len() - i,
    {
        if is_pending_review(live[i].claim.claim_ref(), flagged) {
            assert(flagged@.contains(*live@[i as int].claim.claim_ref()));
            return true;
        }
        i += 1;
    }
    false
}

fn any_reentered(live: &Vec<ClaimWithStatus>) -> (r: bool)
    ensures
        r == some_reentered(live@),
{
    let mut i: usize = 0;
    while i < live.len()
        invariant
            i <= live.len(),
            forall|k: int| 0 <= k < i ==> (#[trigger] live@[k]).claim.provenance() !is RecallReEntry,
        decreases live.len() - i,
    {
        if live[i].claim.provenance().is_recall_reentry() {
            assert(live@[i as int].claim.provenance() is RecallReEntry);
            return true;
        }
        i += 1;
    }
    false
}

fn any_beyond(live: &Vec<ClaimWithStatus>, cap: u32) -> (r: bool)
    ensures
        r == some_beyond(live@, cap),
{
    let mut i: usize = 0;
    while i < live.len()
        invariant
            i <= live.len(),
            forall|k: int|
                0 <= k < i ==> (#[trigger] live@[k]).claim.external_anchor().derivation_depth
                    <= cap,
        decreases live.len() - i,
    {
        if live[i].claim.external_anchor().derivation_depth > cap {
            assert(live@[i as int].claim.external_anchor().derivation_depth > cap);
            return true;
        }
        i += 1;
    }
    false
}

/// The markers of an answer. A claim can give several.
pub fn build_markers(
    fold: &FoldResult,
    pending_review_claim_refs: &[ClaimRef],
    contested: bool,
    config: &EngineConfig,
) -> (r: Vec<Marker>)
    ensures
        r@ == markers_of(fold@, pending_review_claim_refs@, contested, *config),
{
    let mut markers: Vec<Marker> = Vec::new();
    if contested || fold.has_conflict {
        markers.push(Marker::Contested);
    }
    if any_flagged(&fold.live_claims, pending_review_claim_refs) {
        markers.push(Marker::PendingReview);
    }
    if any_reentered(&fold.live_claims) {
        markers.push(Marker::RecallTainted);
    }
    if any_beyond(&fold.live_claims, config.derivation_depth_cap_for_currency_boost) {
        markers.push(Marker::LowDerivationAnchor);
    }
    assert(markers@ =~= markers_of(fold@, pending_review_claim_refs@, contested, *config));
    markers
}

/// A live claim as a belief with its currency at `now`.
pub open spec fn current_belief(
    cs: ClaimWithStatus,
    now: Timestamp,
    config: EngineConfig,
) -> Belief {
    Belief {
        currency_signal: signal_of(belief_of(cs.claim), now, config),
        ..belief_of(cs.claim)
    }
}

/// The live claims as beliefs with their currency at `now`.
pub open spec fn current_beliefs(
    live: Seq<ClaimWithStatus>,
    now: Timestamp,
    config: EngineConfig,
) -> Seq<Belief> {
    Seq::new(live.len(), |i: int| current_belief(live[i], now, config))
}

/// The highest criticality of the live claims, and the lowest there is where there are none.
pub open spec fn highest_criticality(live: Seq<ClaimWithStatus>) -> Criticality
    decreases live.len(),
{
    if live.len() == 0 {
        Criticality::Low
    } else {
        let rest = highest_criticality(live.drop_last());
        let last = *live.last().claim.criticality();
        if last.level() > rest.level() {
            last
        } else {
            rest
        }
    }
}

/// What a [`BeliefProjection`] stands for.
#[verifier::ext_equal]
pub struct Projection {
    pub status: BeliefStatus,
    pub primary: Option<Belief>,
    pub alternatives: Seq<Belief>,
    pub currency: CurrencyState,
    pub criticality: Criticality,
    pub is_stale: bool,
    pub reason: Option<Seq<char>>,
    pub markers: Seq<Marker>,
}

impl View for BeliefProjection {
    type V = Projection;

    open spec fn view(&self) -> Projection {
        Projection {
            status: self.status,
            primary: self.primary,
            alternatives: self.alternatives@,
            currency: self.currency,
            criticality: self.criticality,
            is_stale: self.staleness.is_stale,
            reason: self.staleness.reason_text(),
            markers: self.markers@,
        }
    }
}

/// The answer to a query. A single live claim without a conflict is the primary belief; otherwise
/// there is none, and all live claims are alternatives.
pub open spec fn projection_of(
    fold: FoldModel,
    ledger: Seq<LedgerEntry>,
    now: Timestamp,
    config: EngineConfig,
    contested: bool,
) -> Projection {
    let beliefs = current_beliefs(fold.live, now, config);
    let single = beliefs.len() == 1 && !fold.has_conflict;
    let primary = if single {
        Some(beliefs[0])
    } else {
        None
    };
    let staleness = staleness_of(primary, fold.live, now, config);
    Projection {
        status: status_with(
            fold.live,
            contested || fold.has_conflict,
            BeliefStatus::Contested,
        ),
        primary,
        alternatives: if single {
            Seq::empty()
        } else {
            beliefs
        },
        currency: if beliefs.len() == 0 {
            CurrencyState::Decayed
        } else {
            beliefs[0].currency_signal.state
        },
        criticality: highest_criticality(fold.live),
        is_stale: staleness.is_stale,
        reason: staleness.reason,
        markers: markers_of(fold, subjects(ledger.filter(flags_review())), contested, config),
    }
}

fn live_beliefs(live: &Vec<ClaimWithStatus>, now: Timestamp, config: &EngineConfig) -> (r: Vec<
    Belief,
>)
    ensures
        r@ == current_beliefs(live@, now, *config),
{
    let mut out: Vec<Belief> = Vec::new();
    let mut i: usize = 0;
    while i < live.len()
        invariant
            i <= live.len(),
            out.len() == i,
            forall|k: int|
                0 <= k < i ==> #[trigger] out@[k] == current_belief(live@[k], now, *config),
        decreases live.len() - i,
    {
        let mut belief = claim_to_belief(&live[i]);
        belief.currency_signal = build_currency_signal(&belief, now, config);
        out.push(belief);
        i += 1;
    }
    assert(out@ =~= current_beliefs(live@, now, *config));
    out
}

fn max_criticality(live: &Vec<ClaimWithStatus>) -> (r: Criticality)
    ensures
        r == highest_criticality(live@),
{
    let mut highest = Criticality::Low;
    let mut i: usize = 0;
    assert(live@.take(0) =~= Seq::<ClaimWithStatus>::empty());
    while i < live.len()
        invariant
            i <= live.len(),
            highest == highest_criticality(live@.take(i as int)),
        decreases live.len() - i,
    {
        assert(live@.take(i + 1).drop_last() =~= live@.take(i as int));
        let level = *live[i].claim.criticality();
        if level.exceeds(&highest) {
            highest = level;
        }
        i += 1;
    }
    assert(live@.take(i as int) =~= live@);
    highest
}

/// The answer to a query on a subject line. `ledger_entries` are the ledger entries about its
/// claims; `contested` says whether a live claim was found contested before.
pub fn project(
    fold: &FoldResult,
    ledger_entries: &[LedgerEntry],
    now: Timestamp,
    config: &EngineConfig,
    contested: bool,
) -> (r: BeliefProjection)
    ensures
        r@ == projection_of(fold@, ledger_entries@, now, *config, contested),
{
    let pending_refs = pending_review_refs(ledger_entries);
    let mut beliefs = live_beliefs(&fold.live_claims, now, config);
    let currency = if beliefs.len() == 0 {
        CurrencyState::Decayed
    } else {
        beliefs[0].currency_signal.state
    };
    let primary: Option<Belief> = if beliefs.len() == 1 && !fold.has_conflict {
        beliefs.pop()
    } else {
        None
    };
    let staleness = compute_staleness(primary.as_ref(), fold, now, config);
    BeliefProjection {
        status: live_status(
            &fold.live_claims,
            contested || fold.has_conflict,
            BeliefStatus::Contested,
        ),
        primary,
        alternatives: beliefs,
        currency,
        criticality: max_criticality(&fold.live_claims),
        staleness,
        markers: build_markers(fold, pending_refs.as_slice(), contested, config),
    }
}

/// Claims only age: the more seconds have gone by, the less current a claim is.
pub proof fn law_currency_only_decays(seconds: int, more: int, config: EngineConfig)
    requires
        seconds <= more,
    ensures
        currency_after(more, config) is Fresh ==> currency_after(seconds, config) is Fresh,
        currency_after(seconds, config) is Decayed ==> currency_after(more, config) is Decayed,
{
}

/// As time goes on the elapsed seconds do not shrink, where no leap second is involved.
pub proof fn law_elapsed_seconds_grow_without_leap_seconds(
    refreshed: Timestamp,
    now: Timestamp,
    later: Timestamp,
)
    requires
        now.at() <= later.at(),
        0 <= refreshed.nanos() < 1_000_000_000,
        0 <= now.nanos() < 1_000_000_000,
        0 <= later.nanos() < 1_000_000_000,
    ensures
        elapsed_seconds(now.secs(), now.nanos(), refreshed.secs(), refreshed.nanos())
            <= elapsed_seconds(later.secs(), later.nanos(), refreshed.secs(), refreshed.nanos()),
{
    let a = elapsed_nanos(now.secs(), now.nanos(), refreshed.secs(), refreshed.nanos());
    let b = elapsed_nanos(later.secs(), later.nanos(), refreshed.secs(), refreshed.nanos());
    assert(a <= b);
}

/// Decay removes nothing: the same claims are shown at every time.
pub proof fn law_decayed_claims_stay(
    fold: FoldModel,
    ledger: Seq<LedgerEntry>,
    now: Timestamp,
    later: Timestamp,
    config: EngineConfig,
    contested: bool,
)
    ensures
        ({
            let a = projection_of(fold, ledger, now, config, contested);
            let b = projection_of(fold, ledger, later, config, contested);
            &&& a.status == b.status
            &&& a.markers == b.markers
            &&& a.criticality == b.criticality
            &&& a.primary is Some <==> b.primary is Some
            &&& a.primary is Some ==> a.primary->0.claim_ref == b.primary->0.claim_ref
                && a.primary->0.fact == b.primary->0.fact
            &&& a.alternatives.len() == b.alternatives.len()
            &&& forall|i: int|
                0 <= i < a.alternatives.len() ==> (#[trigger] a.alternatives[i]).claim_ref
                    == b.alternatives[i].claim_ref
        }),
{
}

/// A conflict is never resolved in silence: there is no primary belief, every live claim is shown,
/// and the answer is contested and marked so.
pub proof fn law_conflict_is_surfaced(
    fold: FoldModel,
    ledger: Seq<LedgerEntry>,
    now: Timestamp,
    config: EngineConfig,
    contested: bool,
)
    requires
        fold.has_conflict,
        fold.live.len() > 0,
    ensures
        ({
            let answer = projection_of(fold, ledger, now, config, contested);
            &&& answer.status == BeliefStatus::Contested
            &&& answer.primary is None
            &&& answer.alternatives == current_beliefs(fold.live, now, config)
            &&& answer.markers.contains(Marker::Contested)
        }),
{
    let answer = projection_of(fold, ledger, now, config, contested);
    assert(answer.markers[0] == Marker::Contested);
}

/// Without a live claim there is no belief, and the answer is stale.
pub proof fn law_no_live_claim_is_no_belief(
    fold: FoldModel,
    ledger: Seq<LedgerEntry>,
    now: Timestamp,
    config: EngineConfig,
    contested: bool,
)
    ensures
        ({
            let answer = projection_of(fold, ledger, now, config, contested);
            &&& answer.status == BeliefStatus::NoBelief <==> fold.live.len() == 0
            &&& fold.live.len() == 0 ==> answer.primary is None && answer.alternatives.len() == 0
                && answer.is_stale && answer.currency == CurrencyState::Decayed
        }),
{
}

/// A marker is set exactly if it applies.
pub proof fn law_markers_apply(
    fold: FoldModel,
    flagged: Seq<ClaimRef>,
    contested: bool,
    config: EngineConfig,
)
    ensures
        ({
            let markers = markers_of(fold, flagged, contested, config);
            &&& markers.contains(Marker::Contested) <==> contested || fold.has_conflict
            &&& markers.contains(Marker::PendingReview) <==> some_flagged(fold.live, flagged)
            &&& markers.contains(Marker::RecallTainted) <==> some_reentered(fold.live)
            &&& markers.contains(Marker::LowDerivationAnchor) <==> some_beyond(
                fold.live,
                config.derivation_depth_cap_for_currency_boost,
            )
        }),
{
    let a = marked(Marker::Contested, contested || fold.has_conflict);
    let b = marked(Marker::PendingReview, some_flagged(fold.live, flagged));
    let c = marked(Marker::RecallTainted, some_reentered(fold.live));
    let d = marked(
        Marker::LowDerivationAnchor,
        some_beyond(fold.live, config.derivation_depth_cap_for_currency_boost),
    );
    let markers = markers_of(fold, flagged, contested, config);
    assert forall|marker: Marker| markers.contains(marker) <==> a.contains(marker) || b.contains(
        marker,
    ) || c.contains(marker) || d.contains(marker) by {
        if a.contains(marker) {
            assert(markers[0] == marker);
        }
        if b.contains(marker) {
            assert(markers[a.len() as int] == marker);
        }
        if c.contains(marker) {
            assert(markers[(a.len() + b.len()) as int] == marker);
        }
        if d.contains(marker) {
            assert(markers[(a.len() + b.len() + c.len()) as int] == marker);
        }
        if markers.contains(marker) {
            let i = choose|i: int| 0 <= i < markers.len() && markers[i] == marker;
            if i < a.len() {
                assert(a[i] == marker);
            } else if i < a.len() + b.len() {
                assert(b[i - a.len()] == marker);
            } else if i < a.len() + b.len() + c.len() {
                assert(c[i - a.len() - b.len()] == marker);
            } else {
                assert(d[i - a.len() - b.len() - c.len()] == marker);
            }
        }
    }
    assert(a.len() > 0 ==> a[0] == Marker::Contested);
    assert(b.len() > 0 ==> b[0] == Marker::PendingReview);
    assert(c.len() > 0 ==> c[0] == Marker::RecallTainted);
    assert(d.len() > 0 ==> d[0] == Marker::LowDerivationAnchor);
}

/// The criticality of an answer is the highest of its live claims.
pub proof fn law_criticality_is_the_highest(live: Seq<ClaimWithStatus>, i: int)
    requires
        0 <= i < live.len(),
    ensures
        live[i].claim.criticality().level() <= highest_criticality(live).level(),
        exists|k: int|
            0 <= k < live.len() && *(#[trigger] live[k]).claim.criticality()
                == highest_criticality(live),
    decreases live.len(),
{
    let front = live.drop_last();
    if i < front.len() {
        law_criticality_is_the_highest(front, i);
        assert(front[i] == live[i]);
        let k = choose|k: int|
            0 <= k < front.len() && *(#[trigger] front[k]).claim.criticality()
                == highest_criticality(front);
        assert(live[k] == front[k]);
        assert(live[live.len() - 1] == live.last());
    } else {
        assert(live[live.len() - 1] == live.last());
        if front.len() > 0 {
            law_criticality_is_the_highest(front, 0);
            let k = choose|k: int|
                0 <= k < front.len() && *(#[trigger] front[k]).claim.criticality()
                    == highest_criticality(front);
            assert(live[k] == front[k]);
        }
    }
}

} // verus!
