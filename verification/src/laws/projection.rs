//! Laws on what a reader is shown.
use vstd::prelude::*;

use crate::config::EngineConfig;
use crate::domain::belief::{Belief, BeliefStatus, CurrencyState, Marker};
use crate::domain::claim::{Claim, Criticality};
use crate::domain::records::{Disposition, LedgerEntry, LedgerEventKind};
use crate::engine::projection::{
    current_belief, current_beliefs, flags_review, highest_criticality,
    law_criticality_is_the_highest, law_markers_apply, projection_of, signal_of, some_beyond,
    some_flagged, some_reentered, subjects,
};
use crate::engine::truth_engine::{belief_of, status_with, ClaimWithStatus, FoldModel};
use crate::ident::ClaimRef;
use crate::time::{elapsed_seconds, rfc3339_text, Timestamp};

verus! {

/// The whole seconds from when a claim was written to `now`.
pub open spec fn age(claim: Claim, now: Timestamp) -> int {
    let written = claim.transaction_time().0;
    elapsed_seconds(now.secs(), now.nanos(), written.secs(), written.nanos())
}

/// A belief says what its claim says: of what, with which value, from where, since when and how
/// surely. It counts as refreshed when the claim was written, and by nothing since.
pub proof fn law_a_belief_is_its_claim(cs: ClaimWithStatus, now: Timestamp, config: EngineConfig)
    ensures
        ({
            let shown = current_belief(cs, now, config);
            let plain = belief_of(cs.claim);
            &&& shown.claim_ref == *cs.claim.claim_ref()
            &&& shown.fact == *cs.claim.fact()
            &&& shown.provenance == *cs.claim.provenance()
            &&& shown.valid_time == *cs.claim.valid_time()
            &&& shown.transaction_time == *cs.claim.transaction_time()
            &&& shown.confidence == *cs.claim.confidence()
            &&& shown.criticality == *cs.claim.criticality()
            &&& shown.currency_signal.last_refreshed_at == *cs.claim.transaction_time()
            &&& shown.currency_signal.corroboration_count == 0
            &&& plain.claim_ref == shown.claim_ref
            &&& plain.fact == shown.fact
            &&& plain.provenance == shown.provenance
            &&& plain.valid_time == shown.valid_time
            &&& plain.transaction_time == shown.transaction_time
            &&& plain.confidence == shown.confidence
            &&& plain.criticality == shown.criticality
            &&& plain.currency_signal.last_refreshed_at == *cs.claim.transaction_time()
            &&& plain.currency_signal.state == CurrencyState::Fresh
            &&& plain.currency_signal.corroboration_count == 0
        }),
{
}

/// A belief's currency goes by its age alone: it is fresh for less than the first number of days,
/// aging for less than the second, and decayed from then on.
pub proof fn law_currency_goes_by_age(cs: ClaimWithStatus, now: Timestamp, config: EngineConfig)
    ensures
        ({
            let state = current_belief(cs, now, config).currency_signal.state;
            let days_old = |days: u32| age(cs.claim, now) >= days * 86_400;
            &&& state == CurrencyState::Fresh <==> !days_old(
                config.aging_unconfirmed_threshold_days,
            )
            &&& state == CurrencyState::Decayed <==> days_old(
                config.aging_unconfirmed_threshold_days,
            ) && days_old(config.decayed_threshold_days)
            &&& state == CurrencyState::AgingUnconfirmed <==> days_old(
                config.aging_unconfirmed_threshold_days,
            ) && !days_old(config.decayed_threshold_days)
        }),
{
}

/// Claims that were written at the same time are equally current, whatever they say and whenever
/// they hold; and a claim that was written later is no less fresh.
pub proof fn law_claims_written_together_are_equally_current(
    a: ClaimWithStatus,
    b: ClaimWithStatus,
    now: Timestamp,
    config: EngineConfig,
)
    ensures
        a.claim.transaction_time() == b.claim.transaction_time() ==> current_belief(
            a,
            now,
            config,
        ).currency_signal == current_belief(b, now, config).currency_signal,
        age(a.claim, now) <= age(b.claim, now) && current_belief(
            b,
            now,
            config,
        ).currency_signal.state == CurrencyState::Fresh ==> current_belief(
            a,
            now,
            config,
        ).currency_signal.state == CurrencyState::Fresh,
        age(a.claim, now) >= age(b.claim, now) && current_belief(
            b,
            now,
            config,
        ).currency_signal.state == CurrencyState::Decayed ==> current_belief(
            a,
            now,
            config,
        ).currency_signal.state == CurrencyState::Decayed,
{
}

/// The currency that is shown agrees with the instant of the last refreshment that is shown beside
/// it, for a belief of whatever origin: it is fresh exactly where that instant lies less than the
/// first number of days back.
pub proof fn law_currency_agrees_with_what_is_shown(
    belief: Belief,
    now: Timestamp,
    config: EngineConfig,
)
    ensures
        ({
            let signal = signal_of(belief, now, config);
            let shown = signal.last_refreshed_at.0;
            let seconds = elapsed_seconds(now.secs(), now.nanos(), shown.secs(), shown.nanos());
            &&& signal.last_refreshed_at == belief.transaction_time
            &&& signal.corroboration_count == belief.currency_signal.corroboration_count
            &&& signal.state == CurrencyState::Fresh <==> seconds
                < config.aging_unconfirmed_threshold_days * 86_400
            &&& signal.state == CurrencyState::Decayed <==> seconds
                >= config.aging_unconfirmed_threshold_days * 86_400 && seconds
                >= config.decayed_threshold_days * 86_400
        }),
{
}

/// Where there is no live claim, there is no belief: nothing is shown, and the answer is decayed,
/// stale and of low criticality.
pub proof fn law_nothing_live_is_no_belief(
    fold: FoldModel,
    ledger: Seq<LedgerEntry>,
    now: Timestamp,
    config: EngineConfig,
    contested: bool,
)
    requires
        fold.live.len() == 0,
    ensures
        ({
            let shown = projection_of(fold, ledger, now, config, contested);
            &&& shown.status == BeliefStatus::NoBelief
            &&& shown.primary is None
            &&& shown.alternatives.len() == 0
            &&& shown.currency == CurrencyState::Decayed
            &&& shown.criticality == Criticality::Low
            &&& shown.is_stale
            &&& shown.reason == Some("no live claim"@)
        }),
{
}

/// A single live claim without a conflict is the answer, and the only one; its timing is uncertain
/// where it says neither since when nor until when it holds. The answer is as current as the claim,
/// and stale exactly where the claim has decayed; the reason names when it was written. A claim
/// that is aging is not stale, and says so.
pub proof fn law_a_single_claim_is_the_answer(
    fold: FoldModel,
    ledger: Seq<LedgerEntry>,
    now: Timestamp,
    config: EngineConfig,
    contested: bool,
)
    requires
        fold.live.len() == 1,
        !fold.has_conflict,
    ensures
        ({
            let shown = projection_of(fold, ledger, now, config, contested);
            let claim = fold.live[0].claim;
            let written = claim.transaction_time().0;
            let undated = claim.valid_time().start is None && claim.valid_time().end is None;
            let aged = age(claim, now) >= config.aging_unconfirmed_threshold_days * 86_400;
            let decayed = aged && age(claim, now) >= config.decayed_threshold_days * 86_400;
            &&& shown.primary == Some(current_belief(fold.live[0], now, config))
            &&& shown.alternatives.len() == 0
            &&& shown.currency == current_belief(fold.live[0], now, config).currency_signal.state
            &&& shown.criticality == *claim.criticality()
            &&& contested ==> shown.status == BeliefStatus::Contested
            &&& !contested && undated ==> shown.status == BeliefStatus::TimingUncertain
            &&& !contested && !undated ==> shown.status == BeliefStatus::Resolved
            &&& shown.is_stale <==> decayed
            &&& !aged ==> shown.reason is None
            &&& aged && !decayed ==> shown.reason == Some(
                "aging unconfirmed: asserted long ago, not yet reconfirmed"@,
            )
            &&& decayed ==> shown.reason == Some(
                "currency decayed: last refreshed at "@ + rfc3339_text(
                    written.secs(),
                    written.nanos(),
                ),
            )
        }),
{
    reveal_with_fuel(highest_criticality, 2);
}

/// Where there are several live claims, or a conflict, none is put before the others: all are
/// alternatives, in the order of the fold, each with its own currency. The answer is as current as
/// the first, and not stale.
pub proof fn law_several_claims_are_alternatives(
    fold: FoldModel,
    ledger: Seq<LedgerEntry>,
    now: Timestamp,
    config: EngineConfig,
    contested: bool,
    i: int,
)
    requires
        fold.live.len() > 1 || fold.has_conflict,
        0 <= i < fold.live.len(),
    ensures
        ({
            let shown = projection_of(fold, ledger, now, config, contested);
            &&& shown.primary is None
            &&& shown.alternatives.len() == fold.live.len()
            &&& shown.alternatives[i] == current_belief(fold.live[i], now, config)
            &&& shown.currency == current_belief(fold.live[0], now, config).currency_signal.state
            &&& !shown.is_stale
            &&& shown.reason is None
            &&& contested || fold.has_conflict ==> shown.status == BeliefStatus::Contested
            &&& !(contested || fold.has_conflict) ==> shown.status == BeliefStatus::Resolved
        }),
{
    assert(current_beliefs(fold.live, now, config)[0] == current_belief(fold.live[0], now, config));
}

/// The fold by itself calls a conflict what the reader is shown as contested, and agrees with it in
/// all else.
pub proof fn law_status_by_itself(live: Seq<ClaimWithStatus>, is_conflict: bool)
    ensures
        ({
            let status = status_with(live, is_conflict, BeliefStatus::Conflict);
            let undated = live.len() == 1 && live[0].claim.valid_time().start is None
                && live[0].claim.valid_time().end is None;
            &&& status == BeliefStatus::NoBelief <==> live.len() == 0
            &&& status == BeliefStatus::Conflict <==> live.len() > 0 && is_conflict
            &&& status == BeliefStatus::TimingUncertain <==> !is_conflict && undated
            &&& status == BeliefStatus::Resolved <==> live.len() > 0 && !is_conflict && !undated
        }),
{
}

/// The criticality of an answer is that of a live claim, and no live claim has a higher one.
pub proof fn law_no_live_claim_is_more_critical(live: Seq<ClaimWithStatus>, i: int)
    requires
        0 <= i < live.len(),
    ensures
        live[i].claim.criticality() == Criticality::High ==> highest_criticality(live)
            == Criticality::High,
        live[i].claim.criticality() == Criticality::Medium ==> highest_criticality(live)
            != Criticality::Low,
        exists|k: int|
            0 <= k < live.len() && *(#[trigger] live[k]).claim.criticality()
                == highest_criticality(live),
{
    law_criticality_is_the_highest(live, i);
}

/// Whether a ledger holds an entry that flags a claim for review.
pub open spec fn flagged_in(ledger: Seq<LedgerEntry>, claim_ref: ClaimRef) -> bool {
    exists|k: int|
        0 <= k < ledger.len() && (#[trigger] ledger[k]).claim_ref == claim_ref
            && ledger[k].event_kind == LedgerEventKind::DependentFlaggedPendingReview
            && ledger[k].disposition == Disposition::PendingReview
}

proof fn lemma_flagged(ledger: Seq<LedgerEntry>, claim_ref: ClaimRef)
    ensures
        subjects(ledger.filter(flags_review())).contains(claim_ref) <==> flagged_in(
            ledger,
            claim_ref,
        ),
{
    broadcast use vstd::seq_lib::group_filter_ensures;

    let kept = ledger.filter(flags_review());
    if subjects(kept).contains(claim_ref) {
        let p = choose|p: int| 0 <= p < subjects(kept).len() && subjects(kept)[p] == claim_ref;
        assert(kept.contains(kept[p]));
        ledger.lemma_filter_contains_rev(flags_review(), kept[p]);
        let k = choose|k: int| 0 <= k < ledger.len() && ledger[k] == kept[p];
        assert(flags_review()(kept[p]));
        assert(ledger[k].claim_ref == claim_ref);
    }
    if flagged_in(ledger, claim_ref) {
        let k = choose|k: int|
            0 <= k < ledger.len() && (#[trigger] ledger[k]).claim_ref == claim_ref
                && ledger[k].event_kind == LedgerEventKind::DependentFlaggedPendingReview
                && ledger[k].disposition == Disposition::PendingReview;
        assert(flags_review()(ledger[k]));
        assert(kept.contains(ledger[k]));
        let p = choose|p: int| 0 <= p < kept.len() && kept[p] == ledger[k];
        assert(subjects(kept)[p] == claim_ref);
    }
}

/// Each marker is shown exactly where it applies: that of a contest where one is known of or the
/// fold found a conflict; that of a review where the ledger flags a live claim for one; that of a
/// re-entry where a live claim is output that came back in; that of a weak anchor where a live
/// claim is derived in more steps than the cap. None is shown twice.
pub proof fn law_markers_are_shown_where_they_apply(
    fold: FoldModel,
    ledger: Seq<LedgerEntry>,
    now: Timestamp,
    config: EngineConfig,
    contested: bool,
)
    ensures
        ({
            let markers = projection_of(fold, ledger, now, config, contested).markers;
            &&& markers.contains(Marker::Contested) <==> contested || fold.has_conflict
            &&& markers.contains(Marker::PendingReview) <==> exists|i: int|
                0 <= i < fold.live.len() && flagged_in(
                    ledger,
                    *(#[trigger] fold.live[i]).claim.claim_ref(),
                )
            &&& markers.contains(Marker::RecallTainted) <==> exists|i: int|
                0 <= i < fold.live.len() && (#[trigger] fold.live[i]).claim.provenance()
                    is RecallReEntry
            &&& markers.contains(Marker::LowDerivationAnchor) <==> exists|i: int|
                0 <= i < fold.live.len()
                    && (#[trigger] fold.live[i]).claim.external_anchor().derivation_depth
                    > config.derivation_depth_cap_for_currency_boost
            &&& markers.no_duplicates()
        }),
{
    let markers = projection_of(fold, ledger, now, config, contested).markers;
    let flagged = subjects(ledger.filter(flags_review()));
    law_markers_apply(fold, flagged, contested, config);
    assert forall|i: int| 0 <= i < fold.live.len() implies (flagged.contains(
        *(#[trigger] fold.live[i]).claim.claim_ref(),
    ) <==> flagged_in(ledger, *fold.live[i].claim.claim_ref())) by {
        lemma_flagged(ledger, *fold.live[i].claim.claim_ref());
    }
    if some_flagged(fold.live, flagged) {
        let i = choose|i: int|
            0 <= i < fold.live.len() && flagged.contains(
                *(#[trigger] fold.live[i]).claim.claim_ref(),
            );
        assert(flagged_in(ledger, *fold.live[i].claim.claim_ref()));
    }
    if exists|i: int|
        0 <= i < fold.live.len() && flagged_in(
            ledger,
            *(#[trigger] fold.live[i]).claim.claim_ref(),
        ) {
        let i = choose|i: int|
            0 <= i < fold.live.len() && flagged_in(
                ledger,
                *(#[trigger] fold.live[i]).claim.claim_ref(),
            );
        assert(flagged.contains(*fold.live[i].claim.claim_ref()));
        assert(some_flagged(fold.live, flagged));
    }
    assert(some_reentered(fold.live) == exists|i: int|
        0 <= i < fold.live.len() && (#[trigger] fold.live[i]).claim.provenance() is RecallReEntry);
    assert(some_beyond(fold.live, config.derivation_depth_cap_for_currency_boost) == exists|i: int|
        0 <= i < fold.live.len()
            && (#[trigger] fold.live[i]).claim.external_anchor().derivation_depth
            > config.derivation_depth_cap_for_currency_boost);
}

} // verus!
