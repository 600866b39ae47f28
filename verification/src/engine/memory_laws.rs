//! What the components promise together: what is written is recalled, and a contradiction is seen.
use vstd::prelude::*;

use crate::config::EngineConfig;
use crate::domain::belief::{BeliefStatus, Marker};
use crate::domain::claim::{lemma_over_window, Cardinality, Claim};
use crate::domain::records::{Disposition, LedgerEntry, ValidityAssertion};
use crate::engine::fold_laws::{law_fold_keeps_every_claim, law_live_claims_are_live};
use crate::engine::gate::{decision, incoherent, ConflictType, Proposal};
use crate::engine::gateway::{stamped_from, IngestInput};
use crate::engine::history::effective;
use crate::engine::ordering::{insert_ordered, key_le, ordered};
use crate::engine::projection::{current_belief, current_beliefs, projection_of};
use crate::engine::reconciler::{conflict_of, derived_from_any, line_with, other_than};
use crate::engine::truth_engine::{
    about, belief_of, by_assertion_key, by_claim_key, canonical, claims_of, disposition_of,
    fold_with, found_live, in_conflict, instant_asked, non_live, selected, status_of,
    ClaimWithStatus,
};
use crate::engine::valid_time_helpers::{
    covers, first_covering, trusted, trusted_succession, windows_apart,
};
use crate::ident::ClaimRef;
use crate::json::same_value;
use crate::ports::persistence::written_by;
use crate::score::Score;
use crate::time::{Timestamp, TransactionTime};

verus! {

/// Whether nothing was ever asserted about a claim, and its disposition does not rule it out.
pub open spec fn left_alone(
    claim: Claim,
    table: spec_fn(ClaimRef) -> Seq<ValidityAssertion>,
    dispositions: Map<u128, Disposition>,
) -> bool {
    &&& table(*claim.claim_ref()).len() == 0
    &&& disposition_of(dispositions, claim) matches Some(d) ==> !non_live(d)
}

proof fn lemma_left_alone_is_live(
    claim: Claim,
    table: spec_fn(ClaimRef) -> Seq<ValidityAssertion>,
    as_of: Timestamp,
    dispositions: Map<u128, Disposition>,
)
    requires
        left_alone(claim, table, dispositions),
    ensures
        status_of(claim, table(*claim.claim_ref()), as_of, dispositions).is_live,
{
    let none = table(*claim.claim_ref());
    assert(ordered(none, by_assertion_key()).len() == 0);
}

/// What was written later is not known yet: the fold of the claims that were written by an instant
/// holds no claim that was written after it.
pub proof fn law_later_claims_are_not_known_yet(
    claims: Seq<Claim>,
    table: spec_fn(ClaimRef) -> Seq<ValidityAssertion>,
    as_of: Timestamp,
    valid_at: Option<Timestamp>,
    threshold: Score,
    dispositions: Map<u128, Disposition>,
)
    requires
        written_by(claims, Some(as_of)),
    ensures
        ({
            let fold = fold_with(claims, table, as_of, valid_at, threshold, dispositions);
            &&& written_by(claims_of(fold.all), Some(as_of))
            &&& written_by(claims_of(fold.live), Some(as_of))
        }),
{
    broadcast use vstd::seq_lib::group_to_multiset_ensures;

    let fold = fold_with(claims, table, as_of, valid_at, threshold, dispositions);
    let known = claims_of(fold.all);
    law_fold_keeps_every_claim(claims, table, as_of, valid_at, threshold, dispositions);
    assert forall|i: int| 0 <= i < known.len() implies (
    #[trigger] known[i]).transaction_time().0.at() <= as_of.at() by {
        assert(known.to_multiset().count(known[i]) > 0);
        assert(claims.contains(known[i]));
    }
    let live = claims_of(fold.live);
    assert forall|i: int| 0 <= i < live.len() implies (
    #[trigger] live[i]).transaction_time().0.at() <= as_of.at() by {
        assert(fold.live.contains(fold.live[i]));
        law_live_claims_are_live(
            fold.all,
            instant_asked(valid_at, as_of),
            threshold,
            fold.live[i],
        );
        let k = choose|k: int| 0 <= k < fold.all.len() && fold.all[k] == fold.live[i];
        assert(known[k] == live[i]);
    }
}

/// Provenance is set once: a claim carries the label that came in with it, and so do the belief that
/// is made of it and the claim as it is read under a bound.
pub proof fn law_provenance_is_never_rewritten(
    claim: Claim,
    input: IngestInput,
    claim_ref: ClaimRef,
    tx_time: TransactionTime,
    cs: ClaimWithStatus,
    now: Timestamp,
    config: EngineConfig,
)
    requires
        stamped_from(claim, input, claim_ref, tx_time),
        cs.claim == claim,
    ensures
        Some(*claim.provenance()) == input.provenance,
        Some(belief_of(claim).provenance) == input.provenance,
        Some(current_belief(cs, now, config).provenance) == input.provenance,
        Some(*effective(cs).provenance()) == input.provenance,
{
    broadcast use lemma_over_window;

}

/// What is written first on a subject line is committed at once and recalled: a first-hand claim
/// with a possible window is committed, and where it is alone on its line and nothing was asserted
/// about it, it is the primary belief, at every time and for every instant that is asked about.
pub proof fn law_first_write_is_recalled(
    proposal: Proposal,
    superseded: Seq<ClaimRef>,
    live: Seq<Claim>,
    table: spec_fn(ClaimRef) -> Seq<ValidityAssertion>,
    as_of: Timestamp,
    valid_at: Option<Timestamp>,
    dispositions: Map<u128, Disposition>,
    ledger: Seq<LedgerEntry>,
    now: Timestamp,
    config: EngineConfig,
)
    requires
        proposal.candidate.provenance() is External,
        proposal.incumbent is None,
        proposal.conflict_type == conflict_of(
            proposal.candidate,
            None,
            superseded,
            config.valid_time_confidence_threshold,
            live,
        ),
        !incoherent(proposal.candidate, config.valid_time_confidence_threshold),
        table(*proposal.candidate.claim_ref()).len() == 0,
        disposition_of(dispositions, proposal.candidate) == Some(
            decision(proposal, config).disposition,
        ),
    ensures
        decision(proposal, config).disposition == Disposition::CommittedCheap,
        ({
            let claim = proposal.candidate;
            let fold = fold_with(
                seq![claim],
                table,
                as_of,
                valid_at,
                config.valid_time_confidence_threshold,
                dispositions,
            );
            let answer = projection_of(fold, ledger, now, config, false);
            &&& fold.live.len() == 1
            &&& fold.live[0].claim == claim
            &&& !fold.has_conflict
            &&& answer.primary matches Some(belief)
            &&& belief.claim_ref == *claim.claim_ref()
            &&& belief.fact == *claim.fact()
            &&& answer.alternatives.len() == 0
            &&& answer.status == BeliefStatus::Resolved || answer.status
                == BeliefStatus::TimingUncertain
        }),
{
    reveal(Seq::filter);
    let claim = proposal.candidate;
    let threshold = config.valid_time_confidence_threshold;
    lemma_left_alone_is_live(claim, table, as_of, dispositions);
    let one = seq![claim];
    assert(one.drop_last() =~= Seq::<Claim>::empty());
    assert(ordered(one.drop_last(), by_claim_key(threshold)) =~= Seq::<Claim>::empty());
    assert(canonical(one, threshold) =~= one);
    let fold = fold_with(one, table, as_of, valid_at, threshold, dispositions);
    let entry = status_of(claim, table(*claim.claim_ref()), as_of, dispositions);
    assert(fold.all =~= seq![entry]);
    assert(fold.all.drop_last() =~= Seq::<ClaimWithStatus>::empty());
    assert(fold.all.filter(found_live()) =~= seq![entry]);
}

/// Whether a claim gives another value on the subject line of another one, and was not derived from
/// what was superseded.
pub open spec fn gives_another_value(
    candidate: Claim,
    incumbent: Claim,
    superseded: Seq<ClaimRef>,
) -> bool {
    &&& candidate.claim_ref() != incumbent.claim_ref()
    &&& candidate.fact().subject@ == incumbent.fact().subject@
    &&& candidate.fact().predicate@ == incumbent.fact().predicate@
    &&& !same_value(candidate.fact().value@, incumbent.fact().value@)
    &&& !derived_from_any(candidate, superseded)
}

proof fn lemma_pair_line(candidate: Claim, incumbent: Claim)
    requires
        candidate.claim_ref() != incumbent.claim_ref(),
    ensures
        line_with(candidate, seq![incumbent]) == seq![candidate, incumbent],
{
    reveal(Seq::filter);
    let one = seq![incumbent];
    let others = other_than(*candidate.claim_ref());
    assert(one.drop_last() =~= Seq::<Claim>::empty());
    assert(others(incumbent));
    assert(one.filter(others) =~= one);
    assert(line_with(candidate, one) =~= seq![candidate, incumbent]);
}

proof fn lemma_pair_order(a: Claim, b: Claim, threshold: Score)
    ensures
        canonical(seq![a, b], threshold) == seq![a, b] || canonical(seq![a, b], threshold) == seq![
            b,
            a,
        ],
{
    let key = by_claim_key(threshold);
    let both = seq![a, b];
    let one = seq![a];
    assert(both.drop_last() =~= one);
    assert(one.drop_last() =~= Seq::<Claim>::empty());
    assert(ordered(one.drop_last(), key) =~= Seq::<Claim>::empty());
    assert(ordered(one, key) =~= one);
    assert(insert_ordered(Seq::<Claim>::empty(), b, key) =~= seq![b]);
    if key_le(key(a), key(b)) {
        assert(insert_ordered(one, b, key) =~= seq![a, b]);
    } else {
        assert(insert_ordered(one, b, key) =~= seq![b, a]);
    }
}

/// Two claims that were left alone are both live, in canonical order.
proof fn lemma_pair_is_live(
    a: Claim,
    b: Claim,
    table: spec_fn(ClaimRef) -> Seq<ValidityAssertion>,
    as_of: Timestamp,
    valid_at: Option<Timestamp>,
    threshold: Score,
    dispositions: Map<u128, Disposition>,
)
    requires
        left_alone(a, table, dispositions),
        left_alone(b, table, dispositions),
    ensures
        ({
            let all = fold_with(seq![a, b], table, as_of, valid_at, threshold, dispositions).all;
            let first = status_of(a, table(*a.claim_ref()), as_of, dispositions);
            let second = status_of(b, table(*b.claim_ref()), as_of, dispositions);
            &&& all.filter(found_live()) == all
            &&& all == seq![first, second] || all == seq![second, first]
        }),
{
    reveal(Seq::filter);
    lemma_left_alone_is_live(a, table, as_of, dispositions);
    lemma_left_alone_is_live(b, table, as_of, dispositions);
    lemma_pair_order(a, b, threshold);
    let all = fold_with(seq![a, b], table, as_of, valid_at, threshold, dispositions).all;
    let first = status_of(a, table(*a.claim_ref()), as_of, dispositions);
    let second = status_of(b, table(*b.claim_ref()), as_of, dispositions);
    let sorted = canonical(seq![a, b], threshold);
    assert(all.len() == 2);
    assert(all[0] == status_of(sorted[0], table(*sorted[0].claim_ref()), as_of, dispositions));
    assert(all[1] == status_of(sorted[1], table(*sorted[1].claim_ref()), as_of, dispositions));
    if sorted == seq![a, b] {
        assert(all =~= seq![first, second]);
    } else {
        assert(all =~= seq![second, first]);
    }
    let front = all.drop_last();
    assert(front.drop_last() =~= Seq::<ClaimWithStatus>::empty());
    assert(front.filter(found_live()) =~= front);
    assert(all.filter(found_live()) =~= all);
}

/// What follows in time is recalled by the instant: a first-hand claim with another value, whose
/// trusted window lies apart from that of the claim that is believed, is a succession and is
/// committed; from then on each of the two is the answer at the instants that its own window
/// covers, and neither at any other.
pub proof fn law_succession_is_recalled_by_instant(
    incumbent: Claim,
    proposal: Proposal,
    superseded: Seq<ClaimRef>,
    table: spec_fn(ClaimRef) -> Seq<ValidityAssertion>,
    as_of: Timestamp,
    valid_at: Option<Timestamp>,
    dispositions: Map<u128, Disposition>,
    ledger: Seq<LedgerEntry>,
    now: Timestamp,
    config: EngineConfig,
)
    requires
        gives_another_value(proposal.candidate, incumbent, superseded),
        trusted(*proposal.candidate.valid_time(), config.valid_time_confidence_threshold),
        trusted(*incumbent.valid_time(), config.valid_time_confidence_threshold),
        windows_apart(*proposal.candidate.valid_time(), *incumbent.valid_time()),
        proposal.candidate.provenance() is External,
        !incoherent(proposal.candidate, config.valid_time_confidence_threshold),
        proposal.incumbent == Some(belief_of(incumbent)),
        proposal.conflict_type == conflict_of(
            proposal.candidate,
            proposal.incumbent,
            superseded,
            config.valid_time_confidence_threshold,
            seq![incumbent],
        ),
        left_alone(incumbent, table, dispositions),
        table(*proposal.candidate.claim_ref()).len() == 0,
        disposition_of(dispositions, proposal.candidate) == Some(
            decision(proposal, config).disposition,
        ),
    ensures
        proposal.conflict_type == ConflictType::Succession,
        decision(proposal, config).disposition == Disposition::CommittedCheap,
        ({
            let candidate = proposal.candidate;
            let instant = instant_asked(valid_at, as_of);
            let fold = fold_with(
                seq![incumbent, candidate],
                table,
                as_of,
                valid_at,
                config.valid_time_confidence_threshold,
                dispositions,
            );
            let answer = projection_of(fold, ledger, now, config, false);
            &&& !fold.has_conflict
            &&& covers(*incumbent.valid_time(), instant) ==> answer.primary is Some
                && answer.primary->0.claim_ref == *incumbent.claim_ref() && answer.primary->0.fact
                == *incumbent.fact()
            &&& covers(*candidate.valid_time(), instant) ==> answer.primary is Some
                && answer.primary->0.claim_ref == *candidate.claim_ref() && answer.primary->0.fact
                == *candidate.fact()
            &&& !covers(*incumbent.valid_time(), instant) && !covers(
                *candidate.valid_time(),
                instant,
            ) ==> answer.status == BeliefStatus::NoBelief
        }),
{
    reveal(Seq::filter);
    let candidate = proposal.candidate;
    let threshold = config.valid_time_confidence_threshold;
    let instant = instant_asked(valid_at, as_of);
    lemma_pair_line(candidate, incumbent);
    assert(trusted_succession(seq![candidate, incumbent], threshold));
    assert(proposal.conflict_type == ConflictType::Succession);
    assert(left_alone(candidate, table, dispositions));
    lemma_pair_is_live(incumbent, candidate, table, as_of, valid_at, threshold, dispositions);
    let pair = seq![incumbent, candidate];
    let fold = fold_with(pair, table, as_of, valid_at, threshold, dispositions);
    let windows = claims_of(fold.all);
    assert(trusted_succession(windows, threshold));
    assert(fold.live == selected(fold.all, windows, instant));
    assert(windows.drop_first().drop_first() =~= Seq::<Claim>::empty());
    assert(windows.drop_first()[0] == windows[1]);
    reveal_with_fuel(first_covering, 3);
    let front = fold.all.drop_last();
    assert(front.drop_last() =~= Seq::<ClaimWithStatus>::empty());
    assert forall|k: int| 0 <= k < 2 implies (#[trigger] fold.all.filter(
        about(*windows[k].claim_ref()),
    )) =~= seq![fold.all[k]] by {
        let wanted = about(*windows[k].claim_ref());
        assert(wanted(fold.all[0]) == (k == 0));
        assert(wanted(fold.all[1]) == (k == 1));
        assert(front.last() == fold.all[0]);
        assert(front.drop_last().filter(wanted) =~= Seq::<ClaimWithStatus>::empty());
        if k == 0 {
            assert(front.filter(wanted) =~= seq![fold.all[0]]);
        } else {
            assert(front.filter(wanted) =~= Seq::<ClaimWithStatus>::empty());
        }
    }
}

/// A contradiction is seen by the reader: a first-hand claim with another value whose window does
/// not lie apart, or is not trusted, is a conflict; with no oracle to ask it is contested; and from
/// then on the answer is contested, without a primary belief, and shows both claims. This holds of
/// claims that exclude each other: not of two set-valued ones.
pub proof fn law_contradiction_is_recalled_as_contested(
    incumbent: Claim,
    proposal: Proposal,
    superseded: Seq<ClaimRef>,
    table: spec_fn(ClaimRef) -> Seq<ValidityAssertion>,
    as_of: Timestamp,
    valid_at: Option<Timestamp>,
    dispositions: Map<u128, Disposition>,
    ledger: Seq<LedgerEntry>,
    now: Timestamp,
    config: EngineConfig,
)
    requires
        gives_another_value(proposal.candidate, incumbent, superseded),
        !(trusted(*proposal.candidate.valid_time(), config.valid_time_confidence_threshold)
            && trusted(*incumbent.valid_time(), config.valid_time_confidence_threshold)
            && windows_apart(*proposal.candidate.valid_time(), *incumbent.valid_time())),
        !(proposal.candidate.cardinality() is SetValued && incumbent.cardinality() is SetValued),
        proposal.candidate.provenance() is External,
        !incoherent(proposal.candidate, config.valid_time_confidence_threshold),
        !proposal.oracle_present,
        proposal.incumbent == Some(belief_of(incumbent)),
        proposal.conflict_type == conflict_of(
            proposal.candidate,
            proposal.incumbent,
            superseded,
            config.valid_time_confidence_threshold,
            seq![incumbent],
        ),
        left_alone(incumbent, table, dispositions),
        table(*proposal.candidate.claim_ref()).len() == 0,
        disposition_of(dispositions, proposal.candidate) == Some(
            decision(proposal, config).disposition,
        ),
    ensures
        proposal.conflict_type == ConflictType::SameLineConflict,
        decision(proposal, config).disposition == Disposition::Contested,
        ({
            let candidate = proposal.candidate;
            let fold = fold_with(
                seq![incumbent, candidate],
                table,
                as_of,
                valid_at,
                config.valid_time_confidence_threshold,
                dispositions,
            );
            let answer = projection_of(fold, ledger, now, config, false);
            &&& answer.status == BeliefStatus::Contested
            &&& answer.markers.contains(Marker::Contested)
            &&& answer.primary is None
            &&& answer.alternatives.len() == 2
            &&& exists|i: int|
                0 <= i < 2 && (#[trigger] answer.alternatives[i]).claim_ref == *incumbent.claim_ref()
                    && answer.alternatives[i].fact == *incumbent.fact()
            &&& exists|i: int|
                0 <= i < 2 && (#[trigger] answer.alternatives[i]).claim_ref == *candidate.claim_ref()
                    && answer.alternatives[i].fact == *candidate.fact()
        }),
{
    let candidate = proposal.candidate;
    let threshold = config.valid_time_confidence_threshold;
    lemma_pair_line(candidate, incumbent);
    let line = seq![candidate, incumbent];
    assert(!trusted_succession(line, threshold)) by {
        if trusted_succession(line, threshold) {
            assert(trusted(*line[0].valid_time(), threshold));
            assert(trusted(*line[1].valid_time(), threshold));
            assert(windows_apart(*line[0].valid_time(), *line[1].valid_time()));
        }
    }
    assert(proposal.conflict_type == ConflictType::SameLineConflict);
    assert(left_alone(candidate, table, dispositions));
    lemma_pair_is_live(incumbent, candidate, table, as_of, valid_at, threshold, dispositions);
    let pair = seq![incumbent, candidate];
    let fold = fold_with(pair, table, as_of, valid_at, threshold, dispositions);
    let windows = claims_of(fold.all);
    assert(!trusted_succession(windows, threshold)) by {
        if trusted_succession(windows, threshold) {
            assert(trusted(*windows[0].valid_time(), threshold));
            assert(trusted(*windows[1].valid_time(), threshold));
            assert(windows_apart(*windows[0].valid_time(), *windows[1].valid_time()));
        }
    }
    assert(fold.live == fold.all);
    assert(in_conflict(fold.live)) by {
        if fold.live[0].claim.cardinality() is SetValued {
            assert(*fold.live[1].claim.cardinality() != Cardinality::SetValued);
        } else {
            assert(*fold.live[0].claim.cardinality() != Cardinality::SetValued);
        }
    }
    let answer = projection_of(fold, ledger, now, config, false);
    assert(answer.markers[0] == Marker::Contested);
    assert(answer.alternatives == current_beliefs(fold.live, now, config));
    assert(answer.alternatives[0].claim_ref == *windows[0].claim_ref());
    assert(answer.alternatives[1].claim_ref == *windows[1].claim_ref());
}

} // verus!
