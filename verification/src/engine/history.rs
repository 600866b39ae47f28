//! Effective windows: what a bound and a successor leave of a claim's valid time.
//!
//! A bound never changes the claim. It narrows the window that is read: for answers at an instant,
//! for the search for conflicting claims, and for the history of a subject line, in one way for all
//! three.
use std::collections::HashSet;

use vstd::prelude::*;
use vstd::std_specs::hash::*;

use crate::config::EngineConfig;
use crate::domain::claim::{lemma_over_window, Claim, DateGranularity, ValidTime};
use crate::domain::records::{Disposition, ValidityAssertion};
use crate::engine::fold_laws::{
    law_live_claims_are_live, law_selected_succession_has_no_conflict,
    lemma_filter_keeps_references_unique, lemma_selection_is_single, references_are_unique,
};
use crate::engine::ordering::law_ordering_is_a_permutation;
use crate::engine::truth_engine::{
    about, by_claim_key, canonical, claims_of, fold_with, found_live, instant_asked,
    primary_instant, select_entries, selected, ClaimWithStatus, FoldModel, FoldResult,
};
use crate::engine::valid_time_helpers::{
    all_started, apart, claim_is_trusted, covers, ended_by, first_covering, is_trusted_succession,
    law_selection_is_membership, lemma_first_covering, trusted, trusted_succession, windows_apart,
    windows_non_overlapping_bounds,
};
use crate::ident::ClaimRef;
use crate::score::Score;
use crate::sequences::{lemma_filter_next, lemma_filter_none};
use crate::time::Timestamp;

verus! {

broadcast use vstd::std_specs::hash::group_hash_axioms;

/// Whether a bound comes before a window's own end, or the window has none.
pub open spec fn bound_decides(vt: ValidTime, bound_at: Option<Timestamp>) -> bool {
    bound_at is Some && (vt.end is None || bound_at->0.at() < vt.end->0.at())
}

/// The end of a window under a bound, with its precision: the earlier of the two.
pub open spec fn narrowed_end(
    vt: ValidTime,
    bound_at: Option<Timestamp>,
    bound_at_granularity: Option<DateGranularity>,
) -> (Option<Timestamp>, Option<DateGranularity>) {
    if bound_decides(vt, bound_at) {
        (bound_at, bound_at_granularity)
    } else if vt.end is Some {
        (vt.end, vt.end_granularity)
    } else {
        (None, None)
    }
}

/// The end of a claim's window under a bound, with its precision. A bound narrows a window and
/// never widens it.
pub fn narrowed_valid_end(
    claim: &Claim,
    bound_at: Option<Timestamp>,
    bound_at_granularity: Option<DateGranularity>,
) -> (r: (Option<Timestamp>, Option<DateGranularity>))
    ensures
        r == narrowed_end(*claim.valid_time(), bound_at, bound_at_granularity),
{
    if end_is_bound_derived(claim, bound_at) {
        return (bound_at, bound_at_granularity);
    }
    match claim.valid_time().end {
        Some(end) => (Some(end), claim.valid_time().end_granularity),
        None => (None, None),
    }
}

/// Whether the end of a claim's window is that of the bound and not the claim's own. A bound at
/// the claim's own end leaves the end with the claim.
pub fn end_is_bound_derived(claim: &Claim, bound_at: Option<Timestamp>) -> (r: bool)
    ensures
        r == bound_decides(*claim.valid_time(), bound_at),
{
    match (claim.valid_time().end, bound_at) {
        (Some(own), Some(bound)) => bound.before(&own),
        (None, Some(_)) => true,
        _ => false,
    }
}

/// The valid time of a claim under its bound.
pub open spec fn effective_valid_time(cs: ClaimWithStatus) -> ValidTime {
    let (end, end_granularity) = narrowed_end(
        *cs.claim.valid_time(),
        cs.bound_at,
        cs.bound_at_granularity,
    );
    ValidTime { end, end_granularity, ..*cs.claim.valid_time() }
}

/// A claim with its window under its bound.
pub open spec fn effective(cs: ClaimWithStatus) -> Claim {
    cs.claim.over_window(effective_valid_time(cs))
}

/// A copy of the claim with its window under its bound. The claim itself stays as it is.
pub fn claim_with_effective_window(cs: &ClaimWithStatus) -> (r: Claim)
    ensures
        r == effective(*cs),
{
    let (end, end_granularity) = narrowed_valid_end(
        &cs.claim,
        cs.bound_at,
        cs.bound_at_granularity,
    );
    let own = cs.claim.valid_time();
    cs.claim.with_valid_time(
        ValidTime {
            start: own.start,
            end,
            valid_time_confidence: own.valid_time_confidence,
            start_granularity: own.start_granularity,
            end_granularity,
        },
    )
}

/// Whether a disposition means that a claim was believed at no instant.
pub open spec fn never_believed(d: Disposition) -> bool {
    d is Quarantined || d is Invalidated || d is Rejected
}

/// Whether a disposition means that a claim was believed at no instant. A superseded claim was
/// believed before.
pub fn is_hard_excluded_disposition(d: &Disposition) -> (r: bool)
    ensures
        r == never_believed(*d),
{
    matches!(d, Disposition::Quarantined | Disposition::Invalidated | Disposition::Rejected)
}

/// Whether a claim was believed at some instant: it is live, or ended by a bound that did not come
/// from a denial; and its disposition does not rule it out.
pub open spec fn once_believed(cs: ClaimWithStatus, denied: Set<u128>) -> bool {
    &&& !(cs.last_disposition is Some && never_believed(cs.last_disposition->0))
    &&& cs.is_live || (cs.bound_at is Some && !denied.contains(cs.claim.claim_ref().0))
}

/// [`once_believed`] as a function of the entry.
pub open spec fn believed_unless(denied: Set<u128>) -> spec_fn(ClaimWithStatus) -> bool {
    |cs: ClaimWithStatus| once_believed(cs, denied)
}

/// The claims of the entries, with their windows under their bounds.
pub open spec fn effective_claims(entries: Seq<ClaimWithStatus>) -> Seq<Claim> {
    Seq::new(entries.len(), |i: int| effective(entries[i]))
}

/// What the fold answers at an instant of the valid-time axis that was asked for. All claims that
/// were believed at some instant are candidates; where their windows form a trusted succession,
/// the one that covers the instant is the answer, and otherwise the fold stays as it is.
pub open spec fn narrowed_fold(
    fold: FoldModel,
    instant: Timestamp,
    denied: Set<u128>,
    threshold: Score,
) -> FoldModel {
    let candidates = fold.all.filter(believed_unless(denied));
    let windows = effective_claims(candidates);
    if trusted_succession(windows, threshold) {
        FoldModel {
            live: selected(candidates, windows, instant),
            has_conflict: false,
            succession_selected: true,
            all: fold.all,
        }
    } else {
        fold
    }
}

fn was_believed(cs: &ClaimWithStatus, denied: &HashSet<u128>) -> (r: bool)
    ensures
        r == once_believed(*cs, denied@),
{
    if let Some(d) = &cs.last_disposition {
        if is_hard_excluded_disposition(d) {
            return false;
        }
    }
    cs.is_live || (cs.bound_at.is_some() && !denied.contains(&cs.claim.claim_ref().0))
}

fn believed_entries(entries: &Vec<ClaimWithStatus>, denied: &HashSet<u128>) -> (r: Vec<
    ClaimWithStatus,
>)
    ensures
        r@ == entries@.filter(believed_unless(denied@)),
{
    let mut out: Vec<ClaimWithStatus> = Vec::new();
    let mut i: usize = 0;
    proof {
        lemma_filter_none(entries@, believed_unless(denied@));
    }
    while i < entries.len()
        invariant
            i <= entries.len(),
            out@ == entries@.take(i as int).filter(believed_unless(denied@)),
        decreases entries.len() - i,
    {
        proof {
            lemma_filter_next(entries@, i as int, believed_unless(denied@));
        }
        if was_believed(&entries[i], denied) {
            out.push(entries[i].clone());
        }
        i += 1;
    }
    proof {
        lemma_filter_none(entries@, believed_unless(denied@));
    }
    out
}

fn effective_windows(entries: &Vec<ClaimWithStatus>) -> (r: Vec<Claim>)
    ensures
        r@ == effective_claims(entries@),
{
    let mut out: Vec<Claim> = Vec::new();
    let mut i: usize = 0;
    while i < entries.len()
        invariant
            i <= entries.len(),
            out.len() == i,
            forall|k: int| 0 <= k < i ==> #[trigger] out@[k] == effective(entries@[k]),
        decreases entries.len() - i,
    {
        out.push(claim_with_effective_window(&entries[i]));
        i += 1;
    }
    assert(out@ =~= effective_claims(entries@));
    out
}

fn borrow_claims<'a>(claims: &'a Vec<Claim>) -> (r: Vec<&'a Claim>)
    ensures
        r@.unref() == claims@,
{
    let mut out: Vec<&'a Claim> = Vec::new();
    let mut i: usize = 0;
    while i < claims.len()
        invariant
            i <= claims.len(),
            out.len() == i,
            forall|k: int| 0 <= k < i ==> *(#[trigger] out@[k]) == claims@[k],
        decreases claims.len() - i,
    {
        out.push(&claims[i]);
        i += 1;
    }
    assert(out@.unref() =~= claims@);
    out
}

/// Answers at an instant of the valid-time axis that was asked for. `denied_via_adjudication` holds
/// the identifiers of the claims that a denial bounded: they were never believed.
pub fn narrow_live_claims_for_valid_at(
    fold_result: FoldResult,
    valid_at_instant: Timestamp,
    denied_via_adjudication: &HashSet<u128>,
    config: &EngineConfig,
) -> (r: FoldResult)
    ensures
        r@ == narrowed_fold(
            fold_result@,
            valid_at_instant,
            denied_via_adjudication@,
            config.valid_time_confidence_threshold,
        ),
{
    let candidates = believed_entries(&fold_result.all_claims, denied_via_adjudication);
    let claims = effective_windows(&candidates);
    let windows = borrow_claims(&claims);
    if is_trusted_succession(windows.as_slice(), config.valid_time_confidence_threshold) {
        assert(all_started(windows@.unref()));
        let live_claims = select_entries(&candidates, &windows, valid_at_instant);
        FoldResult {
            live_claims,
            has_conflict: false,
            succession_selected: true,
            all_claims: fold_result.all_claims,
        }
    } else {
        fold_result
    }
}

/// The claims that a new claim may conflict with: all that were believed at some instant, live ones
/// as they are, the others with their windows under their bounds.
pub open spec fn conflict_candidates(entries: Seq<ClaimWithStatus>, denied: Set<u128>) -> Seq<
    Claim,
> {
    let candidates = entries.filter(believed_unless(denied));
    Seq::new(
        candidates.len(),
        |i: int|
            if candidates[i].is_live {
                candidates[i].claim
            } else {
                effective(candidates[i])
            },
    )
}

/// The claims that a new claim may conflict with.
pub fn build_conflict_candidate_claims(
    fold_result: &FoldResult,
    denied_via_adjudication: &HashSet<u128>,
) -> (r: Vec<Claim>)
    ensures
        r@ == conflict_candidates(fold_result@.all, denied_via_adjudication@),
{
    let candidates = believed_entries(&fold_result.all_claims, denied_via_adjudication);
    let mut out: Vec<Claim> = Vec::new();
    let mut i: usize = 0;
    while i < candidates.len()
        invariant
            i <= candidates.len(),
            out.len() == i,
            forall|k: int|
                0 <= k < i ==> #[trigger] out@[k] == if candidates@[k].is_live {
                    candidates@[k].claim
                } else {
                    effective(candidates@[k])
                },
        decreases candidates.len() - i,
    {
        if candidates[i].is_live {
            out.push(candidates[i].claim.clone());
        } else {
            out.push(claim_with_effective_window(&candidates[i]));
        }
        i += 1;
    }
    assert(out@ =~= conflict_candidates(fold_result@.all, denied_via_adjudication@));
    out
}

/// The window of one claim in the history of its subject line.
#[derive(Clone, Copy, Debug, PartialEq, Eq, Structural)]
pub struct HistoryWindow {
    /// Where the window ends.
    pub valid_until: Option<Timestamp>,
    /// The precision of the instant that the end came from.
    pub valid_until_granularity: Option<DateGranularity>,
    /// Whether the claim is in conflict, or is part of an overlap: that of its own window with its
    /// successor's, or that of another one's with its own as the successor.
    pub contested: bool,
    /// Whether the window contains the present.
    pub contains_now: bool,
}

/// The precision of [`primary_instant`]: that of the start, where the start is what orders.
pub open spec fn primary_granularity(claim: Claim, threshold: Score) -> Option<DateGranularity> {
    if trusted(*claim.valid_time(), threshold) {
        claim.valid_time().start_granularity
    } else {
        None
    }
}

/// The instant that a claim is ordered by, with its precision.
pub fn primary_key_and_granularity(claim: &Claim, config: &EngineConfig) -> (r: (
    Timestamp,
    Option<DateGranularity>,
))
    ensures
        r.0 == primary_instant(*claim, config.valid_time_confidence_threshold),
        r.1 == primary_granularity(*claim, config.valid_time_confidence_threshold),
{
    let vt = claim.valid_time();
    if vt.valid_time_confidence.at_least(&config.valid_time_confidence_threshold) {
        match vt.start {
            Some(start) => (start, vt.start_granularity),
            None => (claim.transaction_time().0, None),
        }
    } else {
        (claim.transaction_time().0, None)
    }
}

/// The first entry from `from` on that is ordered by an instant later than the given one.
pub open spec fn next_later(
    entries: Seq<ClaimWithStatus>,
    from: int,
    instant: Timestamp,
    threshold: Score,
) -> Option<int>
    decreases entries.len() - from,
{
    if from >= entries.len() {
        None
    } else if primary_instant(entries[from].claim, threshold).at() > instant.at() {
        Some(from)
    } else {
        next_later(entries, from + 1, instant, threshold)
    }
}

/// The entry that follows another in the history: the next one that is ordered by a later instant.
pub open spec fn successor(entries: Seq<ClaimWithStatus>, i: int, threshold: Score) -> Option<int> {
    next_later(entries, i + 1, primary_instant(entries[i].claim, threshold), threshold)
}

/// Whether an entry's window, under its bound, overlaps that of its successor. This is asked of
/// trusted windows alone.
pub open spec fn overlaps_successor(
    cs: ClaimWithStatus,
    next: Claim,
    threshold: Score,
) -> bool {
    &&& trusted(*cs.claim.valid_time(), threshold)
    &&& trusted(*next.valid_time(), threshold)
    &&& !apart(
        cs.claim.valid_time().start->0,
        effective_valid_time(cs).end,
        next.valid_time().start->0,
        next.valid_time().end,
    )
}

/// Where the window of an entry ends in the history, with its precision: at its own end under its
/// bound, and where it does not overlap its successor, no later than that one's instant. A bound
/// without a precision that falls on the successor's instant takes the precision from there.
pub open spec fn window_end(
    cs: ClaimWithStatus,
    next: Option<Claim>,
    threshold: Score,
) -> (Option<Timestamp>, Option<DateGranularity>) {
    let (own_end, own_granularity) = narrowed_end(
        *cs.claim.valid_time(),
        cs.bound_at,
        cs.bound_at_granularity,
    );
    match next {
        None => (own_end, own_granularity),
        Some(claim) => {
            let later = primary_instant(claim, threshold);
            let later_granularity = primary_granularity(claim, threshold);
            if overlaps_successor(cs, claim, threshold) {
                (own_end, own_granularity)
            } else if !ended_by(own_end, later) {
                (Some(later), later_granularity)
            } else if own_granularity is None && bound_decides(*cs.claim.valid_time(), cs.bound_at)
                && own_end == Some(later) {
                (own_end, later_granularity)
            } else {
                (own_end, own_granularity)
            }
        },
    }
}

/// Whether one of the first entries overlaps an entry that is its successor.
pub open spec fn overlapped_by(
    entries: Seq<ClaimWithStatus>,
    first: int,
    i: int,
    threshold: Score,
) -> bool {
    exists|k: int|
        0 <= k < first && successor(entries, k, threshold) == Some(i) && overlaps_successor(
            #[trigger] entries[k],
            entries[i].claim,
            threshold,
        )
}

/// The window of one entry in the history of its subject line. Both sides of an overlap are
/// contested.
pub open spec fn history_window(
    entries: Seq<ClaimWithStatus>,
    i: int,
    has_conflict: bool,
    now: Timestamp,
    threshold: Score,
) -> HistoryWindow {
    let cs = entries[i];
    let next = match successor(entries, i, threshold) {
        Some(j) => Some(entries[j].claim),
        None => None,
    };
    let (valid_until, valid_until_granularity) = window_end(cs, next, threshold);
    HistoryWindow {
        valid_until,
        valid_until_granularity,
        contested: (next is Some && overlaps_successor(cs, next->0, threshold)) || overlapped_by(
            entries,
            i,
            i,
            threshold,
        ) || (cs.is_live && has_conflict),
        contains_now: (cs.claim.valid_time().start is None || cs.claim.valid_time().start->0.at()
            <= now.at()) && !ended_by(valid_until, now),
    }
}

fn find_successor(all_claims: &[ClaimWithStatus], i: usize, config: &EngineConfig) -> (r: Option<
    usize,
>)
    requires
        i < all_claims@.len(),
    ensures
        r matches Some(j) ==> i < j < all_claims@.len() && successor(
            all_claims@,
            i as int,
            config.valid_time_confidence_threshold,
        ) == Some(j as int),
        r is None ==> successor(
            all_claims@,
            i as int,
            config.valid_time_confidence_threshold,
        ) is None,
{
    let (own, _) = primary_key_and_granularity(&all_claims[i].claim, config);
    let mut j: usize = i + 1;
    while j < all_claims.len()
        invariant
            i < j <= all_claims@.len(),
            successor(all_claims@, i as int, config.valid_time_confidence_threshold) == next_later(
                all_claims@,
                j as int,
                own,
                config.valid_time_confidence_threshold,
            ),
        decreases all_claims.len() - j,
    {
        let (later, _) = primary_key_and_granularity(&all_claims[j].claim, config);
        if own.before(&later) {
            return Some(j);
        }
        j += 1;
    }
    None
}

fn end_in_history(cs: &ClaimWithStatus, next: Option<&Claim>, config: &EngineConfig) -> (r: (
    Option<Timestamp>,
    Option<DateGranularity>,
    bool,
))
    ensures
        ({
            let threshold = config.valid_time_confidence_threshold;
            let next_claim = match next {
                Some(claim) => Some(*claim),
                None => None,
            };
            &&& (r.0, r.1) == window_end(*cs, next_claim, threshold)
            &&& r.2 == (next is Some && overlaps_successor(*cs, *next->0, threshold))
        }),
{
    let threshold = config.valid_time_confidence_threshold;
    let (own_end, own_granularity) = narrowed_valid_end(
        &cs.claim,
        cs.bound_at,
        cs.bound_at_granularity,
    );
    let claim = match next {
        Some(claim) => claim,
        None => {
            return (own_end, own_granularity, false);
        },
    };
    let (later, later_granularity) = primary_key_and_granularity(claim, config);
    let both_trusted = claim_is_trusted(&cs.claim, threshold) && claim_is_trusted(claim, threshold);
    let overlapping = both_trusted && !windows_non_overlapping_bounds(
        cs.claim.valid_time().start.unwrap(),
        own_end,
        claim.valid_time().start.unwrap(),
        claim.valid_time().end,
    );
    if overlapping {
        return (own_end, own_granularity, true);
    }
    match own_end {
        Some(end) if end.at_or_before(&later) => {
            if own_granularity.is_none() && end_is_bound_derived(&cs.claim, cs.bound_at) && end
                == later {
                (Some(end), later_granularity, false)
            } else {
                (Some(end), own_granularity, false)
            }
        },
        _ => (Some(later), later_granularity, false),
    }
}

/// The windows of the claims of a subject line, which stand in canonical order. `has_conflict` is
/// what the fold found.
pub fn compute_history_windows(
    all_claims: &[ClaimWithStatus],
    has_conflict: bool,
    now: Timestamp,
    config: &EngineConfig,
) -> (r: Vec<HistoryWindow>)
    ensures
        r@ == Seq::new(
            all_claims@.len(),
            |i: int|
                history_window(
                    all_claims@,
                    i,
                    has_conflict,
                    now,
                    config.valid_time_confidence_threshold,
                ),
        ),
{
    let ghost threshold = config.valid_time_confidence_threshold;
    let mut overlapped: Vec<bool> = Vec::new();
    let mut i: usize = 0;
    while i < all_claims.len()
        invariant
            i <= all_claims@.len(),
            overlapped.len() == i,
            forall|m: int| 0 <= m < i ==> !(#[trigger] overlapped@[m]),
        decreases all_claims.len() - i,
    {
        overlapped.push(false);
        i += 1;
    }
    let mut out: Vec<HistoryWindow> = Vec::new();
    let mut i: usize = 0;
    while i < all_claims.len()
        invariant
            i <= all_claims@.len(),
            threshold == config.valid_time_confidence_threshold,
            overlapped.len() == all_claims.len(),
            forall|m: int|
                0 <= m < all_claims@.len() ==> #[trigger] overlapped@[m] == overlapped_by(
                    all_claims@,
                    i as int,
                    m,
                    threshold,
                ),
            out.len() == i,
            forall|k: int|
                0 <= k < i ==> #[trigger] out@[k] == history_window(
                    all_claims@,
                    k,
                    has_conflict,
                    now,
                    config.valid_time_confidence_threshold,
                ),
        decreases all_claims.len() - i,
    {
        let cs = &all_claims[i];
        let after: Option<usize> = find_successor(all_claims, i, config);
        let next: Option<&Claim> = match after {
            Some(j) => Some(&all_claims[j].claim),
            None => None,
        };
        let (valid_until, valid_until_granularity, overlap) = end_in_history(cs, next, config);
        let overlapped_here = overlapped[i];
        let ghost marked = overlapped@;
        if let Some(j) = after {
            if overlap {
                overlapped.set(j, true);
            }
        }
        proof {
            assert forall|m: int| 0 <= m < all_claims@.len() implies #[trigger] overlapped@[m]
                == overlapped_by(all_claims@, i + 1, m, threshold) by {
                lemma_one_predecessor_more(all_claims@, i as int, m, threshold);
                assert(marked[m] == overlapped_by(all_claims@, i as int, m, threshold));
            }
        }
        let started = match cs.claim.valid_time().start {
            Some(start) => start.at_or_before(&now),
            None => true,
        };
        let unended = match valid_until {
            Some(end) => now.before(&end),
            None => true,
        };
        out.push(
            HistoryWindow {
                valid_until,
                valid_until_granularity,
                contested: overlap || overlapped_here || (cs.is_live && has_conflict),
                contains_now: started && unended,
            },
        );
        i += 1;
    }
    out
}

proof fn lemma_one_predecessor_more(
    entries: Seq<ClaimWithStatus>,
    i: int,
    m: int,
    threshold: Score,
)
    requires
        0 <= i < entries.len(),
    ensures
        overlapped_by(entries, i + 1, m, threshold) <==> overlapped_by(entries, i, m, threshold)
            || (successor(entries, i, threshold) == Some(m) && overlaps_successor(
            entries[i],
            entries[m].claim,
            threshold,
        )),
{
    if overlapped_by(entries, i, m, threshold) {
        let k = choose|k: int|
            0 <= k < i && successor(entries, k, threshold) == Some(m) && overlaps_successor(
                #[trigger] entries[k],
                entries[m].claim,
                threshold,
            );
        assert(0 <= k < i + 1 && overlaps_successor(entries[k], entries[m].claim, threshold));
    }
}

/// A bound narrows a window and never widens it: what the narrowed window covers, the claim's own
/// window covers, and it ends no later.
pub proof fn law_bound_only_narrows(cs: ClaimWithStatus, instant: Timestamp)
    ensures
        covers(effective_valid_time(cs), instant) ==> covers(*cs.claim.valid_time(), instant),
        cs.claim.valid_time().end matches Some(own) ==> effective_valid_time(cs).end matches Some(e)
            && e.at() <= own.at(),
        cs.bound_at matches Some(bound) ==> effective_valid_time(cs).end matches Some(e) && e.at()
            <= bound.at(),
        cs.bound_at is None ==> effective_valid_time(cs).end == cs.claim.valid_time().end,
{
}

/// Reading a claim under its bound changes nothing but the end of its window.
pub proof fn law_effective_window_changes_only_the_end(cs: ClaimWithStatus)
    ensures
        ({
            let seen = effective(cs);
            let own = *cs.claim.valid_time();
            &&& seen.claim_ref() == cs.claim.claim_ref()
            &&& seen.agent_id() == cs.claim.agent_id()
            &&& seen.fact() == cs.claim.fact()
            &&& seen.cardinality() == cs.claim.cardinality()
            &&& seen.provenance() == cs.claim.provenance()
            &&& seen.external_anchor() == cs.claim.external_anchor()
            &&& seen.transaction_time() == cs.claim.transaction_time()
            &&& seen.confidence() == cs.claim.confidence()
            &&& seen.criticality() == cs.claim.criticality()
            &&& seen.derived_from() == cs.claim.derived_from()
            &&& seen.metadata() == cs.claim.metadata()
            &&& seen.snapshot_schema_version() == cs.claim.snapshot_schema_version()
            &&& seen.valid_time().start == own.start
            &&& seen.valid_time().valid_time_confidence == own.valid_time_confidence
            &&& seen.valid_time().start_granularity == own.start_granularity
        }),
{
    lemma_over_window(cs.claim, effective_valid_time(cs));
}

/// The end of a window is the bound's exactly if the bound decides it.
pub proof fn law_end_belongs_to_bound_or_claim(cs: ClaimWithStatus)
    ensures
        bound_decides(*cs.claim.valid_time(), cs.bound_at) ==> effective_valid_time(cs).end
            == cs.bound_at && effective_valid_time(cs).end_granularity == cs.bound_at_granularity,
        !bound_decides(*cs.claim.valid_time(), cs.bound_at) ==> effective_valid_time(cs).end
            == cs.claim.valid_time().end,
{
}

/// What was never believed never comes back: no answer at an instant holds a claim whose
/// disposition rules it out, or a claim that a denial bounded.
pub proof fn law_never_believed_claims_stay_out(
    claims: Seq<Claim>,
    table: spec_fn(ClaimRef) -> Seq<ValidityAssertion>,
    as_of: Timestamp,
    valid_at: Option<Timestamp>,
    instant: Timestamp,
    denied: Set<u128>,
    threshold: Score,
    dispositions: Map<u128, Disposition>,
    cs: ClaimWithStatus,
)
    requires
        narrowed_fold(
            fold_with(claims, table, as_of, valid_at, threshold, dispositions),
            instant,
            denied,
            threshold,
        ).live.contains(cs),
    ensures
        once_believed(cs, denied),
{
    broadcast use vstd::seq_lib::group_filter_ensures;

    let fold = fold_with(claims, table, as_of, valid_at, threshold, dispositions);
    let candidates = fold.all.filter(believed_unless(denied));
    let windows = effective_claims(candidates);
    if trusted_succession(windows, threshold) {
        if let Some(claim) = first_covering(windows, instant) {
            candidates.lemma_filter_contains_rev(about(*claim.claim_ref()), cs);
            let k = choose|k: int| 0 <= k < candidates.len() && candidates[k] == cs;
            assert(believed_unless(denied)(candidates[k]));
        }
    } else {
        law_live_claims_are_live(fold.all, instant_asked(valid_at, as_of), threshold, cs);
        let k = choose|k: int| 0 <= k < fold.all.len() && fold.all[k] == cs;
        assert(fold.all[k].is_live);
    }
}

/// The claims that a new claim may conflict with are those that were believed at some instant: one
/// for each of them, and none else. A claim that its disposition alone rules out is not among them.
pub proof fn law_conflict_candidates_were_believed(
    entries: Seq<ClaimWithStatus>,
    denied: Set<u128>,
    claim: Claim,
)
    ensures
        conflict_candidates(entries, denied).contains(claim) <==> exists|i: int|
            {
                &&& 0 <= i < entries.len()
                &&& once_believed(#[trigger] entries[i], denied)
                &&& claim == if entries[i].is_live {
                    entries[i].claim
                } else {
                    effective(entries[i])
                }
            },
{
    broadcast use vstd::seq_lib::group_filter_ensures;

    let pred = believed_unless(denied);
    let kept = entries.filter(pred);
    let out = conflict_candidates(entries, denied);
    if out.contains(claim) {
        let k = choose|k: int| 0 <= k < out.len() && out[k] == claim;
        assert(pred(kept[k]));
        assert(kept.contains(kept[k]));
        entries.lemma_filter_contains_rev(pred, kept[k]);
        let i = choose|i: int| 0 <= i < entries.len() && entries[i] == kept[k];
        assert(once_believed(entries[i], denied));
    }
    if exists|i: int|
        {
            &&& 0 <= i < entries.len()
            &&& once_believed(#[trigger] entries[i], denied)
            &&& claim == if entries[i].is_live {
                entries[i].claim
            } else {
                effective(entries[i])
            }
        } {
        let i = choose|i: int|
            {
                &&& 0 <= i < entries.len()
                &&& once_believed(#[trigger] entries[i], denied)
                &&& claim == if entries[i].is_live {
                    entries[i].claim
                } else {
                    effective(entries[i])
                }
            };
        assert(pred(entries[i]));
        assert(kept.contains(entries[i]));
        let k = choose|k: int| 0 <= k < kept.len() && kept[k] == entries[i];
        assert(out[k] == claim);
    }
}

/// An answer at an instant is a single claim, or none, and without a conflict, wherever the
/// candidates form a trusted succession.
pub proof fn law_answer_at_an_instant_is_single(
    fold: FoldModel,
    instant: Timestamp,
    denied: Set<u128>,
    threshold: Score,
)
    requires
        references_are_unique(claims_of(fold.all)),
        trusted_succession(effective_claims(fold.all.filter(believed_unless(denied))), threshold),
    ensures
        ({
            let answer = narrowed_fold(fold, instant, denied, threshold);
            &&& answer.live.len() <= 1
            &&& !answer.has_conflict
            &&& answer.succession_selected
            &&& answer.all == fold.all
            &&& answer.live.len() == 1 ==> covers(effective_valid_time(answer.live[0]), instant)
        }),
{
    broadcast use vstd::seq_lib::group_filter_ensures;

    let candidates = fold.all.filter(believed_unless(denied));
    let windows = effective_claims(candidates);
    lemma_filter_keeps_references_unique(fold.all, believed_unless(denied));
    lemma_selection_is_single(candidates, windows, instant);
    let place = lemma_first_covering(windows, instant);
    let answer = narrowed_fold(fold, instant, denied, threshold);
    if answer.live.len() == 1 {
        let claim = first_covering(windows, instant)->0;
        let cs = answer.live[0];
        assert(about(*claim.claim_ref())(cs));
        assert(answer.live.contains(cs));
        candidates.lemma_filter_contains_rev(about(*claim.claim_ref()), cs);
        let k = choose|k: int| 0 <= k < candidates.len() && candidates[k] == cs;
        lemma_over_window(candidates[place].claim, effective_valid_time(candidates[place]));
        assert(claims_of(candidates)[k].claim_ref() == claims_of(candidates)[place].claim_ref());
    }
}

/// A claim that was believed at some instant answers at every instant that its window under its
/// bound covers, wherever the candidates form a trusted succession.
pub proof fn law_believed_claim_answers_in_its_window(
    fold: FoldModel,
    instant: Timestamp,
    denied: Set<u128>,
    threshold: Score,
    i: int,
)
    requires
        references_are_unique(claims_of(fold.all)),
        trusted_succession(effective_claims(fold.all.filter(believed_unless(denied))), threshold),
        0 <= i < fold.all.len(),
        once_believed(fold.all[i], denied),
        covers(effective_valid_time(fold.all[i]), instant),
    ensures
        narrowed_fold(fold, instant, denied, threshold).live == seq![fold.all[i]],
{
    broadcast use vstd::seq_lib::group_filter_ensures;

    let cs = fold.all[i];
    let pred = believed_unless(denied);
    let candidates = fold.all.filter(pred);
    let windows = effective_claims(candidates);
    assert(pred(fold.all[i]));
    assert(candidates.contains(cs));
    let k = choose|k: int| 0 <= k < candidates.len() && candidates[k] == cs;
    lemma_over_window(cs.claim, effective_valid_time(cs));
    assert(windows[k] == effective(cs));
    law_selection_is_membership(windows, threshold, instant, k);
    let answer = candidates.filter(about(*cs.claim.claim_ref()));
    lemma_filter_keeps_references_unique(fold.all, pred);
    lemma_selection_is_single(candidates, windows, instant);
    assert(about(*cs.claim.claim_ref())(candidates[k]));
    assert(answer.contains(candidates[k]));
    let m = choose|m: int| 0 <= m < answer.len() && answer[m] == cs;
    assert(answer =~= seq![cs]);
}

/// Where several claims are live and none is bounded, the answer at an instant is what the fold
/// gives by itself, whether or not the claims form a trusted succession.
pub proof fn law_answer_agrees_with_the_fold(
    claims: Seq<Claim>,
    table: spec_fn(ClaimRef) -> Seq<ValidityAssertion>,
    as_of: Timestamp,
    instant: Timestamp,
    denied: Set<u128>,
    threshold: Score,
    dispositions: Map<u128, Disposition>,
)
    requires
        references_are_unique(claims),
        ({
            let all = fold_with(
                claims,
                table,
                as_of,
                Some(instant),
                threshold,
                dispositions,
            ).all;
            &&& forall|i: int| 0 <= i < all.len() ==> (#[trigger] all[i]).bound_at is None
            &&& all.filter(found_live()).len() > 1
        }),
    ensures
        ({
            let fold = fold_with(claims, table, as_of, Some(instant), threshold, dispositions);
            narrowed_fold(fold, instant, denied, threshold) == fold
        }),
{
    broadcast use vstd::seq_lib::group_filter_ensures;

    let fold = fold_with(claims, table, as_of, Some(instant), threshold, dispositions);
    let all = fold.all;
    let sorted = canonical(claims, threshold);
    law_ordering_is_a_permutation(claims, by_claim_key(threshold));
    assert forall|i: int| 0 <= i < all.len() implies found_live()(#[trigger] all[i])
        == believed_unless(denied)(all[i]) by {
        assert(all[i].bound_at is None);
    }
    lemma_filter_alike(all, found_live(), believed_unless(denied));
    let live = all.filter(found_live());
    let windows = effective_claims(live);
    let own = claims_of(live);
    assert forall|i: int| 0 <= i < live.len() implies {
        &&& (#[trigger] windows[i]).claim_ref() == own[i].claim_ref()
        &&& windows[i].valid_time().start == own[i].valid_time().start
        &&& windows[i].valid_time().end == own[i].valid_time().end
        &&& windows[i].valid_time().valid_time_confidence
            == own[i].valid_time().valid_time_confidence
    } by {
        assert(live.contains(live[i]));
        all.lemma_filter_contains_rev(found_live(), live[i]);
        let k = choose|k: int| 0 <= k < all.len() && all[k] == live[i];
        assert(all[k].bound_at is None);
        lemma_over_window(live[i].claim, effective_valid_time(live[i]));
    }
    lemma_succession_depends_on_windows(windows, own, threshold);
    if trusted_succession(own, threshold) {
        let place = lemma_first_covering(windows, instant);
        let own_place = lemma_first_covering(own, instant);
        if first_covering(windows, instant) is Some {
            assert(covers(*own[place].valid_time(), instant)) by {
                assert(windows[place].valid_time().end == own[place].valid_time().end);
            }
            law_selection_is_membership(own, threshold, instant, place);
        } else if first_covering(own, instant) is Some {
            assert(covers(*windows[own_place].valid_time(), instant));
        }
        law_references_of_a_permutation(claims, sorted);
        assert(claims_of(all) =~= sorted);
        law_selected_succession_has_no_conflict(all, instant, threshold);
    }
}

/// Whether claims form a trusted succession depends on their windows alone.
proof fn lemma_succession_depends_on_windows(a: Seq<Claim>, b: Seq<Claim>, threshold: Score)
    requires
        a.len() == b.len(),
        forall|i: int|
            0 <= i < a.len() ==> {
                &&& (#[trigger] a[i]).valid_time().start == b[i].valid_time().start
                &&& a[i].valid_time().end == b[i].valid_time().end
                &&& a[i].valid_time().valid_time_confidence
                    == b[i].valid_time().valid_time_confidence
            },
    ensures
        trusted_succession(a, threshold) == trusted_succession(b, threshold),
{
    if trusted_succession(a, threshold) {
        assert forall|i: int| 0 <= i < b.len() implies trusted(
            *(#[trigger] b[i]).valid_time(),
            threshold,
        ) by {
            assert(trusted(*a[i].valid_time(), threshold));
        }
        assert forall|i: int, j: int| 0 <= i < j < b.len() implies windows_apart(
            *(#[trigger] b[i]).valid_time(),
            *(#[trigger] b[j]).valid_time(),
        ) by {
            assert(windows_apart(*a[i].valid_time(), *a[j].valid_time()));
        }
    }
    if trusted_succession(b, threshold) {
        assert forall|i: int| 0 <= i < a.len() implies trusted(
            *(#[trigger] a[i]).valid_time(),
            threshold,
        ) by {
            assert(trusted(*b[i].valid_time(), threshold));
        }
        assert forall|i: int, j: int| 0 <= i < j < a.len() implies windows_apart(
            *(#[trigger] a[i]).valid_time(),
            *(#[trigger] a[j]).valid_time(),
        ) by {
            assert(windows_apart(*b[i].valid_time(), *b[j].valid_time()));
        }
    }
}

proof fn lemma_filter_alike<T>(s: Seq<T>, p: spec_fn(T) -> bool, q: spec_fn(T) -> bool)
    requires
        forall|i: int| 0 <= i < s.len() ==> p(#[trigger] s[i]) == q(s[i]),
    ensures
        s.filter(p) == s.filter(q),
    decreases s.len(),
{
    reveal(Seq::filter);
    if s.len() > 0 {
        let front = s.drop_last();
        assert forall|i: int| 0 <= i < front.len() implies p(#[trigger] front[i]) == q(
            front[i],
        ) by {
            assert(front[i] == s[i]);
        }
        lemma_filter_alike(front, p, q);
        assert(p(s[s.len() - 1]) == q(s[s.len() - 1]));
    }
}

/// References that are unique stay so in another order.
pub proof fn law_references_of_a_permutation(a: Seq<Claim>, b: Seq<Claim>)
    requires
        references_are_unique(a),
        a.to_multiset() == b.to_multiset(),
    ensures
        references_are_unique(b),
{
    broadcast use vstd::seq_lib::group_to_multiset_ensures;

    assert(a.no_duplicates()) by {
        assert forall|i: int, j: int| 0 <= i < a.len() && 0 <= j < a.len() && i != j implies a[i]
            != a[j] by {
            if a[i] == a[j] {
                assert(a[i].claim_ref() == a[j].claim_ref());
            }
        }
    }
    a.lemma_multiset_has_no_duplicates();
    assert(b.no_duplicates()) by {
        b.lemma_multiset_has_no_duplicates_conv();
    }
    assert forall|i: int, j: int|
        0 <= i < b.len() && 0 <= j < b.len() && (#[trigger] b[i]).claim_ref() == (
        #[trigger] b[j]).claim_ref() implies i == j by {
        assert(b.to_multiset().count(b[i]) > 0 && b.to_multiset().count(b[j]) > 0);
        assert(a.contains(b[i]) && a.contains(b[j]));
        let k = choose|k: int| 0 <= k < a.len() && a[k] == b[i];
        let l = choose|l: int| 0 <= l < a.len() && a[l] == b[j];
        assert(a[k].claim_ref() == a[l].claim_ref());
    }
}

/// The entry that follows another is the next one that is ordered by a later instant.
pub proof fn lemma_next_later(
    entries: Seq<ClaimWithStatus>,
    from: int,
    instant: Timestamp,
    threshold: Score,
)
    requires
        0 <= from,
    ensures
        next_later(entries, from, instant, threshold) matches Some(j) ==> from <= j
            < entries.len() && primary_instant(entries[j].claim, threshold).at() > instant.at()
            && forall|k: int|
            from <= k < j ==> primary_instant((#[trigger] entries[k]).claim, threshold).at()
                <= instant.at(),
        next_later(entries, from, instant, threshold) is None ==> forall|k: int|
            from <= k < entries.len() ==> primary_instant(
                (#[trigger] entries[k]).claim,
                threshold,
            ).at() <= instant.at(),
    decreases entries.len() - from,
{
    if from < entries.len() && primary_instant(entries[from].claim, threshold).at()
        <= instant.at() {
        lemma_next_later(entries, from + 1, instant, threshold);
    }
}

/// In the history no window ends later than the claim's own end or its bound; and one that does
/// not overlap its successor ends no later than that one's instant.
pub proof fn law_history_windows_are_narrowed(
    entries: Seq<ClaimWithStatus>,
    i: int,
    has_conflict: bool,
    now: Timestamp,
    threshold: Score,
)
    requires
        0 <= i < entries.len(),
    ensures
        ({
            let window = history_window(entries, i, has_conflict, now, threshold);
            let cs = entries[i];
            &&& cs.claim.valid_time().end matches Some(own) ==> window.valid_until matches Some(e)
                && e.at() <= own.at()
            &&& cs.bound_at matches Some(bound) ==> window.valid_until matches Some(e) && e.at()
                <= bound.at()
            &&& successor(entries, i, threshold) matches Some(j) ==> overlaps_successor(
                cs,
                entries[j].claim,
                threshold,
            ) || (window.valid_until matches Some(e) && e.at() <= primary_instant(
                entries[j].claim,
                threshold,
            ).at())
        }),
{
}

/// No window is emptied by its successor: an end that comes from the successor is later than the
/// instant that the claim is ordered by.
pub proof fn law_successor_leaves_no_empty_window(
    entries: Seq<ClaimWithStatus>,
    i: int,
    has_conflict: bool,
    now: Timestamp,
    threshold: Score,
)
    requires
        0 <= i < entries.len(),
        history_window(entries, i, has_conflict, now, threshold).valid_until
            != effective_valid_time(entries[i]).end,
    ensures
        history_window(entries, i, has_conflict, now, threshold).valid_until matches Some(e)
            && e.at() > primary_instant(entries[i].claim, threshold).at(),
{
    lemma_next_later(
        entries,
        i + 1,
        primary_instant(entries[i].claim, threshold),
        threshold,
    );
}

/// Where windows overlap, nothing is narrowed in silence: both claims are shown as contested, and
/// the earlier one with its own end.
pub proof fn law_overlap_is_contested(
    entries: Seq<ClaimWithStatus>,
    i: int,
    has_conflict: bool,
    now: Timestamp,
    threshold: Score,
)
    requires
        0 <= i < entries.len(),
        successor(entries, i, threshold) matches Some(j) && overlaps_successor(
            entries[i],
            entries[j].claim,
            threshold,
        ),
    ensures
        history_window(entries, i, has_conflict, now, threshold).contested,
        history_window(
            entries,
            successor(entries, i, threshold)->0,
            has_conflict,
            now,
            threshold,
        ).contested,
        history_window(entries, i, has_conflict, now, threshold).valid_until
            == effective_valid_time(entries[i]).end,
{
    lemma_next_later(
        entries,
        i + 1,
        primary_instant(entries[i].claim, threshold),
        threshold,
    );
    let j = successor(entries, i, threshold)->0;
    assert(overlaps_successor(entries[i], entries[j].claim, threshold));
    assert(overlapped_by(entries, j, j, threshold));
}

} // verus!
