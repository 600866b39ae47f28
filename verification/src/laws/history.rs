//! Laws on the history of a subject line.
use vstd::prelude::*;

use crate::domain::claim::{Claim, DateGranularity};
use crate::engine::history::{
    history_window, lemma_next_later, overlapped_by, overlaps_successor, successor,
};
use crate::engine::truth_engine::{primary_instant, ClaimWithStatus};
use crate::laws::windows::{clear_of, earlier_end};
use crate::score::Score;
use crate::time::Timestamp;

verus! {

/// Whether a claim says since when it holds, and is trusted in that.
pub open spec fn dated(claim: Claim, threshold: Score) -> bool {
    claim.valid_time().start is Some && claim.valid_time().valid_time_confidence.reaches(threshold)
}

/// The start of a claim that is dated, and the time at which it was written otherwise.
pub open spec fn begins(claim: Claim, threshold: Score) -> Timestamp {
    if dated(claim, threshold) {
        claim.valid_time().start->0
    } else {
        claim.transaction_time().0
    }
}

/// Whether an entry is the next in the list that begins later than another.
pub open spec fn follows(
    entries: Seq<ClaimWithStatus>,
    i: int,
    j: int,
    threshold: Score,
) -> bool {
    &&& 0 <= i < j < entries.len()
    &&& begins(entries[i].claim, threshold).at() < begins(entries[j].claim, threshold).at()
    &&& forall|k: int|
        i < k < j ==> begins((#[trigger] entries[k]).claim, threshold).at() <= begins(
            entries[i].claim,
            threshold,
        ).at()
}

/// Whether two claims are dated and the window of one, up to its bound, meets that of the other.
pub open spec fn runs_into(cs: ClaimWithStatus, next: Claim, threshold: Score) -> bool {
    &&& dated(cs.claim, threshold)
    &&& dated(next, threshold)
    &&& !clear_of(
        cs.claim.valid_time().start->0,
        earlier_end(cs),
        next.valid_time().start->0,
        next.valid_time().end,
    )
}

/// The precision of the earlier of a claim's own end and its bound.
pub open spec fn precision(cs: ClaimWithStatus) -> Option<DateGranularity> {
    match (cs.claim.valid_time().end, cs.bound_at) {
        (Some(own), Some(bound)) => if bound.at() < own.at() {
            cs.bound_at_granularity
        } else {
            cs.claim.valid_time().end_granularity
        },
        (Some(_), None) => cs.claim.valid_time().end_granularity,
        (None, Some(_)) => cs.bound_at_granularity,
        (None, None) => None,
    }
}

/// The entry that follows another in the history is the next one that begins later.
pub proof fn law_what_follows_begins_later(
    entries: Seq<ClaimWithStatus>,
    i: int,
    j: int,
    threshold: Score,
)
    requires
        0 <= i < entries.len(),
    ensures
        successor(entries, i, threshold) == Some(j) <==> follows(entries, i, j, threshold),
{
    lemma_next_later(entries, i + 1, primary_instant(entries[i].claim, threshold), threshold);
}

/// Where the fold found a conflict, every live entry is contested, whether or not it is dated.
pub proof fn law_conflict_contests_every_live_entry(
    entries: Seq<ClaimWithStatus>,
    i: int,
    has_conflict: bool,
    now: Timestamp,
    threshold: Score,
)
    requires
        0 <= i < entries.len(),
        entries[i].is_live,
        has_conflict,
    ensures
        history_window(entries, i, has_conflict, now, threshold).contested,
{
}

/// An entry is contested where it is live in a conflict, where it runs into the one that follows
/// it, or where one that it follows runs into it; and in no other case.
pub proof fn law_contested_entries(
    entries: Seq<ClaimWithStatus>,
    i: int,
    has_conflict: bool,
    now: Timestamp,
    threshold: Score,
)
    requires
        0 <= i < entries.len(),
    ensures
        history_window(entries, i, has_conflict, now, threshold).contested <==> {
            ||| entries[i].is_live && has_conflict
            ||| exists|j: int|
                follows(entries, i, j, threshold) && runs_into(
                    entries[i],
                    (#[trigger] entries[j]).claim,
                    threshold,
                )
            ||| exists|k: int|
                follows(entries, k, i, threshold) && runs_into(
                    #[trigger] entries[k],
                    entries[i].claim,
                    threshold,
                )
        },
{
    let next = successor(entries, i, threshold);
    if next is Some {
        law_what_follows_begins_later(entries, i, next->0, threshold);
        assert(runs_into(entries[i], entries[next->0].claim, threshold) == overlaps_successor(
            entries[i],
            entries[next->0].claim,
            threshold,
        ));
    }
    assert forall|j: int| follows(entries, i, j, threshold) implies next == Some(j) by {
        law_what_follows_begins_later(entries, i, j, threshold);
    }
    assert forall|k: int| 0 <= k < entries.len() implies (successor(
        entries,
        k,
        threshold,
    ) == Some(i) <==> follows(entries, k, i, threshold)) && (runs_into(
        #[trigger] entries[k],
        entries[i].claim,
        threshold,
    ) == overlaps_successor(entries[k], entries[i].claim, threshold)) by {
        law_what_follows_begins_later(entries, k, i, threshold);
    }
    if overlapped_by(entries, i, i, threshold) {
        let k = choose|k: int|
            0 <= k < i && successor(entries, k, threshold) == Some(i) && overlaps_successor(
                #[trigger] entries[k],
                entries[i].claim,
                threshold,
            );
        assert(follows(entries, k, i, threshold) && runs_into(
            entries[k],
            entries[i].claim,
            threshold,
        ));
    }
    if exists|k: int|
        follows(entries, k, i, threshold) && runs_into(
            #[trigger] entries[k],
            entries[i].claim,
            threshold,
        ) {
        let k = choose|k: int|
            follows(entries, k, i, threshold) && runs_into(
                #[trigger] entries[k],
                entries[i].claim,
                threshold,
            );
        assert(0 <= k < i && successor(entries, k, threshold) == Some(i) && overlaps_successor(
            entries[k],
            entries[i].claim,
            threshold,
        ));
    }
}

/// An entry that nothing follows, or that runs into what follows it, ends where its own end or its
/// bound says, with the precision from there.
pub proof fn law_last_and_overlapping_entries_end_by_themselves(
    entries: Seq<ClaimWithStatus>,
    i: int,
    has_conflict: bool,
    now: Timestamp,
    threshold: Score,
)
    requires
        0 <= i < entries.len(),
        forall|j: int|
            follows(entries, i, j, threshold) ==> runs_into(
                entries[i],
                (#[trigger] entries[j]).claim,
                threshold,
            ),
    ensures
        history_window(entries, i, has_conflict, now, threshold).valid_until == earlier_end(
            entries[i],
        ),
        history_window(entries, i, has_conflict, now, threshold).valid_until_granularity
            == precision(entries[i]),
{
    let next = successor(entries, i, threshold);
    if next is Some {
        law_what_follows_begins_later(entries, i, next->0, threshold);
        assert(runs_into(entries[i], entries[next->0].claim, threshold));
        assert(overlaps_successor(entries[i], entries[next->0].claim, threshold));
    }
}

/// An entry that does not run into what follows it ends where that begins, unless it ended before
/// of itself. An end keeps the precision of where it came from; a bound that came without one and
/// falls on the beginning of what follows takes that one's.
pub proof fn law_entries_end_where_the_next_begins(
    entries: Seq<ClaimWithStatus>,
    i: int,
    j: int,
    has_conflict: bool,
    now: Timestamp,
    threshold: Score,
)
    requires
        follows(entries, i, j, threshold),
        !runs_into(entries[i], entries[j].claim, threshold),
    ensures
        ({
            let window = history_window(entries, i, has_conflict, now, threshold);
            let cs = entries[i];
            let next = begins(entries[j].claim, threshold);
            let next_precision = if dated(entries[j].claim, threshold) {
                entries[j].claim.valid_time().start_granularity
            } else {
                None
            };
            let bounded = cs.bound_at is Some && (cs.claim.valid_time().end matches Some(own)
                ==> cs.bound_at->0.at() < own.at());
            let cut = earlier_end(cs) matches Some(e) ==> next.at() < e.at();
            &&& cut ==> window.valid_until == Some(next) && window.valid_until_granularity
                == next_precision
            &&& !cut ==> window.valid_until == earlier_end(cs)
            &&& !cut ==> window.valid_until_granularity == if bounded && cs.bound_at == Some(next)
                && cs.bound_at_granularity is None {
                next_precision
            } else {
                precision(cs)
            }
        }),
{
    law_what_follows_begins_later(entries, i, j, threshold);
    assert(!overlaps_successor(entries[i], entries[j].claim, threshold));
}

/// An entry holds at present where it has begun, or does not say when it began, and has not ended.
pub proof fn law_an_entry_holds_at_present(
    entries: Seq<ClaimWithStatus>,
    i: int,
    has_conflict: bool,
    now: Timestamp,
    threshold: Score,
)
    requires
        0 <= i < entries.len(),
    ensures
        ({
            let window = history_window(entries, i, has_conflict, now, threshold);
            window.contains_now <==> {
                &&& entries[i].claim.valid_time().start matches Some(s) ==> s.at() <= now.at()
                &&& window.valid_until matches Some(e) ==> now.at() < e.at()
            }
        }),
{
}

} // verus!
