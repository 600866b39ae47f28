//! Laws on valid-time windows.
use vstd::prelude::*;

use crate::domain::claim::{lemma_over_window, Claim, ValidTime};
use crate::engine::history::{effective, effective_valid_time};
use crate::engine::truth_engine::ClaimWithStatus;
use crate::engine::valid_time_helpers::{
    apart, covers, first_covering, lemma_first_covering, trusted, trusted_succession, windows_apart,
};
use crate::score::Score;
use crate::time::Timestamp;

verus! {

/// Whether an instant lies in a window, which runs from its start up to but without its end.
pub open spec fn lies_in(
    start: Option<Timestamp>,
    end: Option<Timestamp>,
    instant: Timestamp,
) -> bool {
    &&& start matches Some(s) && s.at() <= instant.at()
    &&& end matches Some(e) ==> instant.at() < e.at()
}

/// Whether one of two windows ends no later than the other starts.
pub open spec fn clear_of(
    a_start: Timestamp,
    a_end: Option<Timestamp>,
    b_start: Timestamp,
    b_end: Option<Timestamp>,
) -> bool {
    (a_end matches Some(e) && e.at() <= b_start.at()) || (b_end matches Some(e) && e.at()
        <= a_start.at())
}

/// The earlier of a claim's own end and its bound.
pub open spec fn earlier_end(cs: ClaimWithStatus) -> Option<Timestamp> {
    match (cs.claim.valid_time().end, cs.bound_at) {
        (Some(own), Some(bound)) => if bound.at() < own.at() {
            Some(bound)
        } else {
            Some(own)
        },
        (Some(own), None) => Some(own),
        (None, bound) => bound,
    }
}

/// The start of a window lies in it, where it has an end after that; its end does not, and nothing
/// before its start or after its end does. A window without an end holds on, and one without a
/// start contains nothing.
pub proof fn law_windows_are_half_open(vt: ValidTime, instant: Timestamp)
    ensures
        covers(vt, instant) <==> lies_in(vt.start, vt.end, instant),
        vt.start is None ==> !covers(vt, instant),
        vt.start matches Some(s) ==> (instant.at() < s.at() ==> !covers(vt, instant)),
        vt.end matches Some(e) ==> (instant.at() >= e.at() ==> !covers(vt, instant)),
        vt.start matches Some(s) ==> (vt.end is None && instant.at() >= s.at() ==> covers(
            vt,
            instant,
        )),
{
}

/// Windows that lie apart share no instant; and where both have an instant and they do not lie
/// apart, they share the start of one of them.
pub proof fn law_apart_is_having_nothing_in_common(
    a_start: Timestamp,
    a_end: Option<Timestamp>,
    b_start: Timestamp,
    b_end: Option<Timestamp>,
    instant: Timestamp,
)
    ensures
        apart(a_start, a_end, b_start, b_end) == clear_of(a_start, a_end, b_start, b_end),
        apart(a_start, a_end, b_start, b_end) ==> !(lies_in(Some(a_start), a_end, instant)
            && lies_in(Some(b_start), b_end, instant)),
        !apart(a_start, a_end, b_start, b_end) && lies_in(Some(a_start), a_end, a_start) && lies_in(
            Some(b_start),
            b_end,
            b_start,
        ) ==> lies_in(Some(a_start), a_end, b_start) || lies_in(Some(b_start), b_end, a_start),
{
}

/// A window is trusted where it has a start and its confidence reaches the threshold, and is
/// trusted no more under a higher threshold: its end and its precision do not matter.
pub proof fn law_trust_needs_a_start_and_confidence(
    vt: ValidTime,
    other: ValidTime,
    threshold: Score,
    higher: Score,
)
    ensures
        trusted(vt, threshold) <==> vt.start is Some && vt.valid_time_confidence.reaches(threshold),
        trusted(vt, higher) && higher.reaches(threshold) ==> trusted(vt, threshold),
        vt.start == other.start && vt.valid_time_confidence == other.valid_time_confidence
            ==> trusted(vt, threshold) == trusted(other, threshold),
{
}

/// Claims form a trusted succession exactly where each is trusted and any two lie apart, in
/// whatever order they stand.
pub proof fn law_a_succession_is_trusted_and_spaced(claims: Seq<Claim>, threshold: Score)
    ensures
        trusted_succession(claims, threshold) <==> {
            &&& forall|i: int|
                0 <= i < claims.len() ==> (#[trigger] claims[i]).valid_time().start is Some
                    && claims[i].valid_time().valid_time_confidence.reaches(threshold)
            &&& forall|i: int, j: int|
                0 <= i < claims.len() && 0 <= j < claims.len() && i != j ==> clear_of(
                    (#[trigger] claims[i]).valid_time().start->0,
                    claims[i].valid_time().end,
                    (#[trigger] claims[j]).valid_time().start->0,
                    claims[j].valid_time().end,
                )
        },
{
    if trusted_succession(claims, threshold) {
        assert forall|i: int| 0 <= i < claims.len() implies (
        #[trigger] claims[i]).valid_time().start is Some
            && claims[i].valid_time().valid_time_confidence.reaches(threshold) by {
            assert(trusted(*claims[i].valid_time(), threshold));
        }
        assert forall|i: int, j: int|
            0 <= i < claims.len() && 0 <= j < claims.len() && i != j implies clear_of(
            (#[trigger] claims[i]).valid_time().start->0,
            claims[i].valid_time().end,
            (#[trigger] claims[j]).valid_time().start->0,
            claims[j].valid_time().end,
        ) by {
            if i < j {
                assert(windows_apart(*claims[i].valid_time(), *claims[j].valid_time()));
            } else {
                assert(windows_apart(*claims[j].valid_time(), *claims[i].valid_time()));
            }
        }
    }
    if (forall|i: int|
        0 <= i < claims.len() ==> (#[trigger] claims[i]).valid_time().start is Some
            && claims[i].valid_time().valid_time_confidence.reaches(threshold)) && (forall|
        i: int,
        j: int,
    |
        0 <= i < claims.len() && 0 <= j < claims.len() && i != j ==> clear_of(
            (#[trigger] claims[i]).valid_time().start->0,
            claims[i].valid_time().end,
            (#[trigger] claims[j]).valid_time().start->0,
            claims[j].valid_time().end,
        )) {
        assert forall|i: int| 0 <= i < claims.len() implies trusted(
            *(#[trigger] claims[i]).valid_time(),
            threshold,
        ) by {
            assert(claims[i].valid_time().start is Some);
        }
        assert forall|i: int, j: int| 0 <= i < j < claims.len() implies windows_apart(
            *(#[trigger] claims[i]).valid_time(),
            *(#[trigger] claims[j]).valid_time(),
        ) by {
            assert(clear_of(
                claims[i].valid_time().start->0,
                claims[i].valid_time().end,
                claims[j].valid_time().start->0,
                claims[j].valid_time().end,
            ));
        }
    }
}

/// The claim that is selected for an instant is the first whose window contains it; and where none
/// is selected, no window contains it.
pub proof fn law_the_first_that_contains_is_selected(claims: Seq<Claim>, instant: Timestamp, i: int)
    requires
        0 <= i < claims.len(),
        lies_in(claims[i].valid_time().start, claims[i].valid_time().end, instant),
        forall|k: int|
            0 <= k < i ==> !lies_in(
                (#[trigger] claims[k]).valid_time().start,
                claims[k].valid_time().end,
                instant,
            ),
    ensures
        first_covering(claims, instant) == Some(claims[i]),
{
    let place = lemma_first_covering(claims, instant);
    assert(covers(*claims[i].valid_time(), instant));
    if place < i {
        assert(lies_in(claims[place].valid_time().start, claims[place].valid_time().end, instant));
    }
}

/// Under a bound a claim's window ends at the earlier of its own end and the bound, with the
/// precision of the one that it ends at; a bound at the claim's own end leaves the end with the
/// claim. Nothing else of the claim is read otherwise.
pub proof fn law_a_bound_ends_the_window_early(cs: ClaimWithStatus)
    ensures
        effective_valid_time(cs).end == earlier_end(cs),
        effective_valid_time(cs).start == cs.claim.valid_time().start,
        effective_valid_time(cs).valid_time_confidence
            == cs.claim.valid_time().valid_time_confidence,
        *effective(cs).valid_time() == effective_valid_time(cs),
        effective(cs).claim_ref() == cs.claim.claim_ref(),
        cs.bound_at is None && cs.claim.valid_time().end is Some ==> effective_valid_time(
            cs,
        ).end_granularity == cs.claim.valid_time().end_granularity,
        cs.bound_at is Some && cs.claim.valid_time().end is None ==> effective_valid_time(
            cs,
        ).end_granularity == cs.bound_at_granularity,
        cs.bound_at matches Some(bound) ==> (cs.claim.valid_time().end matches Some(own) ==> (
        bound.at() < own.at() ==> effective_valid_time(cs).end_granularity
            == cs.bound_at_granularity) && (bound.at() >= own.at() ==> effective_valid_time(
            cs,
        ).end_granularity == cs.claim.valid_time().end_granularity)),
{
    lemma_over_window(cs.claim, effective_valid_time(cs));
}

} // verus!
