//! Valid-time windows: which are trusted, which overlap, and which one contains an instant.
//!
//! A window runs from its start up to but without its end; one without an end runs on. A trusted
//! succession is a set of claims whose windows are all trusted and lie apart from each other.
use vstd::prelude::*;

use crate::domain::claim::{Claim, ValidTime};
use crate::score::Score;
use crate::time::Timestamp;

verus! {

/// Whether a window is trusted: stated with enough confidence, and with a start.
pub open spec fn trusted(vt: ValidTime, threshold: Score) -> bool {
    vt.valid_time_confidence.reaches(threshold) && vt.start is Some
}

/// Whether a window ends no later than an instant.
pub open spec fn ended_by(end: Option<Timestamp>, instant: Timestamp) -> bool {
    end matches Some(e) && e.at() <= instant.at()
}

/// Whether two windows lie apart: one of them ends no later than the other starts.
pub open spec fn apart(
    a_start: Timestamp,
    a_end: Option<Timestamp>,
    b_start: Timestamp,
    b_end: Option<Timestamp>,
) -> bool {
    ended_by(a_end, b_start) || ended_by(b_end, a_start)
}

/// Whether the windows of two valid times lie apart.
pub open spec fn windows_apart(a: ValidTime, b: ValidTime) -> bool {
    apart(a.start->0, a.end, b.start->0, b.end)
}

/// Whether a window contains an instant.
pub open spec fn covers(vt: ValidTime, instant: Timestamp) -> bool {
    &&& vt.start matches Some(s) && s.at() <= instant.at()
    &&& !ended_by(vt.end, instant)
}

/// Whether every claim has a start.
pub open spec fn all_started(claims: Seq<Claim>) -> bool {
    forall|i: int| 0 <= i < claims.len() ==> (#[trigger] claims[i]).valid_time().start is Some
}

/// Whether the claims form a trusted succession.
pub open spec fn trusted_succession(claims: Seq<Claim>, threshold: Score) -> bool {
    &&& forall|i: int|
        0 <= i < claims.len() ==> trusted(*(#[trigger] claims[i]).valid_time(), threshold)
    &&& forall|i: int, j: int|
        0 <= i < j < claims.len() ==> windows_apart(
            *(#[trigger] claims[i]).valid_time(),
            *(#[trigger] claims[j]).valid_time(),
        )
}

/// The first claim whose window contains an instant.
pub open spec fn first_covering(claims: Seq<Claim>, instant: Timestamp) -> Option<Claim>
    decreases claims.len(),
{
    if claims.len() == 0 {
        None
    } else if covers(*claims[0].valid_time(), instant) {
        Some(claims[0])
    } else {
        first_covering(claims.drop_first(), instant)
    }
}

/// Whether the valid time is trusted.
pub fn valid_time_is_trusted(vt: &ValidTime, threshold: Score) -> (r: bool)
    ensures
        r == trusted(*vt, threshold),
{
    vt.valid_time_confidence.at_least(&threshold) && vt.start.is_some()
}

/// Whether the claim's valid time is trusted.
pub fn claim_is_trusted(claim: &Claim, threshold: Score) -> (r: bool)
    ensures
        r == trusted(*claim.valid_time(), threshold),
{
    valid_time_is_trusted(claim.valid_time(), threshold)
}

fn ends_by(end: Option<Timestamp>, instant: Timestamp) -> (r: bool)
    ensures
        r == ended_by(end, instant),
{
    match end {
        Some(e) => e.at_or_before(&instant),
        None => false,
    }
}

/// Whether the two windows lie apart. This is the one comparison of windows: all others come down
/// to it.
pub fn windows_non_overlapping_bounds(
    a_start: Timestamp,
    a_end: Option<Timestamp>,
    b_start: Timestamp,
    b_end: Option<Timestamp>,
) -> (r: bool)
    ensures
        r == apart(a_start, a_end, b_start, b_end),
{
    ends_by(a_end, b_start) || ends_by(b_end, a_start)
}

/// Whether the windows of two valid times, both with a start, lie apart.
pub fn valid_times_non_overlapping(a: &ValidTime, b: &ValidTime) -> (r: bool)
    requires
        a.start is Some,
        b.start is Some,
    ensures
        r == windows_apart(*a, *b),
{
    windows_non_overlapping_bounds(a.start.unwrap(), a.end, b.start.unwrap(), b.end)
}

/// Whether the windows of two claims, both with a start, lie apart.
pub fn windows_non_overlapping(a: &Claim, b: &Claim) -> (r: bool)
    requires
        a.valid_time().start is Some,
        b.valid_time().start is Some,
    ensures
        r == windows_apart(*a.valid_time(), *b.valid_time()),
{
    valid_times_non_overlapping(a.valid_time(), b.valid_time())
}

/// Whether the claims form a trusted succession. No claim, and one trusted claim, do.
pub fn is_trusted_succession(claims: &[&Claim], threshold: Score) -> (r: bool)
    ensures
        r == trusted_succession(claims@.unref(), threshold),
{
    let ghost all = claims@.unref();
    let mut i: usize = 0;
    while i < claims.len()
        invariant
            i <= claims.len(),
            all == claims@.unref(),
            forall|k: int| 0 <= k < i ==> trusted(*(#[trigger] all[k]).valid_time(), threshold),
        decreases claims.len() - i,
    {
        if !claim_is_trusted(claims[i], threshold) {
            assert(!trusted(*all[i as int].valid_time(), threshold));
            return false;
        }
        i += 1;
    }
    let mut i: usize = 0;
    while i < claims.len()
        invariant
            i <= claims.len(),
            all == claims@.unref(),
            forall|k: int|
                0 <= k < all.len() ==> trusted(*(#[trigger] all[k]).valid_time(), threshold),
            forall|k: int, l: int|
                0 <= k < i && k < l < all.len() ==> windows_apart(
                    *(#[trigger] all[k]).valid_time(),
                    *(#[trigger] all[l]).valid_time(),
                ),
        decreases claims.len() - i,
    {
        let mut j: usize = i + 1;
        while j < claims.len()
            invariant
                i < j <= claims.len(),
                all == claims@.unref(),
                forall|k: int|
                    0 <= k < all.len() ==> trusted(*(#[trigger] all[k]).valid_time(), threshold),
                forall|l: int|
                    i < l < j ==> windows_apart(
                        *all[i as int].valid_time(),
                        *(#[trigger] all[l]).valid_time(),
                    ),
            decreases claims.len() - j,
        {
            assert(trusted(*all[i as int].valid_time(), threshold));
            assert(trusted(*all[j as int].valid_time(), threshold));
            if !windows_non_overlapping(claims[i], claims[j]) {
                return false;
            }
            j += 1;
        }
        i += 1;
    }
    true
}

/// The claim whose window contains the instant, or `None` where there is none: the first one, and
/// in a trusted succession the only one.
pub fn select_by_valid_time_instant<'a>(claims: &[&'a Claim], instant: Timestamp) -> (r: Option<
    &'a Claim,
>)
    requires
        all_started(claims@.unref()),
    ensures
        r matches Some(claim) ==> first_covering(claims@.unref(), instant) == Some(*claim),
        r is None ==> first_covering(claims@.unref(), instant) is None,
{
    let ghost all = claims@.unref();
    let mut i: usize = 0;
    assert(all.skip(0) =~= all);
    while i < claims.len()
        invariant
            i <= claims.len(),
            all == claims@.unref(),
            all_started(all),
            first_covering(all, instant) == first_covering(all.skip(i as int), instant),
        decreases claims.len() - i,
    {
        let claim: &'a Claim = claims[i];
        let ghost rest = all.skip(i as int);
        assert(rest[0] == *claim);
        assert(rest.drop_first() =~= all.skip(i + 1));
        assert(all[i as int].valid_time().start is Some);
        let start = claim.valid_time().start.unwrap();
        if start.at_or_before(&instant) && !ends_by(claim.valid_time().end, instant) {
            return Some(claim);
        }
        i += 1;
    }
    assert(all.skip(i as int).len() == 0);
    None
}

/// Whether two windows lie apart does not depend on which is named first.
pub proof fn law_apart_is_symmetric(
    a_start: Timestamp,
    a_end: Option<Timestamp>,
    b_start: Timestamp,
    b_end: Option<Timestamp>,
)
    ensures
        apart(a_start, a_end, b_start, b_end) == apart(b_start, b_end, a_start, a_end),
{
}

/// Windows are half-open: one that starts at the instant at which another ends lies apart from it.
pub proof fn law_touching_windows_are_apart(
    a_start: Timestamp,
    boundary: Timestamp,
    b_end: Option<Timestamp>,
)
    ensures
        apart(a_start, Some(boundary), boundary, b_end),
{
}

/// Two windows without an end overlap, whatever their starts.
pub proof fn law_open_windows_overlap(a_start: Timestamp, b_start: Timestamp)
    ensures
        !apart(a_start, None, b_start, None),
{
}

/// Windows that lie apart share no instant.
pub proof fn law_apart_windows_share_no_instant(a: ValidTime, b: ValidTime, instant: Timestamp)
    requires
        windows_apart(a, b),
    ensures
        !(covers(a, instant) && covers(b, instant)),
{
}

/// At most one window of a trusted succession contains an instant.
pub proof fn law_succession_covers_at_most_once(
    claims: Seq<Claim>,
    threshold: Score,
    instant: Timestamp,
    i: int,
    j: int,
)
    requires
        trusted_succession(claims, threshold),
        0 <= i < claims.len(),
        0 <= j < claims.len(),
        covers(*claims[i].valid_time(), instant),
        covers(*claims[j].valid_time(), instant),
    ensures
        i == j,
{
    if i < j {
        law_apart_windows_share_no_instant(
            *claims[i].valid_time(),
            *claims[j].valid_time(),
            instant,
        );
    } else if j < i {
        law_apart_windows_share_no_instant(
            *claims[j].valid_time(),
            *claims[i].valid_time(),
            instant,
        );
    }
}

/// The first covering claim is one of the claims, it covers, and none before it does; where there
/// is none, no claim covers.
pub proof fn lemma_first_covering(claims: Seq<Claim>, instant: Timestamp) -> (place: int)
    ensures
        first_covering(claims, instant) matches Some(claim) ==> 0 <= place < claims.len()
            && claims[place] == claim && covers(*claim.valid_time(), instant) && forall|k: int|
            0 <= k < place ==> !covers(*(#[trigger] claims[k]).valid_time(), instant),
        first_covering(claims, instant) is None ==> forall|k: int|
            0 <= k < claims.len() ==> !covers(*(#[trigger] claims[k]).valid_time(), instant),
    decreases claims.len(),
{
    if claims.len() == 0 {
        0
    } else if covers(*claims[0].valid_time(), instant) {
        0
    } else {
        let rest = claims.drop_first();
        let place = lemma_first_covering(rest, instant);
        assert forall|k: int|
            0 <= k < claims.len() && (first_covering(rest, instant) is None || k <= place) implies
            !covers(*(#[trigger] claims[k]).valid_time(), instant) by {
            if k > 0 {
                assert(claims[k] == rest[k - 1]);
            }
        }
        place + 1
    }
}

/// In a trusted succession a claim is selected for an instant exactly if its window contains it.
pub proof fn law_selection_is_membership(
    claims: Seq<Claim>,
    threshold: Score,
    instant: Timestamp,
    i: int,
)
    requires
        trusted_succession(claims, threshold),
        0 <= i < claims.len(),
    ensures
        covers(*claims[i].valid_time(), instant) <==> first_covering(claims, instant) == Some(
            claims[i],
        ),
{
    let place = lemma_first_covering(claims, instant);
    if covers(*claims[i].valid_time(), instant) {
        law_succession_covers_at_most_once(claims, threshold, instant, i, place);
    }
}

} // verus!
