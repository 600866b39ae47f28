//! Laws on the records of a supersession, and on the audit of the ledger.
use vstd::prelude::*;

use crate::domain::claim::{ExternalKind, ProvenanceLabel};
use crate::domain::records::{
    AssertionKind, ClaimEdge, Disposition, EdgeKind, LedgerEntry, LedgerEventKind,
    ValidityAssertion,
};
use crate::engine::audit_ledger::{asked_about, asked_from, chronological, AuditQuery};
use crate::engine::supersession::{
    all_accepted, closes, dependents_of, depends_on, flags_dependent, is_part, is_supersession,
    last_refused, law_dependents_are_flagged_once, law_direct_dependents_are_flagged, records_of,
    reports_supersession, SupersessionRequest,
};
use crate::ident::{hyphenated, ClaimRef};
use crate::json::JsonValue;
use crate::laws::gate::tells;
use crate::ports::persistence::{Attempt, Record};
use crate::sequences::lemma_places_of;
use crate::time::rfc3339_text;

verus! {

/// Closing a claim bounds that claim, at the instant of the request and with no precision, as
/// first-hand content of full confidence: the bit patterns are those of one.
pub proof fn law_closing_bounds_the_superseded_claim(
    assertion: ValidityAssertion,
    req: SupersessionRequest,
    assertion_ref: u128,
)
    requires
        closes(assertion, req, assertion_ref),
    ensures
        assertion.assertion_ref == assertion_ref,
        assertion.target_claim.0 == req.superseded_ref.0,
        assertion.kind matches AssertionKind::Bound { bound_at, bound_at_granularity } && bound_at
            == req.bound_at && bound_at_granularity is None,
        assertion.provenance == ProvenanceLabel::External(ExternalKind::ExternalFirstHand),
        assertion.confidence.value_confidence.bits == 0x3ff0_0000_0000_0000,
        assertion.confidence.valid_time_confidence.bits == 0x3ff0_0000_0000_0000,
        assertion.asserted_at == req.recorded_at,
        assertion.agent_id == req.agent_id,
{
}

/// The entry about a closed claim says that it was superseded, by which claim and at which instant.
pub proof fn law_the_ledger_reports_the_supersession(
    entry: LedgerEntry,
    req: SupersessionRequest,
    entry_id: u128,
)
    requires
        reports_supersession(entry, req, entry_id),
    ensures
        entry.entry_id == entry_id,
        entry.claim_ref.0 == req.superseded_ref.0,
        entry.event_kind == LedgerEventKind::ValidityAsserted,
        entry.disposition == Disposition::Superseded,
        entry.recorded_at == req.recorded_at,
        entry.agent_id == req.agent_id,
        entry.rationale matches Some(rationale) && {
            &&& tells(rationale@, 3, "event"@, JsonValue::Text("supersession"@))
            &&& tells(
                rationale@,
                3,
                "overturning_claim"@,
                JsonValue::Text(hyphenated(req.overturning_ref.0)),
            )
            &&& tells(
                rationale@,
                3,
                "bound_at"@,
                JsonValue::Text(rfc3339_text(req.bound_at.secs(), req.bound_at.nanos())),
            )
        },
{
    let members = entry.rationale->0@->Object_0;
    assert(members.contains(members[0]) && members.contains(members[1]) && members.contains(
        members[2],
    ));
}

/// The entry about a dependent says that it waits for review, for which claim and which overturned
/// that.
pub proof fn law_the_ledger_flags_the_dependent(
    entry: LedgerEntry,
    req: SupersessionRequest,
    dependent: ClaimRef,
    entry_id: u128,
)
    requires
        flags_dependent(entry, req, dependent, entry_id),
    ensures
        entry.entry_id == entry_id,
        entry.claim_ref.0 == dependent.0,
        entry.event_kind == LedgerEventKind::DependentFlaggedPendingReview,
        entry.disposition == Disposition::PendingReview,
        entry.recorded_at == req.recorded_at,
        entry.agent_id == req.agent_id,
        entry.rationale matches Some(rationale) && {
            &&& tells(rationale@, 3, "event"@, JsonValue::Text("depends_on_cascade"@))
            &&& tells(
                rationale@,
                3,
                "superseded_parent"@,
                JsonValue::Text(hyphenated(req.superseded_ref.0)),
            )
            &&& tells(
                rationale@,
                3,
                "overturning_claim"@,
                JsonValue::Text(hyphenated(req.overturning_ref.0)),
            )
        },
{
    let members = entry.rationale->0@->Object_0;
    assert(members.contains(members[0]) && members.contains(members[1]) && members.contains(
        members[2],
    ));
}

/// Whether an edge says that one claim depends on another.
pub open spec fn leans_on(edge: ClaimEdge, from: ClaimRef, to: ClaimRef) -> bool {
    edge.kind == EdgeKind::DependsOn && edge.from_claim.0 == from.0 && edge.to_claim.0 == to.0
}

/// A supersession closes the claim, reports that, and flags what depends on the claim: the first
/// record bounds the superseded claim, the second is the entry about it, and each further one is
/// about another claim that an edge says depends on it. Each of those has such a record.
pub proof fn law_a_supersession_closes_reports_and_flags(
    records: Seq<Record>,
    req: SupersessionRequest,
    edges: Seq<ClaimEdge>,
)
    requires
        is_supersession(records, req, dependents_of(edges, req.superseded_ref)),
    ensures
        records.len() >= 2,
        records[0] matches Record::Assertion(a) && a.target_claim == req.superseded_ref && (
        a.kind matches AssertionKind::Bound { bound_at, .. } && bound_at == req.bound_at),
        records[1] matches Record::Entry(e) && e.claim_ref == req.superseded_ref && e.disposition
            == Disposition::Superseded,
        forall|k: int|
            2 <= k < records.len() ==> (#[trigger] records[k] matches Record::Entry(e)
                && e.claim_ref == dependents_of(edges, req.superseded_ref)[k - 2] && e.disposition
                == Disposition::PendingReview && exists|i: int|
                0 <= i < edges.len() && leans_on(
                    #[trigger] edges[i],
                    e.claim_ref,
                    req.superseded_ref,
                )),
        forall|k: int, m: int|
            2 <= k < m < records.len() ==> (#[trigger] records[k])->Entry_0.claim_ref != (
            #[trigger] records[m])->Entry_0.claim_ref,
        forall|i: int|
            0 <= i < edges.len() && (#[trigger] edges[i]).kind == EdgeKind::DependsOn
                && edges[i].to_claim == req.superseded_ref ==> exists|k: int|
                2 <= k < records.len() && (#[trigger] records[k])->Entry_0.claim_ref
                    == edges[i].from_claim,
{
    let flagged = dependents_of(edges, req.superseded_ref);
    assert(is_part(records[0], 0, req, flagged));
    assert(is_part(records[1], 1, req, flagged));
    law_dependents_are_flagged_once(edges, req.superseded_ref);
    assert forall|k: int|
        2 <= k < records.len() implies (#[trigger] records[k] matches Record::Entry(e)
        && e.claim_ref == flagged[k - 2] && e.disposition == Disposition::PendingReview && exists|
        i: int,
    |
        0 <= i < edges.len() && leans_on(
            #[trigger] edges[i],
            e.claim_ref,
            req.superseded_ref,
        )) by {
        assert(is_part(records[k], k, req, flagged));
        assert(flagged.contains(flagged[k - 2]));
        law_direct_dependents_are_flagged(edges, req.superseded_ref, flagged[k - 2]);
        let i = choose|i: int|
            0 <= i < edges.len() && depends_on(#[trigger] edges[i], req.superseded_ref)
                && edges[i].from_claim == flagged[k - 2];
        assert(leans_on(edges[i], flagged[k - 2], req.superseded_ref));
    }
    assert forall|i: int|
        0 <= i < edges.len() && (#[trigger] edges[i]).kind == EdgeKind::DependsOn
            && edges[i].to_claim == req.superseded_ref implies exists|k: int|
        2 <= k < records.len() && (#[trigger] records[k])->Entry_0.claim_ref
            == edges[i].from_claim by {
        assert(depends_on(edges[i], req.superseded_ref));
        law_direct_dependents_are_flagged(edges, req.superseded_ref, edges[i].from_claim);
        let p = choose|p: int| 0 <= p < flagged.len() && flagged[p] == edges[i].from_claim;
        assert(records[p + 2]->Entry_0.claim_ref == flagged[p]);
    }
}

/// The dependents stand in the order of the edges: an edge more adds its claim at the end, where it
/// says that the claim depends on the superseded one and none before it did, and changes nothing
/// otherwise.
pub proof fn law_dependents_stand_in_the_order_of_the_edges(
    edges: Seq<ClaimEdge>,
    edge: ClaimEdge,
    superseded: ClaimRef,
)
    ensures
        ({
            let before = dependents_of(edges, superseded);
            let now = dependents_of(edges.push(edge), superseded);
            let adds = leans_on(edge, edge.from_claim, superseded) && !exists|i: int|
                0 <= i < edges.len() && leans_on(#[trigger] edges[i], edge.from_claim, superseded);
            &&& adds ==> now == before.push(edge.from_claim)
            &&& !adds ==> now == before
        }),
        dependents_of(Seq::empty(), superseded).len() == 0,
{
    assert(edges.push(edge).drop_last() =~= edges);
    law_direct_dependents_are_flagged(edges, superseded, edge.from_claim);
    if dependents_of(edges, superseded).contains(edge.from_claim) {
        let i = choose|i: int|
            0 <= i < edges.len() && depends_on(#[trigger] edges[i], superseded)
                && edges[i].from_claim == edge.from_claim;
        assert(leans_on(edges[i], edge.from_claim, superseded));
    } else {
        assert forall|i: int| 0 <= i < edges.len() implies !leans_on(
            #[trigger] edges[i],
            edge.from_claim,
            superseded,
        ) by {
            if leans_on(edges[i], edge.from_claim, superseded) {
                assert(depends_on(edges[i], superseded));
            }
        }
    }
}

/// Where a supersession is refused, exactly the last record was not accepted; where it is not
/// refused, every record was; and what counts as handed over is what was handed over, in order.
pub proof fn law_a_refusal_comes_last(attempts: Seq<Attempt>, i: int)
    requires
        0 <= i < attempts.len(),
    ensures
        last_refused(attempts) ==> (attempts[i].accepted <==> i < attempts.len() - 1),
        all_accepted(attempts) ==> attempts[i].accepted,
        all_accepted(attempts) ==> !last_refused(attempts),
        records_of(attempts).len() == attempts.len(),
        records_of(attempts)[i] == attempts[i].record,
{
    let front = attempts.drop_last();
    if i < front.len() {
        assert(front[i] == attempts[i]);
    }
    assert(attempts[attempts.len() - 1] == attempts.last());
}

/// An audit gives every entry that the store holds about the claim that was asked for, and every
/// entry where none was asked for in particular; and nothing else.
pub proof fn law_an_audit_gives_what_was_asked_for(
    stored: Seq<LedgerEntry>,
    claim_ref: Option<ClaimRef>,
    entry: LedgerEntry,
)
    ensures
        chronological(stored, claim_ref).contains(entry) <==> stored.contains(entry) && (
        claim_ref matches Some(asked) ==> entry.claim_ref.0 == asked.0),
{
    broadcast use vstd::seq_lib::group_filter_ensures;

    let kept = stored.filter(asked_about(claim_ref));
    let given = chronological(stored, claim_ref);
    if given.contains(entry) {
        let p = choose|p: int| 0 <= p < given.len() && given[p] == entry;
        let q = kept.len() - 1 - p;
        assert(kept[q] == entry);
        assert(kept.contains(kept[q]));
        stored.lemma_filter_contains_rev(asked_about(claim_ref), entry);
        assert(asked_about(claim_ref)(kept[q]));
    }
    if stored.contains(entry) && (claim_ref matches Some(asked) ==> entry.claim_ref.0 == asked.0) {
        let i = choose|i: int| 0 <= i < stored.len() && stored[i] == entry;
        assert(asked_about(claim_ref)(stored[i]));
        assert(kept.contains(entry));
        let q = choose|q: int| 0 <= q < kept.len() && kept[q] == entry;
        assert(given[kept.len() - 1 - q] == entry);
    }
}

/// An audit asks the store for entries from the time that the query names on, and for all where it
/// names none.
pub proof fn law_an_audit_asks_from_the_named_time(query: AuditQuery)
    ensures
        query.from_tx_time is None <==> asked_from(&query) is None,
        query.from_tx_time matches Some(time) ==> asked_from(&query) == Some(&time),
{
}

/// An audit turns the order of the store around: of two entries that were asked for, the one that
/// stands later in the store is given earlier.
pub proof fn law_an_audit_turns_the_order_around(
    stored: Seq<LedgerEntry>,
    claim_ref: Option<ClaimRef>,
    i: int,
    j: int,
)
    requires
        0 <= i < j < stored.len(),
        claim_ref matches Some(asked) ==> stored[i].claim_ref.0 == asked.0
            && stored[j].claim_ref.0 == asked.0,
    ensures
        exists|p: int, q: int|
            0 <= p < q < chronological(stored, claim_ref).len() && #[trigger] chronological(
                stored,
                claim_ref,
            )[p] == stored[j] && #[trigger] chronological(stored, claim_ref)[q] == stored[i],
{
    let asked = asked_about(claim_ref);
    assert(asked(stored[i]) && asked(stored[j]));
    let (a, b) = lemma_places_of(stored, asked, i, j);
    let kept = stored.filter(asked);
    let given = chronological(stored, claim_ref);
    assert(given[kept.len() - 1 - b] == stored[j]);
    assert(given[kept.len() - 1 - a] == stored[i]);
}

} // verus!
