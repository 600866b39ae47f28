//! Supersession: closes an incumbent claim and flags what depends on it.
//!
//! Supersession appends and changes nothing. The caller opens the transaction, and commits it or
//! rolls it back; all records of one supersession go into that one transaction.
use std::collections::HashSet;
use std::sync::Arc;

use vstd::prelude::*;
use vstd::std_specs::hash::*;

use crate::config::EngineConfig;
use crate::domain::belief::Marker;
use crate::domain::claim::{AgentId, Claim, Confidence, ExternalKind, ProvenanceLabel};
use crate::domain::records::{
    AssertionKind, ClaimEdge, Disposition, EdgeKind, LedgerEntry, LedgerEventKind,
    ValidityAssertion,
};
use crate::engine::fold_laws::{
    law_last_assertion_decides, law_later_assertions_leave_the_past_alone,
};
use crate::engine::gate::says;
use crate::engine::ordering::key_le;
use crate::engine::projection::{
    flags_review, law_markers_apply, projection_of, some_flagged, subjects,
};
use crate::engine::truth_engine::{assertion_key, status_of, FoldModel};
use crate::ident::{fresh_id, hyphenated, id_text, is_random_uuid, ClaimRef};
use crate::json::{json_object, json_text, member, member_values, Json, JsonValue};
use crate::ports::persistence::{attempt, Attempt, PersistencePort, Record, Txn};
use crate::score::Score;
use crate::time::{rfc3339_text, Timestamp, TransactionTime};

verus! {

broadcast use vstd::std_specs::hash::group_hash_axioms;

/// A belief that is to be overturned.
#[derive(Clone, Debug)]
pub struct SupersessionRequest {
    pub agent_id: AgentId,
    /// The claim that is closed.
    pub superseded_ref: ClaimRef,
    /// The claim that overturns it.
    pub overturning_ref: ClaimRef,
    /// The instant at which the closed claim's validity ends.
    pub bound_at: Timestamp,
    /// The transaction time of all records.
    pub recorded_at: TransactionTime,
}

/// The bit pattern of one.
pub const ONE_BITS: u64 = 0x3ff0_0000_0000_0000;

/// Whether an edge says that a claim depends on the superseded one.
pub open spec fn depends_on(edge: ClaimEdge, superseded: ClaimRef) -> bool {
    edge.kind == EdgeKind::DependsOn && edge.to_claim == superseded
}

/// The claims that depend directly on the superseded one, in the order of the edges, each once.
pub open spec fn dependents_of(edges: Seq<ClaimEdge>, superseded: ClaimRef) -> Seq<ClaimRef>
    decreases edges.len(),
{
    if edges.len() == 0 {
        Seq::empty()
    } else {
        let earlier = dependents_of(edges.drop_last(), superseded);
        let last = edges.last();
        if depends_on(last, superseded) && !earlier.contains(last.from_claim) {
            earlier.push(last.from_claim)
        } else {
            earlier
        }
    }
}

/// The claims that depend directly on the superseded one, in the order of the edges, each once.
pub fn dependents(edges: &[ClaimEdge], superseded: &ClaimRef) -> (r: Vec<ClaimRef>)
    ensures
        r@ == dependents_of(edges@, *superseded),
{
    let mut out: Vec<ClaimRef> = Vec::new();
    let mut seen: HashSet<u128> = HashSet::new();
    let mut i: usize = 0;
    assert(edges@.take(0) =~= Seq::<ClaimEdge>::empty());
    assert(out@ =~= dependents_of(edges@.take(0), *superseded));
    while i < edges.len()
        invariant
            i <= edges.len(),
            out@ == dependents_of(edges@.take(i as int), *superseded),
            forall|id: u128| #[trigger] seen@.contains(id) <==> out@.contains(ClaimRef(id)),
        decreases edges.len() - i,
    {
        assert(edges@.take(i + 1).drop_last() =~= edges@.take(i as int));
        let edge = &edges[i];
        let ghost before = out@;
        if edge.kind == EdgeKind::DependsOn && edge.to_claim == *superseded {
            let known = seen.contains(&edge.from_claim.0);
            assert(known == before.contains(ClaimRef(edge.from_claim.0)));
            if !known {
                seen.insert(edge.from_claim.0);
                out.push(edge.from_claim);
                assert forall|id: u128| #[trigger] seen@.contains(id) <==> out@.contains(
                    ClaimRef(id),
                ) by {
                    if before.contains(ClaimRef(id)) {
                        let k = choose|k: int| 0 <= k < before.len() && before[k] == ClaimRef(id);
                        assert(out@[k] == ClaimRef(id));
                    }
                    if id == edge.from_claim.0 {
                        assert(out@[out@.len() - 1] == ClaimRef(id));
                    }
                    if out@.contains(ClaimRef(id)) && id != edge.from_claim.0 {
                        let k = choose|k: int| 0 <= k < out@.len() && out@[k] == ClaimRef(id);
                        assert(before[k] == ClaimRef(id));
                    }
                }
            }
        }
        i += 1;
    }
    assert(edges@.take(i as int) =~= edges@);
    out
}

/// What the ledger says of a closed claim, from the text of the overturning claim's identifier and
/// that of the bound.
pub open spec fn supersession_reasons(overturning: Seq<char>, bound_at: Seq<char>) -> JsonValue {
    JsonValue::Object(
        seq![
            says("event"@, "supersession"@),
            says("overturning_claim"@, overturning),
            says("bound_at"@, bound_at),
        ],
    )
}

/// What the ledger says of a claim that depends on a closed one.
pub open spec fn cascade_reasons(superseded: Seq<char>, overturning: Seq<char>) -> JsonValue {
    JsonValue::Object(
        seq![
            says("event"@, "depends_on_cascade"@),
            says("superseded_parent"@, superseded),
            says("overturning_claim"@, overturning),
        ],
    )
}

fn three_reasons(event: &str, key: &str, text: &str, other_key: &str, other_text: &str) -> (r: Json)
    ensures
        r@ == JsonValue::Object(
            seq![says("event"@, event@), says(key@, text@), says(other_key@, other_text@)],
        ),
{
    let members = vec![
        member("event", json_text(event)),
        member(key, json_text(text)),
        member(other_key, json_text(other_text)),
    ];
    assert(member_values(members@) =~= seq![
        says("event"@, event@),
        says(key@, text@),
        says(other_key@, other_text@),
    ]);
    json_object(members)
}

/// What the ledger says of a closed claim.
pub fn supersession_rationale(overturning: &str, bound_at: &str) -> (r: Json)
    ensures
        r@ == supersession_reasons(overturning@, bound_at@),
{
    three_reasons("supersession", "overturning_claim", overturning, "bound_at", bound_at)
}

/// What the ledger says of a claim that depends on a closed one.
pub fn cascade_rationale(superseded: &str, overturning: &str) -> (r: Json)
    ensures
        r@ == cascade_reasons(superseded@, overturning@),
{
    three_reasons(
        "depends_on_cascade",
        "superseded_parent",
        superseded,
        "overturning_claim",
        overturning,
    )
}

/// Whether an assertion closes the claim as the request says.
pub open spec fn closes(
    assertion: ValidityAssertion,
    req: SupersessionRequest,
    assertion_ref: u128,
) -> bool {
    &&& assertion.assertion_ref == assertion_ref
    &&& assertion.agent_id == req.agent_id
    &&& assertion.target_claim == req.superseded_ref
    &&& assertion.kind == (AssertionKind::Bound {
        bound_at: req.bound_at,
        bound_at_granularity: None,
    })
    &&& assertion.provenance == ProvenanceLabel::External(ExternalKind::ExternalFirstHand)
    &&& assertion.confidence == (Confidence {
        value_confidence: Score { bits: ONE_BITS },
        valid_time_confidence: Score { bits: ONE_BITS },
    })
    &&& assertion.asserted_at == req.recorded_at
}

/// Whether a ledger entry has these parts.
pub open spec fn reports(
    entry: LedgerEntry,
    entry_id: u128,
    req: SupersessionRequest,
    claim_ref: ClaimRef,
    event_kind: LedgerEventKind,
    disposition: Disposition,
    reasons: JsonValue,
) -> bool {
    &&& entry.entry_id == entry_id
    &&& entry.agent_id == req.agent_id
    &&& entry.claim_ref == claim_ref
    &&& entry.event_kind == event_kind
    &&& entry.disposition == disposition
    &&& entry.rationale matches Some(rationale) && rationale@ == reasons
    &&& entry.recorded_at == req.recorded_at
}

/// Whether a ledger entry reports the supersession of the closed claim.
pub open spec fn reports_supersession(
    entry: LedgerEntry,
    req: SupersessionRequest,
    entry_id: u128,
) -> bool {
    reports(
        entry,
        entry_id,
        req,
        req.superseded_ref,
        LedgerEventKind::ValidityAsserted,
        Disposition::Superseded,
        supersession_reasons(
            hyphenated(req.overturning_ref.0),
            rfc3339_text(req.bound_at.secs(), req.bound_at.nanos()),
        ),
    )
}

/// Whether a ledger entry flags a claim that depends on the closed one.
pub open spec fn flags_dependent(
    entry: LedgerEntry,
    req: SupersessionRequest,
    dependent: ClaimRef,
    entry_id: u128,
) -> bool {
    reports(
        entry,
        entry_id,
        req,
        dependent,
        LedgerEventKind::DependentFlaggedPendingReview,
        Disposition::PendingReview,
        cascade_reasons(hyphenated(req.superseded_ref.0), hyphenated(req.overturning_ref.0)),
    )
}

/// The assertion that closes the claim.
pub fn closing_assertion(req: &SupersessionRequest, assertion_ref: u128) -> (r: ValidityAssertion)
    ensures
        closes(r, *req, assertion_ref),
{
    ValidityAssertion {
        assertion_ref,
        agent_id: req.agent_id.clone(),
        target_claim: req.superseded_ref,
        kind: AssertionKind::Bound { bound_at: req.bound_at, bound_at_granularity: None },
        provenance: ProvenanceLabel::External(ExternalKind::ExternalFirstHand),
        confidence: Confidence {
            value_confidence: Score { bits: ONE_BITS },
            valid_time_confidence: Score { bits: ONE_BITS },
        },
        asserted_at: req.recorded_at,
    }
}

/// The ledger entry about the closed claim.
pub fn supersession_entry(req: &SupersessionRequest, entry_id: u128) -> (r: LedgerEntry)
    ensures
        reports_supersession(r, *req, entry_id),
{
    LedgerEntry {
        entry_id,
        agent_id: req.agent_id.clone(),
        claim_ref: req.superseded_ref,
        event_kind: LedgerEventKind::ValidityAsserted,
        disposition: Disposition::Superseded,
        rationale: Some(
            Arc::new(
                supersession_rationale(
                    id_text(req.overturning_ref.0).as_str(),
                    req.bound_at.to_rfc3339().as_str(),
                ),
            ),
        ),
        recorded_at: req.recorded_at,
    }
}

/// The ledger entry that flags a claim that depends on the closed one.
pub fn cascade_entry(req: &SupersessionRequest, dependent: &ClaimRef, entry_id: u128) -> (r:
    LedgerEntry)
    ensures
        flags_dependent(r, *req, *dependent, entry_id),
{
    LedgerEntry {
        entry_id,
        agent_id: req.agent_id.clone(),
        claim_ref: *dependent,
        event_kind: LedgerEventKind::DependentFlaggedPendingReview,
        disposition: Disposition::PendingReview,
        rationale: Some(
            Arc::new(
                cascade_rationale(
                    id_text(req.superseded_ref.0).as_str(),
                    id_text(req.overturning_ref.0).as_str(),
                ),
            ),
        ),
        recorded_at: req.recorded_at,
    }
}

/// Whether a record is the one at this place among the records of a supersession: first the
/// assertion that closes the claim, then the entry about it, and then one entry for each dependent,
/// all with fresh identifiers.
pub open spec fn is_part(
    record: Record,
    place: int,
    req: SupersessionRequest,
    flagged: Seq<ClaimRef>,
) -> bool {
    if place == 0 {
        record matches Record::Assertion(a) && is_random_uuid(a.assertion_ref) && closes(
            a,
            req,
            a.assertion_ref,
        )
    } else if place == 1 {
        record matches Record::Entry(e) && is_random_uuid(e.entry_id) && reports_supersession(
            e,
            req,
            e.entry_id,
        )
    } else {
        record matches Record::Entry(e) && is_random_uuid(e.entry_id) && flags_dependent(
            e,
            req,
            flagged[place - 2],
            e.entry_id,
        )
    }
}

/// Whether these are the first records of a supersession.
pub open spec fn begins_supersession(
    records: Seq<Record>,
    req: SupersessionRequest,
    flagged: Seq<ClaimRef>,
) -> bool {
    &&& records.len() <= 2 + flagged.len()
    &&& forall|k: int| 0 <= k < records.len() ==> is_part(#[trigger] records[k], k, req, flagged)
}

/// Whether these are the records of a supersession, all of them.
pub open spec fn is_supersession(
    records: Seq<Record>,
    req: SupersessionRequest,
    flagged: Seq<ClaimRef>,
) -> bool {
    begins_supersession(records, req, flagged) && records.len() == 2 + flagged.len()
}

/// The records that were handed over.
pub open spec fn records_of(attempts: Seq<Attempt>) -> Seq<Record> {
    Seq::new(attempts.len(), |i: int| attempts[i].record)
}

/// Whether every record that was handed over was accepted.
pub open spec fn all_accepted(attempts: Seq<Attempt>) -> bool {
    forall|i: int| 0 <= i < attempts.len() ==> (#[trigger] attempts[i]).accepted
}

/// Whether the last record that was handed over is the only one that was not accepted.
pub open spec fn last_refused(attempts: Seq<Attempt>) -> bool {
    attempts.len() > 0 && all_accepted(attempts.drop_last()) && !attempts.last().accepted
}

/// Appends the records of a supersession to the open transaction: the assertion that closes the
/// claim, the entry about it, and one entry for each claim that depends on it directly. The edges
/// are those of the closed claim; they are loaded before the transaction is opened.
///
/// Returns how many claims were flagged. The first error of the store ends it and is returned:
/// nothing is handed over after the record that was not accepted. What was appended by then is for
/// the caller to roll back.
pub fn execute<P: PersistencePort>(
    port: &P,
    txn: &mut P::Transaction,
    req: &SupersessionRequest,
    preloaded_edges: &[ClaimEdge],
) -> (r: Result<usize, P::Error>)
    ensures
        ({
            let flagged = dependents_of(preloaded_edges@, req.superseded_ref);
            let before = old(txn).attempts();
            let made = final(txn).attempts().skip(before.len() as int);
            &&& before.len() < final(txn).attempts().len()
            &&& final(txn).attempts().take(before.len() as int) == before
            &&& match r {
                Ok(count) => {
                    &&& count == flagged.len()
                    &&& all_accepted(made)
                    &&& is_supersession(records_of(made), *req, flagged)
                    &&& final(txn).appended() == old(txn).appended() + records_of(made)
                },
                Err(e) => {
                    &&& last_refused(made)
                    &&& begins_supersession(records_of(made), *req, flagged)
                    &&& port.reports(made.last().record, e)
                },
            }
        }),
{
    let ghost flags = dependents_of(preloaded_edges@, req.superseded_ref);
    let ghost before = old(txn).attempts();
    let ghost start = old(txn).appended();
    let ghost mut made: Seq<Attempt> = Seq::empty();
    let assertion = closing_assertion(req, fresh_id());
    let outcome = port.append_validity_assertion(txn, &assertion);
    proof {
        let next = attempt(Record::Assertion(assertion), outcome is Ok);
        lemma_next_attempt(before, made, next, *req, flags);
        made = made.push(next);
    }
    if let Err(e) = outcome {
        return Err(e);
    }
    assert(txn.appended() =~= start + records_of(made));
    let entry = supersession_entry(req, fresh_id());
    let outcome = port.append_ledger_entry(txn, &entry);
    proof {
        let next = attempt(Record::Entry(entry), outcome is Ok);
        lemma_next_attempt(before, made, next, *req, flags);
        made = made.push(next);
    }
    if let Err(e) = outcome {
        return Err(e);
    }
    assert(txn.appended() =~= start + records_of(made));
    let flagged = dependents(preloaded_edges, &req.superseded_ref);
    let mut i: usize = 0;
    while i < flagged.len()
        invariant
            i <= flagged.len(),
            flagged@ == flags,
            flags == dependents_of(preloaded_edges@, req.superseded_ref),
            before == old(txn).attempts(),
            start == old(txn).appended(),
            made.len() == 2 + i,
            txn.attempts() == before + made,
            txn.attempts().take(before.len() as int) == before,
            txn.attempts().skip(before.len() as int) == made,
            all_accepted(made),
            begins_supersession(records_of(made), *req, flags),
            txn.appended() == start + records_of(made),
        decreases flagged.len() - i,
    {
        let flag = cascade_entry(req, &flagged[i], fresh_id());
        let ghost earlier = made;
        let outcome = port.append_ledger_entry(txn, &flag);
        proof {
            let next = attempt(Record::Entry(flag), outcome is Ok);
            lemma_next_attempt(before, earlier, next, *req, flags);
            made = earlier.push(next);
        }
        if let Err(e) = outcome {
            return Err(e);
        }
        assert(txn.appended() =~= start + records_of(made));
        i += 1;
    }
    Ok(flagged.len())
}

/// One attempt more, with the record that comes next.
proof fn lemma_next_attempt(
    before: Seq<Attempt>,
    made: Seq<Attempt>,
    next: Attempt,
    req: SupersessionRequest,
    flagged: Seq<ClaimRef>,
)
    requires
        all_accepted(made),
        begins_supersession(records_of(made), req, flagged),
        made.len() < 2 + flagged.len(),
        is_part(next.record, made.len() as int, req, flagged),
    ensures
        ({
            let now = made.push(next);
            &&& (before + made).push(next) == before + now
            &&& (before + now).take(before.len() as int) == before
            &&& (before + now).skip(before.len() as int) == now
            &&& now.last() == next
            &&& records_of(now) == records_of(made).push(next.record)
            &&& begins_supersession(records_of(now), req, flagged)
            &&& next.accepted ==> all_accepted(now)
            &&& !next.accepted ==> last_refused(now)
        }),
{
    let now = made.push(next);
    assert((before + made).push(next) =~= before + now);
    assert((before + now).take(before.len() as int) =~= before);
    assert((before + now).skip(before.len() as int) =~= now);
    assert(records_of(now) =~= records_of(made).push(next.record));
    assert(now.drop_last() =~= made);
    assert forall|k: int| 0 <= k < records_of(now).len() implies is_part(
        #[trigger] records_of(now)[k],
        k,
        req,
        flagged,
    ) by {
        if k < made.len() {
            assert(records_of(now)[k] == records_of(made)[k]);
        }
    }
}

/// A claim is flagged exactly if an edge says that it depends on the superseded one. Other kinds of
/// edges, edges to other claims, and edges from the superseded claim flag nothing.
pub proof fn law_direct_dependents_are_flagged(
    edges: Seq<ClaimEdge>,
    superseded: ClaimRef,
    claim: ClaimRef,
)
    ensures
        dependents_of(edges, superseded).contains(claim) <==> exists|i: int|
            0 <= i < edges.len() && depends_on(#[trigger] edges[i], superseded)
                && edges[i].from_claim == claim,
    decreases edges.len(),
{
    if edges.len() > 0 {
        let front = edges.drop_last();
        let last = edges.last();
        law_direct_dependents_are_flagged(front, superseded, claim);
        let earlier = dependents_of(front, superseded);
        let now = dependents_of(edges, superseded);
        if earlier.contains(claim) {
            let k = choose|k: int| 0 <= k < earlier.len() && earlier[k] == claim;
            assert(now[k] == claim);
            let i = choose|i: int|
                0 <= i < front.len() && depends_on(#[trigger] front[i], superseded)
                    && front[i].from_claim == claim;
            assert(edges[i] == front[i]);
        }
        if depends_on(last, superseded) && last.from_claim == claim {
            assert(edges[edges.len() - 1] == last);
            if !earlier.contains(claim) {
                assert(now[now.len() - 1] == claim);
            }
        }
        if now.contains(claim) && !earlier.contains(claim) {
            let k = choose|k: int| 0 <= k < now.len() && now[k] == claim;
            assert(k == now.len() - 1);
            assert(depends_on(edges[edges.len() - 1], superseded));
        }
        if (exists|i: int|
            0 <= i < edges.len() && depends_on(#[trigger] edges[i], superseded)
                && edges[i].from_claim == claim) && !earlier.contains(claim) {
            let i = choose|i: int|
                0 <= i < edges.len() && depends_on(#[trigger] edges[i], superseded)
                    && edges[i].from_claim == claim;
            if i < front.len() {
                assert(front[i] == edges[i]);
            }
        }
    }
}

/// Each dependent is flagged once, however many edges there are.
pub proof fn law_dependents_are_flagged_once(edges: Seq<ClaimEdge>, superseded: ClaimRef)
    ensures
        dependents_of(edges, superseded).no_duplicates(),
    decreases edges.len(),
{
    if edges.len() > 0 {
        law_dependents_are_flagged_once(edges.drop_last(), superseded);
    }
}

/// A superseded claim is closed from then on: once the assertion is visible and its instant has
/// come, the claim is bounded there and not live, unless something is asserted after it. Before
/// that nothing has changed.
pub proof fn law_superseded_claim_is_closed(
    claim: Claim,
    assertions: Seq<ValidityAssertion>,
    closing: ValidityAssertion,
    req: SupersessionRequest,
    as_of: Timestamp,
    dispositions: Map<u128, Disposition>,
)
    requires
        closes(closing, req, closing.assertion_ref),
        forall|i: int|
            0 <= i < assertions.len() ==> key_le(
                assertion_key(#[trigger] assertions[i]),
                assertion_key(closing),
            ),
    ensures
        ({
            let before = status_of(claim, assertions, as_of, dispositions);
            let after = status_of(claim, assertions.push(closing), as_of, dispositions);
            &&& req.recorded_at.0.at() <= as_of.at() && req.bound_at.at() <= as_of.at()
                ==> !after.is_live && after.bound_at == Some(req.bound_at)
            &&& req.recorded_at.0.at() > as_of.at() ==> after == before
        }),
{
    if req.recorded_at.0.at() > as_of.at() {
        law_later_assertions_leave_the_past_alone(claim, assertions, closing, as_of, dispositions);
    } else if req.bound_at.at() <= as_of.at() {
        law_last_assertion_decides(assertions, closing, as_of);
    }
}

/// What depends on a superseded claim is shown for review: where the ledger holds the entry that
/// flags a live claim, the answer is marked.
pub proof fn law_flagged_dependents_are_shown(
    fold: FoldModel,
    ledger: Seq<LedgerEntry>,
    now: Timestamp,
    config: EngineConfig,
    contested: bool,
    req: SupersessionRequest,
    flag: LedgerEntry,
    i: int,
)
    requires
        0 <= i < fold.live.len(),
        ledger.contains(flag),
        flags_dependent(flag, req, *fold.live[i].claim.claim_ref(), flag.entry_id),
    ensures
        projection_of(fold, ledger, now, config, contested).markers.contains(Marker::PendingReview),
{
    broadcast use vstd::seq_lib::group_filter_ensures;

    let kept = ledger.filter(flags_review());
    let flagged = subjects(kept);
    let k = choose|k: int| 0 <= k < ledger.len() && ledger[k] == flag;
    assert(flags_review()(ledger[k]));
    assert(kept.contains(flag));
    let m = choose|m: int| 0 <= m < kept.len() && kept[m] == flag;
    assert(flagged[m] == *fold.live[i].claim.claim_ref());
    assert(some_flagged(fold.live, flagged));
    law_markers_apply(fold, flagged, contested, config);
}

} // verus!
