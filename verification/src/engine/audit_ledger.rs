//! Audit reads: the ledger in the order in which it was written.
use vstd::prelude::*;

use crate::domain::claim::AgentId;
use crate::domain::records::{ClaimEdge, LedgerEntry};
use crate::ident::ClaimRef;
use crate::ports::persistence::{
    entries_of_agent, newest_first, recorded_from, PersistencePort,
};
use crate::sequences::{lemma_filter_next, lemma_filter_none};
use crate::time::TransactionTime;

verus! {

/// What is asked of the ledger.
#[derive(Clone, Debug)]
pub struct AuditQuery {
    pub agent_id: AgentId,
    /// With a claim, only the entries about it.
    pub claim_ref: Option<ClaimRef>,
    /// With a time, only the entries that were recorded from then on.
    pub from_tx_time: Option<TransactionTime>,
    /// How many entries the store returns at most.
    pub limit: usize,
}

/// The ledger entries that answer a query.
#[derive(Clone, Debug)]
pub struct AuditResult {
    /// The entries, the first written first.
    pub entries: Vec<LedgerEntry>,
}

/// Whether an entry is about what was asked for.
pub open spec fn asked_about(claim_ref: Option<ClaimRef>) -> spec_fn(LedgerEntry) -> bool {
    |entry: LedgerEntry| claim_ref is None || entry.claim_ref == claim_ref->0
}

/// The entries that were asked for, of those that the store returned newest first, in the order
/// in which they were written.
pub open spec fn chronological(stored: Seq<LedgerEntry>, claim_ref: Option<ClaimRef>) -> Seq<
    LedgerEntry,
> {
    stored.filter(asked_about(claim_ref)).reverse()
}

/// Whether the oldest ledger entry stands first.
pub open spec fn oldest_first(entries: Seq<LedgerEntry>) -> bool {
    forall|i: int, j: int|
        0 <= i <= j < entries.len() ==> (#[trigger] entries[i]).recorded_at.0.at() <= (
        #[trigger] entries[j]).recorded_at.0.at()
}

/// The earliest time that is asked for.
pub open spec fn asked_from<'a>(query: &'a AuditQuery) -> Option<&'a TransactionTime> {
    match &query.from_tx_time {
        Some(time) => Some(time),
        None => None,
    }
}

/// The entries that were asked for, of those that the store returned newest first, in the order
/// in which they were written.
pub fn in_writing_order(stored: Vec<LedgerEntry>, claim_ref: Option<ClaimRef>) -> (r: Vec<
    LedgerEntry,
>)
    ensures
        r@ == chronological(stored@, claim_ref),
{
    let ghost asked = asked_about(claim_ref);
    let ghost all = stored@;
    let mut rest = stored;
    let mut out: Vec<LedgerEntry> = Vec::new();
    proof {
        lemma_filter_none(all, asked);
    }
    while rest.len() > 0
        invariant
            asked == asked_about(claim_ref),
            rest@.len() <= all.len(),
            rest@ == all.take(rest@.len() as int),
            all.filter(asked) == rest@.filter(asked) + out@.reverse(),
        decreases rest.len(),
    {
        let ghost before = out@;
        let ghost kept = rest@;
        proof {
            lemma_filter_next(all, kept.len() - 1, asked);
            assert(all.take(kept.len() - 1) =~= kept.drop_last());
        }
        let last = rest.pop();
        if let Some(entry) = last {
            let wanted = match claim_ref {
                Some(claim_ref) => entry.claim_ref == claim_ref,
                None => true,
            };
            if wanted {
                out.push(entry);
                assert(out@.reverse() =~= seq![entry] + before.reverse());
                assert(kept.filter(asked) =~= rest@.filter(asked).push(entry));
                assert(kept.filter(asked) + before.reverse() =~= rest@.filter(asked)
                    + out@.reverse());
            }
        }
    }
    proof {
        lemma_filter_none(all, asked);
        assert(rest@ =~= all.take(0));
        assert(all.filter(asked) =~= out@.reverse());
        assert(out@ =~= all.filter(asked).reverse());
    }
    out
}

/// The ledger of an agent, or the entries about one claim, the first recorded first. The store
/// returns them newest first. Nothing is written.
pub fn query_ledger<P: PersistencePort>(port: &P, query: &AuditQuery) -> (r: Result<
    AuditResult,
    P::Error,
>)
    ensures
        r matches Ok(result) ==> exists|stored: Vec<LedgerEntry>|
            {
                &&& call_ensures(
                    P::load_ledger,
                    (port, &query.agent_id, asked_from(query), query.limit),
                    Ok(stored),
                )
                &&& result.entries@ == #[trigger] chronological(stored@, query.claim_ref)
            },
        r matches Ok(result) ==> {
            &&& oldest_first(result.entries@)
            &&& entries_of_agent(result.entries@, query.agent_id)
            &&& recorded_from(result.entries@, asked_from(query))
            &&& result.entries@.len() <= query.limit
            &&& forall|i: int|
                0 <= i < result.entries@.len() ==> asked_about(query.claim_ref)(
                    #[trigger] result.entries@[i],
                )
        },
        r matches Err(e) ==> call_ensures(
            P::load_ledger,
            (port, &query.agent_id, asked_from(query), query.limit),
            Err(e),
        ),
{
    let from: Option<&TransactionTime> = match &query.from_tx_time {
        Some(time) => Some(time),
        None => None,
    };
    match port.load_ledger(&query.agent_id, from, query.limit) {
        Ok(loaded) => {
            let ghost stored = loaded@;
            let entries = in_writing_order(loaded, query.claim_ref);
            proof {
                law_audit_is_chronological(stored, query.claim_ref);
                law_audit_is_a_part(stored, query.claim_ref);
            }
            Ok(AuditResult { entries })
        },
        Err(e) => Err(e),
    }
}

/// The whole ancestry of a claim, as the store has it.
pub fn query_lineage<P: PersistencePort>(
    port: &P,
    agent_id: &AgentId,
    claim_ref: &ClaimRef,
) -> (r: Result<Vec<ClaimEdge>, P::Error>)
    ensures
        call_ensures(P::load_lineage, (port, agent_id, claim_ref), r),
{
    port.load_lineage(agent_id, claim_ref)
}

/// An entry is among the answers exactly if the store returned it and it was asked for.
pub proof fn law_audit_drops_only_what_was_not_asked_for(
    stored: Seq<LedgerEntry>,
    claim_ref: Option<ClaimRef>,
    entry: LedgerEntry,
)
    ensures
        chronological(stored, claim_ref).contains(entry) <==> stored.contains(entry) && (
        claim_ref is None || entry.claim_ref == claim_ref->0),
{
    broadcast use vstd::seq_lib::group_filter_ensures;

    let asked = asked_about(claim_ref);
    let kept = stored.filter(asked);
    let r = kept.reverse();
    if r.contains(entry) {
        let i = choose|i: int| 0 <= i < r.len() && r[i] == entry;
        assert(kept[kept.len() - 1 - i] == entry);
        assert(kept.contains(entry));
        stored.lemma_filter_contains_rev(asked, entry);
    }
    if stored.contains(entry) && asked(entry) {
        let i = choose|i: int| 0 <= i < stored.len() && stored[i] == entry;
        assert(kept.contains(stored[i]));
        let j = choose|j: int| 0 <= j < kept.len() && kept[j] == entry;
        assert(r[kept.len() - 1 - j] == entry);
    }
}

/// Where the store returns the newest entry first, the answer has the oldest first.
pub proof fn law_audit_is_chronological(stored: Seq<LedgerEntry>, claim_ref: Option<ClaimRef>)
    requires
        newest_first(stored),
    ensures
        oldest_first(chronological(stored, claim_ref)),
{
    let kept = stored.filter(asked_about(claim_ref));
    let answer = chronological(stored, claim_ref);
    lemma_filter_keeps_descent(stored, asked_about(claim_ref));
    assert forall|i: int, j: int| 0 <= i <= j < answer.len() implies (
    #[trigger] answer[i]).recorded_at.0.at() <= (#[trigger] answer[j]).recorded_at.0.at() by {
        assert(kept[kept.len() - 1 - j].recorded_at.0.at() >= kept[kept.len() - 1
            - i].recorded_at.0.at());
    }
}

/// The answer holds no more entries than the store returned, and each of them is one of those and
/// was asked for.
pub proof fn law_audit_is_a_part(stored: Seq<LedgerEntry>, claim_ref: Option<ClaimRef>)
    ensures
        chronological(stored, claim_ref).len() <= stored.len(),
        forall|i: int|
            0 <= i < chronological(stored, claim_ref).len() ==> {
                &&& stored.contains(#[trigger] chronological(stored, claim_ref)[i])
                &&& asked_about(claim_ref)(chronological(stored, claim_ref)[i])
            },
{
    broadcast use vstd::seq_lib::group_filter_ensures;

    let answer = chronological(stored, claim_ref);
    assert forall|i: int| 0 <= i < answer.len() implies stored.contains(#[trigger] answer[i])
        && asked_about(claim_ref)(answer[i]) by {
        assert(answer.contains(answer[i]));
        law_audit_drops_only_what_was_not_asked_for(stored, claim_ref, answer[i]);
    }
}

proof fn lemma_filter_keeps_descent(s: Seq<LedgerEntry>, pred: spec_fn(LedgerEntry) -> bool)
    requires
        newest_first(s),
    ensures
        newest_first(s.filter(pred)),
    decreases s.len(),
{
    broadcast use vstd::seq_lib::group_filter_ensures;

    reveal(Seq::filter);
    if s.len() > 0 {
        let front = s.drop_last();
        assert forall|a: int, b: int| 0 <= a <= b < front.len() implies (
        #[trigger] front[a]).recorded_at.0.at() >= (#[trigger] front[b]).recorded_at.0.at() by {
            assert(front[a] == s[a] && front[b] == s[b]);
        }
        lemma_filter_keeps_descent(front, pred);
        let kept = front.filter(pred);
        assert forall|a: int| 0 <= a < kept.len() implies (#[trigger] kept[a]).recorded_at.0.at()
            >= s.last().recorded_at.0.at() by {
            assert(kept.contains(kept[a]));
            front.lemma_filter_contains_rev(pred, kept[a]);
            let k = choose|k: int| 0 <= k < front.len() && front[k] == kept[a];
            assert(s[k].recorded_at.0.at() >= s[s.len() - 1].recorded_at.0.at());
        }
    }
}

} // verus!
