//! The persistence port: append-only, and by agent first.
use vstd::prelude::*;

use crate::domain::claim::{AgentId, Claim};
use crate::domain::records::{ClaimEdge, LedgerEntry, ValidityAssertion};
use crate::ident::ClaimRef;
use crate::time::{Timestamp, TransactionTime};

verus! {

/// A record that was appended in a transaction.
pub enum Record {
    Claim(Claim),
    Assertion(ValidityAssertion),
    Entry(LedgerEntry),
    Edge(ClaimEdge),
}

/// A record that was handed to the store in a transaction, and whether the store accepted it.
pub struct Attempt {
    pub record: Record,
    pub accepted: bool,
}

/// The attempt to append a record.
pub open spec fn attempt(record: Record, accepted: bool) -> Attempt {
    Attempt { record, accepted }
}

/// A transaction of one agent. None spans two agents.
pub trait Txn: Send + 'static {
    /// The records that were appended in the transaction so far, the first one first. A type that
    /// does not say how it keeps them has some fixed reading of its values.
    open spec fn appended(&self) -> Seq<Record> {
        let reading: spec_fn(&Self) -> Seq<Record> = arbitrary();
        reading(self)
    }

    /// All appends that were tried in the transaction so far, the first one first. A type that does
    /// not say how it keeps them has some fixed reading of its values.
    open spec fn attempts(&self) -> Seq<Attempt> {
        let reading: spec_fn(&Self) -> Seq<Attempt> = arbitrary();
        reading(self)
    }

    fn agent_id(&self) -> &AgentId;
}

/// Whether claims were all written by an instant, where there is one.
pub open spec fn written_by(claims: Seq<Claim>, as_of: Option<Timestamp>) -> bool {
    as_of matches Some(t) ==> forall|i: int|
        0 <= i < claims.len() ==> (#[trigger] claims[i]).transaction_time().0.at() <= t.at()
}

/// Whether claims stand in the order in which they were written.
pub open spec fn in_order_of_writing(claims: Seq<Claim>) -> bool {
    forall|i: int, j: int|
        0 <= i <= j < claims.len() ==> (#[trigger] claims[i]).transaction_time().0.at() <= (
        #[trigger] claims[j]).transaction_time().0.at()
}

/// Whether claims are all on one subject line.
pub open spec fn on_line(
    claims: Seq<Claim>,
    agent_id: AgentId,
    subject: Seq<char>,
    predicate: Seq<char>,
) -> bool {
    forall|i: int|
        0 <= i < claims.len() ==> {
            &&& *(#[trigger] claims[i]).agent_id() == agent_id
            &&& claims[i].fact().subject@ == subject
            &&& claims[i].fact().predicate@ == predicate
        }
}

/// Whether ledger entries are all those of an agent.
pub open spec fn entries_of_agent(entries: Seq<LedgerEntry>, agent_id: AgentId) -> bool {
    forall|i: int| 0 <= i < entries.len() ==> (#[trigger] entries[i]).agent_id == agent_id
}

/// Whether ledger entries were all recorded by an instant, where there is one.
pub open spec fn recorded_by(entries: Seq<LedgerEntry>, as_of: Option<Timestamp>) -> bool {
    as_of matches Some(t) ==> forall|i: int|
        0 <= i < entries.len() ==> (#[trigger] entries[i]).recorded_at.0.at() <= t.at()
}

/// Whether ledger entries were all recorded from a time on, where there is one.
pub open spec fn recorded_from(entries: Seq<LedgerEntry>, from: Option<&TransactionTime>) -> bool {
    from matches Some(t) ==> forall|i: int|
        0 <= i < entries.len() ==> t.0.at() <= (#[trigger] entries[i]).recorded_at.0.at()
}

/// Whether the newest ledger entry stands first.
pub open spec fn newest_first(entries: Seq<LedgerEntry>) -> bool {
    forall|i: int, j: int|
        0 <= i <= j < entries.len() ==> (#[trigger] entries[i]).recorded_at.0.at() >= (
        #[trigger] entries[j]).recorded_at.0.at()
}

/// The persistence port. Writes append; nothing is ever changed or deleted.
pub trait PersistencePort: Send + Sync + 'static {
    type Transaction: Txn;

    type Error;

    /// Whether the error is one that the store reports where it does not accept this record. A
    /// store that says nothing may report any.
    open spec fn reports(&self, record: Record, error: Self::Error) -> bool {
        true
    }

    /// Opens a transaction of one agent.
    fn begin_atomic(&self, agent_id: &AgentId) -> (r: Result<Self::Transaction, Self::Error>);

    /// Appends a claim.
    fn append_claim(&self, txn: &mut Self::Transaction, claim: &Claim) -> (r: Result<
        ClaimRef,
        Self::Error,
    >)
        ensures
            final(txn).attempts() == old(txn).attempts().push(
                attempt(Record::Claim(*claim), r is Ok),
            ),
            r is Ok ==> final(txn).appended() == old(txn).appended().push(Record::Claim(*claim)),
            r matches Err(e) ==> self.reports(Record::Claim(*claim), e),
    ;

    /// Appends a validity assertion.
    fn append_validity_assertion(
        &self,
        txn: &mut Self::Transaction,
        assertion: &ValidityAssertion,
    ) -> (r: Result<(), Self::Error>)
        ensures
            final(txn).attempts() == old(txn).attempts().push(
                attempt(Record::Assertion(*assertion), r is Ok),
            ),
            r is Ok ==> final(txn).appended() == old(txn).appended().push(
                Record::Assertion(*assertion),
            ),
            r matches Err(e) ==> self.reports(Record::Assertion(*assertion), e),
    ;

    /// Appends a ledger entry.
    fn append_ledger_entry(&self, txn: &mut Self::Transaction, entry: &LedgerEntry) -> (r: Result<
        (),
        Self::Error,
    >)
        ensures
            final(txn).attempts() == old(txn).attempts().push(
                attempt(Record::Entry(*entry), r is Ok),
            ),
            r is Ok ==> final(txn).appended() == old(txn).appended().push(Record::Entry(*entry)),
            r matches Err(e) ==> self.reports(Record::Entry(*entry), e),
    ;

    /// Appends an edge.
    fn append_claim_edge(&self, txn: &mut Self::Transaction, edge: &ClaimEdge) -> (r: Result<
        (),
        Self::Error,
    >)
        ensures
            final(txn).attempts() == old(txn).attempts().push(
                attempt(Record::Edge(*edge), r is Ok),
            ),
            r is Ok ==> final(txn).appended() == old(txn).appended().push(Record::Edge(*edge)),
            r matches Err(e) ==> self.reports(Record::Edge(*edge), e),
    ;

    fn commit(&self, txn: Self::Transaction) -> Result<(), Self::Error>;

    fn rollback(&self, txn: Self::Transaction) -> Result<(), Self::Error>;

    /// The claims of a subject line, the first written first. With `as_of_tx_time`, only those
    /// that were written by then. The write path passes `None`: it has to see the current state.
    fn load_subject_line(
        &self,
        agent_id: &AgentId,
        subject: &str,
        predicate: &str,
        as_of_tx_time: Option<Timestamp>,
    ) -> (r: Result<Vec<Claim>, Self::Error>)
        ensures
            r matches Ok(claims) ==> {
                &&& on_line(claims@, *agent_id, subject@, predicate@)
                &&& in_order_of_writing(claims@)
                &&& written_by(claims@, as_of_tx_time)
            },
    ;

    fn load_claim(&self, agent_id: &AgentId, claim_ref: &ClaimRef) -> Result<
        Option<Claim>,
        Self::Error,
    >;

    fn load_validity_assertions_for(&self, agent_id: &AgentId, claim_ref: &ClaimRef) -> Result<
        Vec<ValidityAssertion>,
        Self::Error,
    >;

    /// The ledger of an agent, the newest entry first. With `from`, only the entries that were
    /// recorded from then on; and no more than `limit` of them.
    fn load_ledger(
        &self,
        agent_id: &AgentId,
        from: Option<&TransactionTime>,
        limit: usize,
    ) -> (r: Result<Vec<LedgerEntry>, Self::Error>)
        ensures
            r matches Ok(entries) ==> {
                &&& entries_of_agent(entries@, *agent_id)
                &&& newest_first(entries@)
                &&& recorded_from(entries@, from)
                &&& entries@.len() <= limit
            },
    ;

    /// All ledger entries about these claims, with no limit; none where there are no claims. With
    /// `as_of_tx_time`, only those that were recorded by then.
    fn load_ledger_for_claims(
        &self,
        agent_id: &AgentId,
        claim_refs: &[ClaimRef],
        as_of_tx_time: Option<Timestamp>,
    ) -> (r: Result<Vec<LedgerEntry>, Self::Error>)
        ensures
            r matches Ok(entries) ==> {
                &&& entries_of_agent(entries@, *agent_id)
                &&& recorded_by(entries@, as_of_tx_time)
                &&& forall|i: int|
                    0 <= i < entries@.len() ==> claim_refs@.contains(
                        (#[trigger] entries@[i]).claim_ref,
                    )
            },
            claim_refs@.len() == 0 ==> (r matches Ok(entries) && entries@.len() == 0),
    ;

    fn load_edges_for(&self, agent_id: &AgentId, claim_ref: &ClaimRef) -> Result<
        Vec<ClaimEdge>,
        Self::Error,
    >;

    /// The claims that were served to the agent in the current session.
    fn load_injected_claims(&self, agent_id: &AgentId) -> Result<Vec<ClaimRef>, Self::Error>;

    /// The whole ancestry of a claim.
    fn load_lineage(&self, agent_id: &AgentId, claim_ref: &ClaimRef) -> Result<
        Vec<ClaimEdge>,
        Self::Error,
    >;

    /// Whether the writes of all agents have to be serialized. A store that says nothing is taken
    /// to need it.
    fn requires_global_write_serialization(&self) -> (r: bool)
        default_ensures
            r,
    {
        true
    }
}

} // verus!
