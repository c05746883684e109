use vstd::prelude::*;

verus! {

/// The five kinds of transaction.
#[derive(Debug, Clone, Copy, PartialEq, Eq, Structural)]
pub enum TransactionKind {
    Deposit,
    Withdrawal,
    Dispute,
    Resolve,
    Chargeback,
}

/// What a transaction does: its kind and, for a deposit or withdrawal, its amount
/// in ten-thousandths. A dispute, resolve or chargeback ignores `amount`.
#[derive(Debug, Clone, Copy, PartialEq, Eq, Structural)]
pub struct TransactionData {
    pub kind: TransactionKind,
    pub amount: u64,
}

/// One input record: the account it is for, its id and what it does.
#[derive(Debug, Clone, Copy, PartialEq, Eq, Structural)]
pub struct Transaction {
    pub client_id: u16,
    pub id: u32,
    pub transaction_data: TransactionData,
}

impl Transaction {
    pub fn new(client_id: u16, id: u32, transaction_data: TransactionData) -> (r: Self)
        ensures
            r.client_id == client_id,
            r.id == id,
            r.transaction_data == transaction_data,
    {
        Transaction { client_id, id, transaction_data }
    }

    /// A copy of what the transaction does.
    pub fn get_data(&self) -> (r: TransactionData)
        ensures
            r == self.transaction_data,
    {
        self.transaction_data
    }
}

/// The deposits and withdrawals of one account, by transaction id.
#[verifier::external_body]
pub struct Transactions {
    map: hashbrown::HashMap<u32, TransactionData>,
}

/// The entries of a `Transactions` map.
pub uninterp spec fn recorded_transactions(t: Transactions) -> Map<u32, TransactionData>;

impl Transactions {
    /// Relies on `hashbrown::HashMap::new`: the map starts empty.
    #[verifier::external_body]
    pub(crate) fn new() -> (r: Transactions)
        ensures
            recorded_transactions(r).dom() == Set::<u32>::empty(),
    {
        Transactions { map: hashbrown::HashMap::new() }
    }

    /// Relies on `hashbrown::HashMap::insert`: `id` maps to `data` afterwards,
    /// every other entry stays.
    #[verifier::external_body]
    pub(crate) fn insert(&mut self, id: u32, data: TransactionData)
        ensures
            recorded_transactions(*final(self)) == recorded_transactions(*old(self)).insert(id, data),
    {
        self.map.insert(id, data);
    }

    /// Relies on `hashbrown::HashMap::get`: the entry under `id`, if any.
    #[verifier::external_body]
    pub(crate) fn get(&self, id: u32) -> (r: Option<TransactionData>)
        ensures
            r == (if recorded_transactions(*self).contains_key(id) {
                Some(recorded_transactions(*self)[id])
            } else {
                None
            }),
    {
        self.map.get(&id).copied()
    }
}

} // verus!
