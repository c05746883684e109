use vstd::prelude::*;

use crate::balance::Balance;
use crate::disputes::{empty_set, set_contains, set_insert, set_remove, set_u32_members};
use crate::error::TxError;
use crate::format::{bool_text, decimal, fixed4, format_amount, format_bool, format_decimal};
use crate::transaction::{recorded_transactions, TransactionData, TransactionKind, Transactions};

verus! {

/// The abstract state of one account.
pub struct ClientModel {
    pub balance: Balance,
    /// Deposits and withdrawals accepted so far, by transaction id.
    pub ledger: Map<u32, TransactionData>,
    /// Ids of the transactions under dispute.
    pub disputed: Set<u32>,
    /// The id of the last deposit or withdrawal accepted, if there was one.
    pub last_tx_id: Option<u32>,
    pub locked: bool,
}

impl ClientModel {
    /// An account that has accepted nothing yet.
    pub open spec fn empty() -> ClientModel {
        ClientModel {
            balance: Balance { available: 0, held: 0 },
            ledger: Map::empty(),
            disputed: Set::empty(),
            last_tx_id: None,
            locked: false,
        }
    }

    /// The total of the balance fits in a `u64`.
    pub open spec fn wf(self) -> bool {
        self.balance.total_amount() <= u64::MAX
    }

    /// A new deposit or withdrawal may carry `tx_id`.
    pub open spec fn is_newer(self, tx_id: u32) -> bool {
        match self.last_tx_id {
            Some(p) => p < tx_id,
            None => true,
        }
    }

    /// The id that a deposit or withdrawal must exceed (0 if there is none).
    pub open spec fn previous_id(self) -> u32 {
        match self.last_tx_id {
            Some(p) => p,
            None => 0,
        }
    }
}

/// The outcome of applying one transaction to an account: the account
/// afterwards, or why the transaction is refused (the account then stays as it was).
///
/// A resolve or chargeback whose disputed amount exceeds the held funds cannot
/// arise from accepted transactions alone; should it come, it is refused as
/// `InsufficientFunds` (with the held funds) rather than passed over in silence,
/// and the transaction stays under dispute.
pub open spec fn apply_spec(m: ClientModel, tx_id: u32, data: TransactionData) -> Result<ClientModel, TxError> {
    let bal = m.balance;
    if m.locked {
        Err(TxError::LockedAccount { tx_id })
    } else {
        match data.kind {
            TransactionKind::Deposit => {
                if !m.is_newer(tx_id) {
                    Err(TxError::OutOfOrderId { tx_id, previous_tx_id: m.previous_id() })
                } else if bal.total_amount() + data.amount > u64::MAX {
                    Err(TxError::BalanceOverflow { tx_id })
                } else {
                    Ok(ClientModel {
                        balance: Balance { available: (bal.available + data.amount) as u64, held: bal.held },
                        ledger: m.ledger.insert(tx_id, data),
                        last_tx_id: Some(tx_id),
                        ..m
                    })
                }
            },
            TransactionKind::Withdrawal => {
                if !m.is_newer(tx_id) {
                    Err(TxError::OutOfOrderId { tx_id, previous_tx_id: m.previous_id() })
                } else if bal.available < data.amount {
                    Err(TxError::InsufficientFunds { tx_id, funds: bal.available, requested: data.amount })
                } else {
                    Ok(ClientModel {
                        balance: Balance { available: (bal.available - data.amount) as u64, held: bal.held },
                        ledger: m.ledger.insert(tx_id, data),
                        last_tx_id: Some(tx_id),
                        ..m
                    })
                }
            },
            TransactionKind::Dispute => {
                if m.disputed.contains(tx_id) {
                    Err(TxError::AlreadyDisputed { tx_id })
                } else if !m.ledger.contains_key(tx_id) {
                    Err(TxError::UnknownTransaction { tx_id })
                } else if bal.available < m.ledger[tx_id].amount {
                    Err(TxError::InsufficientFunds { tx_id, funds: bal.available, requested: m.ledger[tx_id].amount })
                } else {
                    let amt = m.ledger[tx_id].amount;
                    Ok(ClientModel {
                        balance: Balance { available: (bal.available - amt) as u64, held: (bal.held + amt) as u64 },
                        disputed: m.disputed.insert(tx_id),
                        ..m
                    })
                }
            },
            TransactionKind::Resolve => {
                if !m.disputed.contains(tx_id) {
                    Err(TxError::NotDisputed { tx_id })
                } else if !m.ledger.contains_key(tx_id) {
                    Err(TxError::UnknownTransaction { tx_id })
                } else if bal.held < m.ledger[tx_id].amount {
                    Err(TxError::InsufficientFunds { tx_id, funds: bal.held, requested: m.ledger[tx_id].amount })
                } else {
                    let amt = m.ledger[tx_id].amount;
                    Ok(ClientModel {
                        balance: Balance { available: (bal.available + amt) as u64, held: (bal.held - amt) as u64 },
                        disputed: m.disputed.remove(tx_id),
                        ..m
                    })
                }
            },
            TransactionKind::Chargeback => {
                if !m.disputed.contains(tx_id) {
                    Err(TxError::NotDisputed { tx_id })
                } else if !m.ledger.contains_key(tx_id) {
                    Err(TxError::UnknownTransaction { tx_id })
                } else if bal.held < m.ledger[tx_id].amount {
                    Err(TxError::InsufficientFunds { tx_id, funds: bal.held, requested: m.ledger[tx_id].amount })
                } else {
                    let amt = m.ledger[tx_id].amount;
                    Ok(ClientModel {
                        balance: Balance { available: bal.available, held: (bal.held - amt) as u64 },
                        disputed: m.disputed.remove(tx_id),
                        locked: true,
                        ..m
                    })
                }
            },
        }
    }
}

/// The account after a transaction: the new state if it is accepted, else the old one.
pub open spec fn after_apply(m: ClientModel, tx_id: u32, data: TransactionData) -> ClientModel {
    match apply_spec(m, tx_id, data) {
        Ok(n) => n,
        Err(_) => m,
    }
}

/// One account: its balance, its deposits and withdrawals, the ones under
/// dispute, the last id accepted and whether it is locked.
pub struct Client {
    balance: Balance,
    transactions: Transactions,
    disputed_transactions: tinyset::SetU32,
    previous_tx_id: Option<u32>,
    locked: bool,
}

impl View for Client {
    type V = ClientModel;

    closed spec fn view(&self) -> ClientModel {
        ClientModel {
            balance: self.balance,
            ledger: recorded_transactions(self.transactions),
            disputed: set_u32_members(self.disputed_transactions),
            last_tx_id: self.previous_tx_id,
            locked: self.locked,
        }
    }
}

impl Client {
    /// An account that has accepted nothing yet.
    pub fn empty() -> (r: Client)
        ensures
            r@ == ClientModel::empty(),
            r@.wf(),
    {
        let transactions = Transactions::new();
        proof {
            assert(recorded_transactions(transactions) =~= Map::<u32, TransactionData>::empty());
        }
        Client {
            balance: Balance::new(0),
            transactions,
            disputed_transactions: empty_set(),
            previous_tx_id: None,
            locked: false,
        }
    }

    /// A new account whose first transaction is `tx_data`. Where that
    /// transaction is refused, the account is still created, empty.
    pub fn new(tx_id: u32, tx_data: TransactionData) -> (r: Client)
        ensures
            r@ == after_apply(ClientModel::empty(), tx_id, tx_data),
            r@.wf(),
    {
        let mut client = Client::empty();
        let _ = client.process_tx(tx_id, tx_data);
        client
    }

    /// Records a deposit or withdrawal and makes its id the last one.
    fn record_tx(&mut self, tx_id: u32, tx_data: TransactionData)
        ensures
            final(self)@ == (ClientModel {
                ledger: old(self)@.ledger.insert(tx_id, tx_data),
                last_tx_id: Some(tx_id),
                ..old(self)@
            }),
    {
        self.transactions.insert(tx_id, tx_data);
        self.previous_tx_id = Some(tx_id);
    }

    /// The recorded deposit or withdrawal with id `tx_id`.
    fn get_tx(&self, tx_id: u32) -> (r: Result<TransactionData, TxError>)
        ensures
            r == (if self@.ledger.contains_key(tx_id) {
                Ok(self@.ledger[tx_id])
            } else {
                Err(TxError::UnknownTransaction { tx_id })
            }),
    {
        match self.transactions.get(tx_id) {
            Some(tx) => Ok(tx),
            None => Err(TxError::UnknownTransaction { tx_id }),
        }
    }

    /// Checks that a new deposit or withdrawal has an id above the last one.
    fn check_tx_id(&self, tx_id: u32) -> (r: Result<(), TxError>)
        ensures
            r == (if self@.is_newer(tx_id) {
                Ok(())
            } else {
                Err(TxError::OutOfOrderId { tx_id, previous_tx_id: self@.previous_id() })
            }),
    {
        match self.previous_tx_id {
            None => Ok(()),
            Some(previous_tx_id) => {
                if previous_tx_id < tx_id {
                    Ok(())
                } else {
                    Err(TxError::OutOfOrderId { tx_id, previous_tx_id })
                }
            },
        }
    }

    /// Checks that the available funds cover `tx_amount`.
    fn amount_is_available(&self, tx_id: u32, tx_amount: u64) -> (r: Result<(), TxError>)
        ensures
            r == (if self@.balance.available >= tx_amount {
                Ok(())
            } else {
                Err(TxError::InsufficientFunds { tx_id, funds: self@.balance.available, requested: tx_amount })
            }),
    {
        if self.balance.available >= tx_amount {
            Ok(())
        } else {
            Err(TxError::InsufficientFunds { tx_id, funds: self.balance.available, requested: tx_amount })
        }
    }

    /// Checks that `tx_id` is under dispute exactly when `expected` says so.
    fn transaction_is_disputed(&self, tx_id: u32, expected: bool) -> (r: Result<(), TxError>)
        ensures
            r == (if self@.disputed.contains(tx_id) == expected {
                Ok(())
            } else if expected {
                Err(TxError::NotDisputed { tx_id })
            } else {
                Err(TxError::AlreadyDisputed { tx_id })
            }),
    {
        if set_contains(&self.disputed_transactions, tx_id) != expected {
            if expected {
                Err(TxError::NotDisputed { tx_id })
            } else {
                Err(TxError::AlreadyDisputed { tx_id })
            }
        } else {
            Ok(())
        }
    }

    /// Checks that the account is not locked.
    fn account_is_locked(&self, tx_id: u32) -> (r: Result<(), TxError>)
        ensures
            r == (if self@.locked {
                Err(TxError::LockedAccount { tx_id })
            } else {
                Ok(())
            }),
    {
        if self.locked {
            Err(TxError::LockedAccount { tx_id })
        } else {
            Ok(())
        }
    }

    /// Applies one transaction. On success the account becomes what
    /// `apply_spec` gives; on refusal it is left exactly as it was.
    pub fn process_tx(&mut self, tx_id: u32, tx_data: TransactionData) -> (r: Result<(), TxError>)
        requires
            old(self)@.wf(),
        ensures
            final(self)@.wf(),
            match apply_spec(old(self)@, tx_id, tx_data) {
                Ok(m) => r == Ok::<(), TxError>(()) && final(self)@ == m,
                Err(e) => r == Err::<(), TxError>(e) && final(self)@ == old(self)@,
            },
    {
        if let Err(e) = self.account_is_locked(tx_id) {
            return Err(e);
        }
        match tx_data.kind {
            TransactionKind::Deposit => {
                if let Err(e) = self.check_tx_id(tx_id) {
                    return Err(e);
                }
                if tx_data.amount > u64::MAX - self.balance.available - self.balance.held {
                    return Err(TxError::BalanceOverflow { tx_id });
                }
                self.balance.available = self.balance.available + tx_data.amount;
                self.record_tx(tx_id, tx_data);
            },
            TransactionKind::Withdrawal => {
                if let Err(e) = self.check_tx_id(tx_id) {
                    return Err(e);
                }
                if let Err(e) = self.amount_is_available(tx_id, tx_data.amount) {
                    return Err(e);
                }
                self.balance.available = self.balance.available - tx_data.amount;
                self.record_tx(tx_id, tx_data);
            },
            TransactionKind::Dispute => {
                if let Err(e) = self.transaction_is_disputed(tx_id, false) {
                    return Err(e);
                }
                let disputed = match self.get_tx(tx_id) {
                    Ok(tx) => tx.amount,
                    Err(e) => {
                        return Err(e);
                    },
                };
                if let Err(e) = self.amount_is_available(tx_id, disputed) {
                    return Err(e);
                }
                self.balance.available = self.balance.available - disputed;
                self.balance.held = self.balance.held + disputed;
                set_insert(&mut self.disputed_transactions, tx_id);
            },
            TransactionKind::Resolve => {
                if let Err(e) = self.transaction_is_disputed(tx_id, true) {
                    return Err(e);
                }
                let disputed = match self.get_tx(tx_id) {
                    Ok(tx) => tx.amount,
                    Err(e) => {
                        return Err(e);
                    },
                };
                if self.balance.held < disputed {
                    return Err(TxError::InsufficientFunds { tx_id, funds: self.balance.held, requested: disputed });
                }
                self.balance.held = self.balance.held - disputed;
                self.balance.available = self.balance.available + disputed;
                set_remove(&mut self.disputed_transactions, tx_id);
            },
            TransactionKind::Chargeback => {
                if let Err(e) = self.transaction_is_disputed(tx_id, true) {
                    return Err(e);
                }
                let disputed = match self.get_tx(tx_id) {
                    Ok(tx) => tx.amount,
                    Err(e) => {
                        return Err(e);
                    },
                };
                if self.balance.held < disputed {
                    return Err(TxError::InsufficientFunds { tx_id, funds: self.balance.held, requested: disputed });
                }
                self.balance.held = self.balance.held - disputed;
                self.locked = true;
                set_remove(&mut self.disputed_transactions, tx_id);
            },
        }
        Ok(())
    }

    /// The balance.
    pub fn balance(&self) -> (r: Balance)
        ensures
            r == self@.balance,
    {
        self.balance
    }

    /// The available funds.
    pub fn available(&self) -> (r: u64)
        ensures
            r == self@.balance.available,
    {
        self.balance.available
    }

    /// The held funds.
    pub fn held(&self) -> (r: u64)
        ensures
            r == self@.balance.held,
    {
        self.balance.held
    }

    /// The total: available plus held.
    pub fn total(&self) -> (r: u64)
        requires
            self@.wf(),
        ensures
            r == self@.balance.total_amount(),
    {
        self.balance.total()
    }

    /// Whether a chargeback has locked the account.
    pub fn locked(&self) -> (r: bool)
        ensures
            r == self@.locked,
    {
        self.locked
    }

    /// The id of the last deposit or withdrawal accepted, if any.
    pub fn last_tx_id(&self) -> (r: Option<u32>)
        ensures
            r == self@.last_tx_id,
    {
        self.previous_tx_id
    }

    /// Whether `tx_id` is under dispute.
    pub fn is_disputed(&self, tx_id: u32) -> (r: bool)
        ensures
            r == self@.disputed.contains(tx_id),
    {
        set_contains(&self.disputed_transactions, tx_id)
    }

    /// The recorded deposit or withdrawal with id `tx_id`, if any.
    pub fn transaction(&self, tx_id: u32) -> (r: Option<TransactionData>)
        ensures
            r == (if self@.ledger.contains_key(tx_id) {
                Some(self@.ledger[tx_id])
            } else {
                None
            }),
    {
        self.transactions.get(tx_id)
    }

    /// The report row of the account: client id, available, held, total
    /// (amounts with four fractional digits) and the locked flag.
    pub fn get_record(&self, client_id: u16) -> (r: Vec<String>)
        requires
            self@.wf(),
        ensures
            r@.len() == 5,
            r@[0]@ == decimal(client_id as nat),
            r@[1]@ == fixed4(self@.balance.available as nat),
            r@[2]@ == fixed4(self@.balance.held as nat),
            r@[3]@ == fixed4(self@.balance.total_amount() as nat),
            r@[4]@ == bool_text(self@.locked),
    {
        vec![
            format_decimal(client_id as u64),
            format_amount(self.balance.available),
            format_amount(self.balance.held),
            format_amount(self.balance.total()),
            format_bool(self.locked),
        ]
    }
}

} // verus!
