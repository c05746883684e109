use vstd::prelude::*;

verus! {

/// Why a transaction was refused. A refused transaction leaves its account unchanged.
#[derive(Debug, Clone, Copy, PartialEq, Eq, Structural)]
pub enum TxError {
    /// The account was locked by an earlier chargeback.
    LockedAccount { tx_id: u32 },
    /// A deposit or withdrawal whose id is not above the last one accepted.
    OutOfOrderId { tx_id: u32, previous_tx_id: u32 },
    /// The funds to draw from (`available`, or `held` for a resolve or chargeback)
    /// fall short of the amount.
    InsufficientFunds { tx_id: u32, funds: u64, requested: u64 },
    /// A dispute of a transaction that is already under dispute.
    AlreadyDisputed { tx_id: u32 },
    /// A resolve or chargeback of a transaction that is not under dispute.
    NotDisputed { tx_id: u32 },
    /// A dispute-class transaction that names no deposit or withdrawal of the account.
    UnknownTransaction { tx_id: u32 },
    /// A deposit that would take the account total past what a `u64` holds.
    BalanceOverflow { tx_id: u32 },
}

} // verus!
