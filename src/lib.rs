//! A per-account ledger of deposits, withdrawals and disputes.
//!
//! Amounts are fixed-point: one unit is one ten-thousandth of a currency unit.
//! An account applies one transaction at a time through `Client::process_tx`;
//! the engine in `state` routes each record to its account.

pub mod amount;
pub mod balance;
pub mod client;
pub mod disputes;
pub mod error;
pub mod format;
pub mod laws;
pub mod state;
pub mod transaction;
