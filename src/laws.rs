//! Properties of the account state machine and of routing, proved over the models.
use vstd::prelude::*;
use vstd::set::fold::{is_fun_commutative, lemma_fold_empty, lemma_fold_insert};

use crate::client::{after_apply, apply_spec, ClientModel};
use crate::error::TxError;
use crate::state::{account_or_empty, route_result, route_spec};
use crate::transaction::{TransactionData, TransactionKind};

verus! {

/// The total of an account always fits, and is changed by an accepted
/// transaction only by the amount it moves: up by a deposit, down by a
/// withdrawal or a chargeback, not at all by a dispute or a resolve.
/// (Available and held funds are never negative: they are unsigned.)
pub proof fn lemma_balance_invariant(m: ClientModel, tx_id: u32, data: TransactionData)
    requires
        m.wf(),
    ensures
        after_apply(m, tx_id, data).wf(),
        apply_spec(m, tx_id, data) matches Ok(n) ==> n.balance.total_amount() == match data.kind {
            TransactionKind::Deposit => m.balance.total_amount() + data.amount,
            TransactionKind::Withdrawal => m.balance.total_amount() - data.amount,
            TransactionKind::Dispute => m.balance.total_amount(),
            TransactionKind::Resolve => m.balance.total_amount(),
            TransactionKind::Chargeback => m.balance.total_amount() - m.ledger[tx_id].amount,
        },
{
}

/// A deposit or withdrawal whose id is not above the last one accepted is
/// refused, whatever its amount and the balance, and changes nothing.
pub proof fn lemma_out_of_order_refused(m: ClientModel, tx_id: u32, data: TransactionData)
    requires
        data.kind == TransactionKind::Deposit || data.kind == TransactionKind::Withdrawal,
        !m.is_newer(tx_id),
    ensures
        apply_spec(m, tx_id, data) is Err,
        after_apply(m, tx_id, data) == m,
{
}

/// Once an account is locked, every transaction routed to it is refused as
/// `LockedAccount` and the account stays exactly as it is.
pub proof fn lemma_lock_is_final(accounts: Map<u16, ClientModel>, client_id: u16, tx_id: u32, data: TransactionData)
    requires
        accounts.contains_key(client_id),
        accounts[client_id].locked,
    ensures
        route_result(accounts, client_id, tx_id, data) == Err::<(), TxError>(TxError::LockedAccount { tx_id }),
        route_spec(accounts, client_id, tx_id, data) == accounts,
{
    assert(route_spec(accounts, client_id, tx_id, data) =~= accounts);
}

/// Disputing the same transaction twice in a row: the second dispute is refused.
pub proof fn lemma_second_dispute_refused(m: ClientModel, tx_id: u32, first: TransactionData, second: TransactionData)
    requires
        first.kind == TransactionKind::Dispute,
        second.kind == TransactionKind::Dispute,
        apply_spec(m, tx_id, first) is Ok,
    ensures
        apply_spec(after_apply(m, tx_id, first), tx_id, second) == Err::<ClientModel, TxError>(
            TxError::AlreadyDisputed { tx_id },
        ),
{
}

/// A resolve or chargeback of a transaction that is not under dispute is
/// refused and changes nothing.
pub proof fn lemma_settling_needs_dispute(m: ClientModel, tx_id: u32, data: TransactionData)
    requires
        data.kind == TransactionKind::Resolve || data.kind == TransactionKind::Chargeback,
        !m.disputed.contains(tx_id),
    ensures
        apply_spec(m, tx_id, data) is Err,
        after_apply(m, tx_id, data) == m,
{
}

/// Routing a transaction to one account leaves every other account as it
/// was; and where the transaction is refused, its own account is as before
/// (empty, if it was new).
pub proof fn lemma_isolation(
    accounts: Map<u16, ClientModel>,
    client_id: u16,
    tx_id: u32,
    data: TransactionData,
    other: u16,
)
    requires
        other != client_id,
    ensures
        route_spec(accounts, client_id, tx_id, data).contains_key(other) == accounts.contains_key(other),
        accounts.contains_key(other) ==> route_spec(accounts, client_id, tx_id, data)[other] == accounts[other],
        route_result(accounts, client_id, tx_id, data) is Err ==> route_spec(accounts, client_id, tx_id, data)[client_id]
            == account_or_empty(accounts, client_id),
{
}

/// The sum of the amounts of the transactions in `s`, as `ledger` records them.
pub open spec fn disputed_total(ledger: Map<u32, TransactionData>, s: Set<u32>) -> int {
    s.fold(0int, |acc: int, t: u32| acc + ledger[t].amount)
}

/// What every account reached from an empty one satisfies: the disputed
/// transactions are recorded ones, every recorded id is at most the last id,
/// and the held funds are exactly the sum of the disputed amounts.
pub open spec fn consistent(m: ClientModel) -> bool {
    &&& m.disputed.finite()
    &&& forall|t: u32| #[trigger] m.disputed.contains(t) ==> m.ledger.contains_key(t)
    &&& forall|t: u32| #[trigger] m.ledger.contains_key(t) ==> !m.is_newer(t)
    &&& m.balance.held == disputed_total(m.ledger, m.disputed)
}

proof fn lemma_total_insert(ledger: Map<u32, TransactionData>, s: Set<u32>, a: u32)
    requires
        s.finite(),
        !s.contains(a),
    ensures
        disputed_total(ledger, s.insert(a)) == disputed_total(ledger, s) + ledger[a].amount,
{
    let f = |acc: int, t: u32| acc + ledger[t].amount;
    assert(is_fun_commutative(f));
    lemma_fold_insert(s, 0int, f, a);
}

proof fn lemma_total_remove(ledger: Map<u32, TransactionData>, s: Set<u32>, a: u32)
    requires
        s.finite(),
        s.contains(a),
    ensures
        disputed_total(ledger, s) == disputed_total(ledger, s.remove(a)) + ledger[a].amount,
{
    lemma_total_insert(ledger, s.remove(a), a);
    assert(s.remove(a).insert(a) =~= s);
}

proof fn lemma_total_empty(ledger: Map<u32, TransactionData>)
    ensures
        disputed_total(ledger, Set::empty()) == 0,
{
    let f = |acc: int, t: u32| acc + ledger[t].amount;
    lemma_fold_empty::<u32, int>(0int, f);
}

proof fn lemma_total_agree(l1: Map<u32, TransactionData>, l2: Map<u32, TransactionData>, s: Set<u32>)
    requires
        s.finite(),
        forall|t: u32| #[trigger] s.contains(t) ==> l1[t].amount == l2[t].amount,
    ensures
        disputed_total(l1, s) == disputed_total(l2, s),
    decreases s.len(),
{
    if s.len() == 0 {
        assert(s =~= Set::empty());
        lemma_total_empty(l1);
        lemma_total_empty(l2);
    } else {
        let a = s.choose();
        assert(s.contains(a));
        lemma_total_agree(l1, l2, s.remove(a));
        lemma_total_remove(l1, s, a);
        lemma_total_remove(l2, s, a);
    }
}

proof fn lemma_total_covers(ledger: Map<u32, TransactionData>, s: Set<u32>, a: u32)
    requires
        s.finite(),
        s.contains(a),
    ensures
        disputed_total(ledger, s) >= ledger[a].amount,
{
    lemma_total_remove(ledger, s, a);
    lemma_total_nonnegative(ledger, s.remove(a));
}

proof fn lemma_total_nonnegative(ledger: Map<u32, TransactionData>, s: Set<u32>)
    requires
        s.finite(),
    ensures
        disputed_total(ledger, s) >= 0,
    decreases s.len(),
{
    if s.len() == 0 {
        assert(s =~= Set::empty());
        lemma_total_empty(ledger);
    } else {
        let a = s.choose();
        assert(s.contains(a));
        lemma_total_nonnegative(ledger, s.remove(a));
        lemma_total_remove(ledger, s, a);
    }
}

/// An account that has accepted nothing is consistent.
pub proof fn lemma_empty_is_consistent()
    ensures
        consistent(ClientModel::empty()),
{
    lemma_total_empty(Map::empty());
}

/// Applying any transaction to a consistent account (whose total fits) leaves
/// it consistent.
pub proof fn lemma_apply_keeps_consistent(m: ClientModel, tx_id: u32, data: TransactionData)
    requires
        m.wf(),
        consistent(m),
    ensures
        consistent(after_apply(m, tx_id, data)),
{
    if let Ok(n) = apply_spec(m, tx_id, data) {
        match data.kind {
            TransactionKind::Deposit | TransactionKind::Withdrawal => {
                assert(!m.ledger.contains_key(tx_id));
                lemma_total_agree(m.ledger, n.ledger, m.disputed);
            },
            TransactionKind::Dispute => {
                lemma_total_insert(m.ledger, m.disputed, tx_id);
            },
            _ => {
                lemma_total_remove(m.ledger, m.disputed, tx_id);
            },
        }
    }
}

/// In a consistent account the held funds cover every disputed amount, so a
/// resolve or chargeback of a disputed transaction is never refused for want
/// of held funds.
pub proof fn lemma_held_covers_disputes(m: ClientModel, tx_id: u32)
    requires
        consistent(m),
        m.disputed.contains(tx_id),
    ensures
        m.ledger[tx_id].amount <= m.balance.held,
{
    lemma_total_covers(m.ledger, m.disputed, tx_id);
}

/// In an engine whose accounts are all consistent, a resolve or chargeback of
/// a transaction under dispute in an unlocked account is always accepted.
pub proof fn lemma_settling_a_dispute_succeeds(
    accounts: Map<u16, ClientModel>,
    client_id: u16,
    tx_id: u32,
    data: TransactionData,
)
    requires
        accounts.contains_key(client_id),
        consistent(accounts[client_id]),
        !accounts[client_id].locked,
        accounts[client_id].disputed.contains(tx_id),
        data.kind == TransactionKind::Resolve || data.kind == TransactionKind::Chargeback,
    ensures
        route_result(accounts, client_id, tx_id, data) == Ok::<(), TxError>(()),
{
    lemma_held_covers_disputes(accounts[client_id], tx_id);
}

} // verus!
