use payments_engine::amount::parse_amount;
use payments_engine::balance::Balance;
use payments_engine::client::Client;
use payments_engine::error::TxError;
use payments_engine::format::{format_amount, format_decimal};
use payments_engine::state::State;
use payments_engine::transaction::{Transaction, TransactionData, TransactionKind};

fn data(kind: TransactionKind, amount: u64) -> TransactionData {
    TransactionData { kind, amount }
}

fn tx(kind: TransactionKind, client_id: u16, id: u32, amount: u64) -> Transaction {
    Transaction::new(client_id, id, data(kind, amount))
}

fn summary(state: &State, client_id: u16) -> (u64, u64, u64, bool) {
    let c = state.client(client_id).expect("account exists");
    (c.available(), c.held(), c.total(), c.locked())
}

#[test]
fn should_create_new_balance() {
    let balance = Balance::new(79080);
    assert_eq!(balance, Balance { available: 79080, held: 0 });
    assert_eq!(balance.total(), 79080);
}

#[test]
fn should_create_new_client_from_deposit() {
    let tx_data = data(TransactionKind::Deposit, 568953);
    let client = Client::new(78, tx_data);
    assert_eq!(client.balance(), Balance { available: 568953, held: 0 });
    assert_eq!(client.last_tx_id(), Some(78));
    assert_eq!(client.transaction(78), Some(tx_data));
    assert!(!client.locked());
}

#[test]
fn should_create_new_client_from_arbitrary_tx() {
    let tx_data = data(TransactionKind::Dispute, 6575675);
    let client = Client::new(3438, tx_data);
    assert_eq!(client.balance(), Balance { available: 0, held: 0 });
    assert_eq!(client.last_tx_id(), None);
    assert_eq!(client.transaction(3438), None);
    assert!(!client.is_disputed(3438));
    assert!(!client.locked());
}

#[test]
fn scenario_deposit_then_withdrawal() {
    let mut state = State::new("in.csv");
    assert_eq!(state.route(&tx(TransactionKind::Deposit, 1, 1, 1_000_000)), Ok(()));
    assert_eq!(state.route(&tx(TransactionKind::Withdrawal, 1, 2, 300_000)), Ok(()));
    assert_eq!(summary(&state, 1), (700_000, 0, 700_000, false));
}

#[test]
fn scenario_dispute_holds_funds() {
    let mut state = State::new("in.csv");
    assert_eq!(state.route(&tx(TransactionKind::Deposit, 1, 1, 1_000_000)), Ok(()));
    assert_eq!(state.route(&tx(TransactionKind::Dispute, 1, 1, 0)), Ok(()));
    assert_eq!(summary(&state, 1), (0, 1_000_000, 1_000_000, false));
    assert!(state.client(1).unwrap().is_disputed(1));
}

#[test]
fn scenario_chargeback_locks() {
    let mut state = State::new("in.csv");
    assert_eq!(state.route(&tx(TransactionKind::Deposit, 1, 1, 1_000_000)), Ok(()));
    assert_eq!(state.route(&tx(TransactionKind::Dispute, 1, 1, 0)), Ok(()));
    assert_eq!(state.route(&tx(TransactionKind::Chargeback, 1, 1, 0)), Ok(()));
    assert_eq!(summary(&state, 1), (0, 0, 0, true));
    assert_eq!(
        state.route(&tx(TransactionKind::Deposit, 1, 2, 50)),
        Err(TxError::LockedAccount { tx_id: 2 })
    );
    assert_eq!(summary(&state, 1), (0, 0, 0, true));
}

#[test]
fn scenario_insufficient_funds() {
    let mut state = State::new("in.csv");
    assert_eq!(state.route(&tx(TransactionKind::Deposit, 1, 1, 500_000)), Ok(()));
    assert_eq!(
        state.route(&tx(TransactionKind::Withdrawal, 1, 2, 1_000_000)),
        Err(TxError::InsufficientFunds { tx_id: 2, funds: 500_000, requested: 1_000_000 })
    );
    assert_eq!(summary(&state, 1), (500_000, 0, 500_000, false));
    assert_eq!(state.client(1).unwrap().last_tx_id(), Some(1));
}

#[test]
fn scenario_dispute_of_unknown_transaction() {
    let mut state = State::new("in.csv");
    assert_eq!(
        state.route(&tx(TransactionKind::Dispute, 1, 99, 0)),
        Err(TxError::UnknownTransaction { tx_id: 99 })
    );
    assert_eq!(summary(&state, 1), (0, 0, 0, false));
    assert_eq!(state.client(1).unwrap().last_tx_id(), None);
}

#[test]
fn scenario_out_of_order_deposit() {
    let mut state = State::new("in.csv");
    assert_eq!(state.route(&tx(TransactionKind::Deposit, 2, 5, 100_000)), Ok(()));
    assert_eq!(
        state.route(&tx(TransactionKind::Deposit, 2, 3, 100_000)),
        Err(TxError::OutOfOrderId { tx_id: 3, previous_tx_id: 5 })
    );
    assert_eq!(summary(&state, 2), (100_000, 0, 100_000, false));
}

#[test]
fn duplicate_withdrawal_id_is_refused() {
    let mut client = Client::new(4, data(TransactionKind::Deposit, 900));
    assert_eq!(
        client.process_tx(4, data(TransactionKind::Withdrawal, 1)),
        Err(TxError::OutOfOrderId { tx_id: 4, previous_tx_id: 4 })
    );
    assert_eq!(client.available(), 900);
}

#[test]
fn first_transaction_may_have_id_zero() {
    let client = Client::new(0, data(TransactionKind::Deposit, 7));
    assert_eq!(client.available(), 7);
    assert_eq!(client.last_tx_id(), Some(0));
}

#[test]
fn second_dispute_is_refused() {
    let mut client = Client::new(1, data(TransactionKind::Deposit, 300));
    assert_eq!(client.process_tx(1, data(TransactionKind::Dispute, 0)), Ok(()));
    assert_eq!(
        client.process_tx(1, data(TransactionKind::Dispute, 0)),
        Err(TxError::AlreadyDisputed { tx_id: 1 })
    );
    assert_eq!(client.balance(), Balance { available: 0, held: 300 });
}

#[test]
fn resolve_and_chargeback_need_dispute() {
    let mut client = Client::new(1, data(TransactionKind::Deposit, 300));
    assert_eq!(
        client.process_tx(1, data(TransactionKind::Resolve, 0)),
        Err(TxError::NotDisputed { tx_id: 1 })
    );
    assert_eq!(
        client.process_tx(1, data(TransactionKind::Chargeback, 0)),
        Err(TxError::NotDisputed { tx_id: 1 })
    );
    assert_eq!(client.balance(), Balance { available: 300, held: 0 });
    assert!(!client.locked());
}

#[test]
fn resolve_releases_held_funds() {
    let mut client = Client::new(1, data(TransactionKind::Deposit, 300));
    assert_eq!(client.process_tx(2, data(TransactionKind::Deposit, 200)), Ok(()));
    assert_eq!(client.process_tx(1, data(TransactionKind::Dispute, 0)), Ok(()));
    assert_eq!(client.balance(), Balance { available: 200, held: 300 });
    assert_eq!(client.process_tx(1, data(TransactionKind::Resolve, 0)), Ok(()));
    assert_eq!(client.balance(), Balance { available: 500, held: 0 });
    assert!(!client.is_disputed(1));
    assert_eq!(client.process_tx(1, data(TransactionKind::Dispute, 0)), Ok(()));
    assert!(client.is_disputed(1));
}

#[test]
fn dispute_beyond_available_is_refused() {
    let mut client = Client::new(1, data(TransactionKind::Deposit, 300));
    assert_eq!(client.process_tx(2, data(TransactionKind::Withdrawal, 250)), Ok(()));
    assert_eq!(
        client.process_tx(1, data(TransactionKind::Dispute, 0)),
        Err(TxError::InsufficientFunds { tx_id: 1, funds: 50, requested: 300 })
    );
    assert_eq!(client.balance(), Balance { available: 50, held: 0 });
}

#[test]
fn deposit_past_u64_is_refused() {
    let mut client = Client::new(1, data(TransactionKind::Deposit, u64::MAX - 5));
    assert_eq!(
        client.process_tx(2, data(TransactionKind::Deposit, 6)),
        Err(TxError::BalanceOverflow { tx_id: 2 })
    );
    assert_eq!(client.process_tx(3, data(TransactionKind::Deposit, 5)), Ok(()));
    assert_eq!(client.total(), u64::MAX);
}

#[test]
fn refusal_leaves_other_accounts_alone() {
    let mut state = State::new("in.csv");
    assert_eq!(state.route(&tx(TransactionKind::Deposit, 1, 1, 100)), Ok(()));
    assert_eq!(state.route(&tx(TransactionKind::Deposit, 2, 1, 40)), Ok(()));
    assert!(state.route(&tx(TransactionKind::Withdrawal, 1, 2, 500)).is_err());
    assert_eq!(summary(&state, 1), (100, 0, 100, false));
    assert_eq!(summary(&state, 2), (40, 0, 40, false));
    let mut ids = state.client_ids();
    ids.sort();
    assert_eq!(ids, vec![1, 2]);
    assert!(state.client(3).is_none());
    assert_eq!(state.filename(), "in.csv");
}

#[test]
fn record_row_is_formatted() {
    let mut client = Client::new(1, data(TransactionKind::Deposit, 46663398));
    assert_eq!(client.process_tx(2, data(TransactionKind::Deposit, 5)), Ok(()));
    assert_eq!(client.process_tx(2, data(TransactionKind::Dispute, 0)), Ok(()));
    assert_eq!(
        client.get_record(87),
        vec!["87", "4666.3398", "0.0005", "4666.3403", "false"]
    );
}

#[test]
fn amounts_format_with_four_digits() {
    assert_eq!(format_amount(0), "0.0000");
    assert_eq!(format_amount(12345), "1.2345");
    assert_eq!(format_amount(7), "0.0007");
    assert_eq!(format_amount(u64::MAX), "1844674407370955.1615");
    assert_eq!(format_decimal(65535), "65535");
}

#[test]
fn amounts_parse_to_ten_thousandths() {
    assert_eq!(parse_amount(b"800.765"), Some(8007650));
    assert_eq!(parse_amount(b"12"), Some(120000));
    assert_eq!(parse_amount(b"1.2345"), Some(12345));
    assert_eq!(parse_amount(b".5"), Some(5000));
    assert_eq!(parse_amount(b"3."), Some(30000));
    assert_eq!(parse_amount(b"0"), Some(0));
    assert_eq!(parse_amount(b"1844674407370955.1615"), Some(u64::MAX));
    assert_eq!(parse_amount(b"1844674407370955.1616"), None);
    assert_eq!(parse_amount(b"1.23456"), None);
    assert_eq!(parse_amount(b""), None);
    assert_eq!(parse_amount(b"."), None);
    assert_eq!(parse_amount(b"-1"), None);
    assert_eq!(parse_amount(b"1.2.3"), None);
    assert_eq!(parse_amount(b"12a"), None);
}

#[test]
fn transaction_hands_back_its_data() {
    let t = tx(TransactionKind::Withdrawal, 9, 10, 11);
    assert_eq!(t.get_data(), data(TransactionKind::Withdrawal, 11));
    assert_eq!(t.client_id, 9);
    assert_eq!(t.id, 10);
}

#[test]
fn locked_account_refuses_every_kind() {
    let mut state = State::new("in.csv");
    assert_eq!(state.route(&tx(TransactionKind::Deposit, 7, 1, 500)), Ok(()));
    assert_eq!(state.route(&tx(TransactionKind::Deposit, 7, 2, 300)), Ok(()));
    assert_eq!(state.route(&tx(TransactionKind::Dispute, 7, 1, 0)), Ok(()));
    assert_eq!(state.route(&tx(TransactionKind::Dispute, 7, 2, 0)), Ok(()));
    assert_eq!(state.route(&tx(TransactionKind::Chargeback, 7, 1, 0)), Ok(()));
    assert_eq!(summary(&state, 7), (0, 300, 300, true));
    let kinds = [
        TransactionKind::Deposit,
        TransactionKind::Withdrawal,
        TransactionKind::Dispute,
        TransactionKind::Resolve,
        TransactionKind::Chargeback,
    ];
    for kind in kinds {
        assert_eq!(state.route(&tx(kind, 7, 2, 10)), Err(TxError::LockedAccount { tx_id: 2 }));
        assert_eq!(summary(&state, 7), (0, 300, 300, true));
    }
}

#[test]
fn totals_follow_deposits_withdrawals_and_chargebacks() {
    let mut client = Client::new(1, data(TransactionKind::Deposit, 1000));
    assert_eq!(client.process_tx(2, data(TransactionKind::Withdrawal, 400)), Ok(()));
    assert_eq!(client.total(), 600);
    assert_eq!(client.process_tx(3, data(TransactionKind::Deposit, 50)), Ok(()));
    assert_eq!(client.process_tx(3, data(TransactionKind::Dispute, 0)), Ok(()));
    assert_eq!(client.total(), 650);
    assert_eq!(client.available() + client.held(), client.total());
    assert_eq!(client.process_tx(3, data(TransactionKind::Chargeback, 0)), Ok(()));
    assert_eq!(client.balance(), Balance { available: 600, held: 0 });
    assert_eq!(client.total(), 600);
}

#[test]
fn held_is_the_sum_of_open_disputes() {
    let mut client = Client::new(1, data(TransactionKind::Deposit, 300));
    assert_eq!(client.process_tx(2, data(TransactionKind::Deposit, 200)), Ok(()));
    assert_eq!(client.process_tx(1, data(TransactionKind::Dispute, 0)), Ok(()));
    assert_eq!(client.process_tx(2, data(TransactionKind::Dispute, 0)), Ok(()));
    assert_eq!(client.balance(), Balance { available: 0, held: 500 });
    assert_eq!(client.process_tx(2, data(TransactionKind::Resolve, 0)), Ok(()));
    assert_eq!(client.balance(), Balance { available: 200, held: 300 });
    assert_eq!(client.process_tx(1, data(TransactionKind::Chargeback, 0)), Ok(()));
    assert_eq!(client.balance(), Balance { available: 200, held: 0 });
    assert!(client.locked());
}
