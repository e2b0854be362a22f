use ledger::client::{
    Action, Client, Clients, TransactionAction, TransactionRecord, TransactionState,
    TransactionUpdate, TransactionUpdateType,
};
use ledger::money::{Money, MAX_UNITS};
use ledger::parse::{InputTransaction, InputTransactionType};
use ledger::process_line::{process_all, ProcessError, ProcessLine};

fn money(units: i128) -> Money {
    Money { units }
}

fn action(kind: Action, client: u16, id: u32, units: i128) -> TransactionRecord {
    TransactionRecord::Action(TransactionAction {
        id,
        client,
        kind,
        amount: money(units),
        state: TransactionState::Pending,
    })
}

fn deposit(client: u16, id: u32, units: i128) -> TransactionRecord {
    action(Action::Deposit, client, id, units)
}

fn withdrawal(client: u16, id: u32, units: i128) -> TransactionRecord {
    action(Action::Withdrawal, client, id, units)
}

fn update(kind: TransactionUpdateType, client: u16, tx_id: u32) -> TransactionRecord {
    TransactionRecord::Update(TransactionUpdate { client, tx_id, kind })
}

fn balances(clients: &Clients, id: u16) -> (i128, i128, i128, bool) {
    let c: &Client = clients.get(id).unwrap();
    (c.available.units, c.held.units, c.total().units, c.locked)
}

fn state_of(clients: &Clients, client: u16, tx: u32) -> TransactionState {
    clients.get(client).unwrap().transactions.get(&tx).unwrap().state
}

/// Deposits 5.0 (tx 1) and 3.0 (tx 2) for client 1.
fn two_deposits() -> Clients {
    let mut clients = Clients::new();
    assert_eq!(deposit(1, 1, 50000).process_line(&mut clients), Ok(()));
    assert_eq!(deposit(1, 2, 30000).process_line(&mut clients), Ok(()));
    clients
}

#[test]
fn two_deposits_add_up() {
    let clients = two_deposits();
    assert_eq!(balances(&clients, 1), (80000, 0, 80000, false));
    assert_eq!(state_of(&clients, 1, 1), TransactionState::Completed);
}

#[test]
fn withdrawal_after_deposits() {
    let mut clients = two_deposits();
    assert_eq!(withdrawal(1, 3, 20000).process_line(&mut clients), Ok(()));
    assert_eq!(balances(&clients, 1), (60000, 0, 60000, false));
}

#[test]
fn dispute_holds_the_deposit() {
    let mut clients = two_deposits();
    withdrawal(1, 3, 20000).process_line(&mut clients).unwrap();
    let r = update(TransactionUpdateType::Dispute, 1, 1).process_line(&mut clients);
    assert_eq!(r, Ok(()));
    assert_eq!(balances(&clients, 1), (10000, 50000, 60000, false));
    assert_eq!(state_of(&clients, 1, 1), TransactionState::Disputed);
}

#[test]
fn chargeback_forfeits_and_locks() {
    let mut clients = two_deposits();
    withdrawal(1, 3, 20000).process_line(&mut clients).unwrap();
    update(TransactionUpdateType::Dispute, 1, 1).process_line(&mut clients).unwrap();
    let r = update(TransactionUpdateType::Chargeback, 1, 1).process_line(&mut clients);
    assert_eq!(r, Ok(()));
    assert_eq!(balances(&clients, 1), (10000, 0, 10000, true));
    assert_eq!(state_of(&clients, 1, 1), TransactionState::Reversed);
    let r = deposit(1, 4, 10000).process_line(&mut clients);
    assert_eq!(r, Err(ProcessError::AccountLocked));
    assert_eq!(balances(&clients, 1), (10000, 0, 10000, true));
    assert_eq!(state_of(&clients, 1, 4), TransactionState::Rejected);
}

#[test]
fn locked_account_rejects_every_operation() {
    let mut clients = two_deposits();
    update(TransactionUpdateType::Dispute, 1, 1).process_line(&mut clients).unwrap();
    update(TransactionUpdateType::Chargeback, 1, 1).process_line(&mut clients).unwrap();
    let before = balances(&clients, 1);
    let ops = vec![
        deposit(1, 10, 1),
        withdrawal(1, 11, 1),
        update(TransactionUpdateType::Dispute, 1, 2),
        update(TransactionUpdateType::Resolve, 1, 1),
        update(TransactionUpdateType::Chargeback, 1, 1),
    ];
    for op in ops {
        assert_eq!(op.process_line(&mut clients), Err(ProcessError::AccountLocked));
        assert_eq!(balances(&clients, 1), before);
    }
}

#[test]
fn overdrawn_withdrawal_fails() {
    let mut clients = two_deposits();
    let r = withdrawal(1, 3, 80001).process_line(&mut clients);
    assert_eq!(r, Err(ProcessError::InsufficientFunds));
    assert_eq!(balances(&clients, 1), (80000, 0, 80000, false));
    assert_eq!(state_of(&clients, 1, 3), TransactionState::Rejected);
}

#[test]
fn withdrawal_of_everything_succeeds() {
    let mut clients = two_deposits();
    assert_eq!(withdrawal(1, 3, 80000).process_line(&mut clients), Ok(()));
    assert_eq!(balances(&clients, 1), (0, 0, 0, false));
}

#[test]
fn deposit_then_withdrawal_restores_available() {
    let mut clients = two_deposits();
    deposit(1, 5, 12345).process_line(&mut clients).unwrap();
    withdrawal(1, 6, 12345).process_line(&mut clients).unwrap();
    assert_eq!(balances(&clients, 1), (80000, 0, 80000, false));
}

#[test]
fn dispute_keeps_total() {
    let mut clients = two_deposits();
    update(TransactionUpdateType::Dispute, 1, 2).process_line(&mut clients).unwrap();
    assert_eq!(balances(&clients, 1), (50000, 30000, 80000, false));
}

#[test]
fn resolve_restores_split() {
    let mut clients = two_deposits();
    update(TransactionUpdateType::Dispute, 1, 2).process_line(&mut clients).unwrap();
    let r = update(TransactionUpdateType::Resolve, 1, 2).process_line(&mut clients);
    assert_eq!(r, Ok(()));
    assert_eq!(balances(&clients, 1), (80000, 0, 80000, false));
    assert_eq!(state_of(&clients, 1, 2), TransactionState::Resolved);
}

#[test]
fn duplicate_id_is_rejected() {
    let mut clients = two_deposits();
    let r = deposit(1, 1, 99999).process_line(&mut clients);
    assert_eq!(r, Err(ProcessError::DuplicateId(1)));
    let r = withdrawal(1, 2, 10000).process_line(&mut clients);
    assert_eq!(r, Err(ProcessError::DuplicateId(2)));
    assert_eq!(balances(&clients, 1), (80000, 0, 80000, false));
    assert_eq!(state_of(&clients, 1, 1), TransactionState::Completed);
}

#[test]
fn same_id_for_other_client_is_accepted() {
    let mut clients = two_deposits();
    assert_eq!(deposit(2, 1, 10000).process_line(&mut clients), Ok(()));
    assert_eq!(balances(&clients, 2), (10000, 0, 10000, false));
    assert_eq!(balances(&clients, 1), (80000, 0, 80000, false));
}

#[test]
fn negative_amount_is_rejected_without_record() {
    let mut clients = Clients::new();
    let r = deposit(1, 1, -5).process_line(&mut clients);
    assert_eq!(r, Err(ProcessError::InvalidAmount));
    assert!(clients.get(1).unwrap().transactions.get(&1).is_none());
    assert_eq!(balances(&clients, 1), (0, 0, 0, false));
}

#[test]
fn deposit_overflow_is_rejected() {
    let mut clients = Clients::new();
    assert_eq!(deposit(1, 1, MAX_UNITS).process_line(&mut clients), Ok(()));
    let r = deposit(1, 2, 1).process_line(&mut clients);
    assert_eq!(r, Err(ProcessError::InvalidAmount));
    assert_eq!(balances(&clients, 1), (MAX_UNITS, 0, MAX_UNITS, false));
    assert_eq!(state_of(&clients, 1, 2), TransactionState::Rejected);
}

#[test]
fn update_without_record_fails() {
    let mut clients = two_deposits();
    let r = update(TransactionUpdateType::Dispute, 1, 9).process_line(&mut clients);
    assert_eq!(r, Err(ProcessError::NoMatchingTransaction));
    let r = update(TransactionUpdateType::Resolve, 3, 1).process_line(&mut clients);
    assert_eq!(r, Err(ProcessError::NoMatchingTransaction));
    assert_eq!(balances(&clients, 3), (0, 0, 0, false));
}

#[test]
fn ineligible_updates_fail() {
    let mut clients = two_deposits();
    let r = update(TransactionUpdateType::Resolve, 1, 1).process_line(&mut clients);
    assert_eq!(r, Err(ProcessError::NoEligibleTransaction));
    let r = update(TransactionUpdateType::Chargeback, 1, 1).process_line(&mut clients);
    assert_eq!(r, Err(ProcessError::NoEligibleTransaction));
    update(TransactionUpdateType::Dispute, 1, 1).process_line(&mut clients).unwrap();
    let r = update(TransactionUpdateType::Dispute, 1, 1).process_line(&mut clients);
    assert_eq!(r, Err(ProcessError::NoEligibleTransaction));
    assert_eq!(balances(&clients, 1), (30000, 50000, 80000, false));
}

#[test]
fn dispute_may_leave_available_negative() {
    let mut clients = two_deposits();
    withdrawal(1, 3, 80000).process_line(&mut clients).unwrap();
    update(TransactionUpdateType::Dispute, 1, 1).process_line(&mut clients).unwrap();
    assert_eq!(balances(&clients, 1), (-50000, 50000, 0, false));
}

#[test]
fn process_all_reports_each_outcome() {
    let mut clients = Clients::new();
    let ops = vec![
        deposit(1, 1, 50000),
        deposit(1, 2, 30000),
        withdrawal(1, 3, 20000),
        update(TransactionUpdateType::Dispute, 1, 1),
        update(TransactionUpdateType::Chargeback, 1, 1),
        deposit(1, 4, 10000),
        deposit(2, 1, 10000),
    ];
    let results = process_all(&mut clients, &ops);
    assert_eq!(
        results,
        vec![Ok(()), Ok(()), Ok(()), Ok(()), Ok(()), Err(ProcessError::AccountLocked), Ok(())]
    );
    assert_eq!(balances(&clients, 1), (10000, 0, 10000, true));
    assert_eq!(balances(&clients, 2), (10000, 0, 10000, false));
}

#[test]
fn snapshot_lists_each_client_once() {
    let mut clients = Clients::new();
    let ops = vec![
        deposit(2, 1, 15000),
        update(TransactionUpdateType::Dispute, 7, 1),
        deposit(2, 2, 5000),
        update(TransactionUpdateType::Dispute, 2, 1),
    ];
    process_all(&mut clients, &ops);
    let rows = clients.snapshot();
    assert_eq!(rows.len(), 2);
    assert_eq!(rows[0].client, 2);
    assert_eq!(rows[0].available.units, 5000);
    assert_eq!(rows[0].held.units, 15000);
    assert_eq!(rows[0].total.units, 20000);
    assert!(!rows[0].locked);
    assert_eq!(rows[1].client, 7);
    assert_eq!(rows[1].total.units, 0);
}

#[test]
fn input_rows_become_operations() {
    let row = InputTransaction {
        kind: InputTransactionType::Withdrawal,
        client: 4,
        tx: 9,
        amount: Some(money(-70)),
    };
    assert_eq!(row.into_record(), withdrawal(4, 9, 0));
    let row = InputTransaction {
        kind: InputTransactionType::Deposit,
        client: 4,
        tx: 10,
        amount: None,
    };
    assert_eq!(row.into_record(), deposit(4, 10, 0));
    let row = InputTransaction {
        kind: InputTransactionType::Deposit,
        client: 4,
        tx: 11,
        amount: Some(money(25)),
    };
    assert_eq!(row.into_record(), deposit(4, 11, 25));
    let row = InputTransaction {
        kind: InputTransactionType::Chargeback,
        client: 4,
        tx: 9,
        amount: Some(money(25)),
    };
    assert_eq!(row.into_record(), update(TransactionUpdateType::Chargeback, 4, 9));
}

#[test]
fn money_checked_arithmetic() {
    assert_eq!(money(3).checked_add(&money(4)), Some(money(7)));
    assert_eq!(money(MAX_UNITS).checked_add(&money(1)), None);
    assert_eq!(money(-MAX_UNITS).checked_sub(&money(1)), None);
    assert_eq!(money(3).checked_sub(&money(4)), Some(money(-1)));
    assert_eq!(Money::from_units(MAX_UNITS + 1), None);
    assert_eq!(money(-3).max_zero(), money(0));
}

#[test]
fn dispute_overflow_is_rejected() {
    let mut clients = Clients::new();
    deposit(1, 1, MAX_UNITS).process_line(&mut clients).unwrap();
    update(TransactionUpdateType::Dispute, 1, 1).process_line(&mut clients).unwrap();
    deposit(1, 2, MAX_UNITS).process_line(&mut clients).unwrap();
    let r = update(TransactionUpdateType::Dispute, 1, 2).process_line(&mut clients);
    assert_eq!(r, Err(ProcessError::InvalidAmount));
    assert_eq!(state_of(&clients, 1, 2), TransactionState::Rejected);
    let c = clients.get(1).unwrap();
    assert_eq!((c.available.units, c.held.units), (MAX_UNITS, MAX_UNITS));
}

#[test]
fn decimals_round_to_four_digits_ties_to_even() {
    assert_eq!(Money::from_decimal(15, 1), Some(money(15000)));
    assert_eq!(Money::from_decimal(7, 0), Some(money(70000)));
    assert_eq!(Money::from_decimal(12345, 4), Some(money(12345)));
    assert_eq!(Money::from_decimal(123456, 6), Some(money(1235)));
    assert_eq!(Money::from_decimal(123450, 6), Some(money(1234)));
    assert_eq!(Money::from_decimal(123350, 6), Some(money(1234)));
    assert_eq!(Money::from_decimal(-123350, 6), Some(money(-1234)));
    assert_eq!(Money::from_decimal(-123351, 6), Some(money(-1234)));
    assert_eq!(Money::from_decimal(-123451, 6), Some(money(-1235)));
    assert_eq!(Money::from_decimal(MAX_UNITS, 28), Some(money(79228)));
    assert_eq!(Money::from_decimal(MAX_UNITS, 0), None);
    assert_eq!(Money::from_decimal(MAX_UNITS, 4), Some(money(MAX_UNITS)));
}
