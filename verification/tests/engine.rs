use std::collections::HashMap;

use payments_engine::domain::{Account, CashFlow, CashFlowType};
use payments_engine::dto::{AccountResponse, Transaction, TransactionType};
use payments_engine::engine::{
    account_rows, handle_transaction, register_transactions_for_customers, run, Outcome,
};
use payments_engine::error::Error;
use payments_engine::money::Money;

fn dec(num: i64) -> Money {
    Money::new(num, 0)
}

fn build_transaction(
    transaction_type: TransactionType,
    client: u16,
    tx: u32,
    amount: Option<Money>,
) -> Transaction {
    Transaction { kind: transaction_type, client, tx, amount }
}

fn build_account(client: u16, available: Money, held: Money, total: Money, locked: bool) -> Account {
    Account { client, available, held, total, locked }
}

fn row(client: u16, available: i64, held: i64, total: i64, locked: bool) -> AccountResponse {
    AccountResponse { client, available: dec(available), held: dec(held), total: dec(total), locked }
}

fn deposit(client: u16, tx: u32, amount: i64) -> Transaction {
    build_transaction(TransactionType::Deposit, client, tx, Some(dec(amount)))
}

fn withdrawal(client: u16, tx: u32, amount: i64) -> Transaction {
    build_transaction(TransactionType::Withdrawal, client, tx, Some(dec(amount)))
}

fn dispute(client: u16, tx: u32) -> Transaction {
    build_transaction(TransactionType::Dispute, client, tx, None)
}

fn resolve(client: u16, tx: u32) -> Transaction {
    build_transaction(TransactionType::Resolve, client, tx, None)
}

fn chargeback(client: u16, tx: u32) -> Transaction {
    build_transaction(TransactionType::Chargeback, client, tx, None)
}

#[test]
fn test_deposit() {
    let client = 1;

    let transaction = build_transaction(TransactionType::Deposit, client, 1, Some(dec(10)));
    let cf = CashFlow::try_from(&transaction).unwrap();

    let mut cash_flows = HashMap::from([(cf.tx, cf)]);

    let mut account = build_account(client, dec(5), dec(0), dec(5), false);

    register_transactions_for_customers(&mut account, &mut cash_flows, &transaction).unwrap();

    let account_updated = build_account(client, dec(15), dec(0), dec(15), false);

    assert_eq!(account, account_updated)
}

#[test]
fn deposit_then_withdrawal() {
    let rows = run(&[deposit(1, 1, 10), withdrawal(1, 2, 5)]).unwrap();
    assert_eq!(rows, vec![row(1, 5, 0, 5, false)]);
}

#[test]
fn dispute_then_resolve() {
    let rows = run(&[deposit(1, 1, 10), dispute(1, 1), resolve(1, 1)]).unwrap();
    assert_eq!(rows, vec![row(1, 10, 0, 10, false)]);
}

#[test]
fn chargeback_locks_the_account() {
    let rows =
        run(&[deposit(1, 1, 10), dispute(1, 1), chargeback(1, 1), deposit(1, 2, 10)]).unwrap();
    assert_eq!(rows, vec![row(1, 0, 0, 0, true)]);
}

#[test]
fn withdrawal_without_funds_is_ignored() {
    let rows = run(&[withdrawal(1, 1, 10)]).unwrap();
    assert_eq!(rows, vec![row(1, 0, 0, 0, false)]);
}

#[test]
fn dispute_by_another_client_is_ignored() {
    let rows = run(&[deposit(1, 1, 10), dispute(2, 1)]).unwrap();
    assert_eq!(rows, vec![row(1, 10, 0, 10, false), row(2, 0, 0, 0, false)]);
}

#[test]
fn repeated_identifier_fails_the_run() {
    let result = run(&[deposit(1, 1, 10), deposit(2, 1, 10)]);
    assert_eq!(result, Err(Error::DuplicateTransaction { tx: 1 }));
}

#[test]
fn open_dispute_holds_the_funds() {
    let rows = run(&[deposit(1, 1, 10), deposit(1, 2, 4), dispute(1, 1)]).unwrap();
    assert_eq!(rows, vec![row(1, 4, 10, 14, false)]);
}

#[test]
fn chargeback_after_spending_leaves_a_negative_balance() {
    let rows =
        run(&[deposit(1, 1, 10), withdrawal(1, 2, 6), dispute(1, 1), chargeback(1, 1)]).unwrap();
    assert_eq!(rows, vec![row(1, -6, 0, -6, true)]);
}

#[test]
fn rows_come_in_ascending_order_of_client() {
    let rows = run(&[deposit(7, 1, 1), deposit(3, 2, 2), deposit(65535, 3, 3), deposit(0, 4, 4)])
        .unwrap();
    let clients: Vec<u16> = rows.iter().map(|r| r.client).collect();
    assert_eq!(clients, vec![0, 3, 7, 65535]);
}

#[test]
fn empty_batch_gives_no_rows() {
    assert_eq!(run(&[]), Ok(vec![]));
}

#[test]
fn fractional_amounts_add_up_exactly() {
    let a = build_transaction(TransactionType::Deposit, 1, 1, Some(Money::new(15, 1)));
    let b = build_transaction(TransactionType::Deposit, 1, 2, Some(Money::new(22501, 4)));
    let c = build_transaction(TransactionType::Withdrawal, 1, 3, Some(Money::new(75, 2)));
    let rows = run(&[a, b, c]).unwrap();
    assert_eq!(rows.len(), 1);
    assert_eq!(rows[0].available.units(), 30001);
    assert_eq!(rows[0].held.units(), 0);
    assert_eq!(rows[0].total.units(), 30001);
}

#[test]
fn outcomes_name_what_was_done() {
    let mut accounts = HashMap::new();
    let mut cash_flows = HashMap::new();
    let mut step = |t: Transaction| handle_transaction(&t, &mut accounts, &mut cash_flows);
    assert_eq!(step(deposit(1, 1, 10)), Ok(Outcome::Applied));
    assert_eq!(step(withdrawal(1, 2, 11)), Ok(Outcome::InsufficientFunds));
    assert_eq!(step(dispute(1, 9)), Ok(Outcome::UnknownTransaction));
    assert_eq!(step(resolve(1, 9)), Ok(Outcome::UnknownTransaction));
    assert_eq!(step(dispute(2, 1)), Ok(Outcome::WrongClient));
    assert_eq!(step(resolve(1, 1)), Ok(Outcome::NotDisputed));
    assert_eq!(step(chargeback(1, 1)), Ok(Outcome::NotDisputed));
    assert_eq!(step(dispute(1, 1)), Ok(Outcome::Applied));
    assert_eq!(step(dispute(1, 1)), Ok(Outcome::AlreadyDisputed));
    assert_eq!(step(chargeback(2, 1)), Ok(Outcome::WrongClient));
    assert_eq!(step(chargeback(1, 1)), Ok(Outcome::Applied));
    assert_eq!(step(deposit(1, 3, 10)), Ok(Outcome::AccountLocked));
    assert_eq!(step(dispute(1, 1)), Ok(Outcome::AccountLocked));
}

#[test]
fn locked_account_takes_no_event() {
    let mut accounts = HashMap::new();
    let mut cash_flows = HashMap::new();
    for t in [deposit(1, 1, 10), deposit(1, 2, 3), dispute(1, 1), chargeback(1, 1)] {
        handle_transaction(&t, &mut accounts, &mut cash_flows).unwrap();
    }
    let locked = accounts[&1];
    assert_eq!(locked, build_account(1, dec(3), dec(0), dec(3), true));
    for t in [deposit(1, 5, 1), withdrawal(1, 6, 1), dispute(1, 2), resolve(1, 1), chargeback(1, 2)] {
        assert_eq!(handle_transaction(&t, &mut accounts, &mut cash_flows), Ok(Outcome::AccountLocked));
        assert_eq!(accounts[&1], locked);
    }
    assert!(!cash_flows.contains_key(&5));
    assert!(!cash_flows[&2].under_dispute);
}

#[test]
fn repeated_dispute_changes_nothing() {
    let mut accounts = HashMap::new();
    let mut cash_flows = HashMap::new();
    for t in [deposit(1, 1, 10), dispute(1, 1)] {
        handle_transaction(&t, &mut accounts, &mut cash_flows).unwrap();
    }
    let account = accounts[&1];
    let cash_flow = cash_flows[&1];
    assert_eq!(
        handle_transaction(&dispute(1, 1), &mut accounts, &mut cash_flows),
        Ok(Outcome::AlreadyDisputed)
    );
    assert_eq!(accounts[&1], account);
    assert_eq!(account, build_account(1, dec(0), dec(10), dec(10), false));
    assert_eq!(cash_flows[&1].under_dispute, cash_flow.under_dispute);
    assert_eq!(cash_flows[&1].amount, cash_flow.amount);
}

#[test]
fn resolve_restores_the_account() {
    let mut accounts = HashMap::new();
    let mut cash_flows = HashMap::new();
    for t in [deposit(1, 1, 10), withdrawal(1, 2, 3)] {
        handle_transaction(&t, &mut accounts, &mut cash_flows).unwrap();
    }
    let before = accounts[&1];
    handle_transaction(&dispute(1, 1), &mut accounts, &mut cash_flows).unwrap();
    assert_eq!(accounts[&1], build_account(1, dec(-3), dec(10), dec(7), false));
    handle_transaction(&resolve(1, 1), &mut accounts, &mut cash_flows).unwrap();
    assert_eq!(accounts[&1], before);
    assert!(!cash_flows[&1].under_dispute);
}

#[test]
fn total_is_available_plus_held_after_every_event() {
    let mut accounts = HashMap::new();
    let mut cash_flows = HashMap::new();
    let events = [
        deposit(1, 1, 10),
        deposit(2, 2, 7),
        withdrawal(1, 3, 4),
        dispute(1, 1),
        withdrawal(2, 4, 9),
        resolve(1, 1),
        dispute(2, 2),
        chargeback(2, 2),
        deposit(1, 5, 1),
    ];
    for t in events {
        handle_transaction(&t, &mut accounts, &mut cash_flows).unwrap();
        for account in accounts.values() {
            assert_eq!(account.total.units(), account.available.units() + account.held.units());
        }
    }
}

#[test]
fn unsound_amount_fails_the_event_and_files_the_account() {
    let mut accounts = HashMap::new();
    let mut cash_flows = HashMap::new();
    let missing = build_transaction(TransactionType::Deposit, 4, 1, None);
    assert_eq!(
        handle_transaction(&missing, &mut accounts, &mut cash_flows),
        Err(Error::MissingAmount { tx: 1 })
    );
    assert_eq!(accounts[&4], build_account(4, dec(0), dec(0), dec(0), false));
    assert!(cash_flows.is_empty());
}

#[test]
fn deposit_beyond_the_range_fails() {
    let max: i128 = 79_228_162_514_264_337_593_543_950_335;
    let most = Money::try_from_i128_with_scale(max, 4).unwrap();
    let one = Money::try_from_i128_with_scale(1, 4).unwrap();
    let mut accounts = HashMap::new();
    let mut cash_flows = HashMap::new();
    let first = build_transaction(TransactionType::Deposit, 1, 1, Some(most));
    assert_eq!(handle_transaction(&first, &mut accounts, &mut cash_flows), Ok(Outcome::Applied));
    let second = build_transaction(TransactionType::Deposit, 1, 2, Some(one));
    assert_eq!(
        handle_transaction(&second, &mut accounts, &mut cash_flows),
        Err(Error::BalanceOutOfRange { tx: 2 })
    );
    assert_eq!(accounts[&1].available.units(), max);
    assert!(!cash_flows.contains_key(&2));
    assert_eq!(run(&[first, second]), Err(Error::BalanceOutOfRange { tx: 2 }));
}

#[test]
fn whole_amount_too_large_for_four_digits_fails() {
    let max: i128 = 79_228_162_514_264_337_593_543_950_335;
    let huge = Money::try_from_i128_with_scale(max, 0).unwrap();
    let t = build_transaction(TransactionType::Deposit, 1, 1, Some(huge));
    assert_eq!(run(&[t]), Err(Error::BalanceOutOfRange { tx: 1 }));
}

#[test]
fn deposit_without_its_cash_flow_is_not_allowed() {
    let mut cash_flows: HashMap<u32, CashFlow> = HashMap::new();
    let mut account = Account::default().client(1);
    assert_eq!(
        register_transactions_for_customers(&mut account, &mut cash_flows, &deposit(1, 1, 10)),
        Err(Error::OperationNotAllowedError)
    );
    assert_eq!(account, build_account(1, dec(0), dec(0), dec(0), false));
}

#[test]
fn cash_flow_of_a_sound_withdrawal() {
    let cf = CashFlow::try_from(&withdrawal(3, 8, 2)).unwrap();
    assert_eq!(cf.kind, CashFlowType::Withdrawal);
    assert_eq!(cf.client, 3);
    assert_eq!(cf.tx, 8);
    assert_eq!(cf.amount, dec(2));
    assert!(!cf.under_dispute);
}

#[test]
fn cash_flow_errors() {
    let t = |kind, amount| build_transaction(kind, 1, 5, amount);
    let err = |t: Transaction| CashFlow::try_from(&t).err();
    assert_eq!(err(t(TransactionType::Deposit, None)), Some(Error::MissingAmount { tx: 5 }));
    assert_eq!(
        err(t(TransactionType::Deposit, Some(Money::new(-1, 0)))),
        Some(Error::NegativeAmount { tx: 5 })
    );
    assert_eq!(
        err(t(TransactionType::Withdrawal, Some(Money::new(1, 5)))),
        Some(Error::UnsupportedScale { tx: 5 })
    );
    assert_eq!(
        err(t(TransactionType::Withdrawal, Some(Money::new(-1, 5)))),
        Some(Error::UnsupportedScale { tx: 5 })
    );
    assert_eq!(
        err(t(TransactionType::Dispute, Some(dec(1)))),
        Some(Error::OperationNotAllowedError)
    );
    assert_eq!(err(t(TransactionType::Resolve, None)), Some(Error::MissingAmount { tx: 5 }));
    assert_eq!(err(t(TransactionType::Deposit, Some(Money::new(0, 4)))), None);
}

#[test]
fn account_operations_move_the_amount() {
    let mut cf = CashFlow::try_from(&deposit(1, 1, 4)).unwrap();
    let mut account = build_account(1, dec(10), dec(2), dec(12), false);
    assert!(account.can_dispute(&cf));
    account.dispute(&mut cf);
    assert!(cf.under_dispute);
    assert_eq!(account, build_account(1, dec(6), dec(6), dec(12), false));
    assert!(account.can_resolve(&cf));
    account.resolve(&mut cf);
    assert!(!cf.under_dispute);
    assert_eq!(account, build_account(1, dec(10), dec(2), dec(12), false));
    account.dispute(&mut cf);
    assert!(account.can_chargeback(&cf));
    account.chargeback(&mut cf);
    assert!(!cf.under_dispute);
    assert_eq!(account, build_account(1, dec(6), dec(2), dec(8), true));
}

#[test]
fn account_insert_of_a_withdrawal() {
    let mut account = build_account(1, dec(10), dec(2), dec(12), false);
    let exact = CashFlow::try_from(&withdrawal(1, 1, 10)).unwrap();
    let more = CashFlow::try_from(&withdrawal(1, 2, 11)).unwrap();
    assert!(account.can_insert(&more));
    account.insert(&more);
    assert_eq!(account, build_account(1, dec(10), dec(2), dec(12), false));
    assert!(account.can_insert(&exact));
    account.insert(&exact);
    assert_eq!(account, build_account(1, dec(0), dec(2), dec(2), false));
}

#[test]
fn rows_of_a_table() {
    let mut accounts = HashMap::new();
    accounts.insert(9, build_account(9, Money::new(12345, 4), dec(0), Money::new(12345, 4), true));
    accounts.insert(2, build_account(2, dec(1), dec(2), dec(3), false));
    let rows = account_rows(&accounts);
    assert_eq!(rows.len(), 2);
    assert_eq!(rows[0], row(2, 1, 2, 3, false));
    assert_eq!(rows[1].client, 9);
    assert_eq!(rows[1].available.mantissa(), 12345);
    assert_eq!(rows[1].available.scale(), 4);
    assert!(rows[1].locked);
    assert_eq!(rows[1], AccountResponse::from(accounts[&9]));
}
