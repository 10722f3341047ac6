//! The ledger engine: applies events, one at a time and in the order given,
//! to the table of accounts and the table of cash flows.
//!
//! An event that refers to nothing the ledger knows, or comes at the wrong
//! moment, is skipped and reported in the [`Outcome`]; it never fails the
//! run. What fails is an event that cannot be admitted at all, or one that
//! would take a balance beyond what the ledger can hold.

use crate::domain::{Account, AccountView, CashFlow, CashFlowType};
use crate::dto::{AccountResponse, Transaction, TransactionType};
use crate::error::Error;
use crate::validator::{validate_transactions, validation_error};
use std::collections::HashMap;
use vstd::prelude::*;

verus! {

/// What the engine did with an event.
#[derive(Clone, Copy, Debug, PartialEq, Eq, Structural)]
pub enum Outcome {
    /// The event took effect.
    Applied,
    /// The client's account is locked: the event was ignored.
    AccountLocked,
    /// A withdrawal of more than the available funds: it was recorded as a
    /// cash flow and the balances were left alone.
    InsufficientFunds,
    /// A dispute, resolve or chargeback of a transaction the ledger has no
    /// cash flow for: ignored.
    UnknownTransaction,
    /// A dispute, resolve or chargeback of another client's cash flow:
    /// ignored.
    WrongClient,
    /// A dispute of a cash flow that is under dispute already: ignored.
    AlreadyDisputed,
    /// A resolve or chargeback of a cash flow that is not under dispute:
    /// ignored.
    NotDisputed,
}

/// Every cash flow of the table has a sound amount.
pub open spec fn cash_flows_wf(cash_flows: Map<u32, CashFlow>) -> bool {
    forall|tx: u32| cash_flows.contains_key(tx) ==> (#[trigger] cash_flows[tx]).wf()
}

/// Every account of the table is well-formed and filed under its own client.
pub open spec fn accounts_wf(accounts: Map<u16, Account>) -> bool {
    forall|client: u16|
        accounts.contains_key(client) ==> (#[trigger] accounts[client]).wf()
            && accounts[client].client == client
}

/// What a dispute, resolve or chargeback finds when it looks up the cash flow
/// it refers to.
pub open spec fn settlement_outcome(cash_flows: Map<u32, CashFlow>, t: Transaction) -> Outcome {
    if !cash_flows.contains_key(t.tx) {
        Outcome::UnknownTransaction
    } else if cash_flows[t.tx].client != t.client {
        Outcome::WrongClient
    } else if t.kind == TransactionType::Dispute {
        if cash_flows[t.tx].under_dispute {
            Outcome::AlreadyDisputed
        } else {
            Outcome::Applied
        }
    } else {
        if cash_flows[t.tx].under_dispute {
            Outcome::Applied
        } else {
            Outcome::NotDisputed
        }
    }
}

/// What becomes of an event on an account that takes events, given the cash
/// flows recorded so far, that of the event itself included.
pub open spec fn registered_outcome(
    account: AccountView,
    cash_flows: Map<u32, CashFlow>,
    t: Transaction,
) -> Outcome {
    if t.is_cash_flow() {
        if cash_flows[t.tx].kind == CashFlowType::Withdrawal && cash_flows[t.tx]@.amount
            > account.available {
            Outcome::InsufficientFunds
        } else {
            Outcome::Applied
        }
    } else {
        settlement_outcome(cash_flows, t)
    }
}

/// The account as the event leaves it: a deposit or withdrawal applies its
/// recorded cash flow; a dispute, resolve or chargeback that finds its cash
/// flow in the right state moves that cash flow's amount; any other event
/// leaves the account alone.
pub open spec fn registered_account(
    account: AccountView,
    cash_flows: Map<u32, CashFlow>,
    t: Transaction,
) -> AccountView {
    if t.is_cash_flow() {
        account.insert(cash_flows[t.tx]@)
    } else if settlement_outcome(cash_flows, t) == Outcome::Applied {
        match t.kind {
            TransactionType::Dispute => account.dispute(cash_flows[t.tx]@.amount),
            TransactionType::Resolve => account.resolve(cash_flows[t.tx]@.amount),
            _ => account.chargeback(cash_flows[t.tx]@.amount),
        }
    } else {
        account
    }
}

/// The cash flows as the event leaves them: a dispute that takes effect
/// marks its cash flow, a resolve or chargeback that takes effect clears the
/// mark, and nothing else changes.
pub open spec fn registered_cash_flows(cash_flows: Map<u32, CashFlow>, t: Transaction) -> Map<
    u32,
    CashFlow,
> {
    if !t.is_cash_flow() && settlement_outcome(cash_flows, t) == Outcome::Applied {
        cash_flows.insert(
            t.tx,
            CashFlow { under_dispute: t.kind == TransactionType::Dispute, ..cash_flows[t.tx] },
        )
    } else {
        cash_flows
    }
}

/// Why an account that takes events cannot take this one, if it cannot: a
/// deposit or withdrawal has no recorded cash flow, or a balance would leave
/// the range the ledger can hold.
pub open spec fn registered_failure(
    account: AccountView,
    cash_flows: Map<u32, CashFlow>,
    t: Transaction,
) -> Option<Error> {
    if t.is_cash_flow() && !cash_flows.contains_key(t.tx) {
        Some(Error::OperationNotAllowedError)
    } else if !registered_account(account, cash_flows, t).in_range() {
        Some(Error::BalanceOutOfRange { tx: t.tx })
    } else {
        None
    }
}

/// Applies a resolve or a chargeback to `account`: takes effect if the cash
/// flow that the event refers to exists, belongs to the event's client and is
/// under dispute, and is skipped otherwise.
fn handle_dispute(
    cash_flows: &mut HashMap<u32, CashFlow>,
    tx: &Transaction,
    account: &mut Account,
) -> (result: Result<Outcome, Error>)
    requires
        tx.kind == TransactionType::Resolve || tx.kind == TransactionType::Chargeback,
        old(account).wf(),
        cash_flows_wf(old(cash_flows)@),
    ensures
        result == match registered_failure(old(account)@, old(cash_flows)@, *tx) {
            Some(e) => Err::<Outcome, Error>(e),
            None => Ok(registered_outcome(old(account)@, old(cash_flows)@, *tx)),
        },
        result is Ok ==> final(account)@ == registered_account(
            old(account)@,
            old(cash_flows)@,
            *tx,
        ) && final(cash_flows)@ == registered_cash_flows(old(cash_flows)@, *tx),
        result is Err ==> *final(account) == *old(account) && final(cash_flows)@ == old(
            cash_flows,
        )@,
        final(account).wf(),
        final(account).client == old(account).client,
        cash_flows_wf(final(cash_flows)@),
{
    broadcast use vstd::std_specs::hash::group_hash_axioms;

    let found = match cash_flows.get(&tx.tx) {
        Some(cf) => Some(*cf),
        None => None,
    };
    match found {
        None => Ok(Outcome::UnknownTransaction),
        Some(cf) => {
            let mut cf = cf;
            if cf.client != tx.client {
                Ok(Outcome::WrongClient)
            } else if !cf.under_dispute {
                Ok(Outcome::NotDisputed)
            } else {
                match tx.kind {
                    TransactionType::Resolve => {
                        if !account.can_resolve(&cf) {
                            return Err(Error::BalanceOutOfRange { tx: tx.tx });
                        }
                        account.resolve(&mut cf);
                    },
                    _ => {
                        if !account.can_chargeback(&cf) {
                            return Err(Error::BalanceOutOfRange { tx: tx.tx });
                        }
                        account.chargeback(&mut cf);
                    },
                }
                cash_flows.insert(tx.tx, cf);
                Ok(Outcome::Applied)
            }
        },
    }
}

/// Applies an event to `account`, which is taken to accept events, given the
/// cash flows recorded so far. For a deposit or withdrawal the cash flow of
/// the event must have been recorded already.
pub fn register_transactions_for_customers(
    account: &mut Account,
    cash_flows: &mut HashMap<u32, CashFlow>,
    tx: &Transaction,
) -> (result: Result<Outcome, Error>)
    requires
        old(account).wf(),
        cash_flows_wf(old(cash_flows)@),
    ensures
        result == match registered_failure(old(account)@, old(cash_flows)@, *tx) {
            Some(e) => Err::<Outcome, Error>(e),
            None => Ok(registered_outcome(old(account)@, old(cash_flows)@, *tx)),
        },
        result is Ok ==> final(account)@ == registered_account(
            old(account)@,
            old(cash_flows)@,
            *tx,
        ) && final(cash_flows)@ == registered_cash_flows(old(cash_flows)@, *tx),
        result is Err ==> *final(account) == *old(account) && final(cash_flows)@ == old(
            cash_flows,
        )@,
        final(account).wf(),
        final(account).client == old(account).client,
        cash_flows_wf(final(cash_flows)@),
{
    broadcast use vstd::std_specs::hash::group_hash_axioms;

    match tx.kind {
        TransactionType::Deposit | TransactionType::Withdrawal => {
            let found = match cash_flows.get(&tx.tx) {
                Some(cf) => Some(*cf),
                None => None,
            };
            match found {
                Some(cf) => {
                    if !account.can_insert(&cf) {
                        return Err(Error::BalanceOutOfRange { tx: tx.tx });
                    }
                    let short = match cf.kind {
                        CashFlowType::Withdrawal => !cf.amount.le(&account.available),
                        CashFlowType::Deposit => false,
                    };
                    account.insert(&cf);
                    if short {
                        Ok(Outcome::InsufficientFunds)
                    } else {
                        Ok(Outcome::Applied)
                    }
                },
                None => Err(Error::OperationNotAllowedError),
            }
        },
        TransactionType::Dispute => {
            let found = match cash_flows.get(&tx.tx) {
                Some(cf) => Some(*cf),
                None => None,
            };
            match found {
                None => Ok(Outcome::UnknownTransaction),
                Some(cf) => {
                    let mut cf = cf;
                    if cf.client != tx.client {
                        Ok(Outcome::WrongClient)
                    } else if cf.under_dispute {
                        Ok(Outcome::AlreadyDisputed)
                    } else {
                        if !account.can_dispute(&cf) {
                            return Err(Error::BalanceOutOfRange { tx: tx.tx });
                        }
                        account.dispute(&mut cf);
                        cash_flows.insert(tx.tx, cf);
                        Ok(Outcome::Applied)
                    }
                },
            }
        },
        TransactionType::Resolve => handle_dispute(cash_flows, tx, account),
        TransactionType::Chargeback => handle_dispute(cash_flows, tx, account),
    }
}

/// The cash flow that a deposit or withdrawal with a sound amount is recorded
/// as.
pub open spec fn cash_flow_of(t: Transaction) -> CashFlow {
    CashFlow {
        kind: if t.kind == TransactionType::Deposit {
            CashFlowType::Deposit
        } else {
            CashFlowType::Withdrawal
        },
        client: t.client,
        tx: t.tx,
        amount: t.amount->0,
        under_dispute: false,
    }
}

/// The accounts of a table by their mathematical content.
pub open spec fn accounts_view(accounts: Map<u16, Account>) -> Map<u16, AccountView> {
    Map::new(|client: u16| accounts.contains_key(client), |client: u16| accounts[client]@)
}

/// The state of the ledger: the accounts by client, their balances in
/// ten-thousandths, and the cash flows by transaction identifier.
pub struct LedgerView {
    pub accounts: Map<u16, AccountView>,
    pub cash_flows: Map<u32, CashFlow>,
}

/// The state that the two tables stand for.
pub open spec fn ledger(accounts: Map<u16, Account>, cash_flows: Map<u32, CashFlow>) -> LedgerView {
    LedgerView { accounts: accounts_view(accounts), cash_flows }
}

impl LedgerView {
    /// The ledger before any event.
    pub open spec fn empty() -> LedgerView {
        LedgerView { accounts: Map::empty(), cash_flows: Map::empty() }
    }

    /// The account of a client: the one on file, or a fresh one.
    pub open spec fn account(self, client: u16) -> AccountView {
        if self.accounts.contains_key(client) {
            self.accounts[client]
        } else {
            AccountView::fresh(client)
        }
    }

    /// The ledger once the client has an account on file.
    pub open spec fn touch(self, client: u16) -> LedgerView {
        LedgerView { accounts: self.accounts.insert(client, self.account(client)), ..self }
    }

    /// The cash flows once that of the event itself, if it is a deposit or
    /// withdrawal, has been recorded.
    pub open spec fn admitted(self, t: Transaction) -> Map<u32, CashFlow> {
        if t.is_cash_flow() {
            self.cash_flows.insert(t.tx, cash_flow_of(t))
        } else {
            self.cash_flows
        }
    }

    /// Why the event cannot be applied, if it cannot. A locked account turns
    /// every event away without failing. Otherwise a deposit or withdrawal
    /// fails on an unsound amount, and any event fails if it would take a
    /// balance beyond what the ledger can hold.
    pub open spec fn failure(self, t: Transaction) -> Option<Error> {
        if self.account(t.client).locked {
            None
        } else if t.is_cash_flow() && t.amount_error() is Some {
            t.amount_error()
        } else {
            registered_failure(self.account(t.client), self.admitted(t), t)
        }
    }

    /// What is done with the event.
    pub open spec fn outcome(self, t: Transaction) -> Outcome {
        if self.account(t.client).locked {
            Outcome::AccountLocked
        } else {
            registered_outcome(self.account(t.client), self.admitted(t), t)
        }
    }

    /// The ledger after the event. The client gets an account if it had
    /// none. A locked account turns the event away. Otherwise a deposit or
    /// withdrawal is recorded as a cash flow, and the event has its effect on
    /// the account and on the cash flow it refers to.
    pub open spec fn apply(self, t: Transaction) -> LedgerView {
        if self.account(t.client).locked {
            self.touch(t.client)
        } else {
            LedgerView {
                accounts: self.accounts.insert(
                    t.client,
                    registered_account(self.account(t.client), self.admitted(t), t),
                ),
                cash_flows: registered_cash_flows(self.admitted(t), t),
            }
        }
    }

    /// The ledger after the events of `ts`, applied in order.
    pub open spec fn replay(self, ts: Seq<Transaction>) -> LedgerView
        decreases ts.len(),
    {
        if ts.len() == 0 {
            self
        } else {
            self.replay(ts.drop_last()).apply(ts.last())
        }
    }

    /// Every account on file is filed under its own client, and its total
    /// is the sum of its available and held funds.
    pub open spec fn balanced(self) -> bool {
        forall|client: u16|
            self.accounts.contains_key(client) ==> (#[trigger] self.accounts[client]).balanced()
                && self.accounts[client].client == client
    }
}

/// Applies one event to the two tables. The client gets an account if it
/// had none, also where the event then fails. A locked account turns every
/// event away. A deposit or withdrawal is recorded as a cash flow first.
pub fn handle_transaction(
    transaction: &Transaction,
    accounts: &mut HashMap<u16, Account>,
    cash_flows: &mut HashMap<u32, CashFlow>,
) -> (result: Result<Outcome, Error>)
    requires
        accounts_wf(old(accounts)@),
        cash_flows_wf(old(cash_flows)@),
    ensures
        result == match ledger(old(accounts)@, old(cash_flows)@).failure(*transaction) {
            Some(e) => Err::<Outcome, Error>(e),
            None => Ok(ledger(old(accounts)@, old(cash_flows)@).outcome(*transaction)),
        },
        result is Ok ==> ledger(final(accounts)@, final(cash_flows)@) == ledger(
            old(accounts)@,
            old(cash_flows)@,
        ).apply(*transaction),
        result is Err ==> ledger(final(accounts)@, final(cash_flows)@) == ledger(
            old(accounts)@,
            old(cash_flows)@,
        ).touch(transaction.client),
        accounts_wf(final(accounts)@),
        cash_flows_wf(final(cash_flows)@),
{
    broadcast use vstd::std_specs::hash::group_hash_axioms;

    let ghost before = ledger(accounts@, cash_flows@);
    let ghost old_accounts = accounts@;
    let client = transaction.client;
    let mut account = match accounts.get(&client) {
        Some(a) => *a,
        None => Account::default().client(client),
    };
    assert(account@ == before.account(client));
    let result = if account.locked {
        Ok(Outcome::AccountLocked)
    } else if transaction.moves_money() {
        match CashFlow::try_from(transaction) {
            Err(e) => Err(e),
            Ok(cf) => {
                if !account.can_insert(&cf) {
                    Err(Error::BalanceOutOfRange { tx: transaction.tx })
                } else {
                    cash_flows.insert(transaction.tx, cf);
                    register_transactions_for_customers(&mut account, cash_flows, transaction)
                }
            },
        }
    } else {
        register_transactions_for_customers(&mut account, cash_flows, transaction)
    };
    accounts.insert(client, account);
    proof {
        let after = ledger(accounts@, cash_flows@);
        let expected = if result is Ok {
            before.apply(*transaction)
        } else {
            before.touch(client)
        };
        assert(after.accounts =~= expected.accounts);
        assert(after.cash_flows =~= expected.cash_flows);
    }
    result
}

/// The first event at or after `from` that fails when the events before it
/// have been applied to an empty ledger.
pub open spec fn first_failure(ts: Seq<Transaction>, from: int) -> Option<int>
    decreases ts.len() - from,
{
    if from >= ts.len() {
        None
    } else if LedgerView::empty().replay(ts.take(from)).failure(ts[from]) is Some {
        Some(from)
    } else {
        first_failure(ts, from + 1)
    }
}

/// What a run on the batch fails on, if anything: what validation finds, and
/// else the first event that cannot be applied.
pub open spec fn run_error(ts: Seq<Transaction>) -> Option<Error> {
    match validation_error(ts) {
        Some(e) => Some(e),
        None => match first_failure(ts, 0) {
            Some(i) => LedgerView::empty().replay(ts.take(i)).failure(ts[i]),
            None => None,
        },
    }
}

/// The accounts of the clients below `bound`, in ascending order of client.
pub open spec fn snapshot(accounts: Map<u16, AccountView>, bound: nat) -> Seq<AccountView>
    decreases bound,
{
    if bound == 0 {
        Seq::empty()
    } else {
        let client = (bound - 1) as u16;
        if accounts.contains_key(client) {
            snapshot(accounts, (bound - 1) as nat).push(accounts[client])
        } else {
            snapshot(accounts, (bound - 1) as nat)
        }
    }
}

/// The number of clients there can be.
pub const CLIENTS: u32 = 65536;

/// The rows by their mathematical content.
pub open spec fn rows_view(rows: Seq<AccountResponse>) -> Seq<AccountView> {
    rows.map_values(|row: AccountResponse| row@)
}

/// One row per account of the table, in ascending order of client.
pub fn account_rows(accounts: &HashMap<u16, Account>) -> (rows: Vec<AccountResponse>)
    requires
        accounts_wf(accounts@),
    ensures
        rows_view(rows@) == snapshot(accounts_view(accounts@), CLIENTS as nat),
{
    broadcast use vstd::std_specs::hash::group_hash_axioms;

    let mut rows: Vec<AccountResponse> = Vec::new();
    let mut next: u32 = 0;
    assert(rows_view(rows@) =~= snapshot(accounts_view(accounts@), 0));
    while next < CLIENTS
        invariant
            next <= CLIENTS,
            accounts_wf(accounts@),
            rows_view(rows@) == snapshot(accounts_view(accounts@), next as nat),
        decreases CLIENTS - next,
    {
        let client = next as u16;
        match accounts.get(&client) {
            Some(account) => {
                let row = AccountResponse::from(*account);
                let ghost shorter = rows@;
                rows.push(row);
                assert(rows_view(rows@) =~= rows_view(shorter).push(row@));
            },
            None => {},
        }
        next += 1;
    }
    rows
}

/// Replays a batch of events on an empty ledger and returns the final state
/// of every account, in ascending order of client.
///
/// The batch is validated first, and nothing is applied if that fails. Then
/// the events are applied in the order given; the first one that cannot be
/// applied ends the run with its error, and no rows are returned.
pub fn run(transactions: &[Transaction]) -> (result: Result<Vec<AccountResponse>, Error>)
    ensures
        match result {
            Ok(rows) => run_error(transactions@) is None && rows_view(rows@) == snapshot(
                LedgerView::empty().replay(transactions@).accounts,
                CLIENTS as nat,
            ),
            Err(e) => run_error(transactions@) == Some(e),
        },
{
    let ghost ts = transactions@;
    match validate_transactions(transactions) {
        Err(e) => {
            return Err(e);
        },
        Ok(_) => {},
    }
    let mut accounts: HashMap<u16, Account> = HashMap::new();
    let mut cash_flows: HashMap<u32, CashFlow> = HashMap::new();
    let mut i: usize = 0;
    assert(ledger(accounts@, cash_flows@).accounts =~= LedgerView::empty().accounts);
    assert(ts.take(0) =~= Seq::empty());
    while i < transactions.len()
        invariant
            ts == transactions@,
            0 <= i <= ts.len(),
            validation_error(ts) is None,
            accounts_wf(accounts@),
            cash_flows_wf(cash_flows@),
            ledger(accounts@, cash_flows@) == LedgerView::empty().replay(ts.take(i as int)),
            first_failure(ts, 0) == first_failure(ts, i as int),
        decreases ts.len() - i,
    {
        proof {
            assert(ts.take(i + 1).drop_last() =~= ts.take(i as int));
            assert(ts.take(i + 1).last() == ts[i as int]);
        }
        match handle_transaction(&transactions[i], &mut accounts, &mut cash_flows) {
            Err(e) => {
                return Err(e);
            },
            Ok(_) => {},
        }
        i += 1;
    }
    assert(ts.take(ts.len() as int) =~= ts);
    Ok(account_rows(&accounts))
}

} // verus!
