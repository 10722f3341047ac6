//! The records that enter the ledger and the rows that leave it.

use crate::domain::{Account, AccountView};
use crate::error::Error;
use crate::money::{same_value, Money, LEDGER_SCALE};
use vstd::prelude::*;
use vstd::std_specs::cmp::PartialEqSpecImpl;
use vstd::std_specs::convert::FromSpecImpl;

verus! {

/// The kinds of event.
#[derive(Clone, Copy, Debug, PartialEq, Eq, Structural)]
pub enum TransactionType {
    Deposit,
    Withdrawal,
    Dispute,
    /// Ends a dispute in the client's favour: the held funds become
    /// available again.
    Resolve,
    /// Ends a dispute against the client: the held funds leave the account,
    /// which is locked.
    Chargeback,
}

/// One event as it was read, before any check.
#[derive(Clone, Copy, Debug)]
pub struct Transaction {
    pub kind: TransactionType,
    pub client: u16,
    pub tx: u32,
    pub amount: Option<Money>,
}

impl Transaction {
    /// Whether the event moves money: a deposit or a withdrawal.
    pub open spec fn is_cash_flow(self) -> bool {
        self.kind == TransactionType::Deposit || self.kind == TransactionType::Withdrawal
    }

    /// What is wrong with the amount as that of a deposit or withdrawal, if
    /// anything: it is missing, or has more than four fractional digits, or
    /// is below zero.
    pub open spec fn amount_error(self) -> Option<Error> {
        match self.amount {
            None => Some(Error::MissingAmount { tx: self.tx }),
            Some(v) => if v@.scale > LEDGER_SCALE {
                Some(Error::UnsupportedScale { tx: self.tx })
            } else if v@.mantissa < 0 {
                Some(Error::NegativeAmount { tx: self.tx })
            } else {
                None
            },
        }
    }

    /// The amount in ten-thousandths, meaningful where `amount_error` finds
    /// nothing.
    pub open spec fn units(self) -> int {
        self.amount->0@.units()
    }

    /// Same as [`Transaction::is_cash_flow`], computed.
    pub fn moves_money(&self) -> (r: bool)
        ensures
            r == self.is_cash_flow(),
    {
        match self.kind {
            TransactionType::Deposit | TransactionType::Withdrawal => true,
            _ => false,
        }
    }

    /// Same as [`Transaction::amount_error`], computed.
    pub fn check_amount(&self) -> (r: Option<Error>)
        ensures
            r == self.amount_error(),
    {
        match self.amount {
            None => Some(Error::MissingAmount { tx: self.tx }),
            Some(v) => if v.scale() > LEDGER_SCALE {
                Some(Error::UnsupportedScale { tx: self.tx })
            } else if v.mantissa() < 0 {
                Some(Error::NegativeAmount { tx: self.tx })
            } else {
                None
            },
        }
    }
}

/// One row of the final snapshot: an account with its balances rounded to
/// four fractional digits.
#[derive(Clone, Copy, Debug)]
pub struct AccountResponse {
    pub client: u16,
    pub available: Money,
    pub held: Money,
    pub total: Money,
    /// Set once a chargeback has occurred.
    pub locked: bool,
}

impl View for AccountResponse {
    type V = AccountView;

    open spec fn view(&self) -> AccountView {
        AccountView {
            client: self.client,
            available: self.available@.units(),
            held: self.held@.units(),
            total: self.total@.units(),
            locked: self.locked,
        }
    }
}

impl From<Account> for AccountResponse {
    fn from(value: Account) -> (row: AccountResponse) {
        AccountResponse {
            client: value.client,
            available: value.available.round_dp(LEDGER_SCALE),
            held: value.held.round_dp(LEDGER_SCALE),
            total: value.total.round_dp(LEDGER_SCALE),
            locked: value.locked,
        }
    }
}

/// The row of an account carries its client, its lock and its three
/// balances, each rounded to four fractional digits: for a well-formed
/// account, the balances themselves.
impl FromSpecImpl<Account> for AccountResponse {
    open spec fn obeys_from_spec() -> bool {
        true
    }

    open spec fn from_spec(value: Account) -> AccountResponse {
        AccountResponse {
            client: value.client,
            available: value.available.rounded(LEDGER_SCALE as nat),
            held: value.held.rounded(LEDGER_SCALE as nat),
            total: value.total.rounded(LEDGER_SCALE as nat),
            locked: value.locked,
        }
    }
}

impl PartialEq for AccountResponse {
    fn eq(&self, other: &AccountResponse) -> (r: bool) {
        self.client == other.client && self.available == other.available && self.held
            == other.held && self.total == other.total && self.locked == other.locked
    }
}

impl Eq for AccountResponse {

}

/// Two rows are equal when they name the same client, agree on the lock and
/// their balances are the same numbers.
impl PartialEqSpecImpl for AccountResponse {
    open spec fn obeys_eq_spec() -> bool {
        true
    }

    open spec fn eq_spec(&self, other: &AccountResponse) -> bool {
        &&& self.client == other.client
        &&& same_value(self.available@, other.available@)
        &&& same_value(self.held@, other.held@)
        &&& same_value(self.total@, other.total@)
        &&& self.locked == other.locked
    }
}

} // verus!
