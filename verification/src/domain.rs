//! Cash flows and accounts: the data the ledger keeps, and how one event
//! changes one account.

use crate::dto::{Transaction, TransactionType};
use crate::error::Error;
use crate::money::{is_mantissa, same_value, Money, LEDGER_SCALE, MAX_MANTISSA};
use vstd::prelude::*;
use vstd::std_specs::cmp::PartialEqSpecImpl;
use vstd::std_specs::convert::TryFromSpecImpl;

verus! {

/// The kinds of cash flow.
#[derive(Clone, Copy, Debug, PartialEq, Eq, Structural)]
pub enum CashFlowType {
    Deposit,
    Withdrawal,
}

/// A deposit or withdrawal that the ledger has admitted, kept so that a
/// later dispute, resolve or chargeback can refer to it.
#[derive(Clone, Copy, Debug)]
pub struct CashFlow {
    pub kind: CashFlowType,
    /// The client that owns the cash flow.
    pub client: u16,
    /// The identifier of the event, unique among cash flows.
    pub tx: u32,
    pub amount: Money,
    /// Whether the cash flow is under dispute: set by a dispute, cleared by
    /// a resolve or a chargeback.
    pub under_dispute: bool,
}

/// The mathematical content of a [`CashFlow`], its amount in
/// ten-thousandths.
pub struct CashFlowView {
    pub kind: CashFlowType,
    pub client: u16,
    pub tx: u32,
    pub amount: int,
    pub under_dispute: bool,
}

impl View for CashFlow {
    type V = CashFlowView;

    open spec fn view(&self) -> CashFlowView {
        CashFlowView {
            kind: self.kind,
            client: self.client,
            tx: self.tx,
            amount: self.amount@.units(),
            under_dispute: self.under_dispute,
        }
    }
}

impl CashFlow {
    /// The amount is not below zero and has at most four fractional digits.
    pub open spec fn wf(self) -> bool {
        self.amount@.scale <= LEDGER_SCALE && self.amount@.mantissa >= 0
    }
}

impl TryFrom<&Transaction> for CashFlow {
    type Error = Error;

    fn try_from(value: &Transaction) -> (r: Result<CashFlow, Error>) {
        match value.check_amount() {
            Some(e) => Err(e),
            None => {
                let kind = match value.kind {
                    TransactionType::Deposit => CashFlowType::Deposit,
                    TransactionType::Withdrawal => CashFlowType::Withdrawal,
                    _ => {
                        return Err(Error::OperationNotAllowedError);
                    },
                };
                match value.amount {
                    Some(amount) => Ok(
                        CashFlow {
                            kind,
                            client: value.client,
                            tx: value.tx,
                            amount,
                            under_dispute: false,
                        },
                    ),
                    None => Err(Error::MissingAmount { tx: value.tx }),
                }
            },
        }
    }
}

/// A deposit or withdrawal with a sound amount becomes a cash flow that is
/// not under dispute. An unsound amount is reported first, whatever the kind
/// of event; an event of another kind has no cash flow.
impl TryFromSpecImpl<&Transaction> for CashFlow {
    open spec fn obeys_try_from_spec() -> bool {
        true
    }

    open spec fn try_from_spec(value: &Transaction) -> Result<CashFlow, Error> {
        match value.amount_error() {
            Some(e) => Err(e),
            None => match value.kind {
                TransactionType::Deposit => Ok(
                    CashFlow {
                        kind: CashFlowType::Deposit,
                        client: value.client,
                        tx: value.tx,
                        amount: value.amount->0,
                        under_dispute: false,
                    },
                ),
                TransactionType::Withdrawal => Ok(
                    CashFlow {
                        kind: CashFlowType::Withdrawal,
                        client: value.client,
                        tx: value.tx,
                        amount: value.amount->0,
                        under_dispute: false,
                    },
                ),
                _ => Err(Error::OperationNotAllowedError),
            },
        }
    }
}

/// The state of one client's funds.
#[derive(Clone, Copy, Debug)]
pub struct Account {
    pub client: u16,
    /// Funds the client may withdraw.
    pub available: Money,
    /// Funds frozen while a dispute is open.
    pub held: Money,
    /// Always `available + held`.
    pub total: Money,
    /// Set by a chargeback, never cleared: a locked account takes no event.
    pub locked: bool,
}

/// The mathematical content of an [`Account`], its balances in
/// ten-thousandths.
pub struct AccountView {
    pub client: u16,
    pub available: int,
    pub held: int,
    pub total: int,
    pub locked: bool,
}

impl AccountView {
    /// The account a client has before any event: nothing in it, unlocked.
    pub open spec fn fresh(client: u16) -> AccountView {
        AccountView { client, available: 0, held: 0, total: 0, locked: false }
    }

    /// The total is the sum of the available and the held funds.
    pub open spec fn balanced(self) -> bool {
        self.total == self.available + self.held
    }

    /// Every balance is one the ledger can hold.
    pub open spec fn in_range(self) -> bool {
        is_mantissa(self.available) && is_mantissa(self.held) && is_mantissa(self.total)
    }

    /// A deposit adds to the available funds.
    pub open spec fn deposit(self, amount: int) -> AccountView {
        AccountView {
            available: self.available + amount,
            total: self.available + amount + self.held,
            ..self
        }
    }

    /// A withdrawal takes from the available funds if they suffice, and does
    /// nothing otherwise.
    pub open spec fn withdraw(self, amount: int) -> AccountView {
        if amount <= self.available {
            AccountView {
                available: self.available - amount,
                total: self.available - amount + self.held,
                ..self
            }
        } else {
            self
        }
    }

    /// The effect of a newly admitted cash flow.
    pub open spec fn insert(self, cf: CashFlowView) -> AccountView {
        match cf.kind {
            CashFlowType::Deposit => self.deposit(cf.amount),
            CashFlowType::Withdrawal => self.withdraw(cf.amount),
        }
    }

    /// A dispute moves the amount from the available to the held funds.
    pub open spec fn dispute(self, amount: int) -> AccountView {
        AccountView { available: self.available - amount, held: self.held + amount, ..self }
    }

    /// A resolve moves the amount back from the held to the available funds.
    pub open spec fn resolve(self, amount: int) -> AccountView {
        AccountView { available: self.available + amount, held: self.held - amount, ..self }
    }

    /// A chargeback removes the amount from the held funds and from the
    /// total, and locks the account.
    pub open spec fn chargeback(self, amount: int) -> AccountView {
        AccountView { held: self.held - amount, total: self.total - amount, locked: true, ..self }
    }
}

impl View for Account {
    type V = AccountView;

    open spec fn view(&self) -> AccountView {
        AccountView {
            client: self.client,
            available: self.available@.units(),
            held: self.held@.units(),
            total: self.total@.units(),
            locked: self.locked,
        }
    }
}

/// Whether `x` is a mantissa, for a number that is at most a few of them
/// added up.
fn fits(x: i128) -> (r: bool)
    ensures
        r == is_mantissa(x as int),
{
    -MAX_MANTISSA <= x && x <= MAX_MANTISSA
}

impl Account {
    /// The balances are ones the ledger can hold, and the total is the sum of
    /// the available and the held funds.
    pub open spec fn wf(self) -> bool {
        &&& self.available.in_range()
        &&& self.held.in_range()
        &&& self.total.in_range()
        &&& self@.balanced()
    }

    /// This account, under another client's identifier.
    pub fn client(self, client: u16) -> (account: Account)
        ensures
            account == (Account { client, ..self }),
    {
        let mut account = self;
        account.client = client;
        account
    }

    /// Whether the balances that `insert` would leave are ones the ledger
    /// can hold.
    pub fn can_insert(&self, cf: &CashFlow) -> (ok: bool)
        requires
            self.wf(),
            cf.wf(),
        ensures
            ok == self@.insert(cf@).in_range(),
    {
        let amount = cf.amount.units();
        let available = self.available.units();
        let held = self.held.units();
        match cf.kind {
            CashFlowType::Deposit => fits(available + amount) && fits(available + amount + held),
            CashFlowType::Withdrawal => amount > available || (fits(available - amount) && fits(
                available - amount + held,
            )),
        }
    }

    /// Applies a newly admitted cash flow: a deposit adds its amount to the
    /// available funds; a withdrawal takes its amount from them if they
    /// suffice and is ignored otherwise.
    pub fn insert(&mut self, cf: &CashFlow)
        requires
            old(self).wf(),
            cf.wf(),
            old(self)@.insert(cf@).in_range(),
        ensures
            final(self)@ == old(self)@.insert(cf@),
            final(self).wf(),
    {
        match cf.kind {
            CashFlowType::Deposit => {
                self.available = self.available.plus(cf.amount);
                self.total = self.available.plus(self.held);
            },
            CashFlowType::Withdrawal => {
                if cf.amount.le(&self.available) {
                    self.available = self.available.minus(cf.amount);
                    self.total = self.available.plus(self.held);
                }
            },
        }
    }

    /// Whether the balances that `dispute` would leave are ones the ledger
    /// can hold.
    pub fn can_dispute(&self, cf: &CashFlow) -> (ok: bool)
        requires
            self.wf(),
            cf.wf(),
        ensures
            ok == self@.dispute(cf@.amount).in_range(),
    {
        let amount = cf.amount.units();
        fits(self.available.units() - amount) && fits(self.held.units() + amount)
    }

    /// Opens a dispute on `cf`: its amount moves from the available to the
    /// held funds, and the cash flow is marked.
    pub fn dispute(&mut self, cf: &mut CashFlow)
        requires
            old(self).wf(),
            old(cf).wf(),
            old(self)@.dispute(old(cf)@.amount).in_range(),
        ensures
            final(self)@ == old(self)@.dispute(old(cf)@.amount),
            final(self).wf(),
            *final(cf) == (CashFlow { under_dispute: true, ..*old(cf) }),
    {
        let amount = cf.amount;
        self.available = self.available.minus(amount);
        self.held = self.held.plus(amount);
        cf.under_dispute = true;
    }

    /// Whether the balances that `resolve` would leave are ones the ledger
    /// can hold.
    pub fn can_resolve(&self, cf: &CashFlow) -> (ok: bool)
        requires
            self.wf(),
            cf.wf(),
        ensures
            ok == self@.resolve(cf@.amount).in_range(),
    {
        let amount = cf.amount.units();
        fits(self.available.units() + amount) && fits(self.held.units() - amount)
    }

    /// Closes the dispute on `cf` in the client's favour: its amount moves
    /// back from the held to the available funds, and the mark is cleared.
    pub fn resolve(&mut self, cf: &mut CashFlow)
        requires
            old(self).wf(),
            old(cf).wf(),
            old(self)@.resolve(old(cf)@.amount).in_range(),
        ensures
            final(self)@ == old(self)@.resolve(old(cf)@.amount),
            final(self).wf(),
            *final(cf) == (CashFlow { under_dispute: false, ..*old(cf) }),
    {
        let amount = cf.amount;
        self.held = self.held.minus(amount);
        self.available = self.available.plus(amount);
        cf.under_dispute = false;
    }

    /// Whether the balances that `chargeback` would leave are ones the
    /// ledger can hold.
    pub fn can_chargeback(&self, cf: &CashFlow) -> (ok: bool)
        requires
            self.wf(),
            cf.wf(),
        ensures
            ok == self@.chargeback(cf@.amount).in_range(),
    {
        let amount = cf.amount.units();
        fits(self.held.units() - amount) && fits(self.total.units() - amount)
    }

    /// Closes the dispute on `cf` against the client: its amount leaves the
    /// held funds and the total, the account is locked, and the mark is
    /// cleared. The available funds stay as they are, below zero if a
    /// withdrawal has meanwhile spent what was disputed.
    pub fn chargeback(&mut self, cf: &mut CashFlow)
        requires
            old(self).wf(),
            old(cf).wf(),
            old(self)@.chargeback(old(cf)@.amount).in_range(),
        ensures
            final(self)@ == old(self)@.chargeback(old(cf)@.amount),
            final(self).wf(),
            *final(cf) == (CashFlow { under_dispute: false, ..*old(cf) }),
    {
        let amount = cf.amount;
        self.locked = true;
        self.held = self.held.minus(amount);
        self.total = self.total.minus(amount);
        cf.under_dispute = false;
    }
}

impl Default for Account {
    /// The account of client 0 before any event.
    fn default() -> (account: Account)
        ensures
            account@ == AccountView::fresh(0),
            account.wf(),
    {
        proof {
            crate::money::lemma_pow10_values();
        }
        Account {
            client: 0,
            available: Money::zero(),
            held: Money::zero(),
            total: Money::zero(),
            locked: false,
        }
    }
}

impl PartialEq for Account {
    fn eq(&self, other: &Account) -> (r: bool) {
        self.client == other.client && self.available == other.available && self.held
            == other.held && self.total == other.total && self.locked == other.locked
    }
}

impl Eq for Account {

}

/// Two accounts are equal when they name the same client, agree on the lock
/// and their balances are the same numbers.
impl PartialEqSpecImpl for Account {
    open spec fn obeys_eq_spec() -> bool {
        true
    }

    open spec fn eq_spec(&self, other: &Account) -> bool {
        &&& self.client == other.client
        &&& same_value(self.available@, other.available@)
        &&& same_value(self.held@, other.held@)
        &&& same_value(self.total@, other.total@)
        &&& self.locked == other.locked
    }
}

} // verus!
