//! What makes a batch of events, or one event, fail.

use vstd::prelude::*;

verus! {

/// A failure of the ledger. Each variant but the first names the offending
/// transaction.
#[derive(Clone, Copy, Debug, PartialEq, Eq, Structural)]
pub enum Error {
    /// An operation was asked of a value that does not support it: a cash
    /// flow of an event that moves no money, or the settling of a deposit or
    /// withdrawal that never was recorded.
    OperationNotAllowedError,
    /// A deposit or withdrawal carries the identifier of an earlier one.
    DuplicateTransaction { tx: u32 },
    /// A deposit or withdrawal carries no amount.
    MissingAmount { tx: u32 },
    /// A deposit or withdrawal carries an amount below zero.
    NegativeAmount { tx: u32 },
    /// A deposit or withdrawal carries an amount with more than four
    /// fractional digits.
    UnsupportedScale { tx: u32 },
    /// Applying the event would take a balance beyond what the ledger can
    /// hold.
    BalanceOutOfRange { tx: u32 },
}

} // verus!
