//! The check a batch of events must pass before any of them is applied.
//!
//! Among the deposits and withdrawals no transaction identifier may occur
//! twice, and each must carry an amount that is not below zero and has at
//! most four fractional digits. Disputes, resolves and chargebacks refer to
//! an existing identifier by design and are not looked at.

use crate::dto::Transaction;
use crate::error::Error;
use std::collections::HashSet;
use vstd::prelude::*;

verus! {

/// No two deposits or withdrawals share a transaction identifier.
pub open spec fn unique_ids(ts: Seq<Transaction>) -> bool {
    forall|i: int, j: int|
        0 <= i < j < ts.len() && ts[i].is_cash_flow() && ts[j].is_cash_flow() ==> ts[i].tx
            != ts[j].tx
}

/// Every deposit and withdrawal carries a sound amount.
pub open spec fn sound_amounts(ts: Seq<Transaction>) -> bool {
    forall|j: int| 0 <= j < ts.len() && ts[j].is_cash_flow() ==> ts[j].amount_error() is None
}

/// Event `j` is a deposit or withdrawal whose identifier an earlier deposit
/// or withdrawal already carries.
pub open spec fn repeats_earlier(ts: Seq<Transaction>, j: int) -> bool {
    ts[j].is_cash_flow() && exists|i: int|
        0 <= i < j && #[trigger] ts[i].is_cash_flow() && ts[i].tx == ts[j].tx
}

/// Event `j` is a deposit or withdrawal with an unsound amount.
pub open spec fn unsound_amount(ts: Seq<Transaction>, j: int) -> bool {
    ts[j].is_cash_flow() && ts[j].amount_error() is Some
}

/// The first event at or after `from` that repeats an earlier identifier.
pub open spec fn first_repeat(ts: Seq<Transaction>, from: int) -> Option<int>
    decreases ts.len() - from,
{
    if from >= ts.len() {
        None
    } else if repeats_earlier(ts, from) {
        Some(from)
    } else {
        first_repeat(ts, from + 1)
    }
}

/// The first event at or after `from` with an unsound amount.
pub open spec fn first_unsound_amount(ts: Seq<Transaction>, from: int) -> Option<int>
    decreases ts.len() - from,
{
    if from >= ts.len() {
        None
    } else if unsound_amount(ts, from) {
        Some(from)
    } else {
        first_unsound_amount(ts, from + 1)
    }
}

/// What the batch fails on, if anything. A repeated identifier comes before
/// any unsound amount; of several offences of one sort the first in the
/// batch is reported.
pub open spec fn validation_error(ts: Seq<Transaction>) -> Option<Error> {
    match first_repeat(ts, 0) {
        Some(j) => Some(Error::DuplicateTransaction { tx: ts[j].tx }),
        None => match first_unsound_amount(ts, 0) {
            Some(j) => ts[j].amount_error(),
            None => None,
        },
    }
}

/// `first_repeat` finds the least offending index, and finds none only where
/// there is none.
pub proof fn lemma_first_repeat(ts: Seq<Transaction>, from: int)
    requires
        0 <= from,
    ensures
        match first_repeat(ts, from) {
            Some(j) => from <= j < ts.len() && repeats_earlier(ts, j) && forall|k: int|
                from <= k < j ==> !repeats_earlier(ts, k),
            None => forall|k: int| from <= k < ts.len() ==> !repeats_earlier(ts, k),
        },
    decreases ts.len() - from,
{
    if from < ts.len() && !repeats_earlier(ts, from) {
        lemma_first_repeat(ts, from + 1);
    }
}

/// `first_unsound_amount` finds the least offending index, and finds none
/// only where there is none.
pub proof fn lemma_first_unsound_amount(ts: Seq<Transaction>, from: int)
    requires
        0 <= from,
    ensures
        match first_unsound_amount(ts, from) {
            Some(j) => from <= j < ts.len() && unsound_amount(ts, j) && forall|k: int|
                from <= k < j ==> !unsound_amount(ts, k),
            None => forall|k: int| from <= k < ts.len() ==> !unsound_amount(ts, k),
        },
    decreases ts.len() - from,
{
    if from < ts.len() && !unsound_amount(ts, from) {
        lemma_first_unsound_amount(ts, from + 1);
    }
}

/// A batch passes exactly when its deposits and withdrawals carry pairwise
/// distinct identifiers and sound amounts.
pub proof fn lemma_validation_passes(ts: Seq<Transaction>)
    ensures
        validation_error(ts) is None <==> unique_ids(ts) && sound_amounts(ts),
{
    lemma_first_repeat(ts, 0);
    lemma_first_unsound_amount(ts, 0);
    if first_repeat(ts, 0) is Some {
        let j = first_repeat(ts, 0)->0;
        let i = choose|i: int| 0 <= i < j && #[trigger] ts[i].is_cash_flow() && ts[i].tx == ts[j].tx;
        assert(!unique_ids(ts));
    } else {
        assert(unique_ids(ts)) by {
            assert forall|i: int, j: int|
                0 <= i < j < ts.len() && ts[i].is_cash_flow() && ts[j].is_cash_flow() implies ts[i].tx
                != ts[j].tx by {
                assert(!repeats_earlier(ts, j));
            }
        }
        if first_unsound_amount(ts, 0) is Some {
            let j = first_unsound_amount(ts, 0)->0;
            assert(unsound_amount(ts, j));
        } else {
            assert forall|j: int| 0 <= j < ts.len() && ts[j].is_cash_flow() implies ts[j].amount_error() is None by {
                assert(!unsound_amount(ts, j));
            }
        }
    }
}

/// Checks a batch before it is applied: fails on the first deposit or
/// withdrawal that repeats the identifier of an earlier one and, where there
/// is none, on the first one whose amount is missing, has more than four
/// fractional digits or is below zero.
pub fn validate_transactions(transactions: &[Transaction]) -> (r: Result<(), Error>)
    ensures
        r == match validation_error(transactions@) {
            Some(e) => Err::<(), Error>(e),
            None => Ok(()),
        },
        r is Ok <==> unique_ids(transactions@) && sound_amounts(transactions@),
{
    broadcast use vstd::std_specs::hash::group_hash_axioms;

    let ghost ts = transactions@;
    proof {
        lemma_validation_passes(ts);
    }
    let mut seen: HashSet<u32> = HashSet::new();
    let mut i: usize = 0;
    while i < transactions.len()
        invariant
            ts == transactions@,
            0 <= i <= ts.len(),
            first_repeat(ts, 0) == first_repeat(ts, i as int),
            forall|t: u32|
                seen@.contains(t) <==> exists|k: int|
                    0 <= k < i && #[trigger] ts[k].is_cash_flow() && ts[k].tx == t,
        decreases ts.len() - i,
    {
        let t = &transactions[i];
        if t.moves_money() {
            if seen.contains(&t.tx) {
                return Err(Error::DuplicateTransaction { tx: t.tx });
            }
            seen.insert(t.tx);
        }
        i += 1;
    }
    let mut j: usize = 0;
    while j < transactions.len()
        invariant
            ts == transactions@,
            0 <= j <= ts.len(),
            first_repeat(ts, 0) is None,
            first_unsound_amount(ts, 0) == first_unsound_amount(ts, j as int),
        decreases ts.len() - j,
    {
        let t = &transactions[j];
        if t.moves_money() {
            match t.check_amount() {
                Some(e) => {
                    return Err(e);
                },
                None => {},
            }
        }
        j += 1;
    }
    Ok(())
}

} // verus!
