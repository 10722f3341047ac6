//! What holds of the ledger whatever the events: theorems about the state
//! that the engine's contracts speak of.

use crate::domain::AccountView;
use crate::dto::{Transaction, TransactionType};
use crate::engine::{snapshot, LedgerView, Outcome, CLIENTS};
use vstd::prelude::*;

verus! {

/// Each operation on an account keeps its total equal to the sum of its
/// available and held funds.
pub proof fn lemma_account_stays_balanced(account: AccountView, amount: int)
    requires
        account.balanced(),
    ensures
        account.deposit(amount).balanced(),
        account.withdraw(amount).balanced(),
        account.dispute(amount).balanced(),
        account.resolve(amount).balanced(),
        account.chargeback(amount).balanced(),
{
}

/// One event keeps every account of the ledger balanced and filed under its
/// own client.
pub proof fn lemma_apply_keeps_balance(l: LedgerView, t: Transaction)
    requires
        l.balanced(),
    ensures
        l.apply(t).balanced(),
{
    let after = l.apply(t);
    assert forall|client: u16| after.accounts.contains_key(client) implies (
    #[trigger] after.accounts[client]).balanced() && after.accounts[client].client == client by {
        if client != t.client {
            assert(l.accounts.contains_key(client));
            assert(after.accounts[client] == l.accounts[client]);
        }
    }
}

/// At every point of a replay, every account of the ledger is balanced: its
/// total is exactly its available plus its held funds.
pub proof fn lemma_replay_keeps_balance(l: LedgerView, ts: Seq<Transaction>)
    requires
        l.balanced(),
    ensures
        l.replay(ts).balanced(),
    decreases ts.len(),
{
    if ts.len() > 0 {
        lemma_replay_keeps_balance(l, ts.drop_last());
        lemma_apply_keeps_balance(l.replay(ts.drop_last()), ts.last());
    }
}

/// An event leaves a locked account as it is, whichever client the event is
/// for. One for the locked account's own client is turned away and leaves
/// the whole ledger as it is.
pub proof fn lemma_locked_account_is_frozen(l: LedgerView, t: Transaction, client: u16)
    requires
        l.accounts.contains_key(client),
        l.accounts[client].locked,
    ensures
        l.apply(t).accounts.contains_key(client),
        l.apply(t).accounts[client] == l.accounts[client],
        t.client == client ==> l.apply(t) == l && l.outcome(t) == Outcome::AccountLocked
            && l.failure(t) is None,
{
    if t.client == client {
        assert(l.apply(t).accounts =~= l.accounts);
    }
}

/// Once an account is locked, no sequence of events changes it.
pub proof fn lemma_locked_account_stays_frozen(l: LedgerView, ts: Seq<Transaction>, client: u16)
    requires
        l.accounts.contains_key(client),
        l.accounts[client].locked,
    ensures
        l.replay(ts).accounts.contains_key(client),
        l.replay(ts).accounts[client] == l.accounts[client],
    decreases ts.len(),
{
    if ts.len() > 0 {
        lemma_locked_account_stays_frozen(l, ts.drop_last(), client);
        lemma_locked_account_is_frozen(l.replay(ts.drop_last()), ts.last(), client);
    }
}

/// A dispute of a cash flow that is under dispute already changes no
/// account on file and no cash flow: at most the client of the event gets a
/// fresh account.
pub proof fn lemma_repeated_dispute_is_skipped(l: LedgerView, t: Transaction)
    requires
        t.kind == TransactionType::Dispute,
        l.cash_flows.contains_key(t.tx),
        l.cash_flows[t.tx].under_dispute,
    ensures
        l.apply(t) == l.touch(t.client),
        l.apply(t).cash_flows == l.cash_flows,
        forall|client: u16|
            l.accounts.contains_key(client) ==> l.apply(t).accounts.contains_key(client)
                && l.apply(t).accounts[client] == l.accounts[client],
        l.accounts.contains_key(t.client) ==> l.apply(t) == l,
{
    assert(l.apply(t).accounts =~= l.touch(t.client).accounts);
    if l.accounts.contains_key(t.client) {
        assert(l.touch(t.client).accounts =~= l.accounts);
    }
}

/// Applying a dispute twice in a row is the same as applying it once.
pub proof fn lemma_dispute_is_idempotent(l: LedgerView, t: Transaction)
    requires
        t.kind == TransactionType::Dispute,
    ensures
        l.apply(t).apply(t) == l.apply(t),
{
    let once = l.apply(t);
    let twice = once.apply(t);
    assert(twice.accounts =~= once.accounts);
    assert(twice.cash_flows =~= once.cash_flows);
}

/// A resolve that follows a dispute of the same transaction by the same
/// client at once undoes it: the account and the cash flow are as they were
/// before the dispute. This holds unless the cash flow was under dispute
/// already, in which case the resolve closes that earlier dispute.
pub proof fn lemma_resolve_undoes_dispute(l: LedgerView, d: Transaction, r: Transaction)
    requires
        d.kind == TransactionType::Dispute,
        r.kind == TransactionType::Resolve,
        d.client == r.client,
        d.tx == r.tx,
        l.outcome(d) != Outcome::AlreadyDisputed,
    ensures
        l.apply(d).apply(r) == l.touch(d.client),
        l.apply(d).apply(r).account(d.client) == l.account(d.client),
        l.apply(d).apply(r).cash_flows == l.cash_flows,
        l.accounts.contains_key(d.client) ==> l.apply(d).apply(r) == l,
{
    let after = l.apply(d).apply(r);
    assert(after.accounts =~= l.touch(d.client).accounts);
    assert(after.cash_flows =~= l.cash_flows);
    if l.accounts.contains_key(d.client) {
        assert(l.touch(d.client).accounts =~= l.accounts);
    }
}

/// The snapshot lists accounts on file only, each under its own client, in
/// strictly ascending order of client: no client occurs twice.
pub proof fn lemma_snapshot_is_sorted(accounts: Map<u16, AccountView>, bound: nat)
    requires
        bound <= CLIENTS,
        forall|client: u16|
            accounts.contains_key(client) ==> (#[trigger] accounts[client]).client == client,
    ensures
        forall|i: int|
            0 <= i < snapshot(accounts, bound).len() ==> {
                let row = #[trigger] snapshot(accounts, bound)[i];
                row.client < bound && accounts.contains_key(row.client) && accounts[row.client]
                    == row
            },
        forall|i: int, j: int|
            0 <= i < j < snapshot(accounts, bound).len() ==> snapshot(accounts, bound)[i].client
                < snapshot(accounts, bound)[j].client,
    decreases bound,
{
    if bound > 0 {
        lemma_snapshot_is_sorted(accounts, (bound - 1) as nat);
        let rows = snapshot(accounts, bound);
        let shorter = snapshot(accounts, (bound - 1) as nat);
        let last = (bound - 1) as u16;
        assert forall|i: int| 0 <= i < rows.len() implies {
            let row = #[trigger] rows[i];
            row.client < bound && accounts.contains_key(row.client) && accounts[row.client] == row
        } by {
            if i < shorter.len() {
                assert(rows[i] == shorter[i]);
            } else {
                assert(accounts.contains_key(last));
                assert(rows[i] == accounts[last]);
                assert(last == bound - 1);
            }
        }
        assert forall|i: int, j: int| 0 <= i < j < rows.len() implies rows[i].client
            < rows[j].client by {
            assert(rows[i] == shorter[i]);
            if j < shorter.len() {
                assert(rows[j] == shorter[j]);
            } else {
                assert(accounts.contains_key(last));
                assert(rows[j] == accounts[last]);
                assert(last == bound - 1);
            }
        }
    }
}

/// The snapshot lists every account on file whose client is below the bound.
pub proof fn lemma_snapshot_is_complete(accounts: Map<u16, AccountView>, bound: nat, client: u16)
    requires
        bound <= CLIENTS,
        accounts.contains_key(client),
        client < bound,
    ensures
        snapshot(accounts, bound).contains(accounts[client]),
    decreases bound,
{
    let rows = snapshot(accounts, bound);
    let last = (bound - 1) as u16;
    if bound - 1 == client {
        assert(rows[rows.len() - 1] == accounts[client]);
    } else {
        lemma_snapshot_is_complete(accounts, (bound - 1) as nat, client);
        let shorter = snapshot(accounts, (bound - 1) as nat);
        let i = choose|i: int| 0 <= i < shorter.len() && shorter[i] == accounts[client];
        assert(rows[i] == accounts[client]);
    }
}

} // verus!
