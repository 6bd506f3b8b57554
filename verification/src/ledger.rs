//! Sums over a row of accounts, and how they change when one entry does.

use vstd::prelude::*;
use crate::account::Account;
use crate::account::moved;

verus! {

/// The sum of the balances.
pub open spec fn total(accounts: Seq<Account>) -> int
    decreases accounts.len(),
{
    if accounts.len() == 0 {
        0
    } else {
        total(accounts.drop_last()) + accounts.last().balance
    }
}

/// What an account can give away: its balance where that is positive.
pub open spec fn funds(account: Account) -> int {
    if account.balance > 0 {
        account.balance as int
    } else {
        0
    }
}

/// The sum of what the accounts can give away. No balance can ever grow
/// beyond it by transfers among them.
pub open spec fn reach(accounts: Seq<Account>) -> int
    decreases accounts.len(),
{
    if accounts.len() == 0 {
        0
    } else {
        reach(accounts.drop_last()) + funds(accounts.last())
    }
}

/// Replacing one entry changes the total by the difference of the balances.
pub proof fn lemma_total_update(accounts: Seq<Account>, i: int, account: Account)
    requires
        0 <= i < accounts.len(),
    ensures
        total(accounts.update(i, account)) == total(accounts) - accounts[i].balance
            + account.balance,
    decreases accounts.len(),
{
    let after = accounts.update(i, account);
    if i == accounts.len() - 1 {
        assert(after.drop_last() =~= accounts.drop_last());
    } else {
        assert(after.drop_last() =~= accounts.drop_last().update(i, account));
        lemma_total_update(accounts.drop_last(), i, account);
    }
}

/// Replacing one entry changes the reach by the difference of the funds.
pub proof fn lemma_reach_update(accounts: Seq<Account>, i: int, account: Account)
    requires
        0 <= i < accounts.len(),
    ensures
        reach(accounts.update(i, account)) == reach(accounts) - funds(accounts[i]) + funds(
            account,
        ),
    decreases accounts.len(),
{
    let after = accounts.update(i, account);
    if i == accounts.len() - 1 {
        assert(after.drop_last() =~= accounts.drop_last());
    } else {
        assert(after.drop_last() =~= accounts.drop_last().update(i, account));
        lemma_reach_update(accounts.drop_last(), i, account);
    }
}

/// The reach is never negative.
pub proof fn lemma_reach_nonnegative(accounts: Seq<Account>)
    ensures
        reach(accounts) >= 0,
    decreases accounts.len(),
{
    if accounts.len() > 0 {
        lemma_reach_nonnegative(accounts.drop_last());
    }
}

/// Two different accounts cannot give away more together than the whole row.
pub proof fn lemma_reach_covers_pair(accounts: Seq<Account>, i: int, j: int)
    requires
        0 <= i < accounts.len(),
        0 <= j < accounts.len(),
        i != j,
    ensures
        funds(accounts[i]) + funds(accounts[j]) <= reach(accounts),
{
    let empty = Account { id: 0, balance: 0 };
    let without_i = accounts.update(i, empty);
    lemma_reach_update(accounts, i, empty);
    lemma_reach_update(without_i, j, empty);
    lemma_reach_nonnegative(without_i.update(j, empty));
}

/// The row after `amount` was asked to go from the account at `from` to the
/// account at `to`.
pub open spec fn settled(accounts: Seq<Account>, from: int, to: int, amount: i32) -> Seq<Account> {
    let pair = moved(accounts[from], accounts[to], amount);
    accounts.update(from, pair.0).update(to, pair.1)
}

/// A movement between two different accounts of a row whose reach fits the
/// balance's type does not overflow, keeps the total, and does not widen the
/// reach.
pub proof fn lemma_settled(accounts: Seq<Account>, from: int, to: int, amount: i32)
    requires
        0 <= from < accounts.len(),
        0 <= to < accounts.len(),
        from != to,
        amount >= 0,
        reach(accounts) <= i32::MAX,
    ensures
        accounts[from].balance >= amount ==> accounts[to].balance + amount <= i32::MAX,
        total(settled(accounts, from, to, amount)) == total(accounts),
        reach(settled(accounts, from, to, amount)) <= reach(accounts),
{
    let pair = moved(accounts[from], accounts[to], amount);
    let debited = accounts.update(from, pair.0);
    lemma_reach_covers_pair(accounts, from, to);
    lemma_total_update(accounts, from, pair.0);
    lemma_total_update(debited, to, pair.1);
    lemma_reach_update(accounts, from, pair.0);
    lemma_reach_update(debited, to, pair.1);
}

/// A row with one more account reaches further by that account's funds, and
/// its total grows by that account's balance.
pub proof fn lemma_push(accounts: Seq<Account>, account: Account)
    ensures
        reach(accounts.push(account)) == reach(accounts) + funds(account),
        total(accounts.push(account)) == total(accounts) + account.balance,
{
    assert(accounts.push(account).drop_last() =~= accounts);
}

/// The first accounts of a row reach no further than the whole row.
pub proof fn lemma_reach_prefix(accounts: Seq<Account>, count: int)
    requires
        0 <= count <= accounts.len(),
    ensures
        0 <= reach(accounts.take(count)) <= reach(accounts),
    decreases accounts.len(),
{
    lemma_reach_nonnegative(accounts.take(count));
    if count == accounts.len() {
        assert(accounts.take(count) =~= accounts);
    } else {
        assert(accounts.drop_last().take(count) =~= accounts.take(count));
        lemma_reach_prefix(accounts.drop_last(), count);
    }
}

} // verus!
