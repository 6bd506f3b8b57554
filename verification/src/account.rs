//! Accounts and the movement of funds between two of them.

use vstd::prelude::*;

verus! {

/// A balance under an identifier. The identifier only fixes the order in
/// which the locks of two accounts are taken.
#[derive(Clone, Copy, Debug, PartialEq, Eq, Structural)]
pub struct Account {
    pub id: i32,
    pub balance: i32,
}

/// The two accounts after `amount` was asked to go from `from` to `to`:
/// debited and credited where `from` covers the amount, untouched otherwise.
pub open spec fn moved(from: Account, to: Account, amount: i32) -> (Account, Account) {
    if from.balance >= amount {
        (
            Account { id: from.id, balance: (from.balance - amount) as i32 },
            Account { id: to.id, balance: (to.balance + amount) as i32 },
        )
    } else {
        (from, to)
    }
}

/// Whether the credit of a covered transfer fits the balance's type.
pub open spec fn credit_fits(from: Account, to: Account, amount: i32) -> bool {
    from.balance >= amount ==> to.balance + amount <= i32::MAX
}

/// Moves `amount` from `from` to `to` if `from` covers it, and says whether
/// it did. Both accounts must be held exclusively by the caller.
pub fn move_funds(from: &mut Account, to: &mut Account, amount: i32) -> (covered: bool)
    requires
        amount >= 0,
        credit_fits(*old(from), *old(to), amount),
    ensures
        covered == (old(from).balance >= amount),
        (*final(from), *final(to)) == moved(*old(from), *old(to), amount),
        covered ==> old(from).balance - final(from).balance == amount,
        covered ==> final(to).balance - old(to).balance == amount,
        !covered ==> *final(from) == *old(from) && *final(to) == *old(to),
        final(from).balance + final(to).balance == old(from).balance + old(to).balance,
        final(from).id == old(from).id,
        final(to).id == old(to).id,
{
    if from.balance >= amount {
        from.balance = from.balance - amount;
        to.balance = to.balance + amount;
        true
    } else {
        false
    }
}

} // verus!
