use transfer_engine::account::move_funds;
use transfer_engine::account::Account;

#[test]
fn covered_amount_is_debited_and_credited() {
    let mut from = Account { id: 1, balance: 1000 };
    let mut to = Account { id: 2, balance: 1000 };
    assert!(move_funds(&mut from, &mut to, 100));
    assert_eq!(from, Account { id: 1, balance: 900 });
    assert_eq!(to, Account { id: 2, balance: 1100 });
}

#[test]
fn debit_equals_credit_equals_amount() {
    let amounts: [i32; 5] = [0, 1, 10, 299, 300];
    for amount in amounts {
        let mut from = Account { id: 7, balance: 300 };
        let mut to = Account { id: 3, balance: -40 };
        assert!(move_funds(&mut from, &mut to, amount));
        assert_eq!(300 - from.balance, amount);
        assert_eq!(to.balance - (-40), amount);
        assert_eq!(from.balance + to.balance, 260);
    }
}

#[test]
fn uncovered_amount_changes_nothing() {
    let mut from = Account { id: 1, balance: 300 };
    let mut to = Account { id: 2, balance: 500 };
    assert!(!move_funds(&mut from, &mut to, 1000));
    assert_eq!(from, Account { id: 1, balance: 300 });
    assert_eq!(to, Account { id: 2, balance: 500 });
}

#[test]
fn exact_balance_can_be_moved() {
    let mut from = Account { id: 1, balance: 300 };
    let mut to = Account { id: 2, balance: 0 };
    assert!(move_funds(&mut from, &mut to, 300));
    assert_eq!(from.balance, 0);
    assert_eq!(to.balance, 300);
    assert!(!move_funds(&mut from, &mut to, 1));
    assert_eq!(from.balance, 0);
    assert_eq!(to.balance, 300);
}

#[test]
fn negative_balance_covers_nothing() {
    let amounts: [i32; 2] = [0, 1];
    for amount in amounts {
        let mut from = Account { id: 1, balance: -5 };
        let mut to = Account { id: 2, balance: 5 };
        assert!(!move_funds(&mut from, &mut to, amount));
        assert_eq!(from.balance, -5);
        assert_eq!(to.balance, 5);
    }
}

#[test]
fn nothing_moved_is_covered_by_nothing() {
    let mut from = Account { id: 1, balance: 0 };
    let mut to = Account { id: 2, balance: 5 };
    assert!(move_funds(&mut from, &mut to, 0));
    assert_eq!(from.balance, 0);
    assert_eq!(to.balance, 5);
}

#[test]
fn credit_up_to_the_largest_balance() {
    let mut from = Account { id: 1, balance: 47 };
    let mut to = Account { id: 2, balance: i32::MAX - 47 };
    assert!(move_funds(&mut from, &mut to, 47));
    assert_eq!(from.balance, 0);
    assert_eq!(to.balance, i32::MAX);
}

#[test]
fn identifiers_stay() {
    let mut from = Account { id: -9, balance: 10 };
    let mut to = Account { id: 9, balance: 10 };
    move_funds(&mut from, &mut to, 4);
    move_funds(&mut to, &mut from, 40);
    assert_eq!(from.id, -9);
    assert_eq!(to.id, 9);
    assert_eq!(from.balance, 6);
    assert_eq!(to.balance, 14);
}
