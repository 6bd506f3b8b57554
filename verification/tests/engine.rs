use transfer_engine::engine::lock_order;
use transfer_engine::engine::Action;
use transfer_engine::engine::Event;
use transfer_engine::engine::Phase;
use transfer_engine::engine::Side;
use transfer_engine::engine::Transfer;
use transfer_engine::engine::BACKOFF_MS;
use transfer_engine::engine::TIMEOUT_MS;

#[test]
fn budget_and_pause() {
    assert_eq!(TIMEOUT_MS, 1000);
    assert_eq!(BACKOFF_MS, 10);
}

#[test]
fn other_side() {
    assert_eq!(Side::From.other(), Side::To);
    assert_eq!(Side::To.other(), Side::From);
}

#[test]
fn smaller_identifier_comes_first() {
    assert_eq!(lock_order(1, 2), Side::From);
    assert_eq!(lock_order(2, 1), Side::To);
    assert_eq!(lock_order(-3, 0), Side::From);
    assert_eq!(lock_order(i32::MAX, i32::MIN), Side::To);
}

#[test]
fn equal_identifiers_lock_the_receiver_first() {
    assert_eq!(lock_order(5, 5), Side::To);
}

#[test]
fn a_new_call_reads_the_identifiers() {
    let call = Transfer::begin(100);
    assert_eq!(call, Transfer { amount: 100, phase: Phase::Reading });
    assert_eq!(call.pending(), Action::ReadIds);
    assert_eq!(call.outcome(), None);
}

#[test]
fn both_directions_ask_for_the_lower_account_first() {
    let mut forth = Transfer::begin(100);
    let mut back = Transfer::begin(200);
    // Account A has identifier 1, account B has identifier 2.
    assert_eq!(forth.step(Event::Ids { from_id: 1, to_id: 2 }), Action::TryLock(Side::From));
    assert_eq!(back.step(Event::Ids { from_id: 2, to_id: 1 }), Action::TryLock(Side::To));
    // Only with the first in hand does either ask for the second.
    assert_eq!(forth.step(Event::Acquired), Action::TryLock(Side::To));
    assert_eq!(back.step(Event::Acquired), Action::TryLock(Side::From));
}

#[test]
fn a_granted_call_moves_releases_and_returns_true() {
    let mut call = Transfer::begin(250);
    assert_eq!(call.step(Event::Ids { from_id: 8, to_id: 3 }), Action::TryLock(Side::To));
    assert_eq!(call.step(Event::Acquired), Action::TryLock(Side::From));
    assert_eq!(call.step(Event::Acquired), Action::MoveFunds(250));
    assert_eq!(call.step(Event::Moved), Action::Unlock(Side::From));
    assert_eq!(call.step(Event::Unlocked), Action::Unlock(Side::To));
    assert_eq!(call.outcome(), None);
    assert_eq!(call.step(Event::Unlocked), Action::Return(true));
    assert_eq!(call.outcome(), Some(true));
    assert_eq!(call.phase, Phase::Done(true));
}

#[test]
fn a_busy_first_lock_leads_to_the_clock() {
    let mut call = Transfer::begin(1);
    call.step(Event::Ids { from_id: 1, to_id: 2 });
    assert_eq!(call.step(Event::Busy), Action::ReadClock);
    assert_eq!(call.phase, Phase::Checking);
}

#[test]
fn a_busy_second_lock_gives_the_first_back() {
    let mut call = Transfer::begin(1);
    call.step(Event::Ids { from_id: 1, to_id: 2 });
    call.step(Event::Acquired);
    assert_eq!(call.step(Event::Busy), Action::Unlock(Side::From));
    assert_eq!(call.step(Event::Unlocked), Action::ReadClock);
}

#[test]
fn the_call_pauses_while_the_budget_lasts() {
    let readings: [u64; 4] = [0, 10, 500, 999];
    for millis in readings {
        let mut call = Transfer { amount: 1, phase: Phase::Checking };
        assert_eq!(call.step(Event::Elapsed(millis)), Action::Sleep(10));
        assert_eq!(call.step(Event::Woke), Action::ReadIds);
        assert_eq!(call.outcome(), None);
    }
}

#[test]
fn the_call_gives_up_when_the_budget_is_spent() {
    let readings: [u64; 4] = [1000, 1001, 5000, u64::MAX];
    for millis in readings {
        let mut call = Transfer { amount: 1, phase: Phase::Checking };
        assert_eq!(call.step(Event::Elapsed(millis)), Action::Return(false));
        assert_eq!(call.outcome(), Some(false));
    }
}

#[test]
fn an_event_out_of_turn_is_ignored() {
    let mut call = Transfer::begin(30);
    assert_eq!(call.step(Event::Acquired), Action::ReadIds);
    assert_eq!(call.step(Event::Elapsed(2000)), Action::ReadIds);
    assert_eq!(call.phase, Phase::Reading);
    call.step(Event::Ids { from_id: 4, to_id: 9 });
    assert_eq!(call.step(Event::Woke), Action::TryLock(Side::From));
    assert_eq!(call.step(Event::Ids { from_id: 9, to_id: 4 }), Action::TryLock(Side::From));
    assert_eq!(call.step(Event::Moved), Action::TryLock(Side::From));
}

#[test]
fn a_call_that_is_over_stays_over() {
    let mut call = Transfer { amount: 30, phase: Phase::Done(false) };
    assert_eq!(call.step(Event::Woke), Action::Return(false));
    assert_eq!(call.step(Event::Acquired), Action::Return(false));
    let mut call = Transfer { amount: 30, phase: Phase::Done(true) };
    assert_eq!(call.step(Event::Elapsed(0)), Action::Return(true));
}

#[test]
fn a_call_with_the_budget_spent_is_over_within_seven_answers() {
    let mut call = Transfer { amount: 5, phase: Phase::Sleeping };
    let answers = [
        Event::Woke,
        Event::Ids { from_id: 1, to_id: 2 },
        Event::Acquired,
        Event::Busy,
        Event::Unlocked,
        Event::Elapsed(1000),
    ];
    for event in answers {
        assert_eq!(call.outcome(), None);
        call.step(event);
    }
    assert_eq!(call.outcome(), Some(false));
}
