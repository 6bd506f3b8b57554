//! A registry of accounts with one lock each, and the calls at work on them.
//!
//! Accounts and calls are named by their place in the registry. The registry
//! carries out the actions of the calls one at a time, in whatever order it
//! is asked to, so that any interleaving of several calls can be played
//! through on it. It follows the model of the world step by step.

use vstd::prelude::*;
use crate::account::move_funds;
use crate::account::Account;
use crate::engine::Action;
use crate::engine::Event;
use crate::engine::Phase;
use crate::engine::Side;
use crate::engine::Transfer;
use crate::engine::BACKOFF_MS;
use crate::engine::TIMEOUT_MS;
use crate::ledger::funds;
use crate::ledger::lemma_push;
use crate::ledger::lemma_reach_nonnegative;
use crate::ledger::lemma_reach_prefix;
use crate::ledger::lemma_settled;
use crate::ledger::reach;
use crate::ledger::total;
use crate::world::conservation;
use crate::world::lemma_advance;
use crate::world::lemma_start;
use crate::world::Call;
use crate::world::Tick;
use crate::world::World;

verus! {

/// The registry.
pub struct Bank {
    accounts: Vec<Account>,
    owner: Vec<Option<usize>>,
    calls: Vec<Call>,
}

impl View for Bank {
    type V = World;

    closed spec fn view(&self) -> World {
        World { accounts: self.accounts@, owner: self.owner@, calls: self.calls@ }
    }
}

impl Bank {
    /// The registry is sound when the world it stands for is.
    pub open spec fn wf(&self) -> bool {
        self@.wf()
    }

    /// A registry without accounts and without calls.
    pub fn new() -> (bank: Bank)
        ensures
            bank.wf(),
            bank@.accounts == Seq::<Account>::empty(),
            bank@.owner == Seq::<Option<usize>>::empty(),
            bank@.calls == Seq::<Call>::empty(),
    {
        Bank { accounts: Vec::new(), owner: Vec::new(), calls: Vec::new() }
    }

    /// How far the accounts reach together.
    fn reach(&self) -> (sum: i32)
        requires
            self.wf(),
        ensures
            0 <= sum == reach(self@.accounts),
    {
        let mut sum: i32 = 0;
        let mut place: usize = 0;
        while place < self.accounts.len()
            invariant
                place <= self.accounts.len(),
                sum == reach(self.accounts@.take(place as int)),
                reach(self.accounts@) <= i32::MAX,
            decreases self.accounts.len() - place,
        {
            let balance = self.accounts[place].balance;
            proof {
                assert(self.accounts@.take(place + 1).drop_last() =~= self.accounts@.take(
                    place as int,
                ));
                lemma_reach_prefix(self.accounts@, place + 1);
            }
            if balance > 0 {
                sum = sum + balance;
            }
            place = place + 1;
        }
        proof {
            assert(self.accounts@.take(place as int) =~= self.accounts@);
            lemma_reach_nonnegative(self.accounts@);
        }
        sum
    }

    /// Takes in an account, with its lock free, and returns its place.
    /// The account is refused, and nothing changes, where the funds of all
    /// accounts would no longer fit one balance: a credit could then overflow.
    pub fn open(&mut self, account: Account) -> (place: Option<usize>)
        requires
            old(self).wf(),
        ensures
            final(self).wf(),
            place is Some <==> reach(old(self)@.accounts) + funds(account) <= i32::MAX,
            place matches Some(at) ==> at == old(self)@.accounts.len() && final(self)@ == (World {
                accounts: old(self)@.accounts.push(account),
                owner: old(self)@.owner.push(None),
                calls: old(self)@.calls,
            }),
            place is None ==> final(self)@ == old(self)@,
    {
        let used = self.reach();
        let needed: i32 = if account.balance > 0 {
            account.balance
        } else {
            0
        };
        if needed > i32::MAX - used {
            return None;
        }
        let at = self.accounts.len();
        self.accounts.push(account);
        self.owner.push(None);
        proof {
            let before = old(self)@;
            let after = self@;
            lemma_push(before.accounts, account);
            assert forall|call: int| 0 <= call < after.calls.len() implies #[trigger] after.call_ok(
                call,
            ) by {
                assert(before.call_ok(call));
            }
            assert forall|at: int| 0 <= at < after.owner.len() implies #[trigger] after.lock_ok(
                at,
            ) by {
                if at < before.owner.len() {
                    assert(before.lock_ok(at));
                }
            }
        }
        Some(at)
    }

    /// The number of accounts.
    pub fn len(&self) -> (count: usize)
        ensures
            count == self@.accounts.len(),
    {
        self.accounts.len()
    }

    /// The account at `place`, as it stands.
    pub fn account(&self, place: usize) -> (account: Account)
        requires
            place < self@.accounts.len(),
        ensures
            account == self@.accounts[place as int],
    {
        self.accounts[place]
    }

    /// The balance of the account at `place`.
    pub fn balance(&self, place: usize) -> (balance: i32)
        requires
            place < self@.accounts.len(),
        ensures
            balance == self@.accounts[place as int].balance,
    {
        self.accounts[place].balance
    }

    /// The call that owns the lock of the account at `place`, if any does.
    pub fn holder(&self, place: usize) -> (call: Option<usize>)
        requires
            self.wf(),
            place < self@.accounts.len(),
        ensures
            call == self@.owner[place as int],
    {
        self.owner[place]
    }

    /// The number of calls that have entered.
    pub fn calls(&self) -> (count: usize)
        ensures
            count == self@.calls.len(),
    {
        self.calls.len()
    }

    /// The action that the call at `call` waits for.
    pub fn pending(&self, call: usize) -> (action: Action)
        requires
            call < self@.calls.len(),
        ensures
            action == self@.calls[call as int].machine.wants(),
    {
        self.calls[call].machine.pending()
    }

    /// What the call at `call` returned, once it is over.
    pub fn outcome(&self, call: usize) -> (result: Option<bool>)
        requires
            call < self@.calls.len(),
        ensures
            result == match self@.calls[call as int].machine.phase {
                Phase::Done(value) => Some(value),
                _ => None,
            },
    {
        self.calls[call].machine.outcome()
    }

    /// Lets a new call enter, which is to move `amount` from the account at
    /// `from` to the account at `to`, and returns its place. The call has
    /// done nothing yet.
    pub fn start(&mut self, from: usize, to: usize, amount: i32) -> (call: usize)
        requires
            old(self).wf(),
            from < old(self)@.accounts.len(),
            to < old(self)@.accounts.len(),
            amount >= 0,
            old(self)@.calls.len() < usize::MAX,
        ensures
            final(self).wf(),
            call == old(self)@.calls.len(),
            final(self)@ == old(self)@.start(from, to, amount),
    {
        let call = self.calls.len();
        let machine = Transfer::begin(amount);
        self.calls.push(Call { from, to, machine });
        proof {
            lemma_start(old(self)@, from, to, amount);
        }
        call
    }

    /// Lets the call at `call` carry out the action it waits for, in one
    /// piece, and returns what the call returned if it is over. A reading of
    /// the clock shows `elapsed` milliseconds since the call began; a pause
    /// takes no time here.
    pub fn advance(&mut self, call: usize, elapsed: u64) -> (result: Option<bool>)
        requires
            old(self).wf(),
            call < old(self)@.calls.len(),
        ensures
            final(self).wf(),
            final(self)@ == old(self)@.advance(call as int, elapsed),
            total(final(self)@.accounts) == total(old(self)@.accounts),
            result == match final(self)@.calls[call as int].machine.phase {
                Phase::Done(value) => Some(value),
                _ => None,
            },
    {
        let it = self.calls[call];
        let mut machine = it.machine;
        proof {
            assert(old(self)@.call_ok(call as int));
            lemma_advance(old(self)@, call as int, elapsed);
        }
        match machine.pending() {
            Action::ReadIds => {
                let from_id = self.accounts[it.from].id;
                let to_id = self.accounts[it.to].id;
                machine.step(Event::Ids { from_id, to_id });
            },
            Action::TryLock(side) => {
                let place = match side {
                    Side::From => it.from,
                    Side::To => it.to,
                };
                if self.owner[place].is_none() {
                    self.owner.set(place, Some(call));
                    machine.step(Event::Acquired);
                } else {
                    machine.step(Event::Busy);
                }
            },
            Action::MoveFunds(amount) => {
                let mut from = self.accounts[it.from];
                let mut to = self.accounts[it.to];
                proof {
                    lemma_settled(old(self)@.accounts, it.from as int, it.to as int, amount);
                }
                move_funds(&mut from, &mut to, amount);
                self.accounts.set(it.from, from);
                self.accounts.set(it.to, to);
                machine.step(Event::Moved);
            },
            Action::Unlock(side) => {
                let place = match side {
                    Side::From => it.from,
                    Side::To => it.to,
                };
                self.owner.set(place, None);
                machine.step(Event::Unlocked);
            },
            Action::ReadClock => {
                machine.step(Event::Elapsed(elapsed));
            },
            Action::Sleep(_) => {
                machine.step(Event::Woke);
            },
            Action::Return(_) => {},
        }
        self.calls.set(call, Call { from: it.from, to: it.to, machine });
        proof {
            assert(self@.calls =~= old(self)@.advance(call as int, elapsed).calls);
        }
        machine.outcome()
    }

    /// Carries the call at `call`, which is about to read the identifiers,
    /// through one attempt: to its end where it gets both locks, and else to
    /// the point where it has given back what it took and turns to the clock.
    fn attempt(&mut self, call: usize) -> (granted: bool)
        requires
            old(self).wf(),
            call < old(self)@.calls.len(),
            old(self)@.calls[call as int].machine.phase == Phase::Reading,
        ensures
            final(self).wf(),
            granted == old(self)@.grants(
                old(self)@.calls[call as int].from,
                old(self)@.calls[call as int].to,
            ),
            final(self)@.owner == old(self)@.owner,
            final(self)@.accounts == old(self)@.transferred(
                old(self)@.calls[call as int].from,
                old(self)@.calls[call as int].to,
                old(self)@.calls[call as int].machine.amount,
            ).accounts,
            final(self)@.calls == old(self)@.calls.update(
                call as int,
                Call {
                    machine: Transfer {
                        amount: old(self)@.calls[call as int].machine.amount,
                        phase: if granted {
                            Phase::Done(true)
                        } else {
                            Phase::Checking
                        },
                    },
                    ..old(self)@.calls[call as int]
                },
            ),
    {
        proof {
            assert(old(self)@.call_ok(call as int));
        }
        self.advance(call, 0);
        self.advance(call, 0);
        match self.pending(call) {
            Action::ReadClock => {
                return false;
            },
            _ => {},
        }
        self.advance(call, 0);
        match self.pending(call) {
            Action::Unlock(_) => {
                self.advance(call, 0);
                return false;
            },
            _ => {},
        }
        self.advance(call, 0);
        self.advance(call, 0);
        self.advance(call, 0);
        true
    }

    /// Moves `amount` from the account at `from` to the account at `to` if
    /// the paying account covers it, as one call that runs alone from its
    /// start to its end, and returns what the call returned.
    ///
    /// The call gets both locks at its first attempt where they are locks of
    /// two accounts and both are free; it then moves the funds, or leaves the
    /// balances where they do not cover the amount, and returns `true`. Else
    /// no waiting helps, since nothing else runs meanwhile: the call tries
    /// again after every pause until the pauses add up to the waiting budget,
    /// and returns `false` with nothing changed. The call leaves no trace
    /// among the calls of the registry.
    pub fn transfer(&mut self, from: usize, to: usize, amount: i32) -> (done: bool)
        requires
            old(self).wf(),
            from < old(self)@.accounts.len(),
            to < old(self)@.accounts.len(),
            amount >= 0,
            old(self)@.calls.len() < usize::MAX,
        ensures
            final(self).wf(),
            done == old(self)@.grants(from, to),
            final(self)@ == old(self)@.transferred(from, to, amount),
            total(final(self)@.accounts) == total(old(self)@.accounts),
    {
        let call = self.start(from, to, amount);
        let ghost entered = self@;
        let mut waited: u64 = 0;
        let mut result: Option<bool> = None;
        while result.is_none()
            invariant
                self.wf(),
                waited < TIMEOUT_MS + BACKOFF_MS,
                call == old(self)@.calls.len(),
                entered == old(self)@.start(from, to, amount),
                match result {
                    None => self@ == entered,
                    Some(value) => {
                        &&& value == entered.grants(from, to)
                        &&& self@.owner == entered.owner
                        &&& self@.accounts == old(self)@.transferred(from, to, amount).accounts
                        &&& self@.calls == entered.calls.update(
                            call as int,
                            Call { from, to, machine: Transfer { amount, phase: Phase::Done(value) } },
                        )
                    },
                },
            decreases
                if result is None {
                    1 + TIMEOUT_MS + BACKOFF_MS - waited
                } else {
                    0
                },
        {
            if self.attempt(call) {
                result = Some(true);
            } else {
                let ended = self.advance(call, waited);
                if ended.is_some() {
                    result = ended;
                } else {
                    self.advance(call, waited);
                    assert(self@.calls =~= entered.calls);
                    waited = waited + BACKOFF_MS;
                }
            }
        }
        self.calls.pop();
        proof {
            let before = old(self)@;
            let after = self@;
            assert(after.calls =~= before.calls);
            assert forall|other: int| 0 <= other < after.calls.len() implies #[trigger] after.call_ok(
                other,
            ) by {
                assert(before.call_ok(other));
            }
            assert forall|place: int| 0 <= place < after.owner.len() implies #[trigger] after.lock_ok(
                place,
            ) by {
                assert(before.lock_ok(place));
            }
            if before.grants(from, to) {
                lemma_settled(before.accounts, from as int, to as int, amount);
            }
        }
        result.unwrap()
    }

    /// Carries out one tick: lets a call enter, or lets a call carry out the
    /// action it waits for. A tick that names a place that does not exist or
    /// a negative amount changes nothing.
    pub fn apply(&mut self, tick: Tick)
        requires
            old(self).wf(),
        ensures
            final(self).wf(),
            final(self)@ == old(self)@.apply(tick),
            total(final(self)@.accounts) == total(old(self)@.accounts),
    {
        match tick {
            Tick::Start { from, to, amount } => {
                if from < self.accounts.len() && to < self.accounts.len() && amount >= 0
                    && self.calls.len() < usize::MAX {
                    self.start(from, to, amount);
                }
            },
            Tick::Advance { call, elapsed } => {
                if call < self.calls.len() {
                    self.advance(call, elapsed);
                }
            },
        }
    }

    /// Carries out the ticks of `schedule`, one after the other. Whatever
    /// the schedule, the sum of the balances is afterwards what it was.
    pub fn run(&mut self, schedule: &Vec<Tick>)
        requires
            old(self).wf(),
        ensures
            final(self).wf(),
            final(self)@ == old(self)@.run(schedule@),
            total(final(self)@.accounts) == total(old(self)@.accounts),
            final(self)@.accounts.len() == old(self)@.accounts.len(),
    {
        let mut done: usize = 0;
        while done < schedule.len()
            invariant
                done <= schedule.len(),
                self.wf(),
                self@ == old(self)@.run(schedule@.take(done as int)),
            decreases schedule.len() - done,
        {
            self.apply(schedule[done]);
            proof {
                assert(schedule@.take(done + 1).drop_last() =~= schedule@.take(done as int));
            }
            done = done + 1;
        }
        proof {
            assert(schedule@.take(done as int) =~= schedule@);
            conservation(old(self)@, schedule@);
        }
    }
}

} // verus!
