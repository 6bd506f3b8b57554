//! Many calls at work on one row of accounts: the model that the registry
//! implements, and what holds of it however the calls are interleaved.
//!
//! Every account has one lock, which at most one call owns. A tick lets one
//! call carry out the action it waits for, in one piece. Any run of several
//! threads is some sequence of such ticks.

use vstd::prelude::*;
use crate::account::Account;
use crate::engine::lower_first;
use crate::engine::Action;
use crate::engine::Event;
use crate::engine::Phase;
use crate::engine::Side;
use crate::engine::Transfer;
use crate::engine::TIMEOUT_MS;
use crate::ledger::lemma_settled;
use crate::ledger::reach;
use crate::ledger::settled;
use crate::ledger::total;

verus! {

/// One call in flight: the places of its two accounts in the row, and where
/// it stands.
#[derive(Clone, Copy, Debug, PartialEq, Eq, Structural)]
pub struct Call {
    pub from: usize,
    pub to: usize,
    pub machine: Transfer,
}

impl Call {
    /// The place of the account on `side`.
    pub open spec fn place(self, side: Side) -> usize {
        match side {
            Side::From => self.from,
            Side::To => self.to,
        }
    }

    /// Whether the call holds the lock of the account at `place`.
    pub open spec fn holds_place(self, place: int) -> bool {
        ||| self.machine.holds(Side::From) && self.from == place
        ||| self.machine.holds(Side::To) && self.to == place
    }
}

/// One move of a schedule.
#[derive(Clone, Copy, Debug, PartialEq, Eq, Structural)]
pub enum Tick {
    /// A new call enters.
    Start { from: usize, to: usize, amount: i32 },
    /// A call carries out the action it waits for. Where that is to read the
    /// clock, the clock shows `elapsed` milliseconds since the call began.
    Advance { call: usize, elapsed: u64 },
}

/// The accounts, the owner of each account's lock, and the calls so far.
pub struct World {
    pub accounts: Seq<Account>,
    pub owner: Seq<Option<usize>>,
    pub calls: Seq<Call>,
}

impl World {
    /// What must hold of the call at `call`.
    pub open spec fn call_ok(self, call: int) -> bool {
        let it = self.calls[call];
        &&& it.from < self.accounts.len()
        &&& it.to < self.accounts.len()
        &&& it.machine.amount >= 0
        &&& it.machine.holds(Side::From) ==> self.owner[it.from as int] == Some(call as usize)
        &&& it.machine.holds(Side::To) ==> self.owner[it.to as int] == Some(call as usize)
        &&& it.machine.holds(Side::From) && it.machine.holds(Side::To) ==> it.from != it.to
        &&& it.machine.first() matches Some(first) ==> first == lower_first(
            self.accounts[it.from as int].id,
            self.accounts[it.to as int].id,
        )
    }

    /// What must hold of the lock at `place`.
    pub open spec fn lock_ok(self, place: int) -> bool {
        self.owner[place] matches Some(call) ==> call < self.calls.len()
            && self.calls[call as int].holds_place(place)
    }

    /// The world is sound: every lock that a call counts as held is owned by
    /// that call and the other way round, a call holds both sides only of two
    /// different accounts, every attempt goes by the identifiers as they
    /// stand, and no credit can overflow.
    pub open spec fn wf(self) -> bool {
        &&& self.owner.len() == self.accounts.len()
        &&& self.calls.len() <= usize::MAX
        &&& reach(self.accounts) <= i32::MAX
        &&& forall|call: int| 0 <= call < self.calls.len() ==> #[trigger] self.call_ok(call)
        &&& forall|place: int| 0 <= place < self.owner.len() ==> #[trigger] self.lock_ok(place)
    }

    /// The world after the call at `call` has been told of `event`.
    pub open spec fn told(self, call: int, event: Event) -> World {
        let it = self.calls[call];
        World {
            calls: self.calls.update(call, Call { machine: it.machine.next(event), ..it }),
            ..self
        }
    }

    /// The world with one more call, which waits to read the identifiers.
    pub open spec fn start(self, from: usize, to: usize, amount: i32) -> World {
        World {
            calls: self.calls.push(
                Call { from, to, machine: Transfer { amount, phase: Phase::Reading } },
            ),
            ..self
        }
    }

    /// The world after the call at `call` has carried out the action it waits
    /// for. A call that is over changes nothing.
    pub open spec fn advance(self, call: int, elapsed: u64) -> World {
        let it = self.calls[call];
        match it.machine.wants() {
            Action::ReadIds => self.told(
                call,
                Event::Ids {
                    from_id: self.accounts[it.from as int].id,
                    to_id: self.accounts[it.to as int].id,
                },
            ),
            Action::TryLock(side) => {
                let place = it.place(side) as int;
                if self.owner[place] is None {
                    World { owner: self.owner.update(place, Some(call as usize)), ..self }.told(
                        call,
                        Event::Acquired,
                    )
                } else {
                    self.told(call, Event::Busy)
                }
            },
            Action::MoveFunds(amount) => World {
                accounts: settled(self.accounts, it.from as int, it.to as int, amount),
                ..self
            }.told(call, Event::Moved),
            Action::Unlock(side) => World {
                owner: self.owner.update(it.place(side) as int, None),
                ..self
            }.told(call, Event::Unlocked),
            Action::ReadClock => self.told(call, Event::Elapsed(elapsed)),
            Action::Sleep(_) => self.told(call, Event::Woke),
            Action::Return(_) => self,
        }
    }

    /// Whether `tick` can be carried out here.
    pub open spec fn admits(self, tick: Tick) -> bool {
        match tick {
            Tick::Start { from, to, amount } => {
                &&& from < self.accounts.len()
                &&& to < self.accounts.len()
                &&& amount >= 0
                &&& self.calls.len() < usize::MAX
            },
            Tick::Advance { call, elapsed } => call < self.calls.len(),
        }
    }

    /// The world after `tick`. A tick that cannot be carried out changes
    /// nothing.
    pub open spec fn apply(self, tick: Tick) -> World {
        if self.admits(tick) {
            match tick {
                Tick::Start { from, to, amount } => self.start(from, to, amount),
                Tick::Advance { call, elapsed } => self.advance(call as int, elapsed),
            }
        } else {
            self
        }
    }

    /// The world after the ticks of `schedule`, one after the other.
    pub open spec fn run(self, schedule: Seq<Tick>) -> World
        decreases schedule.len(),
    {
        if schedule.len() == 0 {
            self
        } else {
            self.run(schedule.drop_last()).apply(schedule.last())
        }
    }

    /// Whether an attempt on these two accounts gets both locks: they are two
    /// accounts, and no call owns the lock of either.
    pub open spec fn grants(self, from: usize, to: usize) -> bool {
        &&& from != to
        &&& self.owner[from as int] is None
        &&& self.owner[to as int] is None
    }

    /// The world after a call that ran alone from its start to its end: the
    /// funds are moved where the call got both locks and the paying account
    /// covers the amount, and nothing else has changed.
    pub open spec fn transferred(self, from: usize, to: usize, amount: i32) -> World {
        if self.grants(from, to) {
            World { accounts: settled(self.accounts, from as int, to as int, amount), ..self }
        } else {
            self
        }
    }

    /// The identifiers of the accounts, in their places.
    pub open spec fn ids(self) -> Seq<i32> {
        Seq::new(self.accounts.len(), |place: int| self.accounts[place].id)
    }
}

/// A new call keeps the world sound.
pub proof fn lemma_start(world: World, from: usize, to: usize, amount: i32)
    requires
        world.wf(),
        world.admits(Tick::Start { from, to, amount }),
    ensures
        world.start(from, to, amount).wf(),
{
    let after = world.start(from, to, amount);
    assert forall|call: int| 0 <= call < after.calls.len() implies #[trigger] after.call_ok(
        call,
    ) by {
        if call < world.calls.len() {
            assert(world.call_ok(call));
        }
    }
    assert forall|place: int| 0 <= place < after.owner.len() implies #[trigger] after.lock_ok(
        place,
    ) by {
        assert(world.lock_ok(place));
    }
}

/// One action of one call keeps the world sound, keeps every identifier and
/// the sum of the balances, and lets no non-negative balance go below zero.
pub proof fn lemma_advance(world: World, call: int, elapsed: u64)
    requires
        world.wf(),
        0 <= call < world.calls.len(),
    ensures
        world.advance(call, elapsed).wf(),
        world.advance(call, elapsed).ids() == world.ids(),
        total(world.advance(call, elapsed).accounts) == total(world.accounts),
        forall|place: int|
            0 <= place < world.accounts.len() && world.accounts[place].balance >= 0
                ==> #[trigger] world.advance(call, elapsed).accounts[place].balance >= 0,
{
    let after = world.advance(call, elapsed);
    let it = world.calls[call];
    assert(world.call_ok(call));
    match it.machine.wants() {
        Action::MoveFunds(amount) => {
            lemma_settled(world.accounts, it.from as int, it.to as int, amount);
        },
        _ => {},
    }
    assert forall|other: int| 0 <= other < after.calls.len() implies #[trigger] after.call_ok(
        other,
    ) by {
        assert(world.call_ok(other));
    }
    assert forall|place: int| 0 <= place < after.owner.len() implies #[trigger] after.lock_ok(
        place,
    ) by {
        assert(world.lock_ok(place));
    }
}

/// Conservation: however many calls run and however their actions are
/// interleaved, the sum of the balances stays what it was, whether the calls
/// moved funds, found them wanting or gave up. The world stays sound and
/// every account keeps its identifier.
pub proof fn conservation(world: World, schedule: Seq<Tick>)
    requires
        world.wf(),
    ensures
        world.run(schedule).wf(),
        world.run(schedule).ids() == world.ids(),
        world.run(schedule).accounts.len() == world.accounts.len(),
        total(world.run(schedule).accounts) == total(world.accounts),
    decreases schedule.len(),
{
    if schedule.len() > 0 {
        conservation(world, schedule.drop_last());
        let before = world.run(schedule.drop_last());
        if before.admits(schedule.last()) {
            match schedule.last() {
                Tick::Start { from, to, amount } => {
                    lemma_start(before, from, to, amount);
                },
                Tick::Advance { call, elapsed } => {
                    lemma_advance(before, call as int, elapsed);
                },
            }
        }
    }
}

/// No schedule takes a balance that is not negative below zero.
pub proof fn balance_stays_nonnegative(world: World, schedule: Seq<Tick>, place: int)
    requires
        world.wf(),
        0 <= place < world.accounts.len(),
        world.accounts[place].balance >= 0,
    ensures
        world.run(schedule).accounts[place].balance >= 0,
    decreases schedule.len(),
{
    if schedule.len() > 0 {
        conservation(world, schedule.drop_last());
        balance_stays_nonnegative(world, schedule.drop_last(), place);
        let before = world.run(schedule.drop_last());
        if before.admits(schedule.last()) {
            match schedule.last() {
                Tick::Start { from, to, amount } => {},
                Tick::Advance { call, elapsed } => {
                    lemma_advance(before, call as int, elapsed);
                },
            }
        }
    }
}

/// Lock order: in a sound world a call on two accounts with different
/// identifiers asks first, holding nothing, for the lock of the account with
/// the smaller identifier, and holds the lock of the other only together
/// with it, whichever of the two pays.
pub proof fn smaller_id_locked_first(world: World, call: int)
    requires
        world.wf(),
        0 <= call < world.calls.len(),
        world.accounts[world.calls[call].from as int].id != world.accounts[world.calls[call].to as int].id,
    ensures
        ({
            let it = world.calls[call];
            let low = lower_first(
                world.accounts[it.from as int].id,
                world.accounts[it.to as int].id,
            );
            &&& world.accounts[it.place(low) as int].id < world.accounts[it.place(
                low.opposite(),
            ) as int].id
            &&& it.machine.holds(low.opposite()) ==> it.machine.holds(low)
            &&& it.machine.wants() matches Action::TryLock(side) ==> if it.machine.holds(low) {
                side == low.opposite()
            } else {
                side == low
            }
        }),
{
    assert(world.call_ok(call));
}

/// Mutual exclusion: in a sound world two calls never hold the lock of one
/// account at the same time.
pub proof fn one_holder_per_lock(world: World, one: int, other: int, place: int)
    requires
        world.wf(),
        0 <= one < world.calls.len(),
        0 <= other < world.calls.len(),
        world.calls[one].holds_place(place),
        world.calls[other].holds_place(place),
    ensures
        one == other,
{
    assert(world.call_ok(one));
    assert(world.call_ok(other));
}

/// In a sound world a call that is over, or that reads the clock or pauses
/// between two attempts, owns no lock.
pub proof fn idle_call_owns_nothing(world: World, call: int, place: int)
    requires
        world.wf(),
        0 <= call < world.calls.len(),
        0 <= place < world.owner.len(),
        world.calls[call].machine.wants() is Return || world.calls[call].machine.wants() is ReadClock
            || world.calls[call].machine.wants() is Sleep,
    ensures
        world.owner[place] != Some(call as usize),
{
    assert(world.lock_ok(place));
}

/// No call ever waits for another: in a sound world a call that is not over
/// carries out its action whatever the other calls hold, moves on by it, and
/// leaves the other calls as they are. Once its clock shows the waiting
/// budget spent, each of its actions brings it nearer to its end.
pub proof fn no_call_waits(world: World, call: int, elapsed: u64)
    requires
        world.wf(),
        0 <= call < world.calls.len(),
        !(world.calls[call].machine.phase is Done),
    ensures
        world.advance(call, elapsed).calls[call].machine.phase != world.calls[call].machine.phase,
        elapsed >= TIMEOUT_MS ==> world.advance(call, elapsed).calls[call].machine.distance()
            < world.calls[call].machine.distance(),
        world.advance(call, elapsed).calls.len() == world.calls.len(),
        forall|other: int|
            0 <= other < world.calls.len() && other != call ==> #[trigger] world.advance(
                call,
                elapsed,
            ).calls[other] == world.calls[other],
{
}

} // verus!
