//! The decisions of one transfer call, apart from the locks, the clock and
//! the pause that carry them out.
//!
//! A call is a small machine. It names the one action it waits for; whoever
//! drives it performs that action on the real accounts and hands back the
//! event that answers it. The machine holds no lock itself: it keeps track of
//! which of the two it has been granted, and asks for every release.

use vstd::prelude::*;

verus! {

/// The waiting budget of a call, in milliseconds: a failed attempt that finds
/// at least this much time gone since the call began ends the call.
pub const TIMEOUT_MS: u64 = 1000;

/// The pause between two attempts, in milliseconds.
pub const BACKOFF_MS: u64 = 10;

/// One of the two accounts of a call, named by the part it plays.
#[derive(Clone, Copy, Debug, PartialEq, Eq, Structural)]
pub enum Side {
    From,
    To,
}

impl Side {
    pub open spec fn opposite(self) -> Side {
        match self {
            Side::From => Side::To,
            Side::To => Side::From,
        }
    }

    /// The other account of the call.
    pub fn other(self) -> (side: Side)
        ensures
            side == self.opposite(),
    {
        match self {
            Side::From => Side::To,
            Side::To => Side::From,
        }
    }
}

/// The side whose lock comes first: the one with the smaller identifier, and
/// the receiving side where the two are equal.
pub open spec fn lower_first(from_id: i32, to_id: i32) -> Side {
    if from_id < to_id {
        Side::From
    } else {
        Side::To
    }
}

/// The identifier that stands on `side`.
pub open spec fn id_on(side: Side, from_id: i32, to_id: i32) -> i32 {
    match side {
        Side::From => from_id,
        Side::To => to_id,
    }
}

/// Picks the side to lock first from the two identifiers.
pub fn lock_order(from_id: i32, to_id: i32) -> (first: Side)
    ensures
        first == lower_first(from_id, to_id),
        id_on(first, from_id, to_id) <= id_on(first.opposite(), from_id, to_id),
{
    if from_id < to_id {
        Side::From
    } else {
        Side::To
    }
}

/// What the driver is asked to do next.
#[derive(Clone, Copy, Debug, PartialEq, Eq, Structural)]
pub enum Action {
    /// Read the identifier of each account.
    ReadIds,
    /// Try once, without waiting, to take the lock of the account on this side.
    TryLock(Side),
    /// Both locks are held: move the amount with `move_funds`.
    MoveFunds(i32),
    /// Give back the lock of the account on this side.
    Unlock(Side),
    /// Report the milliseconds gone since the call began.
    ReadClock,
    /// Pause for this many milliseconds.
    Sleep(u64),
    /// The call is over: hand this value to the caller.
    Return(bool),
}

/// What the driver reports back.
#[derive(Clone, Copy, Debug, PartialEq, Eq, Structural)]
pub enum Event {
    /// The identifiers of the two accounts, as just read.
    Ids { from_id: i32, to_id: i32 },
    /// The lock was free and is now held by this call.
    Acquired,
    /// The lock is held elsewhere.
    Busy,
    /// The money movement was carried out, with or without effect.
    Moved,
    /// The lock was given back.
    Unlocked,
    /// Milliseconds gone since the call began.
    Elapsed(u64),
    /// The pause is over.
    Woke,
}

/// Where a call stands. A phase that carries a side carries the side that
/// this attempt locks first.
#[derive(Clone, Copy, Debug, PartialEq, Eq, Structural)]
pub enum Phase {
    Reading,
    LockingFirst(Side),
    LockingSecond(Side),
    Moving(Side),
    ReleasingSecond(Side),
    ReleasingFirst(Side),
    BackingOut(Side),
    Checking,
    Sleeping,
    Done(bool),
}

/// One call of the engine: the amount it was asked to move and its phase.
#[derive(Clone, Copy, Debug, PartialEq, Eq, Structural)]
pub struct Transfer {
    pub amount: i32,
    pub phase: Phase,
}

impl Transfer {
    /// The action that the call waits for in its phase.
    pub open spec fn wants(self) -> Action {
        match self.phase {
            Phase::Reading => Action::ReadIds,
            Phase::LockingFirst(first) => Action::TryLock(first),
            Phase::LockingSecond(first) => Action::TryLock(first.opposite()),
            Phase::Moving(_) => Action::MoveFunds(self.amount),
            Phase::ReleasingSecond(first) => Action::Unlock(first.opposite()),
            Phase::ReleasingFirst(first) => Action::Unlock(first),
            Phase::BackingOut(first) => Action::Unlock(first),
            Phase::Checking => Action::ReadClock,
            Phase::Sleeping => Action::Sleep(BACKOFF_MS),
            Phase::Done(result) => Action::Return(result),
        }
    }

    /// Whether the call has been granted the lock on `side` and not yet given
    /// it back.
    pub open spec fn holds(self, side: Side) -> bool {
        match self.phase {
            Phase::LockingSecond(first) => side == first,
            Phase::Moving(_) => true,
            Phase::ReleasingSecond(_) => true,
            Phase::ReleasingFirst(first) => side == first,
            Phase::BackingOut(first) => side == first,
            _ => false,
        }
    }

    /// The side that the running attempt locks first, from the moment the
    /// identifiers are read until the attempt has given back what it took.
    pub open spec fn first(self) -> Option<Side> {
        match self.phase {
            Phase::LockingFirst(first) => Some(first),
            Phase::LockingSecond(first) => Some(first),
            Phase::Moving(first) => Some(first),
            Phase::ReleasingSecond(first) => Some(first),
            Phase::ReleasingFirst(first) => Some(first),
            Phase::BackingOut(first) => Some(first),
            _ => None,
        }
    }

    /// The phase that follows when `event` arrives. An event that does not
    /// answer the action waited for changes nothing.
    pub open spec fn next_phase(self, event: Event) -> Phase {
        match (self.phase, event) {
            (Phase::Reading, Event::Ids { from_id, to_id }) => Phase::LockingFirst(
                lower_first(from_id, to_id),
            ),
            (Phase::LockingFirst(first), Event::Acquired) => Phase::LockingSecond(first),
            (Phase::LockingFirst(_), Event::Busy) => Phase::Checking,
            (Phase::LockingSecond(first), Event::Acquired) => Phase::Moving(first),
            (Phase::LockingSecond(first), Event::Busy) => Phase::BackingOut(first),
            (Phase::Moving(first), Event::Moved) => Phase::ReleasingSecond(first),
            (Phase::ReleasingSecond(first), Event::Unlocked) => Phase::ReleasingFirst(first),
            (Phase::ReleasingFirst(_), Event::Unlocked) => Phase::Done(true),
            (Phase::BackingOut(_), Event::Unlocked) => Phase::Checking,
            (Phase::Checking, Event::Elapsed(millis)) => if millis >= TIMEOUT_MS {
                Phase::Done(false)
            } else {
                Phase::Sleeping
            },
            (Phase::Sleeping, Event::Woke) => Phase::Reading,
            (phase, _) => phase,
        }
    }

    /// The call after `event`.
    pub open spec fn next(self, event: Event) -> Transfer {
        Transfer { amount: self.amount, phase: self.next_phase(event) }
    }

    /// Whether `event` answers the action that the call waits for.
    pub open spec fn answers(self, event: Event) -> bool {
        match (self.wants(), event) {
            (Action::ReadIds, Event::Ids { .. }) => true,
            (Action::TryLock(_), Event::Acquired) => true,
            (Action::TryLock(_), Event::Busy) => true,
            (Action::MoveFunds(_), Event::Moved) => true,
            (Action::Unlock(_), Event::Unlocked) => true,
            (Action::ReadClock, Event::Elapsed(_)) => true,
            (Action::Sleep(_), Event::Woke) => true,
            _ => false,
        }
    }

    /// A new call that is to move `amount`. It starts by reading the
    /// identifiers; the driver starts its clock now.
    pub fn begin(amount: i32) -> (call: Transfer)
        requires
            amount >= 0,
        ensures
            call == (Transfer { amount, phase: Phase::Reading }),
            call.wants() == Action::ReadIds,
    {
        Transfer { amount, phase: Phase::Reading }
    }

    /// The action that the call waits for.
    pub fn pending(&self) -> (action: Action)
        ensures
            action == self.wants(),
    {
        match self.phase {
            Phase::Reading => Action::ReadIds,
            Phase::LockingFirst(first) => Action::TryLock(first),
            Phase::LockingSecond(first) => Action::TryLock(first.other()),
            Phase::Moving(_) => Action::MoveFunds(self.amount),
            Phase::ReleasingSecond(first) => Action::Unlock(first.other()),
            Phase::ReleasingFirst(first) => Action::Unlock(first),
            Phase::BackingOut(first) => Action::Unlock(first),
            Phase::Checking => Action::ReadClock,
            Phase::Sleeping => Action::Sleep(BACKOFF_MS),
            Phase::Done(result) => Action::Return(result),
        }
    }

    /// What the call returned, once it is over.
    pub fn outcome(&self) -> (result: Option<bool>)
        ensures
            result == match self.phase {
                Phase::Done(value) => Some(value),
                _ => None,
            },
    {
        match self.phase {
            Phase::Done(value) => Some(value),
            _ => None,
        }
    }

    /// Takes in the answer to the pending action and returns the action that
    /// the call waits for next.
    pub fn step(&mut self, event: Event) -> (action: Action)
        ensures
            *final(self) == old(self).next(event),
            action == final(self).wants(),
    {
        let phase = match (self.phase, event) {
            (Phase::Reading, Event::Ids { from_id, to_id }) => Phase::LockingFirst(
                lock_order(from_id, to_id),
            ),
            (Phase::LockingFirst(first), Event::Acquired) => Phase::LockingSecond(first),
            (Phase::LockingFirst(_), Event::Busy) => Phase::Checking,
            (Phase::LockingSecond(first), Event::Acquired) => Phase::Moving(first),
            (Phase::LockingSecond(first), Event::Busy) => Phase::BackingOut(first),
            (Phase::Moving(first), Event::Moved) => Phase::ReleasingSecond(first),
            (Phase::ReleasingSecond(first), Event::Unlocked) => Phase::ReleasingFirst(first),
            (Phase::ReleasingFirst(_), Event::Unlocked) => Phase::Done(true),
            (Phase::BackingOut(_), Event::Unlocked) => Phase::Checking,
            (Phase::Checking, Event::Elapsed(millis)) => if millis >= TIMEOUT_MS {
                Phase::Done(false)
            } else {
                Phase::Sleeping
            },
            (Phase::Sleeping, Event::Woke) => Phase::Reading,
            (phase, _) => phase,
        };
        self.phase = phase;
        self.pending()
    }
}

impl Transfer {
    /// The call after the events of `events`, one after the other.
    pub open spec fn after(self, events: Seq<Event>) -> Transfer
        decreases events.len(),
    {
        if events.len() == 0 {
            self
        } else {
            self.after(events.drop_last()).next(events.last())
        }
    }

    /// Whether each event of `events` answers the action that the call waits
    /// for when the event arrives.
    pub open spec fn follows(self, events: Seq<Event>) -> bool
        decreases events.len(),
    {
        events.len() > 0 ==> self.follows(events.drop_last()) && self.after(
            events.drop_last(),
        ).answers(events.last())
    }

    /// How many answers the call can still take in at most once the clock
    /// shows that the waiting budget is spent.
    pub open spec fn distance(self) -> nat {
        match self.phase {
            Phase::Sleeping => 7,
            Phase::Reading => 6,
            Phase::LockingFirst(_) => 5,
            Phase::LockingSecond(_) => 4,
            Phase::Moving(_) => 3,
            Phase::ReleasingSecond(_) => 2,
            Phase::BackingOut(_) => 2,
            Phase::ReleasingFirst(_) => 1,
            Phase::Checking => 1,
            Phase::Done(_) => 0,
        }
    }
}

/// Whether every clock reading among `events` shows the waiting budget spent.
pub open spec fn budget_spent(events: Seq<Event>) -> bool {
    forall|i: int|
        0 <= i < events.len() ==> (#[trigger] events[i] matches Event::Elapsed(millis)
            ==> millis >= TIMEOUT_MS)
}

/// Lock order: whichever of two accounts with different identifiers pays,
/// the first lock that an attempt asks for is that of the account with the
/// smaller identifier, and the attempt holds nothing when it asks.
pub proof fn lower_id_is_locked_first(call: Transfer, low: i32, high: i32)
    requires
        call.phase == Phase::Reading,
        low < high,
    ensures
        call.next(Event::Ids { from_id: low, to_id: high }).wants() == Action::TryLock(Side::From),
        call.next(Event::Ids { from_id: high, to_id: low }).wants() == Action::TryLock(Side::To),
        forall|side: Side|
            !call.next(Event::Ids { from_id: low, to_id: high }).holds(side) && !call.next(
                Event::Ids { from_id: high, to_id: low },
            ).holds(side),
{
}

/// A call asks for a lock in two situations only: holding none, for the first
/// lock of its attempt, and holding the first alone, for the other. It holds
/// the second lock only together with the first, and no lock at all outside
/// an attempt.
pub proof fn second_lock_only_under_first(call: Transfer)
    ensures
        call.wants() matches Action::TryLock(side) ==> {
            ||| call.phase == Phase::LockingFirst(side) && !call.holds(Side::From) && !call.holds(
                Side::To,
            )
            ||| call.phase == Phase::LockingSecond(side.opposite()) && call.holds(side.opposite())
                && !call.holds(side)
        },
        call.first() matches Some(first) ==> (call.holds(first.opposite()) ==> call.holds(first)),
        call.first() is None ==> !call.holds(Side::From) && !call.holds(Side::To),
{
}

/// A call moves funds only while it holds both locks, gives back only a lock
/// that it holds, and holds none when it reads the identifiers or the clock,
/// pauses or returns.
pub proof fn locks_match_actions(call: Transfer)
    ensures
        call.wants() is MoveFunds ==> call.holds(Side::From) && call.holds(Side::To),
        call.wants() matches Action::Unlock(side) ==> call.holds(side),
        call.wants() is ReadIds || call.wants() is ReadClock || call.wants() is Sleep
            || call.wants() is Return ==> !call.holds(Side::From) && !call.holds(Side::To),
{
}

/// A call ends with `true` only by giving back its last lock after the funds
/// were dealt with, and with `false` only on a clock reading that shows the
/// waiting budget spent, taken while it holds no lock. An earlier reading
/// makes it pause and try again.
pub proof fn how_a_call_ends(call: Transfer, event: Event)
    requires
        !(call.phase is Done),
    ensures
        call.next(event).phase == Phase::Done(true) <==> call.phase is ReleasingFirst && event
            == Event::Unlocked,
        call.next(event).phase == Phase::Done(false) <==> call.phase == Phase::Checking && (
        event matches Event::Elapsed(millis) && millis >= TIMEOUT_MS),
        call.phase == Phase::Checking ==> (event matches Event::Elapsed(millis) && millis
            < TIMEOUT_MS ==> call.next(event).wants() == Action::Sleep(BACKOFF_MS)),
        call.phase == Phase::Sleeping && event == Event::Woke ==> call.next(event).wants()
            == Action::ReadIds,
{
}

/// An event changes the call exactly when it answers the action waited for,
/// and never changes the amount.
pub proof fn only_answers_count(call: Transfer, event: Event)
    ensures
        call.answers(event) <==> call.next(event) != call,
        call.next(event).amount == call.amount,
{
}

/// Once the clock shows the waiting budget spent, a call is over within
/// seven answers, whatever they are: each answer brings it at least one step
/// nearer to its end.
pub proof fn spent_budget_ends_call(call: Transfer, events: Seq<Event>)
    requires
        call.follows(events),
        budget_spent(events),
    ensures
        call.after(events).distance() + events.len() <= call.distance(),
        events.len() <= 7,
        events.len() == call.distance() ==> call.after(events).phase is Done,
    decreases events.len(),
{
    if events.len() > 0 {
        let before = events.drop_last();
        assert forall|i: int| 0 <= i < before.len() implies (#[trigger] before[i] matches Event::Elapsed(
            millis,
        ) ==> millis >= TIMEOUT_MS) by {
        }
        spent_budget_ends_call(call, before);
    }
}

} // verus!
