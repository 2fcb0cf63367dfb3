//! Change notification for one game: a logical clock that every change advances, a
//! broadcast of each new clock value, and the decisions of a long-poll waiter.

use tokio::sync::broadcast::{Receiver, Sender};
use vstd::prelude::*;

verus! {

#[verifier::external_type_specification]
#[verifier::external_body]
#[verifier::reject_recursive_types(T)]
pub struct ExSender<T>(Sender<T>);

#[verifier::external_type_specification]
#[verifier::external_body]
#[verifier::reject_recursive_types(T)]
pub struct ExReceiver<T>(Receiver<T>);

/// Relies on `tokio::sync::broadcast::channel` with a capacity of 8 (it panics only on a
/// capacity of 0); only the sending half is kept.
#[verifier::external_body]
fn open_channel() -> (r: Sender<u64>) {
    tokio::sync::broadcast::channel(8).0
}

/// Relies on `tokio::sync::broadcast::Sender::send`, which hands the value to every
/// current receiver; when there is none the value is dropped, which is not an error here.
#[verifier::external_body]
fn broadcast(sender: &Sender<u64>, value: u64) {
    let _ = sender.send(value);
}

/// Relies on `tokio::sync::broadcast::Sender::subscribe`: a receiver of every value sent
/// from now on.
#[verifier::external_body]
fn receiver_of(sender: &Sender<u64>) -> (r: Receiver<u64>) {
    sender.subscribe()
}

/// The broadcast source went away while a waiter was listening.
#[derive(Clone, Copy, PartialEq, Eq, Structural, Debug)]
pub struct NotifierError;

/// What happened while a waiter was suspended.
#[derive(Clone, Copy, PartialEq, Eq, Structural, Debug)]
pub enum WaitEvent {
    /// A clock value arrived on the channel.
    Received(u64),
    /// The waiter fell behind and some values were dropped; later ones still arrive.
    Lagged,
    /// Every sender is gone.
    Closed,
    /// The waiting time ran out.
    TimedOut,
}

/// The clock after one more change.
pub open spec fn bumped(clock: u64) -> u64 {
    if clock < u64::MAX {
        (clock + 1) as u64
    } else {
        clock
    }
}

/// The clock starts at 1 and each change moves it up by one and broadcasts the new value.
pub struct Notifier {
    sender: Sender<u64>,
    clock: u64,
}

/// A waiter's view: the clock value when it subscribed (raised to any later value it has
/// seen since) and its end of the broadcast channel.
pub struct Subscription {
    receiver: Receiver<u64>,
    clock: u64,
}

/// The answer a waiter gives at once, before suspending: the clock it already holds, when
/// the caller has seen no value yet or an older one.
pub open spec fn immediate_answer(clock: u64, since: Option<u64>) -> Option<u64> {
    match since {
        None => Some(clock),
        Some(s) => if s < clock {
            Some(clock)
        } else {
            None
        },
    }
}

/// How a waiter that holds `clock` and waits for a value above `since` goes on after
/// `event`: the clock it then holds, and its answer, or `None` to keep waiting.
pub open spec fn wait_step(clock: u64, since: u64, event: WaitEvent) -> (u64, Option<
    Result<u64, NotifierError>,
>) {
    match event {
        WaitEvent::Received(v) => {
            let held = if v > clock {
                v
            } else {
                clock
            };
            if v > since {
                (held, Some(Ok(v)))
            } else {
                (held, None)
            }
        },
        WaitEvent::Lagged => (clock, None),
        WaitEvent::Closed => (clock, Some(Err(NotifierError))),
        WaitEvent::TimedOut => (clock, Some(Ok(clock))),
    }
}

impl Notifier {
    pub closed spec fn clock(&self) -> u64 {
        self.clock
    }

    pub fn new() -> (r: Notifier)
        ensures
            r.clock() == 1,
    {
        Notifier { sender: open_channel(), clock: 1 }
    }

    pub fn current(&self) -> (r: u64)
        ensures
            r == self.clock(),
    {
        self.clock
    }

    /// Records a change: the clock moves up by one (it stays put at `u64::MAX`, which no
    /// game reaches) and the new value is broadcast, which is also returned.
    pub fn send(&mut self) -> (r: u64)
        ensures
            final(self).clock() == bumped(old(self).clock()),
            r == final(self).clock(),
    {
        if self.clock < u64::MAX {
            self.clock = self.clock + 1;
        }
        broadcast(&self.sender, self.clock);
        self.clock
    }

    /// A waiter holding the current clock value and listening for every later one.
    pub fn subscribe(&self) -> (r: Subscription)
        ensures
            r.clock() == self.clock(),
    {
        Subscription { receiver: receiver_of(&self.sender), clock: self.clock }
    }
}

impl Subscription {
    pub closed spec fn clock(&self) -> u64 {
        self.clock
    }

    pub fn clock_value(&self) -> (r: u64)
        ensures
            r == self.clock(),
    {
        self.clock
    }

    /// The end of the broadcast channel, for the caller that suspends on it.
    pub fn receiver(&mut self) -> (r: &mut Receiver<u64>)
        ensures
            final(self).clock() == old(self).clock(),
    {
        &mut self.receiver
    }

    /// The answer before any suspension: the held clock when `since` is absent or below
    /// it; `None` when the caller must wait for a later value.
    pub fn answer_now(&self, since: Option<u64>) -> (r: Option<u64>)
        ensures
            r == immediate_answer(self.clock(), since),
    {
        match since {
            None => Some(self.clock),
            Some(s) => if s < self.clock {
                Some(self.clock)
            } else {
                None
            },
        }
    }

    /// Takes in what happened while waiting for a value above `since`: a value above it is
    /// the answer; a value not above it is remembered and the wait goes on; a lag goes on
    /// waiting; a closed channel is an error; a timeout answers with the last clock value
    /// known, which is not an error.
    pub fn on_event(&mut self, since: u64, event: WaitEvent) -> (r: Option<
        Result<u64, NotifierError>,
    >)
        ensures
            final(self).clock() == wait_step(old(self).clock(), since, event).0,
            r == wait_step(old(self).clock(), since, event).1,
    {
        match event {
            WaitEvent::Received(v) => {
                if v > self.clock {
                    self.clock = v;
                }
                if v > since {
                    Some(Ok(v))
                } else {
                    None
                }
            },
            WaitEvent::Lagged => None,
            WaitEvent::Closed => Some(Err(NotifierError)),
            WaitEvent::TimedOut => Some(Ok(self.clock)),
        }
    }
}

/// What a waiter that holds `clock` and waits for a value above `since` answers after the
/// events `events`, or `None` while it still waits.
pub open spec fn wait_run(clock: u64, since: u64, events: Seq<WaitEvent>) -> Option<
    Result<u64, NotifierError>,
>
    decreases events.len(),
{
    if events.len() == 0 {
        None
    } else {
        let step = wait_step(clock, since, events[0]);
        match step.1 {
            Some(answer) => Some(answer),
            None => wait_run(step.0, since, events.drop_first()),
        }
    }
}

/// Every send made while the clock is below `u64::MAX` broadcasts a value above the clock
/// it found, so above the clock of any earlier subscription.
pub proof fn lemma_send_exceeds(c: u64, found: u64)
    requires
        c <= found < u64::MAX,
    ensures
        bumped(found) > c,
{
}

/// No lost wakeup: a waiter that subscribed while the clock stood at `c` and asks for a
/// value above `c` does not answer at once; and as long as what reaches it are values
/// above `c` (what later sends broadcast, see `lemma_send_exceeds`) and lags (more sends
/// than the channel holds), it answers with the first value that arrives, which is above
/// `c`, and neither times out nor fails.
pub proof fn lemma_no_lost_wakeup(c: u64, events: Seq<WaitEvent>)
    requires
        forall|i: int|
            0 <= i < events.len() ==> (#[trigger] events[i]) is Lagged || (events[i] matches WaitEvent::Received(
                v,
            ) && v > c),
        exists|i: int| 0 <= i < events.len() && (#[trigger] events[i]) is Received,
    ensures
        immediate_answer(c, Some(c)) is None,
        wait_run(c, c, events) matches Some(Ok(v)) && v > c,
    decreases events.len(),
{
    if events[0] is Lagged {
        let rest = events.drop_first();
        let k = choose|i: int| 0 <= i < events.len() && (#[trigger] events[i]) is Received;
        assert(rest[k - 1] is Received);
        assert forall|i: int| 0 <= i < rest.len() implies (#[trigger] rest[i]) is Lagged || (
        rest[i] matches WaitEvent::Received(v) && v > c) by {
            assert(rest[i] == events[i + 1]);
        }
        lemma_no_lost_wakeup(c, rest);
    }
}

} // verus!
