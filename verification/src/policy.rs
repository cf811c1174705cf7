//! The delivery policy: one write on the connection at hand, and after a
//! failure one reconnect and one more write, never more.
//!
//! The policy is a state machine over [`Phase`]. The driver performs the
//! [`Action`] it is asked for and reports what came of it as an [`Event`];
//! [`reply`] says what the machine answers and [`next_phase`] where it goes.

use vstd::prelude::*;
use crate::error::Error;

verus! {

/// Where a client stands in the delivery of a batch.
#[derive(Clone, Copy, Debug, PartialEq, Eq, Structural)]
pub enum Phase {
    /// No delivery is under way.
    Idle,
    /// The batch is to be written to the connection that was at hand.
    FirstWrite,
    /// The first write failed; a fresh connection is to be opened.
    Reconnecting,
    /// The batch is to be written once more, to the fresh connection.
    RetryWrite,
}

/// Outside work that the driver is asked to perform.
#[derive(Clone, Copy, Debug, PartialEq, Eq, Structural)]
pub enum Action {
    /// Write the staged bytes to the installed connection, then flush it.
    Write,
    /// Open a fresh connection to the endpoint.
    Reconnect,
}

/// What came of the action that the driver performed.
#[derive(Debug, PartialEq, Eq)]
pub enum Event<W, E> {
    /// Every staged byte was written and the connection was flushed.
    Written,
    /// A write or the flush failed.
    WriteFailed(E),
    /// A fresh connection was opened.
    Connected(W),
    /// No fresh connection could be opened.
    ConnectFailed(E),
}

/// How the delivery of a batch ended.
#[derive(Debug, PartialEq, Eq)]
pub enum Outcome<E> {
    /// The first write succeeded.
    Delivered,
    /// The first write failed; the write to a fresh connection succeeded.
    DeliveredAfterReconnect,
    /// Nothing more is tried: either no fresh connection could be opened, or
    /// the write to it failed as well.
    Failed(Error<E>),
}

/// The machine's answer to an event it was waiting for.
#[derive(Debug, PartialEq, Eq)]
pub enum Step<E> {
    /// The delivery goes on with this action.
    Next(Action),
    /// The delivery is over.
    Done(Outcome<E>),
}

impl Phase {
    /// The action whose result the machine is waiting for, if any.
    pub open spec fn spec_pending(self) -> Option<Action> {
        match self {
            Phase::Idle => None,
            Phase::FirstWrite => Some(Action::Write),
            Phase::Reconnecting => Some(Action::Reconnect),
            Phase::RetryWrite => Some(Action::Write),
        }
    }

    /// The action whose result the machine is waiting for, if any.
    #[verifier::when_used_as_spec(spec_pending)]
    pub fn pending(self) -> (action: Option<Action>)
        ensures
            action == self.spec_pending(),
    {
        match self {
            Phase::Idle => None,
            Phase::FirstWrite => Some(Action::Write),
            Phase::Reconnecting => Some(Action::Reconnect),
            Phase::RetryWrite => Some(Action::Write),
        }
    }
}

impl<W, E> Event<W, E> {
    /// The action that this event reports on.
    pub open spec fn reports_on(self) -> Action {
        match self {
            Event::Written => Action::Write,
            Event::WriteFailed(_) => Action::Write,
            Event::Connected(_) => Action::Reconnect,
            Event::ConnectFailed(_) => Action::Reconnect,
        }
    }
}

/// The answer to `event` in `phase`. An event that reports on the pending
/// action is answered with the next step. Any other event is handed back.
///
/// The cause of a failed first write is dropped: the reconnect that follows is
/// the answer to it. The cause of a failed reconnect or of a failed second
/// write ends the delivery and is reported in its outcome.
pub open spec fn reply<W, E>(phase: Phase, event: Event<W, E>) -> Result<Step<E>, Event<W, E>> {
    match (phase, event) {
        (Phase::FirstWrite, Event::Written) => Ok(Step::Done(Outcome::Delivered)),
        (Phase::FirstWrite, Event::WriteFailed(_)) => Ok(Step::Next(Action::Reconnect)),
        (Phase::Reconnecting, Event::Connected(_)) => Ok(Step::Next(Action::Write)),
        (Phase::Reconnecting, Event::ConnectFailed(e)) => Ok(
            Step::Done(Outcome::Failed(Error::Connection(e))),
        ),
        (Phase::RetryWrite, Event::Written) => Ok(Step::Done(Outcome::DeliveredAfterReconnect)),
        (Phase::RetryWrite, Event::WriteFailed(e)) => Ok(Step::Done(Outcome::Failed(Error::Io(e)))),
        _ => Err(event),
    }
}

/// The phase that follows `event` in `phase`: the one that waits for the
/// action just asked for, `Idle` once the delivery is over, and `phase`
/// itself where the event was handed back.
pub open spec fn next_phase<W, E>(phase: Phase, event: Event<W, E>) -> Phase {
    match reply(phase, event) {
        Ok(Step::Next(Action::Write)) => Phase::RetryWrite,
        Ok(Step::Next(Action::Reconnect)) => Phase::Reconnecting,
        Ok(Step::Done(_)) => Phase::Idle,
        Err(_) => phase,
    }
}

/// The phase reached from `phase` when `events` arrive in order.
pub open spec fn run<W, E>(phase: Phase, events: Seq<Event<W, E>>) -> Phase
    decreases events.len(),
{
    if events.len() == 0 {
        phase
    } else {
        run(next_phase(phase, events.first()), events.drop_first())
    }
}

/// How often the machine asks for `action` while `events` arrive in order,
/// starting in `phase`.
pub open spec fn asked<W, E>(phase: Phase, events: Seq<Event<W, E>>, action: Action) -> nat
    decreases events.len(),
{
    if events.len() == 0 {
        0
    } else {
        let now: nat = if reply(phase, events.first()) == Ok::<Step<E>, Event<W, E>>(
            Step::Next(action),
        ) {
            1
        } else {
            0
        };
        now + asked(next_phase(phase, events.first()), events.drop_first(), action)
    }
}

/// How many events the machine accepts while `events` arrive in order,
/// starting in `phase`.
pub open spec fn accepted<W, E>(phase: Phase, events: Seq<Event<W, E>>) -> nat
    decreases events.len(),
{
    if events.len() == 0 {
        0
    } else {
        let now: nat = if reply(phase, events.first()) is Ok {
            1
        } else {
            0
        };
        now + accepted(next_phase(phase, events.first()), events.drop_first())
    }
}

/// How many deliveries end while `events` arrive in order, starting in
/// `phase`.
pub open spec fn ended<W, E>(phase: Phase, events: Seq<Event<W, E>>) -> nat
    decreases events.len(),
{
    if events.len() == 0 {
        0
    } else {
        let now: nat = if reply(phase, events.first()) matches Ok(Step::Done(_)) {
            1
        } else {
            0
        };
        now + ended(next_phase(phase, events.first()), events.drop_first())
    }
}

/// The writes that a delivery in `phase` may still ask for.
pub open spec fn writes_left(phase: Phase) -> nat {
    match phase {
        Phase::FirstWrite => 1,
        Phase::Reconnecting => 1,
        Phase::RetryWrite => 0,
        Phase::Idle => 0,
    }
}

/// The reconnects that a delivery in `phase` may still ask for.
pub open spec fn reconnects_left(phase: Phase) -> nat {
    match phase {
        Phase::FirstWrite => 1,
        Phase::Reconnecting => 0,
        Phase::RetryWrite => 0,
        Phase::Idle => 0,
    }
}

/// The events that a delivery in `phase` may still accept.
pub open spec fn events_left(phase: Phase) -> nat {
    match phase {
        Phase::FirstWrite => 3,
        Phase::Reconnecting => 2,
        Phase::RetryWrite => 1,
        Phase::Idle => 0,
    }
}

/// An event is accepted exactly when it reports on the pending action.
pub proof fn lemma_accepts_what_is_pending<W, E>(phase: Phase, event: Event<W, E>)
    ensures
        reply(phase, event) is Ok <==> phase.pending() == Some(event.reports_on()),
        reply(phase, event) is Err ==> reply(phase, event) == Err::<Step<E>, Event<W, E>>(event),
{
}

/// A reconnect is asked for only in answer to a failed first write, and a
/// write only in answer to the fresh connection; nothing else is ever asked
/// for.
pub proof fn lemma_asks_in_answer_only<W, E>(phase: Phase, event: Event<W, E>)
    ensures
        reply(phase, event) == Ok::<Step<E>, Event<W, E>>(Step::Next(Action::Reconnect))
            <==> phase is FirstWrite && event is WriteFailed,
        reply(phase, event) == Ok::<Step<E>, Event<W, E>>(Step::Next(Action::Write))
            <==> phase is Reconnecting && event is Connected,
{
}

/// Whatever events arrive, and in whatever order, a delivery asks for at most
/// one write beyond its first and for at most one reconnect, accepts at most
/// three events, and ends at most once: its outcome is reported once.
pub proof fn lemma_attempts_bounded<W, E>(phase: Phase, events: Seq<Event<W, E>>)
    ensures
        asked(phase, events, Action::Write) <= writes_left(phase),
        asked(phase, events, Action::Reconnect) <= reconnects_left(phase),
        accepted(phase, events) <= events_left(phase),
        ended(phase, events) <= 1,
        phase is Idle ==> ended(phase, events) == 0,
    decreases events.len(),
{
    if events.len() > 0 {
        lemma_attempts_bounded(next_phase(phase, events.first()), events.drop_first());
    }
}

/// A delivery is over exactly when its outcome has been reported, and it is
/// over at the latest when it has accepted as many events as it may.
pub proof fn lemma_delivery_ends<W, E>(phase: Phase, events: Seq<Event<W, E>>)
    requires
        !(phase is Idle),
    ensures
        run(phase, events) is Idle <==> ended(phase, events) == 1,
        accepted(phase, events) >= events_left(phase) ==> run(phase, events) is Idle,
    decreases events.len(),
{
    if events.len() > 0 {
        let then = next_phase(phase, events.first());
        if then is Idle {
            lemma_idle_asks_nothing(events.drop_first(), Action::Write);
            lemma_attempts_bounded(then, events.drop_first());
        } else {
            lemma_delivery_ends(then, events.drop_first());
        }
    }
}

/// Once the first write has failed, one reconnect is asked for, and no other
/// whatever follows.
pub proof fn lemma_failed_write_reconnects_once<W, E>(events: Seq<Event<W, E>>)
    requires
        events.len() > 0,
        events.first() is WriteFailed,
    ensures
        asked(Phase::FirstWrite, events, Action::Reconnect) == 1,
        asked(Phase::FirstWrite, events, Action::Write) <= 1,
{
    lemma_attempts_bounded(Phase::Reconnecting, events.drop_first());
}

/// An idle machine hands every event back and asks for nothing.
pub proof fn lemma_idle_asks_nothing<W, E>(events: Seq<Event<W, E>>, action: Action)
    ensures
        run(Phase::Idle, events) == Phase::Idle,
        asked(Phase::Idle, events, action) == 0,
        accepted(Phase::Idle, events) == 0,
    decreases events.len(),
{
    if events.len() > 0 {
        lemma_idle_asks_nothing(events.drop_first(), action);
    }
}

} // verus!
