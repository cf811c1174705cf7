//! The client: an endpoint, the connection to it, and the batch under way.
//!
//! [`ClientState`] is the client as the contracts see it, with the
//! transitions that a submission and an event make. [`Graphite`] is the
//! client itself. The proof functions at the end state what holds of every
//! client along every course of events.

use vstd::prelude::*;
use crate::error::Error;
use crate::policy::{
    lemma_idle_asks_nothing, next_phase, reply, run, Action, Event, Outcome, Phase, Step,
};
use crate::wire::{encode, frame, record_bytes};

verus! {

/// What a client is, as the contracts see it.
pub struct ClientState<A, W> {
    /// The endpoint, fixed when the client was made.
    pub addr: A,
    /// The installed connection.
    pub conn: W,
    /// Where the delivery under way stands.
    pub phase: Phase,
    /// The bytes of the batch under way; empty when none is.
    pub staged: Seq<u8>,
}

impl<A, W> ClientState<A, W> {
    /// The client after a batch with the wire bytes `bytes` was submitted:
    /// whatever was under way is dropped, and the first write of the new
    /// batch is due on the installed connection.
    pub open spec fn submit(self, bytes: Seq<u8>) -> Self {
        ClientState { phase: Phase::FirstWrite, staged: bytes, ..self }
    }

    /// The client after `event`. An event that the policy hands back changes
    /// nothing. An accepted event moves the phase as the policy says; a fresh
    /// connection is installed in place of the old one, which stays in every
    /// other case; the staged bytes stay while the delivery goes on and are
    /// dropped when it is over.
    pub open spec fn after<E>(self, event: Event<W, E>) -> Self {
        match reply(self.phase, event) {
            Err(_) => self,
            Ok(step) => ClientState {
                addr: self.addr,
                conn: match event {
                    Event::Connected(w) => w,
                    _ => self.conn,
                },
                phase: next_phase(self.phase, event),
                staged: match step {
                    Step::Next(_) => self.staged,
                    Step::Done(_) => Seq::empty(),
                },
            },
        }
    }

    /// The client after `events` arrived in order.
    pub open spec fn run<E>(self, events: Seq<Event<W, E>>) -> Self
        decreases events.len(),
    {
        if events.len() == 0 {
            self
        } else {
            self.after(events.first()).run(events.drop_first())
        }
    }

    /// Whether the client holds bytes only while a delivery is under way.
    pub open spec fn settled(self) -> bool {
        self.phase is Idle ==> self.staged.len() == 0
    }
}

/// The host of the local default endpoint: the loopback address.
pub const LOCAL_HOST: &'static str = "127.0.0.1";

/// The port of the local default endpoint: where a collector listens for
/// plaintext records by convention.
pub const LOCAL_PORT: u16 = 2003;

/// A client of one endpoint. It holds the connection of type `W` to the
/// endpoint of type `A`, and between a submission and its outcome the bytes
/// of the batch. Those staged bytes are the client's write buffer: a write
/// hands all of them to the connection, from the first byte on.
pub struct Graphite<A, W> {
    addr: A,
    w: W,
    phase: Phase,
    staged: Vec<u8>,
}

impl<A, W> View for Graphite<A, W> {
    type V = ClientState<A, W>;

    closed spec fn view(&self) -> ClientState<A, W> {
        ClientState { addr: self.addr, conn: self.w, phase: self.phase, staged: self.staged@ }
    }
}

impl<A, W> Graphite<A, W> {
    /// Makes a client of the endpoint `addr` from the attempt to connect to
    /// it. A failed attempt gives no client.
    pub fn new<E>(addr: A, attempt: Result<W, E>) -> (made: Result<Self, Error<E>>)
        ensures
            match attempt {
                Ok(w) => made matches Ok(client) && client@ == (ClientState {
                    addr,
                    conn: w,
                    phase: Phase::Idle,
                    staged: Seq::empty(),
                }),
                Err(e) => made matches Err(err) && err == Error::Connection(e),
            },
    {
        match attempt {
            Ok(w) => Ok(Graphite { addr, w, phase: Phase::Idle, staged: Vec::new() }),
            Err(e) => Err(Error::Connection(e)),
        }
    }

    /// Submits a batch: stages its wire bytes and asks for the first write.
    /// A delivery that was still under way is given up, and its bytes with
    /// it.
    pub fn send_stats(&mut self, data: &[&str]) -> (first: Action)
        ensures
            first == Action::Write,
            final(self)@ == old(self)@.submit(frame(record_bytes(data@))),
    {
        self.staged = encode(data);
        self.phase = Phase::FirstWrite;
        Action::Write
    }

    /// Takes in what came of the pending action and answers with the next
    /// step. An event that does not report on the pending action is handed
    /// back, and the client stays as it was.
    pub fn handle<E>(&mut self, event: Event<W, E>) -> (answer: Result<Step<E>, Event<W, E>>)
        ensures
            answer == reply(old(self)@.phase, event),
            final(self)@ == old(self)@.after(event),
    {
        match (self.phase, event) {
            (Phase::FirstWrite, Event::Written) => {
                self.finish();
                Ok(Step::Done(Outcome::Delivered))
            },
            (Phase::FirstWrite, Event::WriteFailed(_)) => {
                self.phase = Phase::Reconnecting;
                Ok(Step::Next(Action::Reconnect))
            },
            (Phase::Reconnecting, Event::Connected(w)) => {
                self.w = w;
                self.phase = Phase::RetryWrite;
                Ok(Step::Next(Action::Write))
            },
            (Phase::Reconnecting, Event::ConnectFailed(e)) => {
                self.finish();
                Ok(Step::Done(Outcome::Failed(Error::Connection(e))))
            },
            (Phase::RetryWrite, Event::Written) => {
                self.finish();
                Ok(Step::Done(Outcome::DeliveredAfterReconnect))
            },
            (Phase::RetryWrite, Event::WriteFailed(e)) => {
                self.finish();
                Ok(Step::Done(Outcome::Failed(Error::Io(e))))
            },
            (_, event) => Err(event),
        }
    }

    /// Ends the delivery under way and drops its bytes.
    fn finish(&mut self)
        ensures
            final(self)@ == (ClientState { phase: Phase::Idle, staged: Seq::empty(), ..old(self)@ }),
    {
        self.staged = Vec::new();
        self.phase = Phase::Idle;
    }

    /// The endpoint.
    pub fn addr(&self) -> (addr: &A)
        ensures
            *addr == self@.addr,
    {
        &self.addr
    }

    /// Where the delivery under way stands.
    pub fn phase(&self) -> (phase: Phase)
        ensures
            phase == self@.phase,
    {
        self.phase
    }

    /// The installed connection.
    pub fn connection(&self) -> (conn: &W)
        ensures
            *conn == self@.conn,
    {
        &self.w
    }

    /// The staged bytes.
    pub fn staged(&self) -> (bytes: &[u8])
        ensures
            bytes@ == self@.staged,
    {
        self.staged.as_slice()
    }

    /// The installed connection, to write to, and the staged bytes. Whatever
    /// the caller does to the connection, it stays the installed one, and
    /// nothing else of the client changes.
    pub fn transport(&mut self) -> (lent: (&mut W, &[u8]))
        ensures
            *lent.0 == old(self)@.conn,
            lent.1@ == old(self)@.staged,
            final(self)@ == (ClientState { conn: *final(lent.0), ..old(self)@ }),
    {
        (&mut self.w, self.staged.as_slice())
    }
}

/// A client of the collector on this host.
pub type LocalGraphite<W> = Graphite<(&'static str, u16), W>;

/// The local default endpoint: the address to connect to before a client of
/// it is made.
pub fn local_endpoint() -> (addr: (&'static str, u16))
    ensures
        addr == (LOCAL_HOST, LOCAL_PORT),
{
    (LOCAL_HOST, LOCAL_PORT)
}

impl<W> LocalGraphite<W> {
    /// Makes a client of the local default endpoint from the attempt to
    /// connect to it. A failed attempt gives no client.
    pub fn new_localhost<E>(attempt: Result<W, E>) -> (made: Result<Self, Error<E>>)
        ensures
            match attempt {
                Ok(w) => made matches Ok(client) && client@ == (ClientState {
                    addr: (LOCAL_HOST, LOCAL_PORT),
                    conn: w,
                    phase: Phase::Idle,
                    staged: Seq::empty(),
                }),
                Err(e) => made matches Err(err) && err == Error::Connection(e),
            },
    {
        Self::new(local_endpoint(), attempt)
    }
}

/// Along any events the client's phase is the one that the policy reaches,
/// and its endpoint stays the one it was made with.
pub proof fn lemma_run_follows_policy<A, W, E>(client: ClientState<A, W>, events: Seq<Event<W, E>>)
    ensures
        client.run(events).phase == run(client.phase, events),
        client.run(events).addr == client.addr,
    decreases events.len(),
{
    if events.len() > 0 {
        lemma_run_follows_policy(client.after(events.first()), events.drop_first());
    }
}

/// On a live connection a batch is delivered at once: the bytes staged for
/// the first write are those of the batch, the write goes to the connection
/// that was installed, and its success ends the delivery with nothing left
/// behind.
pub proof fn lemma_live_connection_delivers<A, W, E>(client: ClientState<A, W>, bytes: Seq<u8>)
    ensures
        client.submit(bytes).phase.pending() == Some(Action::Write),
        client.submit(bytes).staged == bytes,
        client.submit(bytes).conn == client.conn,
        reply(client.submit(bytes).phase, Event::<W, E>::Written) == Ok::<Step<E>, Event<W, E>>(
            Step::Done(Outcome::Delivered),
        ),
        client.submit(bytes).after(Event::<W, E>::Written) == (ClientState {
            phase: Phase::Idle,
            staged: Seq::empty(),
            ..client
        }),
{
}

/// The installed connection is replaced only by a fresh one that arrives
/// while the client is reconnecting.
pub proof fn lemma_connection_replaced_on_reconnect_only<A, W, E>(
    client: ClientState<A, W>,
    event: Event<W, E>,
)
    ensures
        client.after(event).conn != client.conn ==> client.phase is Reconnecting
            && event is Connected,
        client.phase is Reconnecting && event is Connected ==> client.after(event).conn
            == event->Connected_0,
{
}

/// A failed reconnect ends the delivery and leaves the old connection
/// installed: the first write of the next batch is due on it.
pub proof fn lemma_failed_reconnect_keeps_connection<A, W, E>(
    client: ClientState<A, W>,
    cause: E,
    next: Seq<u8>,
)
    requires
        client.phase is Reconnecting,
    ensures
        reply(client.phase, Event::<W, E>::ConnectFailed(cause)) == Ok::<Step<E>, Event<W, E>>(
            Step::Done(Outcome::Failed(Error::Connection(cause))),
        ),
        client.after(Event::<W, E>::ConnectFailed(cause)).phase is Idle,
        client.after(Event::<W, E>::ConnectFailed(cause)).conn == client.conn,
        client.after(Event::<W, E>::ConnectFailed(cause)).submit(next).conn == client.conn,
        client.after(Event::<W, E>::ConnectFailed(cause)).submit(next).phase.pending() == Some(
            Action::Write,
        ),
{
}

/// Whatever a client went through before, the bytes it holds after a
/// submission are those of the submitted batch: they stay so for as long as
/// the delivery goes on, through the reconnect and for the second write, and
/// are gone when it is over.
pub proof fn lemma_staged_is_the_batch<A, W, E>(
    client: ClientState<A, W>,
    bytes: Seq<u8>,
    events: Seq<Event<W, E>>,
)
    ensures
        client.submit(bytes).run(events).settled(),
        !(client.submit(bytes).run(events).phase is Idle) ==> client.submit(bytes).run(
            events,
        ).staged == bytes,
{
    lemma_staged_kept(client.submit(bytes), events);
}

/// Events neither add to the staged bytes nor change them.
pub proof fn lemma_staged_kept<A, W, E>(client: ClientState<A, W>, events: Seq<Event<W, E>>)
    requires
        client.settled(),
    ensures
        client.run(events).settled(),
        !(client.run(events).phase is Idle) ==> client.run(events).staged == client.staged,
    decreases events.len(),
{
    if events.len() > 0 {
        let then = client.after(events.first());
        lemma_staged_kept(then, events.drop_first());
        if then.phase is Idle {
            lemma_idle_asks_nothing(events.drop_first(), Action::Write);
            lemma_run_follows_policy(then, events.drop_first());
        }
    }
}

} // verus!
