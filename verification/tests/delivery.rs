use graphite_client::{Action, Error, Event, Graphite, Outcome, Phase, Step};
use std::cell::{Cell, RefCell};
use std::io::{self, Write};
use std::rc::Rc;

/// What the far end of a link has received, and whether the link is cut.
#[derive(Clone, Default)]
struct Peer {
    received: Rc<RefCell<Vec<u8>>>,
    flushes: Rc<Cell<usize>>,
    cut_after: Rc<Cell<Option<usize>>>,
}

impl Peer {
    fn received(&self) -> Vec<u8> {
        self.received.borrow().clone()
    }

    fn cut(&self) {
        self.cut_after.set(Some(0));
    }

    fn cut_after(&self, bytes: usize) {
        self.cut_after.set(Some(bytes));
    }
}

/// The near end of a link to a `Peer`.
struct Link {
    id: u32,
    peer: Peer,
}

impl Write for Link {
    fn write(&mut self, buf: &[u8]) -> io::Result<usize> {
        match self.peer.cut_after.get() {
            Some(0) => Err(io::Error::new(io::ErrorKind::BrokenPipe, "cut")),
            Some(left) => {
                let n = left.min(buf.len());
                self.peer.received.borrow_mut().extend_from_slice(&buf[..n]);
                self.peer.cut_after.set(Some(left - n));
                Ok(n)
            },
            None => {
                self.peer.received.borrow_mut().extend_from_slice(buf);
                Ok(buf.len())
            },
        }
    }

    fn flush(&mut self) -> io::Result<()> {
        if self.peer.cut_after.get().is_some() {
            return Err(io::Error::new(io::ErrorKind::BrokenPipe, "cut"));
        }
        self.peer.flushes.set(self.peer.flushes.get() + 1);
        Ok(())
    }
}

/// A listener that hands out links to the peers it was given, in order, and
/// refuses once it has none left.
struct Listener {
    next_id: u32,
    waiting: Vec<Peer>,
    attempts: usize,
}

impl Listener {
    fn with(peers: &[&Peer]) -> Self {
        Listener { next_id: 1, waiting: peers.iter().rev().map(|p| (*p).clone()).collect(), attempts: 0 }
    }

    fn connect(&mut self) -> io::Result<Link> {
        self.attempts += 1;
        match self.waiting.pop() {
            Some(peer) => {
                let id = self.next_id;
                self.next_id += 1;
                Ok(Link { id, peer })
            },
            None => Err(io::Error::new(io::ErrorKind::ConnectionRefused, "refused")),
        }
    }
}

/// Performs what the client asks for until the delivery is over.
fn deliver(
    client: &mut Graphite<&'static str, Link>,
    listener: &mut Listener,
    data: &[&str],
) -> (Outcome<io::Error>, Vec<Action>) {
    let mut performed = Vec::new();
    let mut action = client.send_stats(data);
    loop {
        performed.push(action);
        let event = match action {
            Action::Write => {
                let (link, bytes) = client.transport();
                match link.write_all(bytes).and_then(|_| link.flush()) {
                    Ok(()) => Event::Written,
                    Err(e) => Event::WriteFailed(e),
                }
            },
            Action::Reconnect => match listener.connect() {
                Ok(link) => Event::Connected(link),
                Err(e) => Event::ConnectFailed(e),
            },
        };
        match client.handle(event) {
            Ok(Step::Next(next)) => action = next,
            Ok(Step::Done(outcome)) => return (outcome, performed),
            Err(_) => panic!("the client handed back the report on what it asked for"),
        }
    }
}

fn connected(listener: &mut Listener) -> Graphite<&'static str, Link> {
    Graphite::new("collector:2003", listener.connect()).unwrap()
}

#[test]
fn a_live_listener_receives_exactly_the_batch() {
    let peer = Peer::default();
    let mut listener = Listener::with(&[&peer]);
    let mut client = connected(&mut listener);

    let (outcome, performed) =
        deliver(&mut client, &mut listener, &["a.b.c 1 1000", "a.b.c 2 1001"]);

    assert!(matches!(outcome, Outcome::Delivered));
    assert_eq!(performed, vec![Action::Write]);
    assert_eq!(peer.received(), b"a.b.c 1 1000\na.b.c 2 1001\n".to_vec());
    assert_eq!(peer.flushes.get(), 1);
    assert_eq!(listener.attempts, 1);
}

#[test]
fn two_batches_on_a_live_connection_arrive_one_after_the_other() {
    let peer = Peer::default();
    let mut listener = Listener::with(&[&peer]);
    let mut client = connected(&mut listener);

    let (first, _) = deliver(&mut client, &mut listener, &["m 1 1"]);
    let (second, _) = deliver(&mut client, &mut listener, &["m 2 2", "m 3 3"]);

    assert!(matches!(first, Outcome::Delivered));
    assert!(matches!(second, Outcome::Delivered));
    assert_eq!(peer.received(), b"m 1 1\nm 2 2\nm 3 3\n".to_vec());
    assert_eq!(peer.flushes.get(), 2);
    assert_eq!(client.connection().id, 1);
}

#[test]
fn a_cut_connection_is_replaced_and_the_batch_written_again() {
    let old = Peer::default();
    let fresh = Peer::default();
    let mut listener = Listener::with(&[&old, &fresh]);
    let mut client = connected(&mut listener);
    old.cut();

    let (outcome, performed) =
        deliver(&mut client, &mut listener, &["a.b.c 1 1000", "a.b.c 2 1001"]);

    assert!(matches!(outcome, Outcome::DeliveredAfterReconnect));
    assert_eq!(performed, vec![Action::Write, Action::Reconnect, Action::Write]);
    assert_eq!(old.received(), Vec::<u8>::new());
    assert_eq!(fresh.received(), b"a.b.c 1 1000\na.b.c 2 1001\n".to_vec());
    assert_eq!(fresh.flushes.get(), 1);
    assert_eq!(client.connection().id, 2);
    assert_eq!(listener.attempts, 2);
}

#[test]
fn a_failed_reconnect_ends_the_delivery_and_keeps_the_old_connection() {
    let old = Peer::default();
    let mut listener = Listener::with(&[&old]);
    let mut client = connected(&mut listener);
    old.cut();

    let (outcome, performed) = deliver(&mut client, &mut listener, &["m 1 1"]);

    match outcome {
        Outcome::Failed(Error::Connection(e)) => {
            assert_eq!(e.kind(), io::ErrorKind::ConnectionRefused)
        },
        _ => panic!("the delivery did not end on the failed reconnect"),
    }
    assert_eq!(performed, vec![Action::Write, Action::Reconnect]);
    assert_eq!(listener.attempts, 2);
    assert_eq!(client.connection().id, 1);
    assert_eq!(client.phase(), Phase::Idle);
}

#[test]
fn a_failed_second_write_ends_the_delivery() {
    let old = Peer::default();
    let fresh = Peer::default();
    let spare = Peer::default();
    let mut listener = Listener::with(&[&old, &fresh, &spare]);
    let mut client = connected(&mut listener);
    old.cut();
    fresh.cut();

    let (outcome, performed) = deliver(&mut client, &mut listener, &["m 1 1"]);

    match outcome {
        Outcome::Failed(Error::Io(e)) => assert_eq!(e.kind(), io::ErrorKind::BrokenPipe),
        _ => panic!("the delivery did not end on the failed second write"),
    }
    assert_eq!(performed, vec![Action::Write, Action::Reconnect, Action::Write]);
    assert_eq!(listener.attempts, 2);
    assert_eq!(spare.received(), Vec::<u8>::new());
    assert_eq!(client.connection().id, 2);
}

#[test]
fn the_next_batch_first_tries_the_stale_connection_then_heals() {
    let old = Peer::default();
    let fresh = Peer::default();
    let mut listener = Listener::with(&[&old]);
    let mut client = connected(&mut listener);
    old.cut();

    let (first, _) = deliver(&mut client, &mut listener, &["m 1 1"]);
    assert!(matches!(first, Outcome::Failed(Error::Connection(_))));

    listener.waiting.push(fresh.clone());
    let (second, performed) = deliver(&mut client, &mut listener, &["m 2 2"]);

    assert!(matches!(second, Outcome::DeliveredAfterReconnect));
    assert_eq!(performed, vec![Action::Write, Action::Reconnect, Action::Write]);
    assert_eq!(fresh.received(), b"m 2 2\n".to_vec());
    assert_eq!(client.connection().id, 2);
}

#[test]
fn a_failed_batch_leaves_nothing_in_the_next_one() {
    let old = Peer::default();
    let fresh = Peer::default();
    let mut listener = Listener::with(&[&old, &fresh]);
    let mut client = connected(&mut listener);
    old.cut_after(4);
    fresh.cut_after(3);

    let (first, _) = deliver(&mut client, &mut listener, &["lost 1 1", "lost 2 2"]);
    assert!(matches!(first, Outcome::Failed(Error::Io(_))));
    assert_eq!(old.received(), b"lost".to_vec());
    assert_eq!(fresh.received(), b"los".to_vec());
    assert_eq!(client.staged(), b"");

    let healed = Peer::default();
    listener.waiting.push(healed.clone());
    let (second, _) = deliver(&mut client, &mut listener, &["kept 3 3"]);

    assert!(matches!(second, Outcome::DeliveredAfterReconnect));
    assert_eq!(healed.received(), b"kept 3 3\n".to_vec());
}

#[test]
fn a_partly_written_batch_is_written_again_from_its_start() {
    let old = Peer::default();
    let fresh = Peer::default();
    let mut listener = Listener::with(&[&old, &fresh]);
    let mut client = connected(&mut listener);
    old.cut_after(8);

    let (outcome, _) = deliver(&mut client, &mut listener, &["m 1 1", "m 2 2", "m 3 3"]);

    assert!(matches!(outcome, Outcome::DeliveredAfterReconnect));
    assert_eq!(old.received(), b"m 1 1\nm ".to_vec());
    assert_eq!(fresh.received(), b"m 1 1\nm 2 2\nm 3 3\n".to_vec());
}

#[test]
fn no_client_is_made_when_nothing_listens() {
    let mut listener = Listener::with(&[]);
    let made = Graphite::new("collector:2003", listener.connect());
    match made {
        Err(Error::Connection(e)) => assert_eq!(e.kind(), io::ErrorKind::ConnectionRefused),
        Err(Error::Io(_)) => panic!("a failed connection was reported as a failed write"),
        Ok(_) => panic!("a client was made without a connection"),
    }
    assert_eq!(listener.attempts, 1);
}
