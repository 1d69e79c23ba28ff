//! What the two forwarding modes share: the state of a worker, the events
//! that a worker reports and the actions it is told to take, and the reply
//! path from an upstream back to the client.
//!
//! A worker owns the sockets. It reports each event to the engine and carries
//! out the action that comes back; the engine decides and keeps the books.

use crate::endpoint::{Endpoint, Ipv4};
use crate::header::DecodeError;
use crate::multiplexer::Multiplexer;
use crate::session::{evicted, is_idle, Session, SessionTable};
use crate::utils::TIMEOUT_SECOND;
use vstd::prelude::*;

verus! {

/// The state of one worker: its sessions and the replies that wait to be
/// written. `H` is the upstream socket as the worker holds it.
pub struct Worker<H> {
    pub sessions: SessionTable<H>,
    pub downstream: Multiplexer,
}

/// A worker's state as a map of sessions and a sequence of waiting replies.
pub struct WorkerView<H> {
    pub sessions: Map<Endpoint, Session<H>>,
    pub downstream: Seq<(Endpoint, Seq<u8>)>,
}

impl<H> View for Worker<H> {
    type V = WorkerView<H>;

    open spec fn view(&self) -> WorkerView<H> {
        WorkerView { sessions: self.sessions@, downstream: self.downstream@ }
    }
}

/// What a worker reports. `B` is the type of a datagram's bytes: `Vec<u8>`
/// in a running worker, `Seq<u8>` in contracts.
#[derive(Debug, PartialEq, Eq)]
pub enum Event<H, B> {
    /// A datagram arrived on the listening socket. `upstream` is a freshly
    /// bound socket where the engine asked for one with [`Action::Bind`].
    Datagram { from: Endpoint, payload: B, upstream: Option<H> },
    /// The upstream of a session replied; `to` is where the session's
    /// listener relays replies.
    Reply { to: Endpoint, payload: B },
    /// The listener of the client's session saw no reply for the length of
    /// the idle timeout.
    Idle { client: Endpoint },
    /// The writer is ready for the next reply.
    Writable,
}

/// What a worker is told to do.
#[derive(Debug, PartialEq, Eq)]
pub enum Action<H, B> {
    /// The client has no session yet: bind an upstream socket and report
    /// the same datagram again, with the socket.
    Bind { from: Endpoint, payload: B },
    /// Send `datagram` to the remote through the session of `client`, with
    /// `spoof` as the packet's source address where there is one. Where
    /// `listen` is set the session is new: start its only listener, which
    /// relays replies to `reply_to`. A socket that was offered and not
    /// needed comes back in `spare`, to be closed.
    Send {
        client: Endpoint,
        datagram: B,
        spoof: Option<Ipv4>,
        reply_to: Endpoint,
        listen: bool,
        spare: Option<H>,
    },
    /// Send `datagram` to the remote from a socket of its own, with `source`
    /// as the packet's source address, and expect no reply.
    SendOnce { source: Ipv4, datagram: B, spare: Option<H> },
    /// Drop the datagram that came from `from`: its header did not decode.
    Reject { from: Endpoint, reason: DecodeError, spare: Option<H> },
    /// The reply waits for the writer.
    Queued,
    /// The session of `client` is gone: the listener ends and the socket is
    /// closed.
    Close { client: Endpoint },
    /// The session of `client` stays: the listener goes on.
    Listen { client: Endpoint },
    /// Write `payload` to the client-facing socket, addressed to `to`.
    Write { to: Endpoint, payload: B },
    /// No reply waits.
    Rest,
}

impl<H> View for Event<H, Vec<u8>> {
    type V = Event<H, Seq<u8>>;

    open spec fn view(&self) -> Event<H, Seq<u8>> {
        match *self {
            Event::Datagram { from, payload, upstream } => Event::Datagram {
                from,
                payload: payload@,
                upstream,
            },
            Event::Reply { to, payload } => Event::Reply { to, payload: payload@ },
            Event::Idle { client } => Event::Idle { client },
            Event::Writable => Event::Writable,
        }
    }
}

impl<H> View for Action<H, Vec<u8>> {
    type V = Action<H, Seq<u8>>;

    open spec fn view(&self) -> Action<H, Seq<u8>> {
        match *self {
            Action::Bind { from, payload } => Action::Bind { from, payload: payload@ },
            Action::Send { client, datagram, spoof, reply_to, listen, spare } => Action::Send {
                client,
                datagram: datagram@,
                spoof,
                reply_to,
                listen,
                spare,
            },
            Action::SendOnce { source, datagram, spare } => Action::SendOnce {
                source,
                datagram: datagram@,
                spare,
            },
            Action::Reject { from, reason, spare } => Action::Reject { from, reason, spare },
            Action::Queued => Action::Queued,
            Action::Close { client } => Action::Close { client },
            Action::Listen { client } => Action::Listen { client },
            Action::Write { to, payload } => Action::Write { to, payload: payload@ },
            Action::Rest => Action::Rest,
        }
    }
}

/// A reply joins the queue behind all that wait.
pub open spec fn queued<H>(w: WorkerView<H>, to: Endpoint, payload: Seq<u8>) -> (
    WorkerView<H>,
    Action<H, Seq<u8>>,
) {
    (
        WorkerView { sessions: w.sessions, downstream: w.downstream.push((to, payload)) },
        Action::Queued,
    )
}

/// A listener that saw nothing asks whether its session is idle: a session
/// that was last active before the idle timeout began is removed and the
/// listener ends; any other stays and the listener goes on.
pub open spec fn idled<H>(w: WorkerView<H>, client: Endpoint, now: i64) -> (
    WorkerView<H>,
    Action<H, Seq<u8>>,
) {
    (
        WorkerView {
            sessions: evicted(w.sessions, client, now, TIMEOUT_SECOND),
            downstream: w.downstream,
        },
        if is_idle(w.sessions, client, now, TIMEOUT_SECOND) {
            Action::Close { client }
        } else {
            Action::Listen { client }
        },
    )
}

/// The writer takes the reply that has waited longest.
pub open spec fn drained<H>(w: WorkerView<H>) -> (WorkerView<H>, Action<H, Seq<u8>>) {
    if w.downstream.len() > 0 {
        (
            WorkerView { sessions: w.sessions, downstream: w.downstream.skip(1) },
            Action::Write { to: w.downstream[0].0, payload: w.downstream[0].1 },
        )
    } else {
        (w, Action::Rest)
    }
}

impl<H> Worker<H> {
    /// A worker without sessions or waiting replies.
    pub fn new() -> (worker: Worker<H>)
        ensures
            worker@.sessions == Map::<Endpoint, Session<H>>::empty(),
            worker@.downstream == Seq::<(Endpoint, Seq<u8>)>::empty(),
    {
        Worker { sessions: SessionTable::new(), downstream: Multiplexer::new() }
    }

    /// Queues a reply for the writer.
    pub fn queue_reply(&mut self, to: Endpoint, payload: Vec<u8>) -> (action: Action<H, Vec<u8>>)
        ensures
            (final(self)@, action@) == queued(old(self)@, to, payload@),
    {
        self.downstream.push(to, payload);
        Action::Queued
    }

    /// Evicts the client's session if it has been idle for the length of the
    /// idle timeout at `now`.
    pub fn check_idle(&mut self, client: Endpoint, now: i64) -> (action: Action<H, Vec<u8>>)
        ensures
            (final(self)@, action@) == idled(old(self)@, client, now),
    {
        if self.sessions.evict_if_idle(&client, now, TIMEOUT_SECOND) {
            Action::Close { client }
        } else {
            Action::Listen { client }
        }
    }

    /// Hands the writer its next reply.
    pub fn next_write(&mut self) -> (action: Action<H, Vec<u8>>)
        ensures
            (final(self)@, action@) == drained(old(self)@),
    {
        match self.downstream.pop() {
            Some((to, payload)) => Action::Write { to, payload },
            None => Action::Rest,
        }
    }
}

/// The writer sends replies in the order in which they were queued: after
/// two replies are queued one behind the other, the writer's steps hand out
/// all that waited before them, then the first, then the second.
pub proof fn lemma_replies_written_in_order<H>(
    w: WorkerView<H>,
    to: Endpoint,
    first: Seq<u8>,
    second: Seq<u8>,
)
    ensures
        ({
            let both = queued(queued(w, to, first).0, to, second).0;
            let ahead = w.downstream.len() as int;
            &&& both.downstream.len() == ahead + 2
            &&& both.downstream.take(ahead) == w.downstream
            &&& drained(
                WorkerView { sessions: both.sessions, downstream: both.downstream.skip(ahead) },
            ).1 == (Action::<H, Seq<u8>>::Write { to, payload: first })
            &&& drained(
                WorkerView { sessions: both.sessions, downstream: both.downstream.skip(ahead + 1) },
            ).1 == (Action::<H, Seq<u8>>::Write { to, payload: second })
        }),
{
    let both = queued(queued(w, to, first).0, to, second).0;
    assert(both.downstream.take(w.downstream.len() as int) =~= w.downstream);
}

/// Each step of the writer hands out the head of the queue and leaves the
/// rest in order: `n` steps hand out the first `n` replies that wait.
pub open spec fn drained_times<H>(w: WorkerView<H>, n: nat) -> WorkerView<H>
    decreases n,
{
    if n == 0 {
        w
    } else {
        drained_times(drained(w).0, (n - 1) as nat)
    }
}

/// After `n` steps of the writer, with `n` no more than the number of replies
/// that wait, the queue is what it was without its first `n` replies, and the
/// next step writes the reply that stood at index `n`.
pub proof fn lemma_writer_follows_queue<H>(w: WorkerView<H>, n: nat)
    requires
        n <= w.downstream.len(),
    ensures
        drained_times(w, n).downstream == w.downstream.skip(n as int),
        drained_times(w, n).sessions == w.sessions,
        n < w.downstream.len() ==> drained(drained_times(w, n)).1 == (Action::<
            H,
            Seq<u8>,
        >::Write { to: w.downstream[n as int].0, payload: w.downstream[n as int].1 }),
    decreases n,
{
    if n == 0 {
        assert(w.downstream.skip(0) =~= w.downstream);
    } else {
        let next = drained(w).0;
        lemma_writer_follows_queue(next, (n - 1) as nat);
        assert(next.downstream.skip(n - 1) =~= w.downstream.skip(n as int));
    }
}

} // verus!
