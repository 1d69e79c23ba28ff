//! The reverse-proxy mode: datagrams from clients are relayed to a fixed
//! remote, each client through an upstream socket of its own, and may be
//! wrapped in a PROXY header on the way.

use crate::endpoint::Endpoint;
use crate::header::{datagram_header, wrap};
use crate::relay::{drained, idled, queued, Action, Event, Worker, WorkerView};
use crate::session::{looked_up, Lookup};
use crate::utils::cur_timestamp;
use vstd::prelude::*;

verus! {

/// How a reverse-proxy worker is set up.
#[derive(Clone, Copy, Debug, PartialEq, Eq, Structural)]
pub struct Reverse {
    /// Whether outbound datagrams get a PROXY header.
    pub enable_proxy_protocol: bool,
    /// The address of the listening socket, named in the header as the
    /// destination.
    pub listen: Endpoint,
}

/// The bytes that go to the remote for a client's payload: the payload, with
/// the header for the client and the listening address in front of it where
/// wrapping is on.
pub open spec fn outbound(cfg: Reverse, client: Endpoint, payload: Seq<u8>) -> Seq<u8> {
    if cfg.enable_proxy_protocol {
        datagram_header(client, cfg.listen) + payload
    } else {
        payload
    }
}

/// One step of a reverse-proxy worker at the second `now`.
///
/// A datagram from a client with a session refreshes the session and goes to
/// the remote through it. From a client without one it asks for a socket,
/// and, reported again with the socket, creates the session, goes out, and
/// starts the session's listener. Replies to a client are relayed to that
/// client. The other events are those of [`queued`], [`idled`] and
/// [`drained`].
pub open spec fn forward_step<H>(
    w: WorkerView<H>,
    cfg: Reverse,
    event: Event<H, Seq<u8>>,
    now: i64,
) -> (WorkerView<H>, Action<H, Seq<u8>>) {
    match event {
        Event::Datagram { from, payload, upstream } => {
            let (sessions, lookup) = looked_up(w.sessions, from, now, upstream);
            let after = WorkerView { sessions, downstream: w.downstream };
            match lookup {
                Lookup::Missing => (after, Action::Bind { from, payload }),
                Lookup::Existing { spare } => (
                    after,
                    Action::Send {
                        client: from,
                        datagram: outbound(cfg, from, payload),
                        spoof: None,
                        reply_to: from,
                        listen: false,
                        spare,
                    },
                ),
                Lookup::Created => (
                    after,
                    Action::Send {
                        client: from,
                        datagram: outbound(cfg, from, payload),
                        spoof: None,
                        reply_to: from,
                        listen: true,
                        spare: None,
                    },
                ),
            }
        },
        Event::Reply { to, payload } => queued(w, to, payload),
        Event::Idle { client } => idled(w, client, now),
        Event::Writable => drained(w),
    }
}

/// Builds the bytes that go to the remote for a client's payload.
pub fn outbound_datagram(cfg: &Reverse, client: Endpoint, payload: Vec<u8>) -> (datagram: Vec<u8>)
    ensures
        datagram@ == outbound(*cfg, client, payload@),
{
    if cfg.enable_proxy_protocol {
        wrap(client, cfg.listen, payload.as_slice())
    } else {
        payload
    }
}

/// Takes one step of a reverse-proxy worker at the second `now`.
pub fn forward_at<H>(worker: &mut Worker<H>, cfg: &Reverse, event: Event<H, Vec<u8>>, now: i64) -> (action:
    Action<H, Vec<u8>>)
    ensures
        (final(worker)@, action@) == forward_step(old(worker)@, *cfg, event@, now),
{
    match event {
        Event::Datagram { from, payload, upstream } => {
            match worker.sessions.lookup_or_create(&from, now, upstream) {
                Lookup::Missing => Action::Bind { from, payload },
                Lookup::Existing { spare } => Action::Send {
                    client: from,
                    datagram: outbound_datagram(cfg, from, payload),
                    spoof: None,
                    reply_to: from,
                    listen: false,
                    spare,
                },
                Lookup::Created => Action::Send {
                    client: from,
                    datagram: outbound_datagram(cfg, from, payload),
                    spoof: None,
                    reply_to: from,
                    listen: true,
                    spare: None,
                },
            }
        },
        Event::Reply { to, payload } => worker.queue_reply(to, payload),
        Event::Idle { client } => worker.check_idle(client, now),
        Event::Writable => worker.next_write(),
    }
}

/// Takes one step of a reverse-proxy worker at the second that the clock
/// shows: the step of [`forward_at`] for that second.
pub fn forward<H>(worker: &mut Worker<H>, cfg: &Reverse, event: Event<H, Vec<u8>>) -> (action:
    Action<H, Vec<u8>>)
    ensures
        exists|now: i64|
            (final(worker)@, action@) == #[trigger] forward_step(old(worker)@, *cfg, event@, now),
{
    let now = cur_timestamp();
    forward_at(worker, cfg, event, now)
}

/// A session has one listener: a step tells the worker to start one exactly
/// when the step creates the client's session, and a step that finds a
/// session leaves its handle in place and hands an offered socket back.
pub proof fn lemma_one_listener_per_session<H>(
    w: WorkerView<H>,
    cfg: Reverse,
    event: Event<H, Seq<u8>>,
    now: i64,
)
    ensures
        ({
            let (after, action) = forward_step(w, cfg, event, now);
            &&& action matches Action::Send { client, listen, spare, reply_to, .. } ==> {
                &&& event matches Event::Datagram { from, upstream, .. }
                &&& client == from
                &&& reply_to == from
                &&& after.sessions.contains_key(client)
                &&& listen == !w.sessions.contains_key(client)
                &&& !listen ==> after.sessions[client].handle == w.sessions[client].handle && spare
                    == upstream
                &&& listen ==> upstream == Some(after.sessions[client].handle) && spare is None
            }
            &&& action is Bind ==> after == w
        }),
{
}

/// With wrapping off the remote gets the client's bytes as they came; with
/// wrapping on it gets them behind a header that decodes to the client.
pub proof fn lemma_outbound_carries_payload(cfg: Reverse, client: Endpoint, payload: Seq<u8>)
    ensures
        !cfg.enable_proxy_protocol ==> outbound(cfg, client, payload) == payload,
        cfg.enable_proxy_protocol ==> {
            &&& crate::header::decoded(outbound(cfg, client, payload)) matches Ok(h)
            &&& h.original_source == client
            &&& outbound(cfg, client, payload).skip(h.header_byte_length as int) == payload
        },
{
    if cfg.enable_proxy_protocol {
        crate::header::lemma_header_roundtrip(client, cfg.listen, payload);
    }
}

/// No step sets a session back in time, whatever the clock shows: a session
/// that is there before and after a step was last active no earlier after it
/// than before, with the handle it had; and a datagram that goes out through
/// a session leaves it last active no earlier than `now`.
pub proof fn lemma_step_never_sets_back<H>(
    w: WorkerView<H>,
    cfg: Reverse,
    event: Event<H, Seq<u8>>,
    now: i64,
)
    ensures
        ({
            let (after, action) = forward_step(w, cfg, event, now);
            &&& forall|c: Endpoint|
                w.sessions.contains_key(c) && #[trigger] after.sessions.contains_key(c) ==> {
                    &&& after.sessions[c].last_activity >= w.sessions[c].last_activity
                    &&& after.sessions[c].handle == w.sessions[c].handle
                }
            &&& action matches Action::Send { client, .. } ==> after.sessions[client].last_activity
                >= now
        }),
{
}

} // verus!
