//! The transparent mode: datagrams arrive from a load balancer with a PROXY
//! header in front. The header names the original client; the payload goes
//! on to the backend with that client's address as the packet's source, so
//! that the backend sees the client itself.

use crate::endpoint::Endpoint;
use crate::header::{decode_header, decoded};
use crate::relay::{drained, idled, queued, Action, Event, Worker, WorkerView};
use crate::session::{looked_up, Lookup};
use crate::utils::cur_timestamp;
use vstd::prelude::*;
use vstd::slice::{slice_subrange, slice_to_vec};

verus! {

/// How a transparent worker is set up.
#[derive(Clone, Copy, Debug, PartialEq, Eq, Structural)]
pub struct Transparent {
    /// Whether a session is kept for each client and replies are relayed.
    /// Without it every datagram is sent on once and forgotten.
    pub stateful: bool,
}

/// One step of a transparent worker at the second `now`.
///
/// A datagram whose header does not decode is rejected and changes nothing.
/// One that decodes is stripped of its header. Without sessions it goes out
/// once, from the original client's address. With sessions the original
/// client, not the sender, names the session: the datagram refreshes or
/// creates it as in the reverse mode, and replies are relayed to the sender
/// of the datagram that created the session. The other events are those of
/// [`queued`], [`idled`] and [`drained`].
pub open spec fn mmproxy_step<H>(
    w: WorkerView<H>,
    cfg: Transparent,
    event: Event<H, Seq<u8>>,
    now: i64,
) -> (WorkerView<H>, Action<H, Seq<u8>>) {
    match event {
        Event::Datagram { from, payload, upstream } => match decoded(payload) {
            Err(reason) => (w, Action::Reject { from, reason, spare: upstream }),
            Ok(header) => {
                let client = header.original_source;
                let datagram = payload.skip(header.header_byte_length as int);
                if !cfg.stateful {
                    (w, Action::SendOnce { source: client.ip, datagram, spare: upstream })
                } else {
                    let (sessions, lookup) = looked_up(w.sessions, client, now, upstream);
                    let after = WorkerView { sessions, downstream: w.downstream };
                    match lookup {
                        Lookup::Missing => (after, Action::Bind { from, payload }),
                        Lookup::Existing { spare } => (
                            after,
                            Action::Send {
                                client,
                                datagram,
                                spoof: Some(client.ip),
                                reply_to: from,
                                listen: false,
                                spare,
                            },
                        ),
                        Lookup::Created => (
                            after,
                            Action::Send {
                                client,
                                datagram,
                                spoof: Some(client.ip),
                                reply_to: from,
                                listen: true,
                                spare: None,
                            },
                        ),
                    }
                }
            },
        },
        Event::Reply { to, payload } => queued(w, to, payload),
        Event::Idle { client } => idled(w, client, now),
        Event::Writable => drained(w),
    }
}

/// Takes one step of a transparent worker at the second `now`.
pub fn forward_mmproxy_at<H>(
    worker: &mut Worker<H>,
    cfg: &Transparent,
    event: Event<H, Vec<u8>>,
    now: i64,
) -> (action: Action<H, Vec<u8>>)
    ensures
        (final(worker)@, action@) == mmproxy_step(old(worker)@, *cfg, event@, now),
{
    match event {
        Event::Datagram { from, payload, upstream } => {
            let header = match decode_header(payload.as_slice()) {
                Ok(header) => header,
                Err(reason) => {
                    return Action::Reject { from, reason, spare: upstream };
                },
            };
            let client = header.original_source;
            if !cfg.stateful {
                let datagram = slice_to_vec(
                    slice_subrange(payload.as_slice(), header.header_byte_length, payload.len()),
                );
                return Action::SendOnce { source: client.ip, datagram, spare: upstream };
            }
            match worker.sessions.lookup_or_create(&client, now, upstream) {
                Lookup::Missing => Action::Bind { from, payload },
                Lookup::Existing { spare } => Action::Send {
                    client,
                    datagram: slice_to_vec(
                        slice_subrange(
                            payload.as_slice(),
                            header.header_byte_length,
                            payload.len(),
                        ),
                    ),
                    spoof: Some(client.ip),
                    reply_to: from,
                    listen: false,
                    spare,
                },
                Lookup::Created => Action::Send {
                    client,
                    datagram: slice_to_vec(
                        slice_subrange(
                            payload.as_slice(),
                            header.header_byte_length,
                            payload.len(),
                        ),
                    ),
                    spoof: Some(client.ip),
                    reply_to: from,
                    listen: true,
                    spare: None,
                },
            }
        },
        Event::Reply { to, payload } => worker.queue_reply(to, payload),
        Event::Idle { client } => worker.check_idle(client, now),
        Event::Writable => worker.next_write(),
    }
}

/// Takes one step of a transparent worker at the second that the clock
/// shows: the step of [`forward_mmproxy_at`] for that second.
pub fn forward_mmproxy<H>(worker: &mut Worker<H>, cfg: &Transparent, event: Event<H, Vec<u8>>) -> (action:
    Action<H, Vec<u8>>)
    ensures
        exists|now: i64|
            (final(worker)@, action@) == #[trigger] mmproxy_step(old(worker)@, *cfg, event@, now),
{
    let now = cur_timestamp();
    forward_mmproxy_at(worker, cfg, event, now)
}

/// A datagram whose header does not decode is dropped and leaves the worker
/// as it was: no session is created, refreshed or removed, and no reply is
/// queued or lost.
pub proof fn lemma_rejection_changes_nothing<H>(
    w: WorkerView<H>,
    cfg: Transparent,
    from: Endpoint,
    payload: Seq<u8>,
    upstream: Option<H>,
    now: i64,
)
    requires
        decoded(payload) is Err,
    ensures
        mmproxy_step(w, cfg, Event::Datagram { from, payload, upstream }, now) == (
            w,
            Action::<H, Seq<u8>>::Reject { from, reason: decoded(payload)->Err_0, spare: upstream },
        ),
{
}

/// The original client names the session, and the session has one listener:
/// a step that sends through a session sends from the client's address, and
/// tells the worker to start a listener exactly when it creates the session.
/// Without sessions no step changes the table.
pub proof fn lemma_sessions_follow_original_source<H>(
    w: WorkerView<H>,
    cfg: Transparent,
    event: Event<H, Seq<u8>>,
    now: i64,
)
    ensures
        ({
            let (after, action) = mmproxy_step(w, cfg, event, now);
            &&& action matches Action::Send { client, spoof, listen, reply_to, datagram, .. } ==> {
                &&& event matches Event::Datagram { from, payload, .. }
                &&& decoded(payload) matches Ok(header)
                &&& client == header.original_source
                &&& datagram == payload.skip(header.header_byte_length as int)
                &&& spoof == Some(client.ip)
                &&& reply_to == from
                &&& after.sessions.contains_key(client)
                &&& listen == !w.sessions.contains_key(client)
            }
            &&& !cfg.stateful && event is Datagram ==> after == w
        }),
{
}

/// No step sets a session back in time, whatever the clock shows: a session
/// that is there before and after a step was last active no earlier after it
/// than before, with the handle it had; and a datagram that goes out through
/// a session leaves it last active no earlier than `now`.
pub proof fn lemma_step_never_sets_back<H>(
    w: WorkerView<H>,
    cfg: Transparent,
    event: Event<H, Seq<u8>>,
    now: i64,
)
    ensures
        ({
            let (after, action) = mmproxy_step(w, cfg, event, now);
            &&& forall|c: Endpoint|
                w.sessions.contains_key(c) && #[trigger] after.sessions.contains_key(c) ==> {
                    &&& after.sessions[c].last_activity >= w.sessions[c].last_activity
                    &&& after.sessions[c].handle == w.sessions[c].handle
                }
            &&& action matches Action::Send { client, .. } ==> after.sessions[client].last_activity
                >= now
        }),
{
}

} // verus!
