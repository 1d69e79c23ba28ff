//! The session table: one upstream handle and one time of last activity for
//! each client.

use crate::endpoint::{lemma_key_injective, Endpoint};
use crate::utils::expired;
use std::collections::HashMap;
use vstd::prelude::*;

verus! {

broadcast use vstd::std_specs::hash::group_hash_axioms;

/// The binding between a client and the upstream socket that relays its
/// traffic. `H` is the socket as the worker holds it.
#[derive(Debug, PartialEq, Eq)]
pub struct Session<H> {
    pub handle: H,
    /// The second at which the client's last datagram was seen.
    pub last_activity: i64,
}

/// How a lookup ended.
#[derive(Debug, PartialEq, Eq)]
pub enum Lookup<H> {
    /// The client had a session; its time of last activity was refreshed. A
    /// handle that was offered comes back unused.
    Existing { spare: Option<H> },
    /// The client had none and the offered handle now serves it.
    Created,
    /// The client has none, and no handle was offered to create one.
    Missing,
}

/// The later of two seconds.
pub open spec fn later(a: i64, b: i64) -> i64 {
    if a >= b {
        a
    } else {
        b
    }
}

/// What a lookup does to a table and how it ends: a client with a session
/// keeps its handle, and its time of last activity moves forward to `now`
/// unless it is later than `now` already, so that it never falls; the
/// offered handle comes back. A client without a session gets the offered
/// handle, last active at `now`; where none is offered nothing changes.
pub open spec fn looked_up<H>(
    table: Map<Endpoint, Session<H>>,
    client: Endpoint,
    now: i64,
    fresh: Option<H>,
) -> (Map<Endpoint, Session<H>>, Lookup<H>) {
    if table.contains_key(client) {
        (
            table.insert(
                client,
                Session {
                    handle: table[client].handle,
                    last_activity: later(table[client].last_activity, now),
                },
            ),
            Lookup::Existing { spare: fresh },
        )
    } else {
        match fresh {
            Some(handle) => (
                table.insert(client, Session { handle, last_activity: now }),
                Lookup::Created,
            ),
            None => (table, Lookup::Missing),
        }
    }
}

/// Whether the idle check at `now` removes the client's session: it does
/// where the client has one that was last active `timeout` seconds or more
/// before.
pub open spec fn is_idle<H>(
    table: Map<Endpoint, Session<H>>,
    client: Endpoint,
    now: i64,
    timeout: u64,
) -> bool {
    table.contains_key(client) && expired(
        now as int,
        table[client].last_activity as int,
        timeout as int,
    )
}

/// The table after the idle check at `now`.
pub open spec fn evicted<H>(
    table: Map<Endpoint, Session<H>>,
    client: Endpoint,
    now: i64,
    timeout: u64,
) -> Map<Endpoint, Session<H>> {
    if is_idle(table, client, now, timeout) {
        table.remove(client)
    } else {
        table
    }
}

/// A map from client to session. A client has at most one session, by
/// construction: the table is keyed by the client's address.
pub struct SessionTable<H> {
    slots: HashMap<u64, Session<H>>,
}

/// The sessions of a map that is keyed by the clients' keys, by client.
pub closed spec fn by_client<H>(slots: Map<u64, Session<H>>) -> Map<Endpoint, Session<H>> {
    Map::new(
        |e: Endpoint| slots.contains_key(e.key() as u64),
        |e: Endpoint| slots[e.key() as u64],
    )
}

/// A session stored under a client's key is that client's session and no
/// other client's.
proof fn lemma_insert<H>(slots: Map<u64, Session<H>>, client: Endpoint, session: Session<H>)
    ensures
        by_client(slots.insert(client.key() as u64, session)) == by_client(slots).insert(
            client,
            session,
        ),
{
    assert forall|e: Endpoint| e != client implies e.key() as u64 != client.key() as u64 by {
        if e.key() == client.key() {
            lemma_key_injective(e, client);
        }
    }
    assert(by_client(slots.insert(client.key() as u64, session)) =~= by_client(slots).insert(
        client,
        session,
    ));
}

/// Removing a client's key removes that client's session and no other
/// client's.
proof fn lemma_remove<H>(slots: Map<u64, Session<H>>, client: Endpoint)
    ensures
        by_client(slots.remove(client.key() as u64)) == by_client(slots).remove(client),
{
    assert forall|e: Endpoint| e != client implies e.key() as u64 != client.key() as u64 by {
        if e.key() == client.key() {
            lemma_key_injective(e, client);
        }
    }
    assert(by_client(slots.remove(client.key() as u64)) =~= by_client(slots).remove(client));
}

impl<H> View for SessionTable<H> {
    type V = Map<Endpoint, Session<H>>;

    closed spec fn view(&self) -> Map<Endpoint, Session<H>> {
        by_client(self.slots@)
    }
}

impl<H> SessionTable<H> {
    /// A table without sessions.
    pub fn new() -> (table: SessionTable<H>)
        ensures
            table@ == Map::<Endpoint, Session<H>>::empty(),
    {
        let table = SessionTable { slots: HashMap::new() };
        assert(table@ =~= Map::<Endpoint, Session<H>>::empty());
        table
    }

    /// Tells whether the client has a session.
    pub fn contains(&self, client: &Endpoint) -> (found: bool)
        ensures
            found == self@.contains_key(*client),
    {
        let key = client.to_key();
        self.slots.contains_key(&key)
    }

    /// The upstream handle of the client's session.
    pub fn handle(&self, client: &Endpoint) -> (handle: Option<&H>)
        ensures
            match handle {
                Some(h) => self@.contains_key(*client) && *h == self@[*client].handle,
                None => !self@.contains_key(*client),
            },
    {
        let key = client.to_key();
        match self.slots.get(&key) {
            Some(session) => Some(&session.handle),
            None => None,
        }
    }

    /// The second at which the client's session was last active.
    pub fn last_activity(&self, client: &Endpoint) -> (time: Option<i64>)
        ensures
            match time {
                Some(t) => self@.contains_key(*client) && t == self@[*client].last_activity,
                None => !self@.contains_key(*client),
            },
    {
        let key = client.to_key();
        match self.slots.get(&key) {
            Some(session) => Some(session.last_activity),
            None => None,
        }
    }

    /// Refreshes the time of last activity of the client's session: it
    /// becomes `now`, or stays where it is later than `now`. A client without
    /// a session is left without one.
    pub fn touch(&mut self, client: &Endpoint, now: i64) -> (found: bool)
        ensures
            found == old(self)@.contains_key(*client),
            found ==> final(self)@ == looked_up(old(self)@, *client, now, None).0,
            !found ==> final(self)@ == old(self)@,
    {
        let key = client.to_key();
        let ghost before = self.slots@;
        match self.slots.remove(&key) {
            Some(session) => {
                let last_activity = if session.last_activity >= now {
                    session.last_activity
                } else {
                    now
                };
                let refreshed = Session { handle: session.handle, last_activity };
                self.slots.insert(key, refreshed);
                proof {
                    assert(self.slots@ =~= before.insert(key, refreshed));
                    lemma_insert(before, *client, refreshed);
                }
                true
            },
            None => false,
        }
    }

    /// Finds the client's session and refreshes it, or creates one from the
    /// handle that is offered.
    ///
    /// A client that has a session keeps its handle, and an offered one is
    /// handed back; the session's time of last activity becomes `now`, or
    /// stays where it is later than `now`. A client that has none gets the
    /// offered handle, with `now` as its time of last activity. Where none is
    /// offered the table stays as it is.
    pub fn lookup_or_create(&mut self, client: &Endpoint, now: i64, fresh: Option<H>) -> (r: Lookup<
        H,
    >)
        ensures
            (final(self)@, r) == looked_up(old(self)@, *client, now, fresh),
    {
        if self.touch(client, now) {
            return Lookup::Existing { spare: fresh };
        }
        match fresh {
            Some(handle) => {
                let key = client.to_key();
                let ghost before = self.slots@;
                let session = Session { handle, last_activity: now };
                self.slots.insert(key, session);
                proof {
                    lemma_insert(before, *client, session);
                }
                Lookup::Created
            },
            None => Lookup::Missing,
        }
    }

    /// Removes the client's session if it has been idle for `timeout` seconds
    /// or more at `now`, and tells whether it did. The handle is dropped with
    /// the session. A session that was active more recently stays, and so
    /// does a table that holds none for the client.
    pub fn evict_if_idle(&mut self, client: &Endpoint, now: i64, timeout: u64) -> (removed: bool)
        ensures
            removed == is_idle(old(self)@, *client, now, timeout),
            final(self)@ == evicted(old(self)@, *client, now, timeout),
    {
        let key = client.to_key();
        let idle = match self.slots.get(&key) {
            Some(session) => crate::utils::is_timeout_at(now, session.last_activity, timeout),
            None => false,
        };
        if idle {
            let ghost before = self.slots@;
            self.slots.remove(&key);
            proof {
                lemma_remove(before, *client);
            }
        }
        idle
    }
}

/// The table after a run of lookups for one client, each with the second at
/// which it happens and the handle it offers.
pub open spec fn after_lookups<H>(
    table: Map<Endpoint, Session<H>>,
    client: Endpoint,
    offers: Seq<(i64, Option<H>)>,
) -> Map<Endpoint, Session<H>>
    decreases offers.len(),
{
    if offers.len() == 0 {
        table
    } else {
        after_lookups(
            looked_up(table, client, offers[0].0, offers[0].1).0,
            client,
            offers.skip(1),
        )
    }
}

/// How many sessions a run of lookups for one client creates.
pub open spec fn creations<H>(
    table: Map<Endpoint, Session<H>>,
    client: Endpoint,
    offers: Seq<(i64, Option<H>)>,
) -> nat
    decreases offers.len(),
{
    if offers.len() == 0 {
        0
    } else {
        let (next, lookup) = looked_up(table, client, offers[0].0, offers[0].1);
        let here: nat = if lookup is Created {
            1
        } else {
            0
        };
        here + creations(next, client, offers.skip(1))
    }
}

/// A client has at most one session however many of its datagrams arrive: a
/// run of lookups for one client creates at most one session, and none where
/// the client had one to begin with; a session that exists keeps its handle
/// through the run; no other client's session is touched.
pub proof fn lemma_session_uniqueness<H>(
    table: Map<Endpoint, Session<H>>,
    client: Endpoint,
    offers: Seq<(i64, Option<H>)>,
)
    ensures
        creations(table, client, offers) <= 1,
        table.contains_key(client) ==> {
            &&& creations(table, client, offers) == 0
            &&& after_lookups(table, client, offers).contains_key(client)
            &&& after_lookups(table, client, offers)[client].handle == table[client].handle
        },
        after_lookups(table, client, offers).remove(client) == table.remove(client),
    decreases offers.len(),
{
    if offers.len() > 0 {
        let next = looked_up(table, client, offers[0].0, offers[0].1).0;
        lemma_session_uniqueness(next, client, offers.skip(1));
        assert(next.remove(client) =~= table.remove(client));
    }
}

/// A datagram refreshes its client's session and never sets it back: after
/// a lookup at `now` the session, where there is one, was last active no
/// earlier than `now` and no earlier than before the lookup. It was last
/// active at `now` exactly, unless it had been active later than that.
pub proof fn lemma_activity_refreshed<H>(
    table: Map<Endpoint, Session<H>>,
    client: Endpoint,
    now: i64,
    fresh: Option<H>,
)
    ensures
        ({
            let after = looked_up(table, client, now, fresh).0;
            &&& after.contains_key(client) == (table.contains_key(client) || fresh is Some)
            &&& after.contains_key(client) ==> after[client].last_activity >= now
            &&& table.contains_key(client) ==> {
                &&& after[client].last_activity >= table[client].last_activity
                &&& after[client].last_activity == later(table[client].last_activity, now)
            }
            &&& !table.contains_key(client) && fresh is Some ==> after[client].last_activity
                == now
        }),
{
}

/// The time of last activity never falls over a run of lookups, whatever
/// the clock shows at each of them.
pub proof fn lemma_activity_never_falls<H>(
    table: Map<Endpoint, Session<H>>,
    client: Endpoint,
    offers: Seq<(i64, Option<H>)>,
)
    requires
        table.contains_key(client),
    ensures
        after_lookups(table, client, offers).contains_key(client),
        after_lookups(table, client, offers)[client].last_activity
            >= table[client].last_activity,
        forall|i: int|
            0 <= i < offers.len() ==> after_lookups(table, client, offers)[client].last_activity
                >= (#[trigger] offers[i]).0,
    decreases offers.len(),
{
    if offers.len() > 0 {
        let next = looked_up(table, client, offers[0].0, offers[0].1).0;
        lemma_activity_never_falls(next, client, offers.skip(1));
        assert forall|i: int| 0 <= i < offers.len() implies after_lookups(
            table,
            client,
            offers,
        )[client].last_activity >= (#[trigger] offers[i]).0 by {
            if i > 0 {
                assert(offers.skip(1)[i - 1] == offers[i]);
            }
        }
    }
}

/// A session is evicted when it has been idle for the timeout, and not
/// before: after a lookup at `seen`, an idle check earlier than
/// `seen + timeout` leaves the session and the table as they are; a check at
/// the session's time of last activity plus `timeout`, or later, removes the
/// session and nothing else. That time is `seen` itself for a session that
/// the lookup created and for one that was not active later than `seen`.
pub proof fn lemma_idle_eviction<H>(
    table: Map<Endpoint, Session<H>>,
    client: Endpoint,
    seen: i64,
    fresh: Option<H>,
    check: i64,
    timeout: u64,
)
    ensures
        ({
            let after = looked_up(table, client, seen, fresh).0;
            &&& after.contains_key(client) && check < seen + timeout ==> {
                &&& !is_idle(after, client, check, timeout)
                &&& evicted(after, client, check, timeout) == after
            }
            &&& after.contains_key(client) && check >= after[client].last_activity + timeout
                ==> {
                &&& is_idle(after, client, check, timeout)
                &&& !evicted(after, client, check, timeout).contains_key(client)
                &&& evicted(after, client, check, timeout) == after.remove(client)
            }
            &&& after.contains_key(client) && (table.contains_key(client)
                ==> table[client].last_activity <= seen) ==> after[client].last_activity == seen
        }),
{
}

} // verus!
