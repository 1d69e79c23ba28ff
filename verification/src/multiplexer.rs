//! The downstream multiplexer: the one ordered queue through which the
//! replies of every session reach the task that writes to the client-facing
//! socket.

use crate::endpoint::Endpoint;
use std::collections::VecDeque;
use vstd::prelude::*;

verus! {

/// Replies that wait to be written, each with the address it goes to, oldest
/// first.
pub struct Multiplexer {
    queue: VecDeque<(Endpoint, Vec<u8>)>,
}

impl View for Multiplexer {
    type V = Seq<(Endpoint, Seq<u8>)>;

    closed spec fn view(&self) -> Seq<(Endpoint, Seq<u8>)> {
        self.queue@.map_values(|reply: (Endpoint, Vec<u8>)| (reply.0, reply.1@))
    }
}

impl Multiplexer {
    /// An empty queue.
    pub fn new() -> (mux: Multiplexer)
        ensures
            mux@ == Seq::<(Endpoint, Seq<u8>)>::empty(),
    {
        let mux = Multiplexer { queue: VecDeque::new() };
        assert(mux@ =~= Seq::<(Endpoint, Seq<u8>)>::empty());
        mux
    }

    /// The number of replies that wait.
    pub fn len(&self) -> (n: usize)
        ensures
            n == self@.len(),
    {
        self.queue.len()
    }

    /// Puts a reply behind all that wait.
    pub fn push(&mut self, to: Endpoint, payload: Vec<u8>)
        ensures
            final(self)@ == old(self)@.push((to, payload@)),
    {
        self.queue.push_back((to, payload));
        assert(self@ =~= old(self)@.push((to, payload@)));
    }

    /// Takes the reply that has waited longest.
    pub fn pop(&mut self) -> (reply: Option<(Endpoint, Vec<u8>)>)
        ensures
            match reply {
                Some((to, payload)) => old(self)@.len() > 0 && (to, payload@) == old(self)@[0]
                    && final(self)@ == old(self)@.skip(1),
                None => old(self)@.len() == 0 && final(self)@ == old(self)@,
            },
    {
        let reply = self.queue.pop_front();
        assert(reply is Some ==> self@ =~= old(self)@.skip(1));
        reply
    }
}

} // verus!
