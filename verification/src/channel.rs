//! The lend channel: a registry of servers, and the synchronous calls that lend a buffer to one
//! of them.
//!
//! A server is a pair of handlers. The read handler is given a read-only view of the lent
//! buffer, the write handler a mutable one. A call returns only when the handler has returned,
//! so whatever the write handler left in the buffer is what the lender finds there.
//!
//! All servers of one channel have handlers of the same two types. Boxed handlers make a
//! channel of servers of different make.

use vstd::prelude::*;

verus! {

/// The registry entry of one connection: the handler for `lend` and the handler for `lend_mut`.
pub struct Server<R, W> {
    pub read: R,
    pub write: W,
}

impl<R, W> Server<R, W> {
    /// Pairs a read handler with a write handler.
    pub fn new(read: R, write: W) -> (server: Self)
        ensures
            server.read == read,
            server.write == write,
    {
        Server { read, write }
    }
}

/// The registered servers. A connection identifier is the position of its server, in the order
/// of registration; an entry is never removed nor replaced.
pub struct LendChannel<R, W> {
    servers: Vec<Server<R, W>>,
}

impl<R, W> View for LendChannel<R, W> {
    type V = Seq<Server<R, W>>;

    closed spec fn view(&self) -> Seq<Server<R, W>> {
        self.servers@
    }
}

impl<R, W> LendChannel<R, W> where
    R: Fn(usize, usize, usize, &[u8]) -> (usize, usize),
    W: Fn(usize, usize, usize, &mut Vec<u8>) -> (usize, usize),
 {
    /// Whether `connection` identifies a registered server.
    pub open spec fn is_registered(&self, connection: usize) -> bool {
        connection < self@.len()
    }

    /// Whether the read handler of `connection` accepts this call.
    pub open spec fn accepts_lend(
        &self,
        connection: usize,
        opcode: usize,
        signature: usize,
        arg: usize,
        buffer: Seq<u8>,
    ) -> bool {
        forall|view: &[u8]|
            view@ == buffer ==> call_requires(
                self@[connection as int].read,
                (opcode, signature, arg, view),
            )
    }

    /// Whether the read handler of `connection` can answer this call with `reply`.
    pub open spec fn lend_outcome(
        &self,
        connection: usize,
        opcode: usize,
        signature: usize,
        arg: usize,
        buffer: Seq<u8>,
        reply: (usize, usize),
    ) -> bool {
        exists|view: &[u8]|
            view@ == buffer && call_ensures(
                self@[connection as int].read,
                (opcode, signature, arg, view),
                reply,
            )
    }

    /// Whether the write handler of `connection` accepts this call.
    pub open spec fn accepts_lend_mut(
        &self,
        connection: usize,
        opcode: usize,
        signature: usize,
        arg: usize,
        buffer: Seq<u8>,
    ) -> bool {
        forall|view: &mut Vec<u8>|
            mut_ref_current(view)@ == buffer ==> call_requires(
                self@[connection as int].write,
                (opcode, signature, arg, view),
            )
    }

    /// A channel with no server.
    pub fn new() -> (channel: Self)
        ensures
            channel@.len() == 0,
    {
        LendChannel { servers: Vec::new() }
    }

    /// The number of registered servers.
    pub fn connections(&self) -> (count: usize)
        ensures
            count == self@.len(),
    {
        self.servers.len()
    }

    /// Registers a server and returns its connection identifier. The servers registered before
    /// keep their identifiers and their handlers.
    pub fn register(&mut self, read: R, write: W) -> (connection: usize)
        ensures
            connection == old(self)@.len(),
            final(self)@ == old(self)@.push((Server { read, write })),
            final(self)@[connection as int].read == read,
            final(self)@[connection as int].write == write,
    {
        let connection = self.servers.len();
        self.servers.push(Server::new(read, write));
        connection
    }

    /// Lends `buffer` to the read handler of `connection` and returns its reply, or `None` when
    /// no such server is registered. The handler runs to completion before this returns.
    pub fn lend(
        &self,
        connection: usize,
        opcode: usize,
        signature: usize,
        arg: usize,
        buffer: &[u8],
    ) -> (reply: Option<(usize, usize)>)
        requires
            self.is_registered(connection) ==> self.accepts_lend(
                connection,
                opcode,
                signature,
                arg,
                buffer@,
            ),
        ensures
            reply.is_some() <==> self.is_registered(connection),
            reply.is_some() ==> self.lend_outcome(
                connection,
                opcode,
                signature,
                arg,
                buffer@,
                reply.unwrap(),
            ),
    {
        if connection < self.servers.len() {
            let answer = (self.servers[connection].read)(opcode, signature, arg, buffer);
            Some(answer)
        } else {
            None
        }
    }

    /// Lends `buffer` mutably to the write handler of `connection` and returns its reply, or
    /// `None` when no such server is registered. What the handler wrote is in `buffer` when
    /// this returns; without a server the buffer is untouched.
    pub fn lend_mut(
        &self,
        connection: usize,
        opcode: usize,
        signature: usize,
        arg: usize,
        buffer: &mut Vec<u8>,
    ) -> (reply: Option<(usize, usize)>)
        requires
            self.is_registered(connection) ==> self.accepts_lend_mut(
                connection,
                opcode,
                signature,
                arg,
                old(buffer)@,
            ),
        ensures
            reply.is_some() <==> self.is_registered(connection),
            reply.is_none() ==> final(buffer)@ == old(buffer)@,
            reply.is_some() ==> exists|view: &mut Vec<u8>|
                mut_ref_current(view)@ == old(buffer)@ && mut_ref_future(view)@ == final(buffer)@
                    && call_ensures(
                    self@[connection as int].write,
                    (opcode, signature, arg, view),
                    reply.unwrap(),
                ),
    {
        if connection < self.servers.len() {
            let answer = (self.servers[connection].write)(opcode, signature, arg, buffer);
            Some(answer)
        } else {
            None
        }
    }
}

} // verus!
