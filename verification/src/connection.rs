//! The transport-facing seam: the engine never touches a socket; it queues
//! whole packages on a connection, and a driver moves them.  Transports
//! that stream bytes are responsible for their own framing; a TCP driver
//! typically prefixes each package with a four-byte little-endian length.

use vstd::prelude::*;

verus! {

/// The capability a transport gives the engine: queue a package outward,
/// and hand over what has been queued.
pub trait Connection: Sized {
    /// The packages queued to go out, oldest first.
    spec fn queued(&self) -> Seq<Vec<u8>>;

    /// Queue one package to send.
    fn send_package(&mut self, package: Vec<u8>)
        ensures
            final(self).queued() == old(self).queued().push(package),
    ;

    /// Hand the queued packages to the transport, oldest first, leaving
    /// the queue empty.
    fn take_outgoing(&mut self) -> (r: Vec<Vec<u8>>)
        ensures
            final(self).queued() == Seq::<Vec<u8>>::empty(),
            r@ == old(self).queued(),
    ;
}

/// The engine's own connection: a plain outbound queue.
pub struct DefaultConnection {
    /// Packages waiting for the transport, oldest first.
    pub outgoing: Vec<Vec<u8>>,
}

impl DefaultConnection {
    /// An empty connection.
    pub fn new() -> (r: DefaultConnection)
        ensures
            r.outgoing@ == Seq::<Vec<u8>>::empty(),
    {
        DefaultConnection { outgoing: Vec::new() }
    }
}

impl Connection for DefaultConnection {
    open spec fn queued(&self) -> Seq<Vec<u8>> {
        self.outgoing@
    }

    fn send_package(&mut self, package: Vec<u8>) {
        self.outgoing.push(package);
    }

    fn take_outgoing(&mut self) -> (r: Vec<Vec<u8>>) {
        let mut r: Vec<Vec<u8>> = Vec::new();
        std::mem::swap(&mut r, &mut self.outgoing);
        r
    }
}

/// An in-process pairing: two fresh connections for two engines living in
/// one process.  The driver completes the loop by delivering each side's
/// outgoing packages to the other engine.
pub struct LoopbackConnection;

impl LoopbackConnection {
    /// One connection for each engine of the pair.
    pub fn new() -> (r: (DefaultConnection, DefaultConnection))
        ensures
            r.0.outgoing@ == Seq::<Vec<u8>>::empty(),
            r.1.outgoing@ == Seq::<Vec<u8>>::empty(),
    {
        (DefaultConnection::new(), DefaultConnection::new())
    }
}

} // verus!
