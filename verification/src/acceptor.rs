use vstd::prelude::*;
use crate::io_error::{other_io_error, ErrorKind, IoError};
use crate::transport::{EventLoop, EventSet, Listener, PollOpt, PollRequest, Token};

verus! {

/// What an acceptor asks to be told of: that a connection waits, and that
/// the listener failed.
pub open spec fn interest() -> EventSet {
    EventSet { readable: true, writable: false, error: true, hup: false }
}

/// An acceptor takes in the connections that arrive at a bound address.
pub struct Acceptor<L: Listener> {
    token: Token,
    addr: String,
    listener: L,
}

impl<L: Listener> Acceptor<L> {
    pub closed spec fn token(&self) -> Token {
        self.token
    }

    pub closed spec fn address(&self) -> String {
        self.addr
    }

    pub closed spec fn listener(&self) -> L {
        self.listener
    }

    pub fn new(token: Token, addr: String, listener: L) -> (acceptor: Acceptor<L>)
        ensures
            acceptor.token() == token,
            acceptor.address() == addr,
            acceptor.listener() == listener,
    {
        Acceptor { token, addr, listener }
    }

    pub fn get_token(&self) -> (token: Token)
        ensures
            token == self.token(),
    {
        self.token
    }

    pub fn get_listener(&self) -> (listener: &L)
        ensures
            *listener == self.listener(),
    {
        &self.listener
    }

    /// Asks to be told of each change.
    pub fn open(&mut self, event_loop: &mut EventLoop)
        ensures
            *final(self) == *old(self),
            final(event_loop)@ == old(event_loop)@.push(
                PollRequest::Register(old(self).token(), interest(), PollOpt::Edge),
            ),
    {
        let interest = EventSet::error().union(EventSet::readable());
        event_loop.register(self.token, interest, PollOpt::Edge)
    }

    /// Asks to be told of nothing any more.
    pub fn close(&mut self, event_loop: &mut EventLoop)
        ensures
            *final(self) == *old(self),
            final(event_loop)@ == old(event_loop)@.push(PollRequest::Deregister(old(self).token())),
    {
        event_loop.deregister(self.token)
    }

    /// Takes in the connections that wait, if the listener is readable: it
    /// hands on what the listener hands out, and fails if the listener
    /// does, with its error. Else nothing is asked of the listener, and the
    /// call fails.
    pub fn ready(&mut self, event_loop: &mut EventLoop, events: EventSet) -> (r: Result<
        Vec<L::Conn>,
        IoError,
    >)
        ensures
            final(self).token() == old(self).token(),
            final(self).address() == old(self).address(),
            final(event_loop)@ == old(event_loop)@,
            !events.readable ==> *final(self) == *old(self) && crate::io_error::fails_with(
                r,
                ErrorKind::Other,
                "tcp listener ready but not readable"@,
            ),
            events.readable ==> {
                &&& r is Ok <==> final(self).listener().faults() == old(self).listener().faults()
                &&& match r {
                    Ok(connections) => final(self).listener().accepted() == old(self).listener().accepted() + connections@,
                    Err(e) => final(self).listener().accepted() == old(self).listener().accepted()
                        && final(self).listener().faults() == old(self).listener().faults().push(
                        e,
                    ),
                }
            },
    {
        if events.is_readable() {
            let r = self.listener.accept();
            proof {
                if r is Err {
                    assert(self.listener.faults().len() == old(self).listener.faults().len() + 1);
                }
            }
            r
        } else {
            Err(other_io_error("tcp listener ready but not readable"))
        }
    }

    pub fn addr(self) -> (addr: String)
        ensures
            addr == self.address(),
    {
        self.addr
    }
}

} // verus!
