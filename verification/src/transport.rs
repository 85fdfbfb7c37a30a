use vstd::prelude::*;
use crate::context::Scheduled;
use crate::io_error::IoError;

verus! {

/// The number under which an endpoint is known to the poller.
#[derive(Copy, Clone, PartialEq, Eq, Hash, Debug, Structural)]
pub struct Token(pub usize);

/// A set of readiness states: what the poller reports of an endpoint, and
/// what an endpoint asks to be told of.
#[derive(Copy, Clone, PartialEq, Eq, Debug, Structural)]
pub struct EventSet {
    pub readable: bool,
    pub writable: bool,
    pub error: bool,
    pub hup: bool,
}

/// Every readiness state.
pub open spec fn all_events() -> EventSet {
    EventSet { readable: true, writable: true, error: true, hup: true }
}

impl EventSet {
    pub fn none() -> (s: EventSet)
        ensures
            s == (EventSet { readable: false, writable: false, error: false, hup: false }),
    {
        EventSet { readable: false, writable: false, error: false, hup: false }
    }

    pub fn all() -> (s: EventSet)
        ensures
            s == all_events(),
    {
        EventSet { readable: true, writable: true, error: true, hup: true }
    }

    /// Readable and writable, and nothing wrong.
    pub fn all_but_failures() -> (s: EventSet)
        ensures
            s == (EventSet { readable: true, writable: true, error: false, hup: false }),
    {
        EventSet { readable: true, writable: true, error: false, hup: false }
    }

    pub fn readable() -> (s: EventSet)
        ensures
            s == (EventSet { readable: true, writable: false, error: false, hup: false }),
    {
        EventSet { readable: true, writable: false, error: false, hup: false }
    }

    pub fn writable() -> (s: EventSet)
        ensures
            s == (EventSet { readable: false, writable: true, error: false, hup: false }),
    {
        EventSet { readable: false, writable: true, error: false, hup: false }
    }

    pub fn error() -> (s: EventSet)
        ensures
            s == (EventSet { readable: false, writable: false, error: true, hup: false }),
    {
        EventSet { readable: false, writable: false, error: true, hup: false }
    }

    pub fn hup() -> (s: EventSet)
        ensures
            s == (EventSet { readable: false, writable: false, error: false, hup: true }),
    {
        EventSet { readable: false, writable: false, error: false, hup: true }
    }

    /// The states of either set.
    pub fn union(self, other: EventSet) -> (s: EventSet)
        ensures
            s.readable == (self.readable || other.readable),
            s.writable == (self.writable || other.writable),
            s.error == (self.error || other.error),
            s.hup == (self.hup || other.hup),
    {
        EventSet {
            readable: self.readable || other.readable,
            writable: self.writable || other.writable,
            error: self.error || other.error,
            hup: self.hup || other.hup,
        }
    }

    pub fn is_readable(&self) -> (b: bool)
        ensures
            b == self.readable,
    {
        self.readable
    }

    pub fn is_writable(&self) -> (b: bool)
        ensures
            b == self.writable,
    {
        self.writable
    }

    pub fn is_error(&self) -> (b: bool)
        ensures
            b == self.error,
    {
        self.error
    }

    pub fn is_hup(&self) -> (b: bool)
        ensures
            b == self.hup,
    {
        self.hup
    }
}

/// How the poller reports readiness.
#[derive(Copy, Clone, PartialEq, Eq, Debug, Structural)]
pub enum PollOpt {
    /// Once per change of readiness.
    Edge,
    /// As long as the state holds.
    Level,
    /// Once, then not again until asked anew.
    OneShot,
}

/// Something asked of the poller or of its timer.
#[derive(Copy, Clone, PartialEq, Eq, Debug, Structural)]
pub enum PollRequest {
    Register(Token, EventSet, PollOpt),
    Reregister(Token, EventSet, PollOpt),
    Deregister(Token),
    ClearTimeout(Scheduled),
    Shutdown,
}

/// The engine's side of the poller: it keeps, in order, what the engine has
/// asked for. Whoever owns the real poller takes the requests out after each
/// call into the engine and carries them out.
pub struct EventLoop {
    requests: Vec<PollRequest>,
}

impl View for EventLoop {
    type V = Seq<PollRequest>;

    closed spec fn view(&self) -> Seq<PollRequest> {
        self.requests@
    }
}

impl EventLoop {
    pub fn new() -> (el: EventLoop)
        ensures
            el@ == Seq::<PollRequest>::empty(),
    {
        EventLoop { requests: Vec::new() }
    }

    pub fn register(&mut self, token: Token, interest: EventSet, opt: PollOpt)
        ensures
            final(self)@ == old(self)@.push(PollRequest::Register(token, interest, opt)),
    {
        self.requests.push(PollRequest::Register(token, interest, opt));
    }

    pub fn reregister(&mut self, token: Token, interest: EventSet, opt: PollOpt)
        ensures
            final(self)@ == old(self)@.push(PollRequest::Reregister(token, interest, opt)),
    {
        self.requests.push(PollRequest::Reregister(token, interest, opt));
    }

    pub fn deregister(&mut self, token: Token)
        ensures
            final(self)@ == old(self)@.push(PollRequest::Deregister(token)),
    {
        self.requests.push(PollRequest::Deregister(token));
    }

    pub fn clear_timeout(&mut self, handle: Scheduled)
        ensures
            final(self)@ == old(self)@.push(PollRequest::ClearTimeout(handle)),
    {
        self.requests.push(PollRequest::ClearTimeout(handle));
    }

    pub fn shutdown(&mut self)
        ensures
            final(self)@ == old(self)@.push(PollRequest::Shutdown),
    {
        self.requests.push(PollRequest::Shutdown);
    }

    /// Hands out what was asked since the last call, oldest first.
    pub fn take_requests(&mut self) -> (out: Vec<PollRequest>)
        ensures
            out@ == old(self)@,
            final(self)@ == Seq::<PollRequest>::empty(),
    {
        let mut out: Vec<PollRequest> = Vec::new();
        out.append(&mut self.requests);
        out
    }
}

/// A non-blocking byte stream to one peer.
///
/// `sent`, `received` and `faults` are the stream's history: every byte
/// that it has taken for the peer, every byte that it has handed out, and
/// every error that a read or a write has ended in, in order. They exist in
/// contracts only. What is proved of a pipe is proved for every
/// history that obeys the contracts of `try_read` and `try_write`; the body
/// given here serves an implementation that is not verified, which has no
/// history to define.
pub trait Connection {
    open spec fn sent(&self) -> Seq<u8> {
        Seq::empty()
    }

    open spec fn received(&self) -> Seq<u8> {
        Seq::empty()
    }

    /// The errors that reading and writing have failed with so far, oldest
    /// first.
    open spec fn faults(&self) -> Seq<IoError> {
        Seq::empty()
    }

    /// Reads what is there into the front of `buf`. `Ok(None)` means that
    /// nothing can be read right now.
    fn try_read(&mut self, buf: &mut [u8]) -> (r: Result<Option<usize>, IoError>)
        ensures
            final(buf)@.len() == old(buf)@.len(),
            final(self).sent() == old(self).sent(),
            match r {
                Ok(Some(n)) => n <= final(buf)@.len() && final(self).received() == old(
                    self,
                ).received() + final(buf)@.subrange(0, n as int),
                _ => final(self).received() == old(self).received(),
            },
            match r {
                Ok(_) => final(self).faults() == old(self).faults(),
                Err(e) => final(self).faults() == old(self).faults().push(e),
            },
    ;

    /// Writes a prefix of `buf`. `Ok(None)` means that nothing can be
    /// written right now.
    fn try_write(&mut self, buf: &[u8]) -> (r: Result<Option<usize>, IoError>)
        ensures
            final(self).received() == old(self).received(),
            match r {
                Ok(Some(n)) => n <= buf@.len() && final(self).sent() == old(self).sent()
                    + buf@.subrange(0, n as int),
                _ => final(self).sent() == old(self).sent(),
            },
            match r {
                Ok(_) => final(self).faults() == old(self).faults(),
                Err(e) => final(self).faults() == old(self).faults().push(e),
            },
    ;
}

/// A source of connections.
///
/// `accepted` and `faults` are the listener's history: every connection that
/// it has handed out, and every error that taking connections has ended in,
/// in order. They exist in contracts only, as the history of a connection
/// does.
pub trait Listener {
    type Conn: Connection;

    open spec fn accepted(&self) -> Seq<Self::Conn> {
        Seq::empty()
    }

    open spec fn faults(&self) -> Seq<IoError> {
        Seq::empty()
    }

    /// Takes every connection that is waiting.
    fn accept(&mut self) -> (r: Result<Vec<Self::Conn>, IoError>)
        ensures
            match r {
                Ok(connections) => final(self).accepted() == old(self).accepted() + connections@
                    && final(self).faults() == old(self).faults(),
                Err(e) => final(self).accepted() == old(self).accepted() && final(self).faults()
                    == old(self).faults().push(e),
            },
    ;
}

} // verus!
