use vstd::prelude::*;
use std::rc::Rc;
use std::time::Duration;
use crate::id::EndpointId;
use crate::io_error::{other_io_error, IoError, ErrorKind};
use crate::message::Message;
use crate::sequence::Sequence;

verus! {

/// What a socket lets its owner know.
#[derive(Copy, Clone, Debug, PartialEq, Eq, Structural)]
pub enum Event {
    CanSend,
    CanRecv,
    Closed,
}

/// How an endpoint is to be set up.
#[derive(Debug)]
pub struct EndpointDesc {
    pub send_priority: u8,
    pub recv_priority: u8,
    pub tcp_no_delay: bool,
    pub recv_max_size: u64,
}

/// Where an endpoint connects or binds to, and how it is set up.
#[derive(Debug)]
pub struct EndpointSpec {
    pub url: String,
    pub desc: EndpointDesc,
}

/// The tasks that can be scheduled.
#[derive(Debug)]
pub enum Schedulable {
    Reconnect(EndpointSpec),
    Rebind(EndpointSpec),
    SendTimeout,
    RecvTimeout,
    ReqResend,
    SurveyCancel,
}

/// Handle of a task that was scheduled.
#[derive(Copy, Clone, PartialEq, Eq, Hash, Debug, Structural)]
pub struct Scheduled(pub usize);

impl Scheduled {
    pub fn value(&self) -> (v: usize)
        ensures
            v == self.0,
    {
        self.0
    }
}

impl From<usize> for Scheduled {
    fn from(value: usize) -> (s: Scheduled)
        ensures
            s.0 == value,
    {
        Scheduled(value)
    }
}

impl vstd::std_specs::convert::FromSpecImpl<usize> for Scheduled {
    open spec fn obeys_from_spec() -> bool {
        true
    }

    open spec fn from_spec(value: usize) -> Scheduled {
        Scheduled(value)
    }
}

impl From<Scheduled> for usize {
    fn from(scheduled: Scheduled) -> (v: usize)
        ensures
            v == scheduled.0,
    {
        scheduled.0
    }
}

impl vstd::std_specs::convert::FromSpecImpl<Scheduled> for usize {
    open spec fn obeys_from_spec() -> bool {
        true
    }

    open spec fn from_spec(scheduled: Scheduled) -> usize {
        scheduled.0
    }
}

/// A deadline that may have been set for an operation.
pub type Timeout = Option<Scheduled>;

/// One thing that a protocol asked of its context.
#[derive(Debug)]
pub enum Effect {
    /// Open the endpoint; the flag says whether it is a pipe.
    Open(EndpointId, bool),
    /// Close the endpoint; the flag says whether it is a pipe.
    Close(EndpointId, bool),
    /// Send the message over the pipe.
    Send(EndpointId, Rc<Message>),
    /// Receive a message from the pipe.
    Recv(EndpointId),
    /// Run the task after the delay; the handle names it.
    Schedule(Schedulable, Duration, Scheduled),
    /// Do not run the task.
    Cancel(Scheduled),
    /// Let the socket's owner know.
    Raise(Event),
}

/// Keeps, in order, what was asked of it.
///
/// The journal exists in contracts only. What is proved of a protocol is
/// proved for every journal that obeys the contracts of the methods of
/// `Network`, `Scheduler` and `Context`; the body given here serves an
/// implementation that is not verified, which has no journal to define.
pub trait Journal {
    open spec fn journal(&self) -> Seq<Effect> {
        Seq::empty()
    }
}

/// Lets a protocol give orders to its endpoints.
pub trait Network: Journal {
    fn open(&mut self, eid: EndpointId, remote: bool)
        ensures
            final(self).journal() == old(self).journal().push(Effect::Open(eid, remote)),
    ;

    fn close(&mut self, eid: EndpointId, remote: bool)
        ensures
            final(self).journal() == old(self).journal().push(Effect::Close(eid, remote)),
    ;

    fn send(&mut self, eid: EndpointId, msg: Rc<Message>)
        ensures
            final(self).journal() == old(self).journal().push(Effect::Send(eid, msg)),
    ;

    fn recv(&mut self, eid: EndpointId)
        ensures
            final(self).journal() == old(self).journal().push(Effect::Recv(eid)),
    ;
}

/// Lets a protocol set and clear deadlines.
pub trait Scheduler: Journal {
    fn schedule(&mut self, schedulable: Schedulable, delay: Duration) -> (r: Result<
        Scheduled,
        IoError,
    >)
        ensures
            match r {
                Ok(handle) => final(self).journal() == old(self).journal().push(
                    Effect::Schedule(schedulable, delay, handle),
                ),
                Err(_) => final(self).journal() == old(self).journal(),
            },
    ;

    fn cancel(&mut self, scheduled: Scheduled)
        ensures
            final(self).journal() == old(self).journal().push(Effect::Cancel(scheduled)),
    ;
}

/// What a protocol can do besides changing its own state.
pub trait Context: Network + Scheduler {
    fn raise(&mut self, evt: Event)
        ensures
            final(self).journal() == old(self).journal().push(Effect::Raise(evt)),
    ;
}

/// A context that carries nothing out: it keeps what was asked, for its
/// owner to carry out later, and names the scheduled tasks itself.
pub struct Recorder {
    effects: Vec<Effect>,
    handles: Sequence,
}

impl Recorder {
    /// How many tasks were scheduled.
    pub closed spec fn scheduled(&self) -> nat {
        self.handles.issued()
    }

    pub fn new() -> (recorder: Recorder)
        ensures
            recorder.journal() == Seq::<Effect>::empty(),
            recorder.scheduled() == 0,
    {
        Recorder { effects: Vec::new(), handles: Sequence::new() }
    }

    /// Hands out what was asked since the last call, oldest first.
    pub fn take(&mut self) -> (effects: Vec<Effect>)
        ensures
            effects@ == old(self).journal(),
            final(self).journal() == Seq::<Effect>::empty(),
            final(self).scheduled() == old(self).scheduled(),
    {
        let mut effects: Vec<Effect> = Vec::new();
        effects.append(&mut self.effects);
        effects
    }
}

impl Journal for Recorder {
    closed spec fn journal(&self) -> Seq<Effect> {
        self.effects@
    }
}

impl Network for Recorder {
    fn open(&mut self, eid: EndpointId, remote: bool)
        ensures
            final(self).scheduled() == old(self).scheduled(),
    {
        self.effects.push(Effect::Open(eid, remote));
    }

    fn close(&mut self, eid: EndpointId, remote: bool)
        ensures
            final(self).scheduled() == old(self).scheduled(),
    {
        self.effects.push(Effect::Close(eid, remote));
    }

    fn send(&mut self, eid: EndpointId, msg: Rc<Message>)
        ensures
            final(self).scheduled() == old(self).scheduled(),
    {
        self.effects.push(Effect::Send(eid, msg));
    }

    fn recv(&mut self, eid: EndpointId)
        ensures
            final(self).scheduled() == old(self).scheduled(),
    {
        self.effects.push(Effect::Recv(eid));
    }
}

impl Scheduler for Recorder {
    /// Names the task by the number of tasks scheduled before it. Fails
    /// with `Other` once the handles are used up.
    fn schedule(&mut self, schedulable: Schedulable, delay: Duration) -> (r: Result<
        Scheduled,
        IoError,
    >)
        ensures
            old(self).scheduled() < usize::MAX <==> r is Ok,
            r matches Ok(handle) ==> handle.0 == old(self).scheduled() && final(self).scheduled()
                == old(self).scheduled() + 1,
            r matches Err(e) ==> e.kind == ErrorKind::Other && e.message@
                == "no handle left for the task"@ && final(self).scheduled() == old(
                self,
            ).scheduled(),
    {
        match self.handles.next() {
            Some(n) => {
                let handle = Scheduled(n);
                self.effects.push(Effect::Schedule(schedulable, delay, handle));
                Ok(handle)
            },
            None => Err(other_io_error("no handle left for the task")),
        }
    }

    fn cancel(&mut self, scheduled: Scheduled)
        ensures
            final(self).scheduled() == old(self).scheduled(),
    {
        self.effects.push(Effect::Cancel(scheduled));
    }
}

impl Context for Recorder {
    fn raise(&mut self, evt: Event)
        ensures
            final(self).scheduled() == old(self).scheduled(),
    {
        self.effects.push(Effect::Raise(evt));
    }
}

} // verus!
