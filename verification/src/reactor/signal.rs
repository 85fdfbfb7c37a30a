use vstd::prelude::*;
use std::rc::Rc;
use std::time::Duration;
use crate::context::{Effect, Event, Schedulable, Scheduled};
use crate::id::{DeviceId, EndpointId, SocketId};
use crate::io_error::{ErrorKind, IoError};
use crate::message::Message;
use crate::pipe::{Phase, RecvStatus, SendStatus};

verus! {

/// What a protocol orders a pipe to do.
#[derive(Debug)]
pub enum PipeCommand {
    Open,
    Close,
    Send(Rc<Message>),
    Recv,
}

/// What a pipe lets its socket know.
#[derive(Debug)]
pub enum PipeEvent {
    Opened,
    CanSend,
    Sent,
    CanRecv,
    Received(Message),
    Error(IoError),
    Closed,
}

/// What a socket orders an acceptor to do.
#[derive(Debug)]
pub enum AcceptorCommand {
    Open,
    Close,
}

/// What an acceptor lets its socket know. `P` is what it accepts.
#[derive(Debug)]
pub enum AcceptorEvent<P> {
    Opened,
    Accepted(Vec<P>),
    Error(IoError),
    Closed,
}

/// What comes in over the channel from the users. `F` makes the socket
/// that a session is asked for.
pub enum Request<F> {
    Session(crate::session::Request<F>),
    Socket(SocketId, crate::socket::Request),
    Device(DeviceId, crate::device::Request),
}

/// What travels on the reactor's own bus.
#[derive(Debug)]
pub enum Signal<P> {
    PipeCmd(SocketId, EndpointId, PipeCommand),
    AcceptorCmd(SocketId, EndpointId, AcceptorCommand),
    PipeEvt(SocketId, EndpointId, PipeEvent),
    AcceptorEvt(SocketId, EndpointId, AcceptorEvent<P>),
    SocketEvt(SocketId, Event),
}

/// What the timer hands out when a deadline has passed.
#[derive(Debug)]
pub enum Task {
    Socket(SocketId, Schedulable),
}

/// What a pipe lets its socket know once it has acted on what the poller
/// reported, where `outcome` is what came of it, `before` and `after` say
/// where the pipe stood and stands in its life, and `can_send` and
/// `can_recv` what it is ready for now: that it has opened, if the
/// handshake is just done; that a message was sent or received; and what
/// it can do next. Of a pipe that has failed, the error is all.
pub open spec fn told_after_ready(
    before: Phase,
    after: Phase,
    outcome: Result<(bool, Option<Message>), IoError>,
    can_send: bool,
    can_recv: bool,
) -> Seq<PipeEvent> {
    match outcome {
        Err(e) => seq![PipeEvent::Error(e)],
        Ok((sent, received)) => (if before == Phase::Handshake && after == Phase::Active {
            seq![PipeEvent::Opened]
        } else {
            Seq::empty()
        }) + (if sent {
            seq![PipeEvent::Sent]
        } else {
            Seq::empty()
        }) + (match received {
            Some(msg) => seq![PipeEvent::Received(msg)],
            None => Seq::empty(),
        }) + (if can_send {
            seq![PipeEvent::CanSend]
        } else {
            Seq::empty()
        }) + (if can_recv {
            seq![PipeEvent::CanRecv]
        } else {
            Seq::empty()
        }),
    }
}

/// Says what a pipe lets its socket know once it has acted on what the
/// poller reported.
pub fn tell_after_ready(
    before: Phase,
    after: Phase,
    outcome: Result<(bool, Option<Message>), IoError>,
    can_send: bool,
    can_recv: bool,
) -> (events: Vec<PipeEvent>)
    ensures
        events@ == told_after_ready(before, after, outcome, can_send, can_recv),
{
    let mut events: Vec<PipeEvent> = Vec::new();
    match outcome {
        Err(e) => {
            events.push(PipeEvent::Error(e));
        },
        Ok((sent, received)) => {
            if before == Phase::Handshake && after == Phase::Active {
                events.push(PipeEvent::Opened);
            }
            if sent {
                events.push(PipeEvent::Sent);
            }
            if let Some(msg) = received {
                events.push(PipeEvent::Received(msg));
            }
            if can_send {
                events.push(PipeEvent::CanSend);
            }
            if can_recv {
                events.push(PipeEvent::CanRecv);
            }
        },
    }
    proof {
        assert(events@ =~= told_after_ready(before, after, outcome, can_send, can_recv));
    }
    events
}

/// What a pipe lets its socket know once it was ordered to send, where
/// `outcome` is what came of it: that the message was sent, if it went out
/// whole; nothing yet, if it went out in part; an error, if the pipe could
/// not take it or has failed.
pub open spec fn told_after_send(outcome: Result<SendStatus, IoError>, refusal: IoError) -> Seq<
    PipeEvent,
> {
    match outcome {
        Ok(SendStatus::Completed) => seq![PipeEvent::Sent],
        Ok(SendStatus::InProgress) => Seq::empty(),
        Ok(SendStatus::Postponed(_)) => seq![PipeEvent::Error(refusal)],
        Err(e) => seq![PipeEvent::Error(e)],
    }
}

/// Says what a pipe lets its socket know once it was ordered to send.
pub fn tell_after_send(outcome: Result<SendStatus, IoError>) -> (events: Vec<PipeEvent>)
    ensures
        exists|refusal: IoError|
            refusal.kind == ErrorKind::WouldBlock && refusal.message@
                == "the pipe could not take the message"@ && events@ == #[trigger] told_after_send(
                outcome,
                refusal,
            ),
{
    let refusal = crate::io_error::would_block_io_error("the pipe could not take the message");
    let ghost witness = refusal;
    let mut events: Vec<PipeEvent> = Vec::new();
    match outcome {
        Ok(SendStatus::Completed) => {
            events.push(PipeEvent::Sent);
        },
        Ok(SendStatus::InProgress) => {},
        Ok(SendStatus::Postponed(_)) => {
            events.push(PipeEvent::Error(refusal));
        },
        Err(e) => {
            events.push(PipeEvent::Error(e));
        },
    }
    proof {
        assert(events@ =~= told_after_send(outcome, witness));
    }
    events
}

/// What a pipe lets its socket know once it was ordered to receive, where
/// `outcome` is what came of it: the message, if it came in whole; nothing
/// yet, if it did not; the error, if the pipe has failed.
pub open spec fn told_after_recv(outcome: Result<RecvStatus, IoError>) -> Seq<PipeEvent> {
    match outcome {
        Ok(RecvStatus::Completed(msg)) => seq![PipeEvent::Received(msg)],
        Ok(_) => Seq::empty(),
        Err(e) => seq![PipeEvent::Error(e)],
    }
}

/// Says what a pipe lets its socket know once it was ordered to receive.
pub fn tell_after_recv(outcome: Result<RecvStatus, IoError>) -> (events: Vec<PipeEvent>)
    ensures
        events@ == told_after_recv(outcome),
{
    let mut events: Vec<PipeEvent> = Vec::new();
    match outcome {
        Ok(RecvStatus::Completed(msg)) => {
            events.push(PipeEvent::Received(msg));
        },
        Ok(_) => {},
        Err(e) => {
            events.push(PipeEvent::Error(e));
        },
    }
    proof {
        assert(events@ =~= told_after_recv(outcome));
    }
    events
}

/// What is put on the bus for what the socket `sid` has asked of its
/// context: an order to a pipe or to an acceptor, or word to the socket's
/// owner. Timers are not set over the bus.
pub open spec fn signal_of<P>(sid: SocketId, effect: Effect) -> Option<Signal<P>> {
    match effect {
        Effect::Open(eid, true) => Some(Signal::PipeCmd(sid, eid, PipeCommand::Open)),
        Effect::Open(eid, false) => Some(Signal::AcceptorCmd(sid, eid, AcceptorCommand::Open)),
        Effect::Close(eid, true) => Some(Signal::PipeCmd(sid, eid, PipeCommand::Close)),
        Effect::Close(eid, false) => Some(Signal::AcceptorCmd(sid, eid, AcceptorCommand::Close)),
        Effect::Send(eid, msg) => Some(Signal::PipeCmd(sid, eid, PipeCommand::Send(msg))),
        Effect::Recv(eid) => Some(Signal::PipeCmd(sid, eid, PipeCommand::Recv)),
        Effect::Raise(evt) => Some(Signal::SocketEvt(sid, evt)),
        Effect::Schedule(_, _, _) => None,
        Effect::Cancel(_) => None,
    }
}

/// What is to be done with a timer for what a socket has asked of its
/// context.
#[derive(Debug)]
pub enum TimerOrder {
    /// Hand the task out after the delay; the handle names the timer.
    Arm(Task, Duration, Scheduled),
    /// Clear the timer that the handle names.
    Clear(Scheduled),
}

/// What is to be done with a timer for what the socket `sid` has asked of
/// its context, if it is about a timer.
pub open spec fn timer_order_of(sid: SocketId, effect: Effect) -> Option<TimerOrder> {
    match effect {
        Effect::Schedule(task, delay, handle) => Some(
            TimerOrder::Arm(Task::Socket(sid, task), delay, handle),
        ),
        Effect::Cancel(handle) => Some(TimerOrder::Clear(handle)),
        _ => None,
    }
}

/// What is to be done about what a socket has asked of its context: a
/// signal for the bus, or an order for the timer.
pub fn carry<P>(sid: SocketId, effect: Effect) -> (what: Result<Signal<P>, TimerOrder>)
    ensures
        match what {
            Ok(signal) => signal_of::<P>(sid, effect) == Some(signal),
            Err(order) => signal_of::<P>(sid, effect) is None && timer_order_of(sid, effect)
                == Some(order),
        },
{
    match effect {
        Effect::Open(eid, pipe) => if pipe {
            Ok(Signal::PipeCmd(sid, eid, PipeCommand::Open))
        } else {
            Ok(Signal::AcceptorCmd(sid, eid, AcceptorCommand::Open))
        },
        Effect::Close(eid, pipe) => if pipe {
            Ok(Signal::PipeCmd(sid, eid, PipeCommand::Close))
        } else {
            Ok(Signal::AcceptorCmd(sid, eid, AcceptorCommand::Close))
        },
        Effect::Send(eid, msg) => Ok(Signal::PipeCmd(sid, eid, PipeCommand::Send(msg))),
        Effect::Recv(eid) => Ok(Signal::PipeCmd(sid, eid, PipeCommand::Recv)),
        Effect::Raise(evt) => Ok(Signal::SocketEvt(sid, evt)),
        Effect::Schedule(task, delay, handle) => Err(
            TimerOrder::Arm(Task::Socket(sid, task), delay, handle),
        ),
        Effect::Cancel(handle) => Err(TimerOrder::Clear(handle)),
    }
}

} // verus!
