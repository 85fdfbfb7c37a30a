use vstd::prelude::*;
use std::time::Duration;
use crate::backoff::Backoff;
use crate::context::{
    Context, Effect, EndpointDesc, EndpointSpec, Event, Schedulable, Timeout,
};
use crate::endpoint::Pipe;
use crate::global::SocketType;
use crate::id::EndpointId;
use crate::io_error::{ErrorKind, IoError};
use crate::message::{Message, MessageView};
use crate::reactor::dispatcher::SocketCall;

verus! {

/// An option of a socket, with the value to give it.
#[derive(Debug)]
pub enum ConfigOption {
    /// The deadline of `send`.
    SendTimeout(Duration),
    /// The deadline of `recv`.
    RecvTimeout(Duration),
    /// How soon the socket's pipes are given messages, from 1 to 16.
    SendPriority(u8),
    /// How soon the socket's pipes are asked for messages, from 1 to 16.
    RecvPriority(u8),
    /// How long to wait before the first new attempt to connect.
    ReconnectInterval(Duration),
    /// How long to wait at most between attempts to connect.
    ReconnectIntervalMax(Duration),
    /// A prefix of the messages that a subscriber wants.
    Subscribe(Vec<u8>),
    /// A prefix of the messages that a subscriber wants no more.
    Unsubscribe(Vec<u8>),
    /// How long a surveyor waits for answers.
    SurveyDeadline(Duration),
    /// How long a requester waits before it sends its request again.
    ResendInterval(Duration),
}

impl ConfigOption {
    /// Whether the value can be given to the option: a priority is a number
    /// from 1 to 16; every other value can.
    pub open spec fn acceptable(self) -> bool {
        match self {
            ConfigOption::SendPriority(p) => 1 <= p <= 16,
            ConfigOption::RecvPriority(p) => 1 <= p <= 16,
            _ => true,
        }
    }

    /// Refuses a value that cannot be given to the option as invalid input.
    pub fn check(&self) -> (r: Result<(), IoError>)
        ensures
            r is Ok <==> self.acceptable(),
            r is Err ==> crate::io_error::fails_with(
                r,
                ErrorKind::InvalidInput,
                "a priority is a number from 1 to 16"@,
            ),
    {
        let acceptable = match self {
            ConfigOption::SendPriority(p) => 1 <= *p && *p <= 16,
            ConfigOption::RecvPriority(p) => 1 <= *p && *p <= 16,
            _ => true,
        };
        if acceptable {
            Ok(())
        } else {
            Err(crate::io_error::invalid_input_io_error("a priority is a number from 1 to 16"))
        }
    }
}

/// What a user asks of a socket.
#[derive(Debug)]
pub enum Request {
    Connect(String),
    Bind(String),
    Send(Message),
    Recv,
    SetOption(ConfigOption),
    Close,
}

/// What a socket answers its user.
#[derive(Debug)]
pub enum Reply {
    /// The operation failed.
    Failed(IoError),
    /// The socket is connecting, through the endpoint that is named.
    Connect(EndpointId),
    /// The socket is bound, through the endpoint that is named.
    Bind(EndpointId),
    /// The message was sent.
    Send,
    /// A message was received.
    Recv(Message),
    /// The option was set.
    SetOption,
}

/// What a `Reply` says.
pub enum Answer {
    /// The class and the message of the error.
    Failed(ErrorKind, Seq<char>),
    Connect(EndpointId),
    Bind(EndpointId),
    Send,
    Recv(MessageView),
    SetOption,
}

impl View for Reply {
    type V = Answer;

    open spec fn view(&self) -> Answer {
        match *self {
            Reply::Failed(e) => Answer::Failed(e.kind, e.message@),
            Reply::Connect(eid) => Answer::Connect(eid),
            Reply::Bind(eid) => Answer::Bind(eid),
            Reply::Send => Answer::Send,
            Reply::Recv(m) => Answer::Recv(m@),
            Reply::SetOption => Answer::SetOption,
        }
    }
}

/// What a run of replies says.
pub open spec fn answers(replies: Seq<Reply>) -> Seq<Answer> {
    replies.map_values(|r: Reply| r@)
}

/// A messaging pattern, as a socket drives it. A protocol stays of its
/// pattern; and whatever it asks of its context, it takes nothing back that
/// was asked before.
pub trait Protocol: Sized {
    /// Whether the protocol's book-keeping is sound. It is when the protocol
    /// is made, and every call keeps it so.
    spec fn sound(&self) -> bool;

    /// The pattern that the protocol is of.
    spec fn socket_type(&self) -> SocketType;

    /// The identifier that the protocol announces in its greeting.
    fn id(&self) -> (id: u16)
        ensures
            id == self.socket_type().spec_id(),
    ;

    /// The identifier that the protocol wants to see in its peer's greeting.
    fn peer_id(&self) -> (id: u16)
        ensures
            id == self.socket_type().spec_peer().spec_id(),
    ;

    /// That `after` is `before` once the option was given its value, or was
    /// refused: `r` says which.
    spec fn did_set_option(
        before: Self,
        option: ConfigOption,
        after: Self,
        r: Result<(), IoError>,
    ) -> bool;

    /// Gives the option its value, if the option is one of this protocol:
    /// else the value is refused as invalid input.
    fn set_option(&mut self, option: ConfigOption) -> (r: Result<(), IoError>)
        requires
            old(self).sound(),
        ensures
            final(self).sound(),
            final(self).socket_type() == old(self).socket_type(),
            Self::did_set_option(
                *old(self),
                option,
                *final(self),
                r,
            ),
    ;

    /// The answers that the user was not given yet, oldest first.
    spec fn owed(&self) -> Seq<Reply>;

    /// Hands out the answers that the user is owed, oldest first.
    fn take_replies(&mut self) -> (replies: Vec<Reply>)
        requires
            old(self).sound(),
        ensures
            final(self).sound(),
            final(self).socket_type() == old(self).socket_type(),
            replies@ == old(self).owed(),
            final(self).owed().len() == 0,
    ;

    /// That `after` is `before` once the pipe was added under the name `eid`,
    /// where `asked0` and `asked1` are the context's journal before and after.
    spec fn did_add_pipe(
        before: Self,
        eid: EndpointId, pipe: Pipe,
        after: Self,
        asked0: Seq<Effect>,
        asked1: Seq<Effect>,
    ) -> bool;

    fn add_pipe<C: Context>(&mut self, ctx: &mut C, eid: EndpointId, pipe: Pipe)
        requires
            old(self).sound(),
        ensures
            final(self).sound(),
            final(self).socket_type() == old(self).socket_type(),
            old(ctx).journal().is_prefix_of(final(ctx).journal()),
            Self::did_add_pipe(
                *old(self),
                eid,
                pipe,
                *final(self),
                old(ctx).journal(),
                final(ctx).journal(),
            ),
    ;

    /// That `after` is `before` once the pipe named `eid` was let go, and
    /// `removed` its handle, if there was such a pipe.
    spec fn did_remove_pipe(
        before: Self,
        eid: EndpointId,
        after: Self,
        asked0: Seq<Effect>,
        asked1: Seq<Effect>,
        removed: Option<Pipe>,
    ) -> bool;

    fn remove_pipe<C: Context>(&mut self, ctx: &mut C, eid: EndpointId) -> (removed: Option<Pipe>)
        requires
            old(self).sound(),
        ensures
            final(self).sound(),
            final(self).socket_type() == old(self).socket_type(),
            old(ctx).journal().is_prefix_of(final(ctx).journal()),
            Self::did_remove_pipe(
                *old(self),
                eid,
                *final(self),
                old(ctx).journal(),
                final(ctx).journal(),
                removed,
            ),
    ;

    /// That `after` is `before` once the user has asked to send `msg`, with a
    /// deadline if `timeout` names one.
    spec fn did_send(
        before: Self,
        msg: Message, timeout: Timeout,
        after: Self,
        asked0: Seq<Effect>,
        asked1: Seq<Effect>,
    ) -> bool;

    fn send<C: Context>(&mut self, ctx: &mut C, msg: Message, timeout: Timeout)
        requires
            old(self).sound(),
        ensures
            final(self).sound(),
            final(self).socket_type() == old(self).socket_type(),
            old(ctx).journal().is_prefix_of(final(ctx).journal()),
            Self::did_send(
                *old(self),
                msg,
                timeout,
                *final(self),
                old(ctx).journal(),
                final(ctx).journal(),
            ),
    ;

    /// That `after` is `before` once the pipe named `eid` has said that it has
    /// sent a message.
    spec fn did_on_send_ack(
        before: Self,
        eid: EndpointId,
        after: Self,
        asked0: Seq<Effect>,
        asked1: Seq<Effect>,
    ) -> bool;

    fn on_send_ack<C: Context>(&mut self, ctx: &mut C, eid: EndpointId)
        requires
            old(self).sound(),
        ensures
            final(self).sound(),
            final(self).socket_type() == old(self).socket_type(),
            old(ctx).journal().is_prefix_of(final(ctx).journal()),
            Self::did_on_send_ack(
                *old(self),
                eid,
                *final(self),
                old(ctx).journal(),
                final(ctx).journal(),
            ),
    ;

    /// That `after` is `before` once the deadline of a send has passed.
    spec fn did_on_send_timeout(
        before: Self,
        after: Self,
        asked0: Seq<Effect>,
        asked1: Seq<Effect>,
    ) -> bool;

    fn on_send_timeout<C: Context>(&mut self, ctx: &mut C)
        requires
            old(self).sound(),
        ensures
            final(self).sound(),
            final(self).socket_type() == old(self).socket_type(),
            old(ctx).journal().is_prefix_of(final(ctx).journal()),
            Self::did_on_send_timeout(
                *old(self),
                *final(self),
                old(ctx).journal(),
                final(ctx).journal(),
            ),
    ;

    /// That `after` is `before` once the pipe named `eid` has said that it can
    /// send.
    spec fn did_on_send_ready(
        before: Self,
        eid: EndpointId,
        after: Self,
        asked0: Seq<Effect>,
        asked1: Seq<Effect>,
    ) -> bool;

    fn on_send_ready<C: Context>(&mut self, ctx: &mut C, eid: EndpointId)
        requires
            old(self).sound(),
        ensures
            final(self).sound(),
            final(self).socket_type() == old(self).socket_type(),
            old(ctx).journal().is_prefix_of(final(ctx).journal()),
            Self::did_on_send_ready(
                *old(self),
                eid,
                *final(self),
                old(ctx).journal(),
                final(ctx).journal(),
            ),
    ;

    /// That `after` is `before` once the user has asked to receive, with a
    /// deadline if `timeout` names one.
    spec fn did_recv(
        before: Self,
        timeout: Timeout,
        after: Self,
        asked0: Seq<Effect>,
        asked1: Seq<Effect>,
    ) -> bool;

    fn recv<C: Context>(&mut self, ctx: &mut C, timeout: Timeout)
        requires
            old(self).sound(),
        ensures
            final(self).sound(),
            final(self).socket_type() == old(self).socket_type(),
            old(ctx).journal().is_prefix_of(final(ctx).journal()),
            Self::did_recv(
                *old(self),
                timeout,
                *final(self),
                old(ctx).journal(),
                final(ctx).journal(),
            ),
    ;

    /// That `after` is `before` once the pipe named `eid` has given the
    /// message `msg`.
    spec fn did_on_recv_ack(
        before: Self,
        eid: EndpointId, msg: Message,
        after: Self,
        asked0: Seq<Effect>,
        asked1: Seq<Effect>,
    ) -> bool;

    fn on_recv_ack<C: Context>(&mut self, ctx: &mut C, eid: EndpointId, msg: Message)
        requires
            old(self).sound(),
        ensures
            final(self).sound(),
            final(self).socket_type() == old(self).socket_type(),
            old(ctx).journal().is_prefix_of(final(ctx).journal()),
            Self::did_on_recv_ack(
                *old(self),
                eid,
                msg,
                *final(self),
                old(ctx).journal(),
                final(ctx).journal(),
            ),
    ;

    /// That `after` is `before` once the deadline of a receive has passed.
    spec fn did_on_recv_timeout(
        before: Self,
        after: Self,
        asked0: Seq<Effect>,
        asked1: Seq<Effect>,
    ) -> bool;

    fn on_recv_timeout<C: Context>(&mut self, ctx: &mut C)
        requires
            old(self).sound(),
        ensures
            final(self).sound(),
            final(self).socket_type() == old(self).socket_type(),
            old(ctx).journal().is_prefix_of(final(ctx).journal()),
            Self::did_on_recv_timeout(
                *old(self),
                *final(self),
                old(ctx).journal(),
                final(ctx).journal(),
            ),
    ;

    /// That `after` is `before` once the pipe named `eid` has said that it has
    /// a message.
    spec fn did_on_recv_ready(
        before: Self,
        eid: EndpointId,
        after: Self,
        asked0: Seq<Effect>,
        asked1: Seq<Effect>,
    ) -> bool;

    fn on_recv_ready<C: Context>(&mut self, ctx: &mut C, eid: EndpointId)
        requires
            old(self).sound(),
        ensures
            final(self).sound(),
            final(self).socket_type() == old(self).socket_type(),
            old(ctx).journal().is_prefix_of(final(ctx).journal()),
            Self::did_on_recv_ready(
                *old(self),
                eid,
                *final(self),
                old(ctx).journal(),
                final(ctx).journal(),
            ),
    ;

    /// That `after` is `before` once the timer `task` has run down.
    spec fn did_on_timer_tick(
        before: Self,
        task: Schedulable,
        after: Self,
        asked0: Seq<Effect>,
        asked1: Seq<Effect>,
    ) -> bool;

    fn on_timer_tick<C: Context>(&mut self, ctx: &mut C, task: Schedulable)
        requires
            old(self).sound(),
        ensures
            final(self).sound(),
            final(self).socket_type() == old(self).socket_type(),
            old(ctx).journal().is_prefix_of(final(ctx).journal()),
            Self::did_on_timer_tick(
                *old(self),
                task,
                *final(self),
                old(ctx).journal(),
                final(ctx).journal(),
            ),
    ;

    /// That `after` is `before` once the protocol was closed.
    spec fn did_close(
        before: Self,
        after: Self,
        asked0: Seq<Effect>,
        asked1: Seq<Effect>,
    ) -> bool;

    fn close<C: Context>(&mut self, ctx: &mut C)
        requires
            old(self).sound(),
        ensures
            final(self).sound(),
            final(self).socket_type() == old(self).socket_type(),
            old(ctx).journal().is_prefix_of(final(ctx).journal()),
            Self::did_close(
                *old(self),
                *final(self),
                old(ctx).journal(),
                final(ctx).journal(),
            ),
    ;
}

/// What a socket wants of the reactor, which alone can reach the
/// transports.
#[derive(Debug)]
pub enum Wish {
    /// To connect; the flag says whether the user waits for an answer.
    Connect(EndpointSpec, bool),
    /// To bind; the flag says whether the user waits for an answer.
    Bind(EndpointSpec, bool),
}

/// How long a socket waits before its first new attempt to connect or to
/// bind unless it is told otherwise, in milliseconds.
pub const DEFAULT_RECONNECT_INTERVAL_MS: u64 = 100;

/// The first place from `lo` on of an entry under the name `eid`.
pub open spec fn first_under<T>(entries: Seq<(EndpointId, T)>, lo: int, eid: EndpointId) -> Option<
    int,
>
    decreases entries.len() - lo,
{
    if lo >= entries.len() {
        None
    } else if entries[lo].0 == eid {
        Some(lo)
    } else {
        first_under(entries, lo + 1, eid)
    }
}

/// The entries without the first under the name `eid`.
pub open spec fn without<T>(entries: Seq<(EndpointId, T)>, eid: EndpointId) -> Seq<(EndpointId, T)> {
    match first_under(entries, 0, eid) {
        Some(i) => entries.remove(i),
        None => entries,
    }
}

/// The books of a socket: its options, and what it knows of its endpoints.
pub struct Desk {
    /// The deadline of `send`, if there is one.
    pub send_timeout: Option<Duration>,
    /// The deadline of `recv`, if there is one.
    pub recv_timeout: Option<Duration>,
    /// The priorities that new endpoints are given.
    pub send_priority: u8,
    pub recv_priority: u8,
    /// The wait before the first new attempt to connect or to bind, and the
    /// longest wait, in milliseconds.
    pub reconnect_interval: u64,
    pub reconnect_interval_max: u64,
    /// The wait before the next attempt, in milliseconds.
    pub wait: u64,
    /// The pipes that are not open yet.
    pub pending: Seq<(EndpointId, Pipe)>,
    /// Where the pipes that the socket connected lead to.
    pub connected: Seq<(EndpointId, EndpointSpec)>,
    /// Where the acceptors of the socket are bound.
    pub bound: Seq<(EndpointId, EndpointSpec)>,
}

impl Desk {
    /// The longest wait between two attempts.
    pub open spec fn cap(self) -> u64 {
        if self.reconnect_interval_max < self.reconnect_interval {
            self.reconnect_interval
        } else {
            self.reconnect_interval_max
        }
    }

    /// How a new endpoint is set up: with the socket's priorities, without
    /// delay on TCP, and with the usual limit on what it receives.
    pub open spec fn desc(self) -> EndpointDesc {
        EndpointDesc {
            send_priority: self.send_priority,
            recv_priority: self.recv_priority,
            tcp_no_delay: true,
            recv_max_size: crate::pipe::DEFAULT_RECV_MAX_SIZE,
        }
    }

    /// The books once an attempt to connect or to bind has failed: the next
    /// wait is twice this one, up to the cap.
    pub open spec fn after_failure(self) -> Desk {
        Desk { wait: crate::backoff::doubled(self.wait, self.cap()), ..self }
    }

    /// Where the pipe `eid` led to, if the socket had connected it.
    pub open spec fn lost(self, eid: EndpointId) -> Option<EndpointSpec> {
        match first_under(self.connected, 0, eid) {
            Some(i) => Some(self.connected[i].1),
            None => None,
        }
    }

    /// The books once the pipe `eid` has failed: nothing is known of it any
    /// more, and if the socket had connected it, an attempt has failed.
    pub open spec fn without_pipe(self, eid: EndpointId) -> Desk {
        let known = Desk {
            pending: without(self.pending, eid),
            connected: without(self.connected, eid),
            ..self
        };
        if self.lost(eid) is Some {
            known.after_failure()
        } else {
            known
        }
    }

    /// The books with the option's value, where the option is one of the
    /// socket's own; a new interval starts the waits over.
    pub open spec fn with_option(self, option: ConfigOption) -> Desk {
        match option {
            ConfigOption::SendTimeout(d) => Desk { send_timeout: Some(d), ..self },
            ConfigOption::RecvTimeout(d) => Desk { recv_timeout: Some(d), ..self },
            ConfigOption::SendPriority(p) => Desk { send_priority: p, ..self },
            ConfigOption::RecvPriority(p) => Desk { recv_priority: p, ..self },
            ConfigOption::ReconnectInterval(d) => Desk {
                reconnect_interval: crate::clock::capped(crate::clock::millis_in(d)),
                wait: crate::clock::capped(crate::clock::millis_in(d)),
                ..self
            },
            ConfigOption::ReconnectIntervalMax(d) => Desk {
                reconnect_interval_max: crate::clock::capped(crate::clock::millis_in(d)),
                wait: self.reconnect_interval,
                ..self
            },
            _ => self,
        }
    }
}

impl ConfigOption {
    /// Whether the option is one of the socket's own, and not one of its
    /// protocol's.
    pub open spec fn of_the_socket(self) -> bool {
        match self {
            ConfigOption::SendTimeout(_) => true,
            ConfigOption::RecvTimeout(_) => true,
            ConfigOption::SendPriority(_) => true,
            ConfigOption::RecvPriority(_) => true,
            ConfigOption::ReconnectInterval(_) => true,
            ConfigOption::ReconnectIntervalMax(_) => true,
            _ => false,
        }
    }
}

/// What is asked of the context to set a deadline, where the context names
/// the timer `handle`: nothing where no deadline is wanted, or where the
/// context could set none.
pub open spec fn asked_for_deadline(task: Schedulable, after: Option<Duration>, handle: Timeout) -> Seq<
    Effect,
> {
    match (after, handle) {
        (Some(delay), Some(h)) => seq![Effect::Schedule(task, delay, h)],
        _ => Seq::empty(),
    }
}

/// A socket: a protocol with the options that the user has set, and with
/// what is known of the endpoints that connect it.
pub struct Socket<P: Protocol> {
    protocol: P,
    replies: Vec<Reply>,
    send_timeout: Option<Duration>,
    recv_timeout: Option<Duration>,
    send_priority: u8,
    recv_priority: u8,
    reconnect_interval: u64,
    reconnect_interval_max: u64,
    backoff: Backoff,
    pending: Vec<(EndpointId, Pipe)>,
    connected: Vec<(EndpointId, EndpointSpec)>,
    bound: Vec<(EndpointId, EndpointSpec)>,
}

impl<P: Protocol> Socket<P> {
    pub closed spec fn protocol(&self) -> P {
        self.protocol
    }

    /// The answers of the socket itself that the user was not given yet,
    /// oldest first. Those of the protocol are with the protocol.
    pub closed spec fn replies(&self) -> Seq<Reply> {
        self.replies@
    }

    pub closed spec fn desk(&self) -> Desk {
        Desk {
            send_timeout: self.send_timeout,
            recv_timeout: self.recv_timeout,
            send_priority: self.send_priority,
            recv_priority: self.recv_priority,
            reconnect_interval: self.reconnect_interval,
            reconnect_interval_max: self.reconnect_interval_max,
            wait: self.backoff.upcoming(),
            pending: self.pending@,
            connected: self.connected@,
            bound: self.bound@,
        }
    }

    /// The waits are those that the intervals give.
    pub closed spec fn waits(&self) -> bool {
        &&& self.backoff.wf()
        &&& self.backoff.initial() == self.reconnect_interval
        &&& self.backoff.cap() == self.desk().cap()
    }

    /// The protocol is sound, and so are the socket's own books.
    pub open spec fn wf(&self) -> bool {
        self.protocol().sound() && self.waits()
    }

    /// A socket of the protocol, with no deadlines, the usual priorities and
    /// the usual waits, and no endpoint.
    pub fn new(protocol: P) -> (socket: Socket<P>)
        requires
            protocol.sound(),
        ensures
            socket.wf(),
            socket.protocol() == protocol,
            socket.replies().len() == 0,
            socket.desk() == (Desk {
                send_timeout: None,
                recv_timeout: None,
                send_priority: crate::endpoint::DEFAULT_PRIORITY,
                recv_priority: crate::endpoint::DEFAULT_PRIORITY,
                reconnect_interval: DEFAULT_RECONNECT_INTERVAL_MS,
                reconnect_interval_max: crate::backoff::DEFAULT_INTERVAL_MAX_MS,
                wait: DEFAULT_RECONNECT_INTERVAL_MS,
                pending: Seq::empty(),
                connected: Seq::empty(),
                bound: Seq::empty(),
            }),
    {
        Socket {
            protocol,
            replies: Vec::new(),
            send_timeout: None,
            recv_timeout: None,
            send_priority: crate::endpoint::DEFAULT_PRIORITY,
            recv_priority: crate::endpoint::DEFAULT_PRIORITY,
            reconnect_interval: DEFAULT_RECONNECT_INTERVAL_MS,
            reconnect_interval_max: crate::backoff::DEFAULT_INTERVAL_MAX_MS,
            backoff: Backoff::new(
                DEFAULT_RECONNECT_INTERVAL_MS,
                crate::backoff::DEFAULT_INTERVAL_MAX_MS,
            ),
            pending: Vec::new(),
            connected: Vec::new(),
            bound: Vec::new(),
        }
    }

    /// The protocol's own identifier, and the one that it wants of its
    /// peers.
    pub fn ids(&self) -> (ids: (u16, u16))
        ensures
            ids.0 == self.protocol().socket_type().spec_id(),
            ids.1 == self.protocol().socket_type().spec_peer().spec_id(),
    {
        (self.protocol.id(), self.protocol.peer_id())
    }

    /// How soon the socket's new pipes are asked for messages.
    pub fn recv_priority(&self) -> (priority: u8)
        ensures
            priority == self.desk().recv_priority,
    {
        self.recv_priority
    }

    /// Hands out the answers that the user is owed: those of the socket
    /// itself, then those of its protocol.
    pub fn take_replies(&mut self) -> (replies: Vec<Reply>)
        requires
            old(self).wf(),
        ensures
            final(self).wf(),
            final(self).protocol().socket_type() == old(self).protocol().socket_type(),
            final(self).desk() == old(self).desk(),
            final(self).replies().len() == 0,
            final(self).protocol().owed().len() == 0,
            replies@ == old(self).replies() + old(self).protocol().owed(),
    {
        let mut replies: Vec<Reply> = Vec::new();
        replies.append(&mut self.replies);
        let mut more = self.protocol.take_replies();
        replies.append(&mut more);
        replies
    }

    /// Where the entry under the name `eid` is.
    fn find<T>(entries: &Vec<(EndpointId, T)>, eid: EndpointId) -> (at: Option<usize>)
        ensures
            match at {
                Some(i) => first_under(entries@, 0, eid) == Some(i as int) && i < entries@.len(),
                None => first_under(entries@, 0, eid) is None,
            },
    {
        let mut i: usize = 0;
        while i < entries.len()
            invariant
                i <= entries@.len(),
                first_under(entries@, 0, eid) == first_under(entries@, i as int, eid),
            decreases entries.len() - i,
        {
            if entries[i].0 == eid {
                return Some(i);
            }
            i = i + 1;
        }
        None
    }

    /// Takes the entry under the name `eid` out, if there is one.
    fn take_out<T>(entries: &mut Vec<(EndpointId, T)>, eid: EndpointId) -> (entry: Option<T>)
        ensures
            final(entries)@ == without(old(entries)@, eid),
            entry == (match first_under(old(entries)@, 0, eid) {
                Some(i) => Some(old(entries)@[i].1),
                None => None,
            }),
    {
        match Self::find(entries, eid) {
            Some(i) => Some(entries.remove(i).1),
            None => None,
        }
    }

    /// Where the socket is to connect or to bind to, for the address.
    pub fn endpoint_spec(&self, url: String) -> (spec: EndpointSpec)
        ensures
            spec.url == url,
            spec.desc == self.desk().desc(),
    {
        EndpointSpec {
            url,
            desc: EndpointDesc {
                send_priority: self.send_priority,
                recv_priority: self.recv_priority,
                tcp_no_delay: true,
                recv_max_size: crate::pipe::DEFAULT_RECV_MAX_SIZE,
            },
        }
    }

    /// Answers the user.
    fn reply(&mut self, reply: Reply)
        ensures
            final(self).protocol() == old(self).protocol(),
            final(self).desk() == old(self).desk(),
            final(self).waits() == old(self).waits(),
            final(self).replies() == old(self).replies().push(reply),
    {
        self.replies.push(reply);
    }

    /// Sets the deadline of an operation, if the user wants one.
    fn deadline<C: Context>(ctx: &mut C, task: Schedulable, after: Option<Duration>) -> (handle:
        Timeout)
        ensures
            after is None ==> handle is None,
            final(ctx).journal() == old(ctx).journal() + asked_for_deadline(task, after, handle),
    {
        let handle = match after {
            Some(delay) => match ctx.schedule(task, delay) {
                Ok(handle) => Some(handle),
                Err(_) => None,
            },
            None => None,
        };
        proof {
            assert(ctx.journal() =~= old(ctx).journal() + asked_for_deadline(task, after, handle));
        }
        handle
    }

    /// That `after` is `before` once the option was given its value, or
    /// was refused, and the user was answered: a value that the option
    /// cannot have is refused; an option of the socket's own is set in its
    /// books; any other goes to the protocol, which sets it or refuses it.
    pub open spec fn option_set(before: Socket<P>, after: Socket<P>, option: ConfigOption) -> bool {
        &&& after.replies().len() == before.replies().len() + 1
        &&& after.replies().drop_last() == before.replies()
        &&& if !option.acceptable() {
            &&& after.desk() == before.desk()
            &&& after.protocol() == before.protocol()
            &&& after.replies().last()@ == Answer::Failed(
                ErrorKind::InvalidInput,
                "a priority is a number from 1 to 16"@,
            )
        } else if option.of_the_socket() {
            &&& after.desk() == before.desk().with_option(option)
            &&& after.protocol() == before.protocol()
            &&& after.replies().last()@ == Answer::SetOption
        } else {
            &&& after.desk() == before.desk()
            &&& exists|r: Result<(), IoError>|
                {
                    &&& #[trigger] P::did_set_option(
                        before.protocol(),
                        option,
                        after.protocol(),
                        r,
                    )
                    &&& after.replies().last() == (match r {
                        Ok(_) => Reply::SetOption,
                        Err(e) => Reply::Failed(e),
                    })
                }
        }
    }

    /// Gives an option its value and answers the user.
    pub fn set_option(&mut self, option: ConfigOption)
        requires
            old(self).wf(),
        ensures
            final(self).wf(),
            final(self).protocol().socket_type() == old(self).protocol().socket_type(),
            Self::option_set(*old(self), *final(self), option),
    {
        proof {
            assert(self.replies().push(Reply::SetOption).drop_last() =~= self.replies());
        }
        if let Err(e) = option.check() {
            proof {
                assert(self.replies().push(Reply::Failed(e)).drop_last() =~= self.replies());
            }
            self.reply(Reply::Failed(e));
            return ;
        }
        match option {
            ConfigOption::SendTimeout(d) => {
                self.send_timeout = Some(d);
                self.reply(Reply::SetOption);
            },
            ConfigOption::RecvTimeout(d) => {
                self.recv_timeout = Some(d);
                self.reply(Reply::SetOption);
            },
            ConfigOption::SendPriority(p) => {
                self.send_priority = p;
                self.reply(Reply::SetOption);
            },
            ConfigOption::RecvPriority(p) => {
                self.recv_priority = p;
                self.reply(Reply::SetOption);
            },
            ConfigOption::ReconnectInterval(d) => {
                self.reconnect_interval = crate::clock::millis_of(d);
                self.backoff = Backoff::new(self.reconnect_interval, self.reconnect_interval_max);
                self.reply(Reply::SetOption);
            },
            ConfigOption::ReconnectIntervalMax(d) => {
                self.reconnect_interval_max = crate::clock::millis_of(d);
                self.backoff = Backoff::new(self.reconnect_interval, self.reconnect_interval_max);
                self.reply(Reply::SetOption);
            },
            other => {
                let r = self.protocol.set_option(other);
                let ghost outcome = r;
                match r {
                    Ok(()) => {
                        self.reply(Reply::SetOption);
                    },
                    Err(e) => {
                        proof {
                            assert(self.replies().push(Reply::Failed(e)).drop_last()
                                =~= self.replies());
                        }
                        self.reply(Reply::Failed(e));
                    },
                }
                proof {
                    assert(P::did_set_option(
                        old(self).protocol(),
                        option,
                        self.protocol(),
                        outcome,
                    ));
                }
            },
        }
    }

    /// That the socket's own books and answers are in `after` as they were
    /// in `before`: a call was passed on to the protocol.
    pub open spec fn passed_on(before: Socket<P>, after: Socket<P>) -> bool {
        after.desk() == before.desk() && after.replies() == before.replies()
    }

    /// That `after` is `before` once the user's message was sent: the
    /// deadline that the user has set for sending was set, which `handle`
    /// names if there is one, and then the protocol was asked to send the
    /// message with that deadline.
    pub open spec fn sent(
        before: Socket<P>,
        msg: Message,
        after: Socket<P>,
        asked0: Seq<Effect>,
        asked1: Seq<Effect>,
    ) -> bool {
        &&& Self::passed_on(before, after)
        &&& exists|handle: Timeout|
            {
                &&& before.desk().send_timeout is None ==> handle is None
                &&& #[trigger] P::did_send(
                    before.protocol(),
                    msg,
                    handle,
                    after.protocol(),
                    asked0 + asked_for_deadline(
                        Schedulable::SendTimeout,
                        before.desk().send_timeout,
                        handle,
                    ),
                    asked1,
                )
            }
    }

    /// Sends the message for the user, with the deadline that the user has
    /// set for sending.
    pub fn send<C: Context>(&mut self, ctx: &mut C, msg: Message)
        requires
            old(self).wf(),
        ensures
            final(self).wf(),
            final(self).protocol().socket_type() == old(self).protocol().socket_type(),
            Self::sent(*old(self), msg, *final(self), old(ctx).journal(), final(ctx).journal()),
    {
        let timeout = Self::deadline(ctx, Schedulable::SendTimeout, self.send_timeout);
        self.protocol.send(ctx, msg, timeout);
        proof {
            assert(P::did_send(
                old(self).protocol(),
                msg,
                timeout,
                self.protocol(),
                old(ctx).journal() + asked_for_deadline(
                    Schedulable::SendTimeout,
                    old(self).desk().send_timeout,
                    timeout,
                ),
                ctx.journal(),
            ));
        }
    }

    /// That `after` is `before` once a message was asked for: the deadline
    /// that the user has set for receiving was set, which `handle` names if
    /// there is one, and then the protocol was asked to receive with that
    /// deadline.
    pub open spec fn received(
        before: Socket<P>,
        after: Socket<P>,
        asked0: Seq<Effect>,
        asked1: Seq<Effect>,
    ) -> bool {
        &&& Self::passed_on(before, after)
        &&& exists|handle: Timeout|
            {
                &&& before.desk().recv_timeout is None ==> handle is None
                &&& #[trigger] P::did_recv(
                    before.protocol(),
                    handle,
                    after.protocol(),
                    asked0 + asked_for_deadline(
                        Schedulable::RecvTimeout,
                        before.desk().recv_timeout,
                        handle,
                    ),
                    asked1,
                )
            }
    }

    /// Receives a message for the user, with the deadline that the user has
    /// set for receiving.
    pub fn recv<C: Context>(&mut self, ctx: &mut C)
        requires
            old(self).wf(),
        ensures
            final(self).wf(),
            final(self).protocol().socket_type() == old(self).protocol().socket_type(),
            Self::received(*old(self), *final(self), old(ctx).journal(), final(ctx).journal()),
    {
        let timeout = Self::deadline(ctx, Schedulable::RecvTimeout, self.recv_timeout);
        self.protocol.recv(ctx, timeout);
        proof {
            assert(P::did_recv(
                old(self).protocol(),
                timeout,
                self.protocol(),
                old(ctx).journal() + asked_for_deadline(
                    Schedulable::RecvTimeout,
                    old(self).desk().recv_timeout,
                    timeout,
                ),
                ctx.journal(),
            ));
        }
    }

    /// That `after` is `before` once the socket was closed: the protocol
    /// has closed what it had to, and then the socket's owner was told that
    /// the socket is closed.
    pub open spec fn closed(
        before: Socket<P>,
        after: Socket<P>,
        asked0: Seq<Effect>,
        asked1: Seq<Effect>,
    ) -> bool {
        &&& Self::passed_on(before, after)
        &&& asked1.len() > 0
        &&& asked1.last() == Effect::Raise(Event::Closed)
        &&& P::did_close(before.protocol(), after.protocol(), asked0, asked1.drop_last())
    }

    /// Closes the socket.
    pub fn close<C: Context>(&mut self, ctx: &mut C)
        requires
            old(self).wf(),
        ensures
            final(self).wf(),
            final(self).protocol().socket_type() == old(self).protocol().socket_type(),
            Self::closed(*old(self), *final(self), old(ctx).journal(), final(ctx).journal()),
    {
        self.protocol.close(ctx);
        let ghost mid = ctx.journal();
        ctx.raise(Event::Closed);
        proof {
            assert(ctx.journal().drop_last() =~= mid);
        }
    }

    /// What is asked of the context to try again later, where the context
    /// names the timer `handle`: nothing where it could set none.
    pub open spec fn asked_to_retry(task: Schedulable, delay: Duration, handle: Timeout) -> Seq<
        Effect,
    > {
        match handle {
            Some(h) => seq![Effect::Schedule(task, delay, h)],
            None => Seq::empty(),
        }
    }

    /// Has the task run after the wait that is due, and makes the next wait
    /// longer.
    fn retry<C: Context>(&mut self, ctx: &mut C, task: Schedulable)
        requires
            old(self).waits(),
        ensures
            final(self).waits(),
            final(self).protocol() == old(self).protocol(),
            final(self).replies() == old(self).replies(),
            final(self).desk() == old(self).desk().after_failure(),
            exists|delay: Duration, handle: Timeout|
                crate::clock::millis_in(delay) == old(self).desk().wait && final(ctx).journal()
                    == old(ctx).journal() + #[trigger] Self::asked_to_retry(task, delay, handle),
    {
        let wait = self.backoff.next_delay();
        let delay = crate::clock::duration_of(wait);
        let handle = match ctx.schedule(task, delay) {
            Ok(handle) => Some(handle),
            Err(_) => None,
        };
        proof {
            assert(ctx.journal() =~= old(ctx).journal() + Self::asked_to_retry(
                task,
                delay,
                handle,
            ));
        }
    }

    /// The reactor has connected the socket through the pipe `eid`, which
    /// is not open yet. The user who asked to connect is answered.
    pub fn on_connected(&mut self, eid: EndpointId, spec: EndpointSpec, by_user: bool)
        requires
            old(self).wf(),
        ensures
            final(self).wf(),
            final(self).protocol().socket_type() == old(self).protocol().socket_type(),
            final(self).protocol() == old(self).protocol(),
            final(self).replies() == (if by_user {
                old(self).replies().push(Reply::Connect(eid))
            } else {
                old(self).replies()
            }),
            final(self).desk().connected == old(self).desk().connected.push((eid, spec)),
            final(self).desk().pending.len() == old(self).desk().pending.len() + 1,
            final(self).desk().pending.drop_last() == old(self).desk().pending,
            final(self).desk().pending.last().0 == eid,
            final(self).desk().pending.last().1.eid() == eid,
            final(self).desk().pending.last().1.address() == Some(spec.url),
            final(self).desk().pending.last().1.send_priority() == spec.desc.send_priority,
            final(self).desk().pending.last().1.recv_priority() == spec.desc.recv_priority,
            final(self).desk() == (Desk {
                pending: final(self).desk().pending,
                connected: final(self).desk().connected,
                ..old(self).desk()
            }),
    {
        let pipe = Pipe::with_priorities(
            eid,
            Some(spec.url.clone()),
            spec.desc.send_priority,
            spec.desc.recv_priority,
        );
        self.pending.push((eid, pipe));
        self.connected.push((eid, spec));
        proof {
            assert(self.desk().pending.drop_last() =~= old(self).desk().pending);
        }
        if by_user {
            self.reply(Reply::Connect(eid));
        }
    }

    /// The reactor has bound the socket through the acceptor `aid`. The
    /// user who asked to bind is answered.
    pub fn on_bound(&mut self, aid: EndpointId, spec: EndpointSpec, by_user: bool)
        requires
            old(self).wf(),
        ensures
            final(self).wf(),
            final(self).protocol().socket_type() == old(self).protocol().socket_type(),
            final(self).protocol() == old(self).protocol(),
            final(self).replies() == (if by_user {
                old(self).replies().push(Reply::Bind(aid))
            } else {
                old(self).replies()
            }),
            final(self).desk() == (Desk {
                bound: old(self).desk().bound.push((aid, spec)),
                ..old(self).desk()
            }),
    {
        self.bound.push((aid, spec));
        if by_user {
            self.reply(Reply::Bind(aid));
        }
    }

    /// The reactor could not connect or bind the socket for the user, who
    /// is answered with the error.
    pub fn on_refused(&mut self, error: IoError)
        requires
            old(self).wf(),
        ensures
            final(self).wf(),
            final(self).protocol().socket_type() == old(self).protocol().socket_type(),
            final(self).protocol() == old(self).protocol(),
            final(self).desk() == old(self).desk(),
            final(self).replies() == old(self).replies().push(Reply::Failed(error)),
    {
        self.reply(Reply::Failed(error));
    }

    /// That `after` is `before` once an attempt to connect or to bind has
    /// failed: `task`, the next attempt, is to run after the wait that was
    /// due, and the next wait is longer.
    pub open spec fn tried_again(
        before: Socket<P>,
        after: Socket<P>,
        asked0: Seq<Effect>,
        asked1: Seq<Effect>,
        task: Schedulable,
    ) -> bool {
        &&& after.protocol() == before.protocol()
        &&& after.replies() == before.replies()
        &&& after.desk() == before.desk().after_failure()
        &&& exists|delay: Duration, handle: Timeout|
            crate::clock::millis_in(delay) == before.desk().wait && asked1 == asked0
                + #[trigger] Self::asked_to_retry(task, delay, handle)
    }

    /// A new attempt to connect has failed: the next one is set up.
    pub fn on_reconnect_failed<C: Context>(&mut self, ctx: &mut C, spec: EndpointSpec)
        requires
            old(self).wf(),
        ensures
            final(self).wf(),
            final(self).protocol().socket_type() == old(self).protocol().socket_type(),
            Self::tried_again(
                *old(self),
                *final(self),
                old(ctx).journal(),
                final(ctx).journal(),
                Schedulable::Reconnect(spec),
            ),
    {
        self.retry(ctx, Schedulable::Reconnect(spec));
    }

    /// A new attempt to bind has failed: the next one is set up.
    pub fn on_rebind_failed<C: Context>(&mut self, ctx: &mut C, spec: EndpointSpec)
        requires
            old(self).wf(),
        ensures
            final(self).wf(),
            final(self).protocol().socket_type() == old(self).protocol().socket_type(),
            Self::tried_again(
                *old(self),
                *final(self),
                old(ctx).journal(),
                final(ctx).journal(),
                Schedulable::Rebind(spec),
            ),
    {
        self.retry(ctx, Schedulable::Rebind(spec));
    }

    /// The reactor could not connect the socket. If the user waits for an
    /// answer, the answer is the error; else the attempt was one of the
    /// socket's own, and the next one is set up.
    pub fn on_connect_failed<C: Context>(
        &mut self,
        ctx: &mut C,
        spec: EndpointSpec,
        by_user: bool,
        error: IoError,
    )
        requires
            old(self).wf(),
        ensures
            final(self).wf(),
            final(self).protocol().socket_type() == old(self).protocol().socket_type(),
            if by_user {
                &&& final(self).protocol() == old(self).protocol()
                &&& final(self).desk() == old(self).desk()
                &&& final(self).replies() == old(self).replies().push(Reply::Failed(error))
                &&& final(ctx).journal() == old(ctx).journal()
            } else {
                Self::tried_again(
                    *old(self),
                    *final(self),
                    old(ctx).journal(),
                    final(ctx).journal(),
                    Schedulable::Reconnect(spec),
                )
            },
    {
        if by_user {
            self.on_refused(error);
        } else {
            self.on_reconnect_failed(ctx, spec);
        }
    }

    /// The reactor could not bind the socket. If the user waits for an
    /// answer, the answer is the error; else the attempt was one of the
    /// socket's own, and the next one is set up.
    pub fn on_bind_failed<C: Context>(
        &mut self,
        ctx: &mut C,
        spec: EndpointSpec,
        by_user: bool,
        error: IoError,
    )
        requires
            old(self).wf(),
        ensures
            final(self).wf(),
            final(self).protocol().socket_type() == old(self).protocol().socket_type(),
            if by_user {
                &&& final(self).protocol() == old(self).protocol()
                &&& final(self).desk() == old(self).desk()
                &&& final(self).replies() == old(self).replies().push(Reply::Failed(error))
                &&& final(ctx).journal() == old(ctx).journal()
            } else {
                Self::tried_again(
                    *old(self),
                    *final(self),
                    old(ctx).journal(),
                    final(ctx).journal(),
                    Schedulable::Rebind(spec),
                )
            },
    {
        if by_user {
            self.on_refused(error);
        } else {
            self.on_rebind_failed(ctx, spec);
        }
    }

    /// That `after` is `before` once the pipe `eid` has opened: if it was
    /// waiting to, it waits no more and was handed to the protocol, and the
    /// waits start over, for an attempt has succeeded; else nothing has
    /// changed.
    pub open spec fn pipe_opened(
        before: Socket<P>,
        after: Socket<P>,
        asked0: Seq<Effect>,
        asked1: Seq<Effect>,
        eid: EndpointId,
    ) -> bool {
        &&& after.replies() == before.replies()
        &&& match first_under(before.desk().pending, 0, eid) {
            Some(i) => {
                &&& after.desk() == (Desk {
                    pending: without(before.desk().pending, eid),
                    wait: before.desk().reconnect_interval,
                    ..before.desk()
                })
                &&& P::did_add_pipe(
                    before.protocol(),
                    eid,
                    before.desk().pending[i].1,
                    after.protocol(),
                    asked0,
                    asked1,
                )
            },
            None => after.desk() == before.desk() && after.protocol() == before.protocol()
                && asked1 == asked0,
        }
    }

    /// The pipe `eid` has opened.
    pub fn on_pipe_opened<C: Context>(&mut self, ctx: &mut C, eid: EndpointId)
        requires
            old(self).wf(),
        ensures
            final(self).wf(),
            final(self).protocol().socket_type() == old(self).protocol().socket_type(),
            Self::pipe_opened(
                *old(self),
                *final(self),
                old(ctx).journal(),
                final(ctx).journal(),
                eid,
            ),
    {
        match Self::take_out(&mut self.pending, eid) {
            Some(pipe) => {
                self.protocol.add_pipe(ctx, eid, pipe);
                self.backoff.reset();
            },
            None => {},
        }
    }

    /// That `after` is `before` once the acceptor `aid` has accepted the
    /// pipe `eid`: the pipe was ordered to open and waits to, with the
    /// address and the priorities that the acceptor was bound with.
    pub open spec fn pipe_accepted(
        before: Socket<P>,
        after: Socket<P>,
        asked0: Seq<Effect>,
        asked1: Seq<Effect>,
        aid: EndpointId,
        eid: EndpointId,
    ) -> bool {
        let pipe = after.desk().pending.last().1;
        &&& after.protocol() == before.protocol()
        &&& after.replies() == before.replies()
        &&& asked1 == asked0.push(Effect::Open(eid, true))
        &&& after.desk() == (Desk { pending: after.desk().pending, ..before.desk() })
        &&& after.desk().pending.len() == before.desk().pending.len() + 1
        &&& after.desk().pending.drop_last() == before.desk().pending
        &&& after.desk().pending.last().0 == eid
        &&& pipe.eid() == eid
        &&& match first_under(before.desk().bound, 0, aid) {
            Some(i) => {
                let spec = before.desk().bound[i].1;
                &&& pipe.address() == Some(spec.url)
                &&& pipe.send_priority() == spec.desc.send_priority
                &&& pipe.recv_priority() == spec.desc.recv_priority
            },
            None => {
                &&& pipe.address() is None
                &&& pipe.send_priority() == before.desk().send_priority
                &&& pipe.recv_priority() == before.desk().recv_priority
            },
        }
    }

    /// The acceptor `aid` has accepted the pipe `eid`.
    pub fn on_pipe_accepted<C: Context>(&mut self, ctx: &mut C, aid: EndpointId, eid: EndpointId)
        requires
            old(self).wf(),
        ensures
            final(self).wf(),
            final(self).protocol().socket_type() == old(self).protocol().socket_type(),
            Self::pipe_accepted(
                *old(self),
                *final(self),
                old(ctx).journal(),
                final(ctx).journal(),
                aid,
                eid,
            ),
    {
        let pipe = match Self::find(&self.bound, aid) {
            Some(i) => Pipe::with_priorities(
                eid,
                Some(self.bound[i].1.url.clone()),
                self.bound[i].1.desc.send_priority,
                self.bound[i].1.desc.recv_priority,
            ),
            None => Pipe::with_priorities(eid, None, self.send_priority, self.recv_priority),
        };
        pipe.open(ctx);
        self.pending.push((eid, pipe));
        proof {
            assert(self.desk().pending.drop_last() =~= old(self).desk().pending);
        }
    }

    /// What the socket asks of the context itself when a pipe has failed:
    /// to close the pipe that the protocol gave back, if it gave one back,
    /// and to connect again after the wait that is due, if the pipe was
    /// connected by the socket itself.
    pub open spec fn asked_on_pipe_error(
        removed: Option<Pipe>,
        lost: Option<EndpointSpec>,
        delay: Duration,
        handle: Timeout,
    ) -> Seq<Effect> {
        (match removed {
            Some(pipe) => seq![Effect::Close(pipe.eid(), true)],
            None => Seq::empty(),
        }) + (match lost {
            Some(spec) => Self::asked_to_retry(Schedulable::Reconnect(spec), delay, handle),
            None => Seq::empty(),
        })
    }

    /// That `after` is `before` once the pipe `eid` has failed: the
    /// protocol has let it go, it waits no more to be opened, and if the
    /// socket had connected it, the socket is to connect again after the
    /// wait that is due, and the next wait is longer.
    pub open spec fn pipe_failed(
        before: Socket<P>,
        after: Socket<P>,
        asked0: Seq<Effect>,
        asked1: Seq<Effect>,
        eid: EndpointId,
    ) -> bool {
        let lost = before.desk().lost(eid);
        &&& after.replies() == before.replies()
        &&& after.desk() == before.desk().without_pipe(eid)
        &&& exists|removed: Option<Pipe>, mid: Seq<Effect>, delay: Duration, handle: Timeout|
            {
                &&& lost is Some ==> crate::clock::millis_in(delay) == before.desk().wait
                &&& #[trigger] P::did_remove_pipe(
                    before.protocol(),
                    eid,
                    after.protocol(),
                    asked0,
                    mid,
                    removed,
                )
                &&& asked1 == mid + #[trigger] Self::asked_on_pipe_error(
                    removed,
                    lost,
                    delay,
                    handle,
                )
            }
    }

    /// The pipe `eid` has failed.
    pub fn on_pipe_error<C: Context>(&mut self, ctx: &mut C, eid: EndpointId)
        requires
            old(self).wf(),
        ensures
            final(self).wf(),
            final(self).protocol().socket_type() == old(self).protocol().socket_type(),
            Self::pipe_failed(
                *old(self),
                *final(self),
                old(ctx).journal(),
                final(ctx).journal(),
                eid,
            ),
    {
        let removed = self.protocol.remove_pipe(ctx, eid);
        let ghost mid = ctx.journal();
        let ghost gone = removed;
        if let Some(pipe) = removed {
            pipe.close(ctx);
        }
        let ghost closed = ctx.journal();
        let _ = Self::take_out(&mut self.pending, eid);
        match Self::take_out(&mut self.connected, eid) {
            Some(spec) => {
                let ghost before = *self;
                self.retry(ctx, Schedulable::Reconnect(spec));
                proof {
                    let (delay, handle) = choose|delay: Duration, handle: Timeout|
                        crate::clock::millis_in(delay) == before.desk().wait && ctx.journal()
                            == closed + #[trigger] Self::asked_to_retry(
                            Schedulable::Reconnect(spec),
                            delay,
                            handle,
                        );
                    assert(old(self).desk().lost(eid) == Some(spec));
                    let own = Self::asked_on_pipe_error(gone, old(self).desk().lost(eid), delay, handle);
                    assert(ctx.journal() =~= mid + own);
                    assert(P::did_remove_pipe(
                        old(self).protocol(),
                        eid,
                        self.protocol(),
                        old(ctx).journal(),
                        mid,
                        gone,
                    ));
                    assert(self.replies() == old(self).replies());
                    assert(self.desk() == old(self).desk().without_pipe(eid));
                    assert(Self::pipe_failed(
                        *old(self),
                        *self,
                        old(ctx).journal(),
                        ctx.journal(),
                        eid,
                    ));
                }
            },
            None => {
                proof {
                    let delay: Duration = arbitrary();
                    assert(old(self).desk().lost(eid) is None);
                    let own = Self::asked_on_pipe_error(gone, old(self).desk().lost(eid), delay, None);
                    assert(ctx.journal() =~= mid + own);
                    assert(P::did_remove_pipe(
                        old(self).protocol(),
                        eid,
                        self.protocol(),
                        old(ctx).journal(),
                        mid,
                        gone,
                    ));
                    assert(self.replies() == old(self).replies());
                    assert(self.desk() == old(self).desk().without_pipe(eid));
                    assert(Self::pipe_failed(
                        *old(self),
                        *self,
                        old(ctx).journal(),
                        ctx.journal(),
                        eid,
                    ));
                }
            },
        }
    }

    /// That `after` is `before` once the acceptor `aid` has failed: if the
    /// socket knows it, it knows it no more and is to bind again after the
    /// wait that is due, and the next wait is longer; else nothing has
    /// changed.
    pub open spec fn acceptor_failed(
        before: Socket<P>,
        after: Socket<P>,
        asked0: Seq<Effect>,
        asked1: Seq<Effect>,
        aid: EndpointId,
    ) -> bool {
        &&& after.protocol() == before.protocol()
        &&& after.replies() == before.replies()
        &&& match first_under(before.desk().bound, 0, aid) {
            Some(i) => {
                &&& after.desk() == (Desk {
                    bound: without(before.desk().bound, aid),
                    ..before.desk()
                }).after_failure()
                &&& exists|delay: Duration, handle: Timeout|
                    crate::clock::millis_in(delay) == before.desk().wait && asked1 == asked0
                        + #[trigger] Self::asked_to_retry(
                        Schedulable::Rebind(before.desk().bound[i].1),
                        delay,
                        handle,
                    )
            },
            None => after.desk() == before.desk() && asked1 == asked0,
        }
    }

    /// The acceptor `aid` has failed.
    pub fn on_acceptor_error<C: Context>(&mut self, ctx: &mut C, aid: EndpointId)
        requires
            old(self).wf(),
        ensures
            final(self).wf(),
            final(self).protocol().socket_type() == old(self).protocol().socket_type(),
            Self::acceptor_failed(
                *old(self),
                *final(self),
                old(ctx).journal(),
                final(ctx).journal(),
                aid,
            ),
    {
        match Self::take_out(&mut self.bound, aid) {
            Some(spec) => {
                self.retry(ctx, Schedulable::Rebind(spec));
            },
            None => {},
        }
    }

    /// That `after` is `before` once the call was made, and `wishes` what
    /// is left for the reactor to do.
    pub open spec fn applied(
        before: Socket<P>,
        call: SocketCall,
        after: Socket<P>,
        asked0: Seq<Effect>,
        asked1: Seq<Effect>,
        wishes: Seq<Wish>,
    ) -> bool {
        match call {
            SocketCall::Connect(url) => {
                &&& after == before
                &&& asked1 == asked0
                &&& wishes == seq![
                    Wish::Connect(EndpointSpec { url, desc: before.desk().desc() }, true),
                ]
            },
            SocketCall::Bind(url) => {
                &&& after == before
                &&& asked1 == asked0
                &&& wishes == seq![
                    Wish::Bind(EndpointSpec { url, desc: before.desk().desc() }, true),
                ]
            },
            SocketCall::Reconnect(spec) => {
                &&& after == before
                &&& asked1 == asked0
                &&& wishes == seq![Wish::Connect(spec, false)]
            },
            SocketCall::Rebind(spec) => {
                &&& after == before
                &&& asked1 == asked0
                &&& wishes == seq![Wish::Bind(spec, false)]
            },
            SocketCall::Send(msg) => wishes.len() == 0 && Self::sent(
                before,
                msg,
                after,
                asked0,
                asked1,
            ),
            SocketCall::Recv => wishes.len() == 0 && Self::received(before, after, asked0, asked1),
            SocketCall::SetOption(option) => {
                &&& wishes.len() == 0
                &&& asked1 == asked0
                &&& Self::option_set(before, after, option)
            },
            SocketCall::Close => wishes.len() == 0 && Self::closed(before, after, asked0, asked1),
            SocketCall::OnPipeOpened(eid) => wishes.len() == 0 && Self::pipe_opened(
                before,
                after,
                asked0,
                asked1,
                eid,
            ),
            SocketCall::OnPipeError(eid, _) => wishes.len() == 0 && Self::pipe_failed(
                before,
                after,
                asked0,
                asked1,
                eid,
            ),
            SocketCall::OnAcceptorError(aid, _) => wishes.len() == 0 && Self::acceptor_failed(
                before,
                after,
                asked0,
                asked1,
                aid,
            ),
            SocketCall::OnPipeAccepted(aid, eid) => wishes.len() == 0 && Self::pipe_accepted(
                before,
                after,
                asked0,
                asked1,
                aid,
                eid,
            ),
            SocketCall::OnDevicePlugged => wishes.len() == 0 && after == before && asked1
                == asked0,
            SocketCall::OnSendTimeout => {
                &&& wishes.len() == 0
                &&& Self::passed_on(before, after)
                &&& P::did_on_send_timeout(before.protocol(), after.protocol(), asked0, asked1)
            },
            SocketCall::OnRecvTimeout => {
                &&& wishes.len() == 0
                &&& Self::passed_on(before, after)
                &&& P::did_on_recv_timeout(before.protocol(), after.protocol(), asked0, asked1)
            },
            SocketCall::OnTimerTick(task) => {
                &&& wishes.len() == 0
                &&& Self::passed_on(before, after)
                &&& P::did_on_timer_tick(
                    before.protocol(),
                    task,
                    after.protocol(),
                    asked0,
                    asked1,
                )
            },
            SocketCall::OnSendReady(eid) => {
                &&& wishes.len() == 0
                &&& Self::passed_on(before, after)
                &&& P::did_on_send_ready(
                    before.protocol(),
                    eid,
                    after.protocol(),
                    asked0,
                    asked1,
                )
            },
            SocketCall::OnSendAck(eid) => {
                &&& wishes.len() == 0
                &&& Self::passed_on(before, after)
                &&& P::did_on_send_ack(before.protocol(), eid, after.protocol(), asked0, asked1)
            },
            SocketCall::OnRecvReady(eid) => {
                &&& wishes.len() == 0
                &&& Self::passed_on(before, after)
                &&& P::did_on_recv_ready(
                    before.protocol(),
                    eid,
                    after.protocol(),
                    asked0,
                    asked1,
                )
            },
            SocketCall::OnRecvAck(eid, msg) => {
                &&& wishes.len() == 0
                &&& Self::passed_on(before, after)
                &&& P::did_on_recv_ack(
                    before.protocol(),
                    eid,
                    msg,
                    after.protocol(),
                    asked0,
                    asked1,
                )
            },
        }
    }

    /// Makes the call on the socket, and says what is left for the reactor
    /// to do: to connect or to bind where the socket wants it. What the
    /// pipes and the timer report goes on to the protocol.
    pub fn apply<C: Context>(&mut self, ctx: &mut C, call: SocketCall) -> (wishes: Vec<Wish>)
        requires
            old(self).wf(),
        ensures
            final(self).wf(),
            final(self).protocol().socket_type() == old(self).protocol().socket_type(),
            Self::applied(
                *old(self),
                call,
                *final(self),
                old(ctx).journal(),
                final(ctx).journal(),
                wishes@,
            ),
    {
        let mut wishes: Vec<Wish> = Vec::new();
        match call {
            SocketCall::Connect(url) => {
                let spec = self.endpoint_spec(url);
                wishes.push(Wish::Connect(spec, true));
            },
            SocketCall::Bind(url) => {
                let spec = self.endpoint_spec(url);
                wishes.push(Wish::Bind(spec, true));
            },
            SocketCall::Reconnect(spec) => {
                wishes.push(Wish::Connect(spec, false));
            },
            SocketCall::Rebind(spec) => {
                wishes.push(Wish::Bind(spec, false));
            },
            SocketCall::Send(msg) => self.send(ctx, msg),
            SocketCall::Recv => self.recv(ctx),
            SocketCall::SetOption(option) => self.set_option(option),
            SocketCall::Close => self.close(ctx),
            SocketCall::OnSendTimeout => self.protocol.on_send_timeout(ctx),
            SocketCall::OnRecvTimeout => self.protocol.on_recv_timeout(ctx),
            SocketCall::OnTimerTick(task) => self.protocol.on_timer_tick(ctx, task),
            SocketCall::OnPipeOpened(eid) => self.on_pipe_opened(ctx, eid),
            SocketCall::OnSendReady(eid) => self.protocol.on_send_ready(ctx, eid),
            SocketCall::OnSendAck(eid) => self.protocol.on_send_ack(ctx, eid),
            SocketCall::OnRecvReady(eid) => self.protocol.on_recv_ready(ctx, eid),
            SocketCall::OnRecvAck(eid, msg) => self.protocol.on_recv_ack(ctx, eid, msg),
            SocketCall::OnPipeError(eid, _) => self.on_pipe_error(ctx, eid),
            SocketCall::OnAcceptorError(aid, _) => self.on_acceptor_error(ctx, aid),
            SocketCall::OnPipeAccepted(aid, eid) => self.on_pipe_accepted(ctx, aid, eid),
            SocketCall::OnDevicePlugged => {},
        }
        wishes
    }
}

} // verus!
