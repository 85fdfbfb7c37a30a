use vstd::prelude::*;
use crate::context::{EndpointSpec, Event, Schedulable};
use crate::id::{DeviceId, EndpointId, SocketId};
use crate::io_error::IoError;
use crate::message::Message;
use crate::reactor::adapter::{has_name, EndpointCollection};
use crate::reactor::bus::EventLoopBus;
use crate::reactor::signal::{
    AcceptorCommand,
    AcceptorEvent,
    PipeCommand,
    PipeEvent,
    Request,
    Signal,
    Task,
};
use crate::session::Session;
use crate::socket::ConfigOption;
use crate::transport::{EventSet, Token};

verus! {

/// The token of the channel that brings the users' requests.
pub const CHANNEL_TOKEN: usize = usize::MAX - 1;

/// The token of the reactor's own bus.
pub const BUS_TOKEN: usize = usize::MAX - 2;

/// The token of the timer.
pub const TIMER_TOKEN: usize = usize::MAX - 3;

/// The length of a tick of the timer, in milliseconds.
pub const TIMER_TICK_MS: u64 = 25;

/// The number of slots of the timer's wheel.
pub const TIMER_SLOTS: usize = 1024;

/// The number of deadlines that the timer can hold.
pub const TIMER_CAPACITY: usize = 8192;

/// What the poller reports on.
#[derive(Copy, Clone, Debug, PartialEq, Eq, Structural)]
pub enum Source {
    Channel,
    Bus,
    Timer,
    Io(EndpointId),
}

/// The source that goes by `token`.
pub open spec fn source_of(token: Token) -> Source {
    if token.0 == CHANNEL_TOKEN {
        Source::Channel
    } else if token.0 == BUS_TOKEN {
        Source::Bus
    } else if token.0 == TIMER_TOKEN {
        Source::Timer
    } else {
        Source::Io(EndpointId(token.0))
    }
}

/// Which source the poller reports on.
pub fn source(token: Token) -> (source: Source)
    ensures
        source == source_of(token),
{
    if token.0 == CHANNEL_TOKEN {
        Source::Channel
    } else if token.0 == BUS_TOKEN {
        Source::Bus
    } else if token.0 == TIMER_TOKEN {
        Source::Timer
    } else {
        Source::Io(EndpointId::of_token(token))
    }
}

/// A call to make on a socket.
#[derive(Debug)]
pub enum SocketCall {
    Connect(String),
    Bind(String),
    Send(Message),
    Recv,
    SetOption(ConfigOption),
    Close,
    Reconnect(EndpointSpec),
    Rebind(EndpointSpec),
    OnSendTimeout,
    OnRecvTimeout,
    OnTimerTick(Schedulable),
    OnPipeOpened(EndpointId),
    OnSendReady(EndpointId),
    OnSendAck(EndpointId),
    OnRecvReady(EndpointId),
    OnRecvAck(EndpointId, Message),
    OnPipeError(EndpointId, IoError),
    OnAcceptorError(EndpointId, IoError),
    /// The acceptor, then the pipe that it accepted.
    OnPipeAccepted(EndpointId, EndpointId),
    OnDevicePlugged,
}

/// What the dispatcher has decided, for the owner of the sockets, the
/// endpoints and the poller to carry out.
#[derive(Debug)]
pub enum Action {
    /// Make the call on the socket.
    Socket(SocketId, SocketCall),
    /// Let the pipe act on what the poller reports of it.
    PipeReady(EndpointId, EventSet),
    /// Let the acceptor act on what the poller reports of it.
    AcceptorReady(EndpointId, EventSet),
    /// Let the pipe carry out the order.
    Pipe(EndpointId, PipeCommand),
    /// Let the acceptor carry out the order.
    Acceptor(EndpointId, AcceptorCommand),
    /// Plug a device between the two sockets.
    AddDevice(SocketId, SocketId),
    /// Let the device check itself.
    CheckDevice(DeviceId),
    /// Tell the device that links the socket that the socket can receive.
    DeviceCanRecv(SocketId),
    /// Stop the event loop.
    Shutdown,
}

/// The call that a task makes on its socket.
pub open spec fn call_of_task(task: Schedulable) -> SocketCall {
    match task {
        Schedulable::Reconnect(spec) => SocketCall::Reconnect(spec),
        Schedulable::Rebind(spec) => SocketCall::Rebind(spec),
        Schedulable::SendTimeout => SocketCall::OnSendTimeout,
        Schedulable::RecvTimeout => SocketCall::OnRecvTimeout,
        other => SocketCall::OnTimerTick(other),
    }
}

/// The call that a user's request makes on its socket.
pub open spec fn call_of_request(request: crate::socket::Request) -> SocketCall {
    match request {
        crate::socket::Request::Connect(url) => SocketCall::Connect(url),
        crate::socket::Request::Bind(url) => SocketCall::Bind(url),
        crate::socket::Request::Send(msg) => SocketCall::Send(msg),
        crate::socket::Request::Recv => SocketCall::Recv,
        crate::socket::Request::SetOption(x) => SocketCall::SetOption(x),
        crate::socket::Request::Close => SocketCall::Close,
    }
}

/// The call that what a pipe lets know makes on the pipe's socket, if it
/// makes one.
pub open spec fn call_of_pipe_event(eid: EndpointId, evt: PipeEvent) -> Option<SocketCall> {
    match evt {
        PipeEvent::Opened => Some(SocketCall::OnPipeOpened(eid)),
        PipeEvent::CanSend => Some(SocketCall::OnSendReady(eid)),
        PipeEvent::Sent => Some(SocketCall::OnSendAck(eid)),
        PipeEvent::CanRecv => Some(SocketCall::OnRecvReady(eid)),
        PipeEvent::Received(msg) => Some(SocketCall::OnRecvAck(eid, msg)),
        PipeEvent::Error(err) => Some(SocketCall::OnPipeError(eid, err)),
        PipeEvent::Closed => None,
    }
}

/// The one thread of the engine: it takes what the poller reports, what
/// the users ask, what travels on its bus and what the timer hands out, and
/// decides what is to be done about it. It keeps the sockets and the
/// endpoints; what it decides for them comes back as actions.
pub struct Dispatcher<S, P, A> {
    // request inputs
    bus: EventLoopBus<Signal<P>>,
    // request handlers
    sockets: Session<S>,
    endpoints: EndpointCollection<P, A>,
}

impl<S, P, A> Dispatcher<S, P, A> {
    pub closed spec fn bus(&self) -> Seq<Signal<P>> {
        self.bus@
    }

    pub closed spec fn sockets(&self) -> Session<S> {
        self.sockets
    }

    pub closed spec fn endpoints(&self) -> EndpointCollection<P, A> {
        self.endpoints
    }

    pub open spec fn wf(&self) -> bool {
        self.sockets().wf() && self.endpoints().wf()
    }

    pub fn new() -> (dispatcher: Dispatcher<S, P, A>)
        ensures
            dispatcher.wf(),
            dispatcher.bus().len() == 0,
            dispatcher.sockets().sockets().len() == 0,
            dispatcher.sockets().replies().len() == 0,
            dispatcher.sockets().named() == 0,
            dispatcher.endpoints().pipes().len() == 0,
            dispatcher.endpoints().acceptors().len() == 0,
            dispatcher.endpoints().named() == 0,
    {
        Dispatcher {
            bus: EventLoopBus::new(),
            sockets: Session::new(),
            endpoints: EndpointCollection::new(),
        }
    }

    /// The sockets, to look at.
    pub fn get_sockets(&self) -> (sockets: &Session<S>)
        ensures
            *sockets == self.sockets(),
    {
        &self.sockets
    }

    /// The sockets, to work on. The bus and the endpoints stay as they are.
    pub fn get_sockets_mut(&mut self) -> (sockets: &mut Session<S>)
        ensures
            *sockets == old(self).sockets(),
            final(self).sockets() == *final(sockets),
            final(self).bus() == old(self).bus(),
            final(self).endpoints() == old(self).endpoints(),
    {
        &mut self.sockets
    }

    /// The endpoints, to look at.
    pub fn get_endpoints(&self) -> (endpoints: &EndpointCollection<P, A>)
        ensures
            *endpoints == self.endpoints(),
    {
        &self.endpoints
    }

    /// The endpoints, to work on. The bus and the sockets stay as they are.
    pub fn get_endpoints_mut(&mut self) -> (endpoints: &mut EndpointCollection<P, A>)
        ensures
            *endpoints == old(self).endpoints(),
            final(self).endpoints() == *final(endpoints),
            final(self).bus() == old(self).bus(),
            final(self).sockets() == old(self).sockets(),
    {
        &mut self.endpoints
    }

    /// How many signals wait on the bus.
    pub fn waiting(&self) -> (n: usize)
        ensures
            n == self.bus().len(),
    {
        self.bus.len()
    }

    /// Puts a signal on the bus, behind those that wait there.
    pub fn signal(&mut self, signal: Signal<P>)
        ensures
            final(self).bus() == old(self).bus().push(signal),
            final(self).sockets() == old(self).sockets(),
            final(self).endpoints() == old(self).endpoints(),
    {
        self.bus.send(signal);
    }

    /// What a call on the socket named `id` comes to: the call, if there is
    /// such a socket.
    pub open spec fn applied_on_socket(&self, id: SocketId, call: SocketCall) -> Seq<Action> {
        if self.sockets().position(id) is Some {
            seq![Action::Socket(id, call)]
        } else {
            Seq::empty()
        }
    }

    /// Decides on a call on the socket named `id`: it is to be made if there
    /// is such a socket.
    fn apply_on_socket(&self, actions: &mut Vec<Action>, id: SocketId, call: SocketCall)
        requires
            self.wf(),
        ensures
            final(actions)@ == old(actions)@ + self.applied_on_socket(id, call),
    {
        if self.sockets.has_socket(id) {
            actions.push(Action::Socket(id, call));
            proof {
                assert(actions@ =~= old(actions)@ + self.applied_on_socket(id, call));
            }
        } else {
            proof {
                assert(actions@ =~= old(actions)@ + self.applied_on_socket(id, call));
            }
        }
    }

    /// Decides on a call on the device named `id`.
    fn apply_on_device(&self, actions: &mut Vec<Action>, id: DeviceId)
        ensures
            final(actions)@ == old(actions)@.push(Action::CheckDevice(id)),
    {
        actions.push(Action::CheckDevice(id));
    }

    /// Decides on a call on the device that links the socket named `id`.
    fn apply_on_device_link(&self, actions: &mut Vec<Action>, id: SocketId)
        ensures
            final(actions)@ == old(actions)@.push(Action::DeviceCanRecv(id)),
    {
        actions.push(Action::DeviceCanRecv(id));
    }

    /// What is to be done about a task that the timer has handed out.
    pub open spec fn ticked(&self, task: Task) -> Seq<Action> {
        match task {
            Task::Socket(sid, schedulable) => self.applied_on_socket(sid, call_of_task(schedulable)),
        }
    }

    fn process_tick(&self, actions: &mut Vec<Action>, task: Task)
        requires
            self.wf(),
        ensures
            final(actions)@ == old(actions)@ + self.ticked(task),
    {
        match task {
            Task::Socket(sid, schedulable) => self.process_socket_task(actions, sid, schedulable),
        }
    }

    fn process_socket_task(&self, actions: &mut Vec<Action>, sid: SocketId, task: Schedulable)
        requires
            self.wf(),
        ensures
            final(actions)@ == old(actions)@ + self.applied_on_socket(sid, call_of_task(task)),
    {
        match task {
            Schedulable::Reconnect(spec) => self.apply_on_socket(
                actions,
                sid,
                SocketCall::Reconnect(spec),
            ),
            Schedulable::Rebind(spec) => self.apply_on_socket(
                actions,
                sid,
                SocketCall::Rebind(spec),
            ),
            Schedulable::SendTimeout => self.apply_on_socket(
                actions,
                sid,
                SocketCall::OnSendTimeout,
            ),
            Schedulable::RecvTimeout => self.apply_on_socket(
                actions,
                sid,
                SocketCall::OnRecvTimeout,
            ),
            other => self.apply_on_socket(actions, sid, SocketCall::OnTimerTick(other)),
        }
    }

    /// What is to be done about what the poller reports of an endpoint: the
    /// pipe or the acceptor that goes by the token is to act on it, if there
    /// is one.
    pub open spec fn io_reported(&self, token: Token, events: EventSet) -> Seq<Action> {
        let eid = EndpointId(token.0);
        if has_name(self.endpoints().pipes(), eid) {
            seq![Action::PipeReady(eid, events)]
        } else if has_name(self.endpoints().acceptors(), eid) {
            seq![Action::AcceptorReady(eid, events)]
        } else {
            Seq::empty()
        }
    }

    fn process_io(&self, actions: &mut Vec<Action>, token: Token, events: EventSet)
        ensures
            final(actions)@ == old(actions)@ + self.io_reported(token, events),
    {
        let eid = EndpointId::of_token(token);
        proof {
            assert(eid == EndpointId(token.0));
        }
        if self.endpoints.has_pipe(eid) {
            actions.push(Action::PipeReady(eid, events));
            proof {
                assert(actions@ =~= old(actions)@ + self.io_reported(token, events));
            }
            return ;
        }
        if self.endpoints.has_acceptor(eid) {
            actions.push(Action::AcceptorReady(eid, events));
            proof {
                assert(actions@ =~= old(actions)@ + self.io_reported(token, events));
            }
            return ;
        }
        proof {
            assert(actions@ =~= old(actions)@ + self.io_reported(token, events));
        }
    }

    fn process_socket_request(
        &self,
        actions: &mut Vec<Action>,
        id: SocketId,
        request: crate::socket::Request,
    )
        requires
            self.wf(),
        ensures
            final(actions)@ == old(actions)@ + self.applied_on_socket(id, call_of_request(request)),
    {
        match request {
            crate::socket::Request::Connect(url) => self.apply_on_socket(
                actions,
                id,
                SocketCall::Connect(url),
            ),
            crate::socket::Request::Bind(url) => self.apply_on_socket(
                actions,
                id,
                SocketCall::Bind(url),
            ),
            crate::socket::Request::Send(msg) => self.apply_on_socket(
                actions,
                id,
                SocketCall::Send(msg),
            ),
            crate::socket::Request::Recv => self.apply_on_socket(actions, id, SocketCall::Recv),
            crate::socket::Request::SetOption(x) => self.apply_on_socket(
                actions,
                id,
                SocketCall::SetOption(x),
            ),
            crate::socket::Request::Close => self.apply_on_socket(actions, id, SocketCall::Close),
        }
    }

    fn process_device_request(
        &self,
        actions: &mut Vec<Action>,
        id: DeviceId,
        request: crate::device::Request,
    )
        ensures
            final(actions)@ == old(actions)@.push(Action::CheckDevice(id)),
    {
        match request {
            crate::device::Request::Check => self.apply_on_device(actions, id),
        }
    }

    /// What is to be done about an order for a pipe: the pipe is to carry it
    /// out, if there is such a pipe.
    pub open spec fn pipe_ordered(&self, eid: EndpointId, cmd: PipeCommand) -> Seq<Action> {
        if has_name(self.endpoints().pipes(), eid) {
            seq![Action::Pipe(eid, cmd)]
        } else {
            Seq::empty()
        }
    }

    fn process_pipe_cmd(&self, actions: &mut Vec<Action>, eid: EndpointId, cmd: PipeCommand)
        ensures
            final(actions)@ == old(actions)@ + self.pipe_ordered(eid, cmd),
    {
        if self.endpoints.has_pipe(eid) {
            actions.push(Action::Pipe(eid, cmd));
        }
        proof {
            assert(actions@ =~= old(actions)@ + self.pipe_ordered(eid, cmd));
        }
    }

    /// What is to be done about an order for an acceptor: the acceptor is to
    /// carry it out, if there is such an acceptor.
    pub open spec fn acceptor_ordered(&self, eid: EndpointId, cmd: AcceptorCommand) -> Seq<Action> {
        if has_name(self.endpoints().acceptors(), eid) {
            seq![Action::Acceptor(eid, cmd)]
        } else {
            Seq::empty()
        }
    }

    fn process_acceptor_cmd(
        &self,
        actions: &mut Vec<Action>,
        eid: EndpointId,
        cmd: AcceptorCommand,
    )
        ensures
            final(actions)@ == old(actions)@ + self.acceptor_ordered(eid, cmd),
    {
        if self.endpoints.has_acceptor(eid) {
            actions.push(Action::Acceptor(eid, cmd));
        }
        proof {
            assert(actions@ =~= old(actions)@ + self.acceptor_ordered(eid, cmd));
        }
    }

    /// That `after` is `before` once what a pipe of socket `sid` lets know
    /// was dealt with, with `actions` decided: a pipe that is closed leaves
    /// the endpoints; of anything else the socket is told, if there is such a
    /// socket.
    pub open spec fn pipe_event_dealt_with(
        before: Self,
        sid: SocketId,
        eid: EndpointId,
        evt: PipeEvent,
        after: Self,
        actions: Seq<Action>,
    ) -> bool {
        &&& after.bus() == before.bus()
        &&& after.sockets() == before.sockets()
        &&& match call_of_pipe_event(eid, evt) {
            Some(call) => after.endpoints() == before.endpoints() && actions
                == before.applied_on_socket(sid, call),
            None => EndpointCollection::pipe_removed(before.endpoints(), eid, after.endpoints())
                && actions == Seq::<Action>::empty(),
        }
    }

    fn process_pipe_evt(
        &mut self,
        actions: &mut Vec<Action>,
        sid: SocketId,
        eid: EndpointId,
        evt: PipeEvent,
    )
        requires
            old(self).wf(),
        ensures
            final(self).wf(),
            exists|decided: Seq<Action>|
                final(actions)@ == old(actions)@ + decided && #[trigger] Self::pipe_event_dealt_with(
                    *old(self),
                    sid,
                    eid,
                    evt,
                    *final(self),
                    decided,
                ),
    {
        let ghost before = actions@;
        match evt {
            PipeEvent::Opened => self.apply_on_socket(actions, sid, SocketCall::OnPipeOpened(eid)),
            PipeEvent::CanSend => self.apply_on_socket(actions, sid, SocketCall::OnSendReady(eid)),
            PipeEvent::Sent => self.apply_on_socket(actions, sid, SocketCall::OnSendAck(eid)),
            PipeEvent::CanRecv => self.apply_on_socket(actions, sid, SocketCall::OnRecvReady(eid)),
            PipeEvent::Received(msg) => self.apply_on_socket(
                actions,
                sid,
                SocketCall::OnRecvAck(eid, msg),
            ),
            PipeEvent::Error(err) => self.apply_on_socket(
                actions,
                sid,
                SocketCall::OnPipeError(eid, err),
            ),
            PipeEvent::Closed => {
                let _ = self.endpoints.remove_pipe(eid);
                proof {
                    assert(actions@ =~= before + Seq::<Action>::empty());
                }
            },
        }
        proof {
            let decided = match call_of_pipe_event(eid, evt) {
                Some(call) => old(self).applied_on_socket(sid, call),
                None => Seq::<Action>::empty(),
            };
            assert(Self::pipe_event_dealt_with(*old(self), sid, eid, evt, *self, decided));
        }
    }

    /// How many of `offered` pipes get a name when `named` names were given.
    pub open spec fn room_for(offered: nat, named: nat) -> nat {
        if named + offered <= usize::MAX {
            offered
        } else if named <= usize::MAX {
            (usize::MAX - named) as nat
        } else {
            0
        }
    }

    /// That `after` is `before` once what an acceptor of socket `sid` lets
    /// know was dealt with, with `actions` decided: the connections that it
    /// accepted enter the endpoints in turn, each under the next name as
    /// long as names are left, and the socket is told of each, if there is
    /// such a socket; of a failure the socket is told too.
    pub open spec fn acceptor_event_dealt_with(
        before: Self,
        sid: SocketId,
        aid: EndpointId,
        evt: AcceptorEvent<P>,
        after: Self,
        actions: Seq<Action>,
    ) -> bool {
        &&& after.bus() == before.bus()
        &&& after.sockets() == before.sockets()
        &&& match evt {
            AcceptorEvent::Error(e) => after.endpoints() == before.endpoints() && actions
                == before.applied_on_socket(sid, SocketCall::OnAcceptorError(aid, e)),
            AcceptorEvent::Accepted(pipes) => {
                let named = before.endpoints().named();
                let room = Self::room_for(pipes@.len(), named);
                &&& after.endpoints().named() == named + room
                &&& after.endpoints().acceptors() == before.endpoints().acceptors()
                &&& after.endpoints().pipes() == before.endpoints().pipes()
                    + EndpointCollection::<P, A>::taken_in(pipes@.take(room as int), sid, named)
                &&& actions == (if before.sockets().position(sid) is Some {
                    Seq::new(
                        room,
                        |k: int|
                            Action::Socket(
                                sid,
                                SocketCall::OnPipeAccepted(aid, EndpointId((named + k) as usize)),
                            ),
                    )
                } else {
                    Seq::empty()
                })
            },
            _ => after.endpoints() == before.endpoints() && actions == Seq::<Action>::empty(),
        }
    }

    /// Fresh names. The pipes that an acceptor has accepted enter the
    /// endpoints behind those that were there, under names that increase
    /// from one pipe to the next, each greater than every name that was
    /// given before; they belong to the acceptor's socket; and the names
    /// stay in order.
    pub proof fn accepted_pipes_get_fresh_names(
        before: Self,
        sid: SocketId,
        aid: EndpointId,
        pipes: Vec<P>,
        after: Self,
        actions: Seq<Action>,
    )
        requires
            before.wf(),
            Self::acceptor_event_dealt_with(
                before,
                sid,
                aid,
                AcceptorEvent::Accepted(pipes),
                after,
                actions,
            ),
        ensures
            after.endpoints().wf(),
            after.endpoints().pipes().len() >= before.endpoints().pipes().len(),
            forall|k: int|
                before.endpoints().pipes().len() <= k < after.endpoints().pipes().len() ==> {
                    &&& (#[trigger] after.endpoints().pipes()[k]).id.0
                        == before.endpoints().named() + (k - before.endpoints().pipes().len())
                    &&& after.endpoints().pipes()[k].socket == sid
                },
            forall|i: int, j: int|
                0 <= i < j < after.endpoints().pipes().len() ==> (
                #[trigger] after.endpoints().pipes()[i]).id.0 < (
                #[trigger] after.endpoints().pipes()[j]).id.0,
    {
        let named = before.endpoints().named();
        let room = Self::room_for(pipes@.len(), named);
        let old_pipes = before.endpoints().pipes();
        let new_pipes = EndpointCollection::<P, A>::taken_in(pipes@.take(room as int), sid, named);
        let all = after.endpoints().pipes();
        assert(all == old_pipes + new_pipes);
        assert forall|k: int| 0 <= k < all.len() implies (#[trigger] all[k]).id.0 < named
            + room by {
            if k < old_pipes.len() {
                assert(all[k] == old_pipes[k]);
            } else {
                assert(all[k] == new_pipes[k - old_pipes.len()]);
            }
        }
        assert forall|i: int, j: int| 0 <= i < j < all.len() implies (#[trigger] all[i]).id.0 < (
        #[trigger] all[j]).id.0 by {
            if j < old_pipes.len() {
                assert(all[i] == old_pipes[i] && all[j] == old_pipes[j]);
            } else if i < old_pipes.len() {
                assert(all[i] == old_pipes[i]);
                assert(all[j] == new_pipes[j - old_pipes.len()]);
            } else {
                assert(all[i] == new_pipes[i - old_pipes.len()]);
                assert(all[j] == new_pipes[j - old_pipes.len()]);
            }
        }
        assert forall|i: int, j: int|
            0 <= i < all.len() && 0 <= j < after.endpoints().acceptors().len() implies (
        #[trigger] all[i]).id != (#[trigger] after.endpoints().acceptors()[j]).id by {
            if i < old_pipes.len() {
                assert(all[i] == old_pipes[i]);
            } else {
                assert(all[i] == new_pipes[i - old_pipes.len()]);
                assert(before.endpoints().acceptors()[j].id.0 < named);
            }
        }
        assert forall|k: int| old_pipes.len() <= k < all.len() implies {
            &&& (#[trigger] all[k]).id.0 == named + (k - old_pipes.len())
            &&& all[k].socket == sid
        } by {
            assert(all[k] == new_pipes[k - old_pipes.len()]);
        }
    }

    fn process_acceptor_evt(
        &mut self,
        actions: &mut Vec<Action>,
        sid: SocketId,
        aid: EndpointId,
        evt: AcceptorEvent<P>,
    )
        requires
            old(self).wf(),
        ensures
            final(self).wf(),
            exists|decided: Seq<Action>|
                final(actions)@ == old(actions)@ + decided
                    && #[trigger] Self::acceptor_event_dealt_with(
                    *old(self),
                    sid,
                    aid,
                    evt,
                    *final(self),
                    decided,
                ),
    {
        let ghost before = actions@;
        match evt {
            // Maybe the controller should be removed from the endpoint collection
            AcceptorEvent::Error(e) => {
                self.apply_on_socket(actions, sid, SocketCall::OnAcceptorError(aid, e));
                proof {
                    assert(Self::acceptor_event_dealt_with(
                        *old(self),
                        sid,
                        aid,
                        evt,
                        *self,
                        old(self).applied_on_socket(sid, SocketCall::OnAcceptorError(aid, e)),
                    ));
                }
            },
            AcceptorEvent::Accepted(pipes) => {
                let ghost offered = pipes@;
                let ghost named = self.endpoints().named();
                let ghost known = self.sockets().position(sid) is Some;
                let ghost mut decided: Seq<Action> = Seq::empty();
                let ghost mut taken: nat = 0;
                let mut rest = pipes;
                while rest.len() > 0
                    invariant
                        self.wf(),
                        self.bus() == old(self).bus(),
                        self.sockets() == old(self).sockets(),
                        self.endpoints().acceptors() == old(self).endpoints().acceptors(),
                        named == old(self).endpoints().named(),
                        known == (self.sockets().position(sid) is Some),
                        taken + rest@.len() <= offered.len(),
                        taken <= Self::room_for(offered.len(), named),
                        rest@.len() > 0 ==> {
                            &&& taken + rest@.len() == offered.len()
                            &&& rest@ == offered.skip(taken as int)
                        },
                        rest@.len() == 0 ==> taken == Self::room_for(offered.len(), named),
                        self.endpoints().named() == named + taken,
                        self.endpoints().pipes() == old(self).endpoints().pipes()
                            + EndpointCollection::<P, A>::taken_in(
                            offered.take(taken as int),
                            sid,
                            named,
                        ),
                        actions@ == before + decided,
                        decided == (if known {
                            Seq::new(
                                taken,
                                |k: int|
                                    Action::Socket(
                                        sid,
                                        SocketCall::OnPipeAccepted(
                                            aid,
                                            EndpointId((named + k) as usize),
                                        ),
                                    ),
                            )
                        } else {
                            Seq::empty()
                        }),
                    decreases rest@.len(),
                {
                    let pipe = rest.remove(0);
                    let ghost pipes_before = self.endpoints().pipes();
                    let ghost had = actions@;
                    match self.endpoints.insert_pipe(sid, pipe) {
                        Ok(pipe_id) => {
                            self.apply_on_socket(
                                actions,
                                sid,
                                SocketCall::OnPipeAccepted(aid, pipe_id),
                            );
                            proof {
                                assert(pipe == offered[taken as int]);
                                assert(rest@ =~= offered.skip((taken + 1) as int));
                                let more = EndpointCollection::<P, A>::taken_in(
                                    offered.take((taken + 1) as int),
                                    sid,
                                    named,
                                );
                                let sofar = EndpointCollection::<P, A>::taken_in(
                                    offered.take(taken as int),
                                    sid,
                                    named,
                                );
                                assert(more =~= sofar.push(
                                    crate::reactor::adapter::Endpoint {
                                        id: pipe_id,
                                        socket: sid,
                                        inner: pipe,
                                    },
                                ));
                                assert(self.endpoints().pipes() =~= old(self).endpoints().pipes()
                                    + more);
                                let call = Action::Socket(
                                    sid,
                                    SocketCall::OnPipeAccepted(aid, pipe_id),
                                );
                                if known {
                                    let longer = Seq::new(
                                        (taken + 1) as nat,
                                        |k: int|
                                            Action::Socket(
                                                sid,
                                                SocketCall::OnPipeAccepted(
                                                    aid,
                                                    EndpointId((named + k) as usize),
                                                ),
                                            ),
                                    );
                                    assert(longer =~= decided.push(call));
                                    assert(actions@ =~= before + longer);
                                    decided = longer;
                                } else {
                                    assert(actions@ =~= before + decided);
                                }
                                taken = taken + 1;
                            }
                        },
                        Err(_) => {
                            proof {
                                assert(taken == Self::room_for(offered.len(), named));
                            }
                            rest.clear();
                        },
                    }
                }
                proof {
                    assert(Self::acceptor_event_dealt_with(
                        *old(self),
                        sid,
                        aid,
                        evt,
                        *self,
                        decided,
                    ));
                }
            },
            _ => {
                proof {
                    assert(actions@ =~= before + Seq::<Action>::empty());
                    assert(Self::acceptor_event_dealt_with(
                        *old(self),
                        sid,
                        aid,
                        evt,
                        *self,
                        Seq::<Action>::empty(),
                    ));
                }
            },
        }
    }

    /// That `after` is `before` once what a socket lets know was dealt
    /// with, with `actions` decided: a socket that is closed leaves the
    /// session; of a socket that can receive, the device that links it is
    /// told.
    pub open spec fn socket_event_dealt_with(
        before: Self,
        sid: SocketId,
        evt: Event,
        after: Self,
        actions: Seq<Action>,
    ) -> bool {
        &&& after.bus() == before.bus()
        &&& after.endpoints() == before.endpoints()
        &&& match evt {
            Event::CanRecv => after.sockets() == before.sockets() && actions
                == seq![Action::DeviceCanRecv(sid)],
            Event::CanSend => after.sockets() == before.sockets() && actions == Seq::<
                Action,
            >::empty(),
            Event::Closed => Session::socket_removed(before.sockets(), sid, after.sockets())
                && actions == Seq::<Action>::empty(),
        }
    }

    /// Closing twice. Once a socket has let know that it is closed, it has
    /// left the session: whatever is asked of it afterwards, to close once
    /// more too, comes to no call; and if it could let know once more that it
    /// is closed, the session would stay as it is.
    pub proof fn a_closed_socket_is_called_no_more(
        before: Self,
        sid: SocketId,
        closed: Self,
        call: SocketCall,
        again: Self,
    )
        requires
            Self::socket_event_dealt_with(before, sid, Event::Closed, closed, Seq::empty()),
            Self::socket_event_dealt_with(closed, sid, Event::Closed, again, Seq::empty()),
        ensures
            closed.applied_on_socket(sid, call) == Seq::<Action>::empty(),
            again.sockets().sockets() == closed.sockets().sockets(),
            again.sockets().replies() == closed.sockets().replies(),
            again.endpoints() == closed.endpoints(),
            again.bus() == closed.bus(),
    {
    }

    fn process_socket_evt(&mut self, actions: &mut Vec<Action>, sid: SocketId, evt: Event)
        requires
            old(self).wf(),
        ensures
            final(self).wf(),
            exists|decided: Seq<Action>|
                final(actions)@ == old(actions)@ + decided
                    && #[trigger] Self::socket_event_dealt_with(
                    *old(self),
                    sid,
                    evt,
                    *final(self),
                    decided,
                ),
    {
        match evt {
            Event::CanRecv => {
                self.apply_on_device_link(actions, sid);
                proof {
                    assert(actions@ =~= old(actions)@ + seq![Action::DeviceCanRecv(sid)]);
                    assert(Self::socket_event_dealt_with(
                        *old(self),
                        sid,
                        evt,
                        *self,
                        seq![Action::DeviceCanRecv(sid)],
                    ));
                }
            },
            Event::CanSend => {
                proof {
                    assert(actions@ =~= old(actions)@ + Seq::<Action>::empty());
                    assert(Self::socket_event_dealt_with(
                        *old(self),
                        sid,
                        evt,
                        *self,
                        Seq::<Action>::empty(),
                    ));
                }
            },
            Event::Closed => {
                let _ = self.sockets.remove_socket(sid);
                proof {
                    assert(actions@ =~= old(actions)@ + Seq::<Action>::empty());
                    assert(Self::socket_event_dealt_with(
                        *old(self),
                        sid,
                        evt,
                        *self,
                        Seq::<Action>::empty(),
                    ));
                }
            },
        }
    }

    /// That `after` is `before` once a signal was dealt with, with
    /// `actions` decided: an order goes to its pipe or its acceptor, and what
    /// a pipe, an acceptor or a socket lets know is dealt with as the three
    /// relations above say.
    pub open spec fn signalled(before: Self, signal: Signal<P>, after: Self, actions: Seq<Action>) -> bool {
        match signal {
            Signal::PipeCmd(_, eid, cmd) => after == before && actions == before.pipe_ordered(
                eid,
                cmd,
            ),
            Signal::AcceptorCmd(_, eid, cmd) => after == before && actions
                == before.acceptor_ordered(eid, cmd),
            Signal::PipeEvt(sid, eid, evt) => Self::pipe_event_dealt_with(
                before,
                sid,
                eid,
                evt,
                after,
                actions,
            ),
            Signal::AcceptorEvt(sid, eid, evt) => Self::acceptor_event_dealt_with(
                before,
                sid,
                eid,
                evt,
                after,
                actions,
            ),
            Signal::SocketEvt(sid, evt) => Self::socket_event_dealt_with(
                before,
                sid,
                evt,
                after,
                actions,
            ),
        }
    }

    fn process_signal(&mut self, actions: &mut Vec<Action>, signal: Signal<P>)
        requires
            old(self).wf(),
        ensures
            final(self).wf(),
            exists|decided: Seq<Action>|
                final(actions)@ == old(actions)@ + decided && #[trigger] Self::signalled(
                    *old(self),
                    signal,
                    *final(self),
                    decided,
                ),
    {
        match signal {
            Signal::PipeCmd(_, eid, cmd) => {
                self.process_pipe_cmd(actions, eid, cmd);
                proof {
                    assert(Self::signalled(
                        *old(self),
                        signal,
                        *self,
                        old(self).pipe_ordered(eid, cmd),
                    ));
                }
            },
            Signal::AcceptorCmd(_, eid, cmd) => {
                self.process_acceptor_cmd(actions, eid, cmd);
                proof {
                    assert(Self::signalled(
                        *old(self),
                        signal,
                        *self,
                        old(self).acceptor_ordered(eid, cmd),
                    ));
                }
            },
            Signal::PipeEvt(sid, eid, evt) => {
                self.process_pipe_evt(actions, sid, eid, evt);
                proof {
                    let decided = choose|decided: Seq<Action>|
                        actions@ == old(actions)@ + decided
                            && #[trigger] Self::pipe_event_dealt_with(
                            *old(self),
                            sid,
                            eid,
                            evt,
                            *self,
                            decided,
                        );
                    assert(Self::signalled(*old(self), signal, *self, decided));
                }
            },
            Signal::AcceptorEvt(sid, eid, evt) => {
                self.process_acceptor_evt(actions, sid, eid, evt);
                proof {
                    let decided = choose|decided: Seq<Action>|
                        actions@ == old(actions)@ + decided
                            && #[trigger] Self::acceptor_event_dealt_with(
                            *old(self),
                            sid,
                            eid,
                            evt,
                            *self,
                            decided,
                        );
                    assert(Self::signalled(*old(self), signal, *self, decided));
                }
            },
            Signal::SocketEvt(sid, evt) => {
                self.process_socket_evt(actions, sid, evt);
                proof {
                    let decided = choose|decided: Seq<Action>|
                        actions@ == old(actions)@ + decided
                            && #[trigger] Self::socket_event_dealt_with(
                            *old(self),
                            sid,
                            evt,
                            *self,
                            decided,
                        );
                    assert(Self::signalled(*old(self), signal, *self, decided));
                }
            },
        }
    }

    /// That `after` is `before` once a request to the session was dealt
    /// with, with `actions` decided: a socket is made and added; or the two
    /// sockets are told that a device is plugged, and the device is to be
    /// added; or the event loop is to stop.
    pub open spec fn session_request_dealt_with<F: FnOnce() -> S>(
        before: Self,
        request: crate::session::Request<F>,
        after: Self,
        actions: Seq<Action>,
    ) -> bool {
        &&& after.bus() == before.bus()
        &&& after.endpoints() == before.endpoints()
        &&& match request {
            crate::session::Request::CreateSocket(ctor) => Session::socket_added(
                before.sockets(),
                ctor,
                after.sockets(),
            ) && actions == Seq::<Action>::empty(),
            crate::session::Request::CreateDevice(l, r) => after.sockets() == before.sockets()
                && actions == before.applied_on_socket(l, SocketCall::OnDevicePlugged)
                + before.applied_on_socket(r, SocketCall::OnDevicePlugged)
                + seq![Action::AddDevice(l, r)],
            crate::session::Request::Shutdown => after.sockets() == before.sockets() && actions
                == seq![Action::Shutdown],
        }
    }

    /// Whether the socket that a request asks for, if it asks for one, can
    /// be made.
    pub open spec fn can_be_made<F: FnOnce() -> S>(request: Request<F>) -> bool {
        request matches Request::Session(crate::session::Request::CreateSocket(ctor))
            ==> ctor.requires(())
    }

    fn process_session_request<F: FnOnce() -> S>(
        &mut self,
        actions: &mut Vec<Action>,
        request: crate::session::Request<F>,
    )
        requires
            old(self).wf(),
            request matches crate::session::Request::CreateSocket(ctor) ==> ctor.requires(()),
        ensures
            final(self).wf(),
            exists|decided: Seq<Action>|
                final(actions)@ == old(actions)@ + decided
                    && #[trigger] Self::session_request_dealt_with(
                    *old(self),
                    request,
                    *final(self),
                    decided,
                ),
    {
        match request {
            crate::session::Request::CreateSocket(ctor) => {
                self.sockets.add_socket(ctor);
                proof {
                    assert(actions@ =~= old(actions)@ + Seq::<Action>::empty());
                    assert(Self::session_request_dealt_with(
                        *old(self),
                        request,
                        *self,
                        Seq::<Action>::empty(),
                    ));
                }
            },
            crate::session::Request::CreateDevice(l, r) => {
                self.apply_on_socket(actions, l, SocketCall::OnDevicePlugged);
                self.apply_on_socket(actions, r, SocketCall::OnDevicePlugged);
                actions.push(Action::AddDevice(l, r));
                proof {
                    let decided = self.applied_on_socket(l, SocketCall::OnDevicePlugged)
                        + self.applied_on_socket(r, SocketCall::OnDevicePlugged)
                        + seq![Action::AddDevice(l, r)];
                    assert(actions@ =~= old(actions)@ + decided);
                    assert(Self::session_request_dealt_with(
                        *old(self),
                        request,
                        *self,
                        decided,
                    ));
                }
            },
            crate::session::Request::Shutdown => {
                actions.push(Action::Shutdown);
                proof {
                    assert(actions@ =~= old(actions)@ + seq![Action::Shutdown]);
                    assert(Self::session_request_dealt_with(
                        *old(self),
                        request,
                        *self,
                        seq![Action::Shutdown],
                    ));
                }
            },
        }
    }

    /// That `after` is `before` once a user's request was dealt with, with
    /// `actions` decided: a request to the session is dealt with as the
    /// relation above says; a request to a socket is a call on the socket,
    /// if there is such a socket; a request to a device is a check of it.
    pub open spec fn requested<F: FnOnce() -> S>(
        before: Self,
        request: Request<F>,
        after: Self,
        actions: Seq<Action>,
    ) -> bool {
        match request {
            Request::Session(req) => Self::session_request_dealt_with(
                before,
                req,
                after,
                actions,
            ),
            Request::Socket(id, req) => after == before && actions == before.applied_on_socket(
                id,
                call_of_request(req),
            ),
            Request::Device(id, _) => after == before && actions == seq![Action::CheckDevice(id)],
        }
    }

    fn process_request<F: FnOnce() -> S>(&mut self, actions: &mut Vec<Action>, request: Request<F>)
        requires
            old(self).wf(),
            Self::can_be_made(request),
        ensures
            final(self).wf(),
            exists|decided: Seq<Action>|
                final(actions)@ == old(actions)@ + decided && #[trigger] Self::requested(
                    *old(self),
                    request,
                    *final(self),
                    decided,
                ),
    {
        match request {
            Request::Session(req) => {
                self.process_session_request(actions, req);
                proof {
                    let decided = choose|decided: Seq<Action>|
                        actions@ == old(actions)@ + decided
                            && #[trigger] Self::session_request_dealt_with(
                            *old(self),
                            req,
                            *self,
                            decided,
                        );
                    assert(Self::requested(*old(self), request, *self, decided));
                }
            },
            Request::Socket(id, req) => {
                self.process_socket_request(actions, id, req);
                proof {
                    assert(Self::requested(
                        *old(self),
                        request,
                        *self,
                        old(self).applied_on_socket(id, call_of_request(req)),
                    ));
                }
            },
            Request::Device(id, req) => {
                self.process_device_request(actions, id, req);
                proof {
                    assert(actions@ =~= old(actions)@ + seq![Action::CheckDevice(id)]);
                    assert(Self::requested(
                        *old(self),
                        request,
                        *self,
                        seq![Action::CheckDevice(id)],
                    ));
                }
            },
        }
    }

    /// That the signals were dealt with one after the other: `states` are
    /// the dispatcher before the first, between each and the next, and after
    /// the last, and `decided` is what was decided about each.
    pub open spec fn signals_dealt_with(
        signals: Seq<Signal<P>>,
        states: Seq<Self>,
        decided: Seq<Seq<Action>>,
    ) -> bool {
        &&& states.len() == signals.len() + 1
        &&& decided.len() == signals.len()
        &&& forall|k: int|
            0 <= k < signals.len() ==> #[trigger] Self::signalled(
                states[k],
                signals[k],
                states[k + 1],
                decided[k],
            )
    }

    /// Deals with all that waits on the bus, oldest first, and says what is
    /// to be done about it, in order.
    pub fn process_bus(&mut self) -> (actions: Vec<Action>)
        requires
            old(self).wf(),
        ensures
            final(self).wf(),
            final(self).bus().len() == 0,
            exists|states: Seq<Self>, decided: Seq<Seq<Action>>|
                {
                    &&& #[trigger] Self::signals_dealt_with(old(self).bus(), states, decided)
                    &&& states.first().bus().len() == 0
                    &&& states.first().sockets() == old(self).sockets()
                    &&& states.first().endpoints() == old(self).endpoints()
                    &&& states.last() == *final(self)
                    &&& actions@ == decided.flatten_alt()
                },
    {
        let mut actions: Vec<Action> = Vec::new();
        let mut waiting = self.bus.take_all();
        let ghost signals = waiting@;
        let ghost mut states: Seq<Self> = seq![*self];
        let ghost mut decided: Seq<Seq<Action>> = Seq::empty();
        proof {
            assert(waiting@ =~= signals.skip(0));
        }
        while waiting.len() > 0
            invariant
                self.wf(),
                self.bus().len() == 0,
                states.len() == decided.len() + 1,
                decided.len() <= signals.len(),
                waiting@ == signals.skip(decided.len() as int),
                forall|k: int|
                    0 <= k < decided.len() ==> #[trigger] Self::signalled(
                        states[k],
                        signals[k],
                        states[k + 1],
                        decided[k],
                    ),
                states.first().bus().len() == 0,
                states.first().sockets() == old(self).sockets(),
                states.first().endpoints() == old(self).endpoints(),
                states.last() == *self,
                actions@ == decided.flatten_alt(),
            decreases waiting@.len(),
        {
            let signal = waiting.remove(0);
            let ghost sooner = actions@;
            let ghost midway = *self;
            self.process_signal(&mut actions, signal);
            proof {
                let last = choose|last: Seq<Action>|
                    actions@ == sooner + last && #[trigger] Self::signalled(
                        midway,
                        signal,
                        *self,
                        last,
                    );
                let n = decided.len() as int;
                assert(signal == signals[n]);
                assert(waiting@ =~= signals.skip(n + 1));
                let states1 = states.push(*self);
                let decided1 = decided.push(last);
                assert(decided1.drop_last() =~= decided);
                assert forall|k: int| 0 <= k < decided1.len() implies #[trigger] Self::signalled(
                    states1[k],
                    signals[k],
                    states1[k + 1],
                    decided1[k],
                ) by {
                    if k < n {
                        assert(Self::signalled(states[k], signals[k], states[k + 1], decided[k]));
                    }
                }
                states = states1;
                decided = decided1;
            }
        }
        proof {
            assert(signals.skip(decided.len() as int).len() == 0);
            assert(Self::signals_dealt_with(old(self).bus(), states, decided));
        }
        actions
    }

    /// That the requests were dealt with one after the other: `states` are
    /// the dispatcher before the first, between each and the next, and after
    /// the last, and `decided` is what was decided about each.
    pub open spec fn requests_dealt_with<F: FnOnce() -> S>(
        requests: Seq<Request<F>>,
        states: Seq<Self>,
        decided: Seq<Seq<Action>>,
    ) -> bool {
        &&& states.len() == requests.len() + 1
        &&& decided.len() == requests.len()
        &&& forall|k: int|
            0 <= k < requests.len() ==> #[trigger] Self::requested(
                states[k],
                requests[k],
                states[k + 1],
                decided[k],
            )
    }

    /// Deals with the requests that came in over the channel, oldest first,
    /// and says what is to be done about them, in order.
    pub fn process_channel<F: FnOnce() -> S>(&mut self, requests: Vec<Request<F>>) -> (actions:
        Vec<Action>)
        requires
            old(self).wf(),
            forall|k: int| 0 <= k < requests@.len() ==> Self::can_be_made(#[trigger] requests@[k]),
        ensures
            final(self).wf(),
            exists|states: Seq<Self>, decided: Seq<Seq<Action>>|
                {
                    &&& #[trigger] Self::requests_dealt_with(requests@, states, decided)
                    &&& states.first() == *old(self)
                    &&& states.last() == *final(self)
                    &&& actions@ == decided.flatten_alt()
                },
    {
        let mut actions: Vec<Action> = Vec::new();
        let mut waiting = requests;
        let ghost mut states: Seq<Self> = seq![*self];
        let ghost mut decided: Seq<Seq<Action>> = Seq::empty();
        proof {
            assert(waiting@ =~= requests@.skip(0));
        }
        while waiting.len() > 0
            invariant
                self.wf(),
                states.len() == decided.len() + 1,
                decided.len() <= requests@.len(),
                waiting@ == requests@.skip(decided.len() as int),
                forall|k: int|
                    0 <= k < requests@.len() ==> Self::can_be_made(#[trigger] requests@[k]),
                forall|k: int|
                    0 <= k < decided.len() ==> #[trigger] Self::requested(
                        states[k],
                        requests@[k],
                        states[k + 1],
                        decided[k],
                    ),
                states.first() == *old(self),
                states.last() == *self,
                actions@ == decided.flatten_alt(),
            decreases waiting@.len(),
        {
            let request = waiting.remove(0);
            let ghost sooner = actions@;
            let ghost midway = *self;
            proof {
                assert(request == requests@[decided.len() as int]);
            }
            self.process_request(&mut actions, request);
            proof {
                let last = choose|last: Seq<Action>|
                    actions@ == sooner + last && #[trigger] Self::requested(
                        midway,
                        request,
                        *self,
                        last,
                    );
                let n = decided.len() as int;
                assert(waiting@ =~= requests@.skip(n + 1));
                let states1 = states.push(*self);
                let decided1 = decided.push(last);
                assert(decided1.drop_last() =~= decided);
                assert forall|k: int| 0 <= k < decided1.len() implies #[trigger] Self::requested(
                    states1[k],
                    requests@[k],
                    states1[k + 1],
                    decided1[k],
                ) by {
                    if k < n {
                        assert(Self::requested(
                            states[k],
                            requests@[k],
                            states[k + 1],
                            decided[k],
                        ));
                    }
                }
                states = states1;
                decided = decided1;
            }
        }
        proof {
            assert(requests@.skip(decided.len() as int).len() == 0);
            assert(Self::requests_dealt_with(requests@, states, decided));
        }
        actions
    }

    /// What is to be done about the tasks that the timer has handed out,
    /// one after the other.
    pub open spec fn all_ticked(&self, tasks: Seq<Task>) -> Seq<Action>
        decreases tasks.len(),
    {
        if tasks.len() == 0 {
            Seq::empty()
        } else {
            self.all_ticked(tasks.drop_last()) + self.ticked(tasks.last())
        }
    }

    /// Deals with the tasks that the timer has handed out, oldest first,
    /// and says what is to be done about them.
    pub fn process_timer(&self, tasks: Vec<Task>) -> (actions: Vec<Action>)
        requires
            self.wf(),
        ensures
            actions@ == self.all_ticked(tasks@),
    {
        let mut actions: Vec<Action> = Vec::new();
        let mut waiting = tasks;
        let ghost mut done: int = 0;
        proof {
            assert(waiting@ =~= tasks@.skip(0));
            assert(tasks@.take(0) =~= Seq::<Task>::empty());
        }
        while waiting.len() > 0
            invariant
                self.wf(),
                0 <= done <= tasks@.len(),
                waiting@ == tasks@.skip(done),
                actions@ == self.all_ticked(tasks@.take(done)),
            decreases waiting@.len(),
        {
            let task = waiting.remove(0);
            proof {
                let upto = tasks@.take(done + 1);
                assert(upto.drop_last() =~= tasks@.take(done));
                assert(upto.last() == task);
                assert(waiting@ =~= tasks@.skip(done + 1));
            }
            self.process_tick(&mut actions, task);
            proof {
                done = done + 1;
            }
        }
        proof {
            assert(tasks@.take(done) =~= tasks@);
        }
        actions
    }

    /// Acts on what the poller reports. Of an endpoint, the endpoint is to
    /// act on it; of the bus, all that waits there is dealt with; of the
    /// channel and of the timer, their owner is to take out what they hold
    /// and to hand it to `process_channel` and to `process_timer`.
    pub fn handle(&mut self, token: Token, events: EventSet) -> (handled: Handled)
        requires
            old(self).wf(),
        ensures
            final(self).wf(),
            source_of(token) is Channel ==> handled is Channel && *final(self) == *old(self),
            source_of(token) is Timer ==> handled is Timer && *final(self) == *old(self),
            source_of(token) is Io ==> *final(self) == *old(self) && handled is Done
                && handled->Done_0@ == old(self).io_reported(token, events),
            source_of(token) is Bus ==> handled is Done && final(self).bus().len() == 0 && (exists|
                states: Seq<Self>,
                decided: Seq<Seq<Action>>,
            |
                {
                    &&& #[trigger] Self::signals_dealt_with(old(self).bus(), states, decided)
                    &&& states.first().bus().len() == 0
                    &&& states.first().sockets() == old(self).sockets()
                    &&& states.first().endpoints() == old(self).endpoints()
                    &&& states.last() == *final(self)
                    &&& handled->Done_0@ == decided.flatten_alt()
                }),
    {
        if token.0 == CHANNEL_TOKEN {
            return Handled::Channel;
        }
        if token.0 == BUS_TOKEN {
            let actions = self.process_bus();
            return Handled::Done(actions);
        }
        if token.0 == TIMER_TOKEN {
            return Handled::Timer;
        }
        let mut actions: Vec<Action> = Vec::new();
        self.process_io(&mut actions, token, events);
        proof {
            assert(actions@ =~= self.io_reported(token, events));
        }
        Handled::Done(actions)
    }
}

/// The turn of a source within one round of the poller: the channel comes
/// first, then the endpoints, then the bus, then the timer.
pub open spec fn turn_of(source: Source) -> int {
    match source {
        Source::Channel => 0,
        Source::Io(_) => 1,
        Source::Bus => 2,
        Source::Timer => 3,
    }
}

/// The reports whose source has the turn `turn`, in the order in which they
/// were made.
pub open spec fn reports_of_turn(reports: Seq<(Token, EventSet)>, turn: int) -> Seq<
    (Token, EventSet),
>
    decreases reports.len(),
{
    if reports.len() == 0 {
        Seq::empty()
    } else {
        reports_of_turn(reports.drop_last(), turn) + (if turn_of(source_of(reports.last().0))
            == turn {
            seq![reports.last()]
        } else {
            Seq::empty()
        })
    }
}

/// Puts the reports of one round of the poller in the order in which they
/// are to be handled: those of the channel, then those of the endpoints,
/// then those of the bus, then those of the timer; within each group, in the
/// order in which they were made. So a request is acted on before the
/// endpoint that it is about can have been closed in the same round.
pub fn arrange(reports: Vec<(Token, EventSet)>) -> (arranged: Vec<(Token, EventSet)>)
    ensures
        arranged@ == reports_of_turn(reports@, 0) + reports_of_turn(reports@, 1) + reports_of_turn(
            reports@,
            2,
        ) + reports_of_turn(reports@, 3),
{
    let mut channel: Vec<(Token, EventSet)> = Vec::new();
    let mut io: Vec<(Token, EventSet)> = Vec::new();
    let mut bus: Vec<(Token, EventSet)> = Vec::new();
    let mut timer: Vec<(Token, EventSet)> = Vec::new();
    let mut i: usize = 0;
    proof {
        assert(reports@.take(0) =~= Seq::<(Token, EventSet)>::empty());
    }
    while i < reports.len()
        invariant
            i <= reports@.len(),
            channel@ == reports_of_turn(reports@.take(i as int), 0),
            io@ == reports_of_turn(reports@.take(i as int), 1),
            bus@ == reports_of_turn(reports@.take(i as int), 2),
            timer@ == reports_of_turn(reports@.take(i as int), 3),
        decreases reports@.len() - i,
    {
        let report = reports[i];
        proof {
            let upto = reports@.take(i + 1);
            assert(upto.drop_last() =~= reports@.take(i as int));
            assert(upto.last() == report);
        }
        match source(report.0) {
            Source::Channel => channel.push(report),
            Source::Io(_) => io.push(report),
            Source::Bus => bus.push(report),
            Source::Timer => timer.push(report),
        }
        i = i + 1;
    }
    proof {
        assert(reports@.take(i as int) =~= reports@);
    }
    let mut arranged = channel;
    arranged.append(&mut io);
    arranged.append(&mut bus);
    arranged.append(&mut timer);
    arranged
}

/// What came of handling a report of the poller.
#[derive(Debug)]
pub enum Handled {
    /// The channel holds requests: they are to be taken out and processed.
    Channel,
    /// The timer holds tasks: they are to be taken out and processed.
    Timer,
    /// The report was dealt with, and this is to be done about it.
    Done(Vec<Action>),
}

} // verus!
