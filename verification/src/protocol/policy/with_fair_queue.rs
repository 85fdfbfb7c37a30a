use vstd::prelude::*;
use crate::context::Timeout;
use crate::event_loop_msg::SocketEvt;
use crate::io_error::{invalid_data_io_error, ErrorKind, IoError};
use crate::message::Message;
use crate::pipe::{Phase, Pipe, RecvStatus};
use crate::protocol::policy::pipes::{clear_timeout, Entry, Pipes};
use crate::protocol::policy::priolist::PrioList;
use crate::transport::{Connection, EventLoop, EventSet, PollRequest, Token};

verus! {

/// For a protocol that receives from its pipes in turn: it keeps its pipes,
/// a priority list of them, and tells its user what came in.
pub trait WithFairQueue<C: Connection> {
    /// The pipes.
    spec fn pipes(&self) -> Pipes<C>;

    /// The order in which the pipes are served, and the pipe to serve now.
    spec fn fair_queue(&self) -> PrioList;

    /// What the user was told, oldest first.
    spec fn notified(&self) -> Seq<SocketEvt>;

    fn get_pipes(&self) -> (pipes: &Pipes<C>)
        ensures
            *pipes == self.pipes(),
    ;

    fn get_pipes_mut(&mut self) -> (pipes: &mut Pipes<C>)
        ensures
            *pipes == old(self).pipes(),
            final(self).pipes() == *final(pipes),
            final(self).fair_queue() == old(self).fair_queue(),
            final(self).notified() == old(self).notified(),
    ;

    fn get_fair_queue(&self) -> (queue: &PrioList)
        ensures
            *queue == self.fair_queue(),
    ;

    fn get_fair_queue_mut(&mut self) -> (queue: &mut PrioList)
        ensures
            *queue == old(self).fair_queue(),
            final(self).fair_queue() == *final(queue),
            final(self).pipes() == old(self).pipes(),
            final(self).notified() == old(self).notified(),
    ;

    fn send_notify(&mut self, evt: SocketEvt)
        ensures
            final(self).notified() == old(self).notified().push(evt),
            final(self).pipes() == old(self).pipes(),
            final(self).fair_queue() == old(self).fair_queue(),
    ;

    fn insert_into_fair_queue(&mut self, tok: Token, priority: u8)
        requires
            sound(old(self).pipes(), old(self).fair_queue()),
        ensures
            sound(final(self).pipes(), final(self).fair_queue()),
            final(self).pipes() == old(self).pipes(),
            final(self).notified() == old(self).notified(),
            PrioList::inserted(old(self).fair_queue(), final(self).fair_queue(), tok, priority),
    {
        self.get_fair_queue_mut().insert(tok, priority)
    }

    /// Takes the pipe in under `tok`, in place of the pipe that was known by
    /// that token if there was one. Only a pipe under a new token enters the
    /// priority list; for one that replaces another the call fails.
    fn add_pipe(&mut self, tok: Token, pipe: Pipe<C>) -> (r: Result<(), IoError>)
        requires
            sound(old(self).pipes(), old(self).fair_queue()),
        ensures
            sound(final(self).pipes(), final(self).fair_queue()),
            final(self).notified() == old(self).notified(),
            match old(self).pipes().position(tok) {
                None => {
                    &&& r is Ok
                    &&& final(self).pipes().entries() == old(self).pipes().entries().push(
                        Entry { token: tok, pipe },
                    )
                    &&& PrioList::inserted(
                        old(self).fair_queue(),
                        final(self).fair_queue(),
                        tok,
                        pipe.recv_priority(),
                    )
                },
                Some(i) => {
                    &&& crate::io_error::fails_with(
                        r,
                        ErrorKind::InvalidData,
                        "A pipe has already been added with that token"@,
                    )
                    &&& final(self).pipes().entries() == old(self).pipes().entries().update(
                        i,
                        Entry { token: tok, pipe },
                    )
                    &&& final(self).fair_queue() == old(self).fair_queue()
                },
            },
    {
        let priority = pipe.get_recv_priority();
        match self.get_pipes_mut().insert(tok, pipe) {
            None => {
                self.insert_into_fair_queue(tok, priority);
                Ok(())
            },
            Some(_) => Err(invalid_data_io_error("A pipe has already been added with that token")),
        }
    }

    /// Lets the pipe known by `tok` go, out of the priority list too, and
    /// gives it back.
    fn remove_pipe(&mut self, tok: Token) -> (pipe: Option<Pipe<C>>)
        requires
            sound(old(self).pipes(), old(self).fair_queue()),
        ensures
            sound(final(self).pipes(), final(self).fair_queue()),
            final(self).notified() == old(self).notified(),
            PrioList::removed(old(self).fair_queue(), final(self).fair_queue(), tok),
            final(self).pipes().position(tok) is None,
            match old(self).pipes().position(tok) {
                Some(i) => pipe == Some(old(self).pipes().entries()[i].pipe) && final(self).pipes().entries() == old(self).pipes().entries().remove(i),
                None => pipe is None && final(self).pipes().entries() == old(self).pipes().entries(),
            },
    {
        self.get_fair_queue_mut().remove(&tok);
        self.get_pipes_mut().remove(&tok)
    }

    /// Opens the pipe known by `tok`, if there is one that can be opened.
    fn open_pipe(&mut self, event_loop: &mut EventLoop, tok: Token)
        requires
            sound(old(self).pipes(), old(self).fair_queue()),
        ensures
            final(self).pipes() == old(self).pipes(),
            final(self).fair_queue() == old(self).fair_queue(),
            final(self).notified() == old(self).notified(),
            final(event_loop)@ == (match old(self).pipes().position(tok) {
                Some(i) => {
                    let pipe = old(self).pipes().entries()[i].pipe;
                    if pipe.phase() == Phase::Handshake {
                        old(event_loop)@.push(
                            PollRequest::Register(
                                pipe.token(),
                                crate::transport::all_events(),
                                crate::transport::PollOpt::Edge,
                            ),
                        )
                    } else {
                        old(event_loop)@
                    }
                },
                None => old(event_loop)@,
            }),
    {
        match self.get_pipes().get(&tok) {
            Some(pipe) => {
                let _ = pipe.open(event_loop);
            },
            None => {},
        }
    }

    /// The pipe known by `tok` is open: it is shown in the priority list,
    /// and told that note was taken.
    fn on_pipe_opened(&mut self, event_loop: &mut EventLoop, tok: Token)
        requires
            sound(old(self).pipes(), old(self).fair_queue()),
        ensures
            sound(final(self).pipes(), final(self).fair_queue()),
            final(self).pipes() == old(self).pipes(),
            final(self).notified() == old(self).notified(),
            PrioList::shown(old(self).fair_queue(), final(self).fair_queue(), tok),
            final(event_loop)@ == (match old(self).pipes().position(tok) {
                Some(i) => asked_again(old(self).pipes().entries()[i].pipe, old(event_loop)@),
                None => old(event_loop)@,
            }),
    {
        self.get_fair_queue_mut().show(tok);
        match self.get_pipes().get(&tok) {
            Some(pipe) => pipe.on_open_ack(event_loop),
            None => {},
        }
    }

    /// The pipe to serve now.
    fn get_active_pipe(&self) -> (pipe: Option<&Pipe<C>>)
        requires
            sound(self.pipes(), self.fair_queue()),
        ensures
            match active_place(self.pipes(), self.fair_queue()) {
                Some(i) => pipe == Some(&self.pipes().entries()[i].pipe),
                None => pipe is None,
            },
    {
        match self.get_fair_queue().get() {
            Some(tok) => self.get_pipes().get(&tok),
            None => None,
        }
    }

    /// Where the pipe to serve now is among the pipes.
    fn get_active_place(&self) -> (at: Option<usize>)
        requires
            sound(self.pipes(), self.fair_queue()),
        ensures
            match at {
                Some(i) => active_place(self.pipes(), self.fair_queue()) == Some(i as int) && i < self.pipes().entries().len(),
                None => active_place(self.pipes(), self.fair_queue()) is None,
            },
    {
        match self.get_fair_queue().get() {
            Some(tok) => self.get_pipes().find(&tok),
            None => None,
        }
    }

    /// Acts on what the poller reports of the pipe known by `tok`: the pipe
    /// is active in the priority list if it is readable and not active if
    /// not, and it acts on the report itself. What the pipe made of it comes
    /// back, if there is such a pipe.
    fn ready(&mut self, event_loop: &mut EventLoop, tok: Token, events: EventSet) -> (r: Option<
        Result<(bool, Option<Message>), IoError>,
    >)
        requires
            sound(old(self).pipes(), old(self).fair_queue()),
        ensures
            sound(final(self).pipes(), final(self).fair_queue()),
            final(self).notified() == old(self).notified(),
            if events.readable {
                PrioList::activated(old(self).fair_queue(), final(self).fair_queue(), tok)
            } else {
                PrioList::deactivated(old(self).fair_queue(), final(self).fair_queue(), tok)
            },
            r is Some <==> old(self).pipes().position(tok) is Some,
            final(self).pipes().entries().len() == old(self).pipes().entries().len(),
            forall|k: int|
                0 <= k < old(self).pipes().entries().len() ==> (#[trigger] final(self).pipes().entries()[k]).token == old(self).pipes().entries()[k].token,
            forall|k: int|
                0 <= k < old(self).pipes().entries().len() && old(self).pipes().position(tok)
                    != Some(k) ==> #[trigger] final(self).pipes().entries()[k] == old(self).pipes().entries()[k],
            match old(self).pipes().position(tok) {
                Some(i) => {
                    let was = old(self).pipes().entries()[i].pipe;
                    let is = final(self).pipes().entries()[i].pipe;
                    match r {
                        Some(Ok((sent, received))) => match was.phase() {
                            Phase::Handshake => {
                                &&& !sent
                                &&& received is None
                                &&& Pipe::handshake_step(was, is, events)
                                &&& final(event_loop)@.len() == old(event_loop)@.len() + 1
                            },
                            _ => {
                                &&& Pipe::active_step(was, is, events, sent, received)
                                &&& final(event_loop)@ == old(event_loop)@
                            },
                        },
                        Some(Err(_)) => is.phase() == Phase::Dead && final(event_loop)@ == old(event_loop)@,
                        None => false,
                    }
                },
                None => final(event_loop)@ == old(event_loop)@,
            },
    {
        if events.is_readable() {
            self.get_fair_queue_mut().activate(tok);
        } else {
            self.get_fair_queue_mut().deactivate(tok);
        }
        match self.get_pipes().find(&tok) {
            Some(i) => {
                let ghost before = self.pipes().entries();
                let pipes = self.get_pipes_mut();
                let r = pipes.at_mut(i).ready(event_loop, events);
                proof {
                    let after = pipes.entries();
                    assert forall|a: int, b: int| 0 <= a < b < after.len() implies (
                    #[trigger] after[a]).token != (#[trigger] after[b]).token by {
                        assert(before[a].token != before[b].token);
                    }
                }
                Some(r)
            },
            None => None,
        }
    }

    /// Asks the pipe to serve now for a message, as `recv_from` does. What
    /// the pipe made of it comes back, if there is a pipe to serve.
    fn recv(&mut self) -> (r: Option<Result<RecvStatus, IoError>>)
        requires
            sound(old(self).pipes(), old(self).fair_queue()),
        ensures
            sound(final(self).pipes(), final(self).fair_queue()),
            final(self).notified() == old(self).notified(),
            final(self).fair_queue() == old(self).fair_queue(),
            r is Some <==> active_place(old(self).pipes(), old(self).fair_queue()) is Some,
            final(self).pipes().entries().len() == old(self).pipes().entries().len(),
            forall|k: int|
                0 <= k < old(self).pipes().entries().len() ==> (#[trigger] final(self).pipes().entries()[k]).token == old(self).pipes().entries()[k].token,
            forall|k: int|
                0 <= k < old(self).pipes().entries().len() && active_place(
                    old(self).pipes(),
                    old(self).fair_queue(),
                ) != Some(k) ==> #[trigger] final(self).pipes().entries()[k] == old(self).pipes().entries()[k],
            match active_place(old(self).pipes(), old(self).fair_queue()) {
                Some(i) => {
                    let was = old(self).pipes().entries()[i].pipe;
                    let is = final(self).pipes().entries()[i].pipe;
                    &&& r matches Some(got)
                    &&& match was.phase() {
                        Phase::Handshake => got matches Ok(RecvStatus::Postponed) && is == was,
                        Phase::Active => match got {
                            Ok(status) => Pipe::active_recv(was, is, status),
                            Err(_) => is.phase() == Phase::Dead,
                        },
                        Phase::Dead => got is Err && is.phase() == Phase::Dead,
                    }
                },
                None => true,
            },
    {
        match self.recv_from() {
            Some((_, status)) => Some(status),
            None => None,
        }
    }

    /// Asks the pipe to serve now for a message. What the pipe made of it
    /// comes back with the token that the pipe goes by, if there is a pipe to
    /// serve.
    fn recv_from(&mut self) -> (r: Option<(Token, Result<RecvStatus, IoError>)>)
        requires
            sound(old(self).pipes(), old(self).fair_queue()),
        ensures
            sound(final(self).pipes(), final(self).fair_queue()),
            final(self).notified() == old(self).notified(),
            final(self).fair_queue() == old(self).fair_queue(),
            r is Some <==> active_place(old(self).pipes(), old(self).fair_queue()) is Some,
            final(self).pipes().entries().len() == old(self).pipes().entries().len(),
            forall|k: int|
                0 <= k < old(self).pipes().entries().len() ==> (#[trigger] final(self).pipes().entries()[k]).token == old(self).pipes().entries()[k].token,
            forall|k: int|
                0 <= k < old(self).pipes().entries().len() && active_place(old(self).pipes(), old(self).fair_queue()) != Some(k)
                    ==> #[trigger] final(self).pipes().entries()[k] == old(self).pipes().entries()[k],
            match active_place(old(self).pipes(), old(self).fair_queue()) {
                Some(i) => {
                    let was = old(self).pipes().entries()[i].pipe;
                    let is = final(self).pipes().entries()[i].pipe;
                    &&& r matches Some(got)
                    &&& got.0 == was.token()
                    &&& match was.phase() {
                        Phase::Handshake => got.1 matches Ok(RecvStatus::Postponed) && is == was,
                        Phase::Active => match got.1 {
                            Ok(status) => Pipe::active_recv(was, is, status),
                            Err(_) => is.phase() == Phase::Dead,
                        },
                        Phase::Dead => got.1 is Err && is.phase() == Phase::Dead,
                    }
                },
                None => true,
            },
    {
        match self.get_active_place() {
            Some(i) => {
                let ghost before = self.pipes().entries();
                let pipes = self.get_pipes_mut();
                let pipe = pipes.at_mut(i);
                let status = pipe.recv();
                let token = pipe.get_token();
                proof {
                    let after = pipes.entries();
                    assert forall|a: int, b: int| 0 <= a < b < after.len() implies (
                    #[trigger] after[a]).token != (#[trigger] after[b]).token by {
                        assert(before[a].token != before[b].token);
                    }
                }
                Some((token, status))
            },
            None => None,
        }
    }

    /// A message came in from the pipe to serve now: the user is given it,
    /// the pipe's readiness is asked for anew, the cursor goes on, and the
    /// deadline is cleared.
    fn on_recv_done(&mut self, event_loop: &mut EventLoop, msg: Message, timeout: Timeout)
        requires
            sound(old(self).pipes(), old(self).fair_queue()),
        ensures
            sound(final(self).pipes(), final(self).fair_queue()),
            final(self).pipes() == old(self).pipes(),
            final(self).notified() == old(self).notified().push(SocketEvt::MsgRecv(msg)),
            PrioList::advanced(old(self).fair_queue(), final(self).fair_queue()),
            final(event_loop)@ == (match active_place(old(self).pipes(), old(self).fair_queue()) {
                Some(i) => asked_again(old(self).pipes().entries()[i].pipe, old(event_loop)@),
                None => old(event_loop)@,
            }) + (match timeout {
                Some(handle) => seq![PollRequest::ClearTimeout(handle)],
                None => Seq::<PollRequest>::empty(),
            }),
    {
        self.send_notify(SocketEvt::MsgRecv(msg));
        match self.get_active_pipe() {
            Some(pipe) => pipe.resync_readiness(event_loop),
            None => {},
        }
        self.get_fair_queue_mut().advance();
        let ghost asked = event_loop@;
        clear_timeout(event_loop, timeout);
        proof {
            assert(event_loop@ =~= asked + (match timeout {
                Some(handle) => seq![PollRequest::ClearTimeout(handle)],
                None => Seq::<PollRequest>::empty(),
            }));
        }
    }

    /// A message came in from the pipe known by `tok` after its time: the
    /// pipe is shown in the priority list, and its readiness is asked for
    /// anew.
    fn on_recv_done_late(&mut self, event_loop: &mut EventLoop, tok: Token)
        requires
            sound(old(self).pipes(), old(self).fair_queue()),
        ensures
            sound(final(self).pipes(), final(self).fair_queue()),
            final(self).pipes() == old(self).pipes(),
            final(self).notified() == old(self).notified(),
            PrioList::shown(old(self).fair_queue(), final(self).fair_queue(), tok),
            final(event_loop)@ == (match old(self).pipes().position(tok) {
                Some(i) => asked_again(old(self).pipes().entries()[i].pipe, old(event_loop)@),
                None => old(event_loop)@,
            }),
    {
        self.get_fair_queue_mut().show(tok);
        match self.get_pipes().get(&tok) {
            Some(pipe) => pipe.resync_readiness(event_loop),
            None => {},
        }
    }

    /// The deadline of the receive has passed: the user is told so, and the
    /// cursor goes on.
    fn on_recv_timeout(&mut self)
        requires
            sound(old(self).pipes(), old(self).fair_queue()),
        ensures
            sound(final(self).pipes(), final(self).fair_queue()),
            final(self).pipes() == old(self).pipes(),
            PrioList::advanced(old(self).fair_queue(), final(self).fair_queue()),
            final(self).notified().len() == old(self).notified().len() + 1,
            final(self).notified().drop_last() == old(self).notified(),
            final(self).notified().last()@ == crate::event_loop_msg::Notice::MsgNotRecv(
                ErrorKind::TimedOut,
                "recv timeout reached"@,
            ),
    {
        let err = IoError::new(ErrorKind::TimedOut, "recv timeout reached");
        self.send_notify(SocketEvt::MsgNotRecv(err));
        proof {
            assert(self.notified().drop_last() =~= old(self).notified());
        }
        self.get_fair_queue_mut().skip();
    }

    /// Whether the pipe to serve now can be asked for a message with a
    /// chance that one comes in.
    fn can_recv(&self) -> (can: bool)
        requires
            sound(self.pipes(), self.fair_queue()),
        ensures
            can == (match active_place(self.pipes(), self.fair_queue()) {
                Some(i) => {
                    let pipe = self.pipes().entries()[i].pipe;
                    pipe.phase() == Phase::Active && pipe.readable() && pipe.incoming() is None
                },
                None => false,
            }),
    {
        match self.get_active_pipe() {
            Some(pipe) => pipe.can_recv(),
            None => false,
        }
    }
}

/// That the pipes and the priority list are sound.
pub open spec fn sound<C: Connection>(pipes: Pipes<C>, queue: PrioList) -> bool {
    pipes.wf() && queue.wf()
}

/// Where the pipe under the cursor is among the pipes, if the cursor
/// stands on a token that a pipe is known by.
pub open spec fn active_place<C: Connection>(pipes: Pipes<C>, queue: PrioList) -> Option<int> {
    match queue.cursor() {
        Some(c) => pipes.position(queue.items()[c].token),
        None => None,
    }
}

/// What the poller is asked once a pipe's readiness is asked for anew.
pub open spec fn asked_again<C: Connection>(pipe: Pipe<C>, asked: Seq<PollRequest>) -> Seq<
    PollRequest,
> {
    if pipe.phase() == Phase::Dead {
        asked
    } else {
        asked.push(
            PollRequest::Reregister(
                pipe.token(),
                crate::transport::all_events(),
                crate::transport::PollOpt::Edge,
            ),
        )
    }
}

/// The receiving side of a protocol: its pipes, served in turn.
pub struct Intake<C: Connection> {
    pipes: Pipes<C>,
    fair_queue: PrioList,
    events: Vec<SocketEvt>,
}

impl<C: Connection> Intake<C> {
    pub fn new() -> (intake: Intake<C>)
        ensures
            sound(intake.pipes(), intake.fair_queue()),
            intake.pipes().entries().len() == 0,
            intake.fair_queue().items().len() == 0,
            intake.fair_queue().cursor() is None,
            intake.notified().len() == 0,
    {
        Intake { pipes: Pipes::new(), fair_queue: PrioList::new(), events: Vec::new() }
    }

    /// Hands out what the user is to be told, oldest first.
    pub fn take_events(&mut self) -> (events: Vec<SocketEvt>)
        ensures
            events@ == old(self).notified(),
            final(self).notified().len() == 0,
            final(self).pipes() == old(self).pipes(),
            final(self).fair_queue() == old(self).fair_queue(),
    {
        let mut events: Vec<SocketEvt> = Vec::new();
        events.append(&mut self.events);
        events
    }
}

impl<C: Connection> WithFairQueue<C> for Intake<C> {
    closed spec fn pipes(&self) -> Pipes<C> {
        self.pipes
    }

    closed spec fn fair_queue(&self) -> PrioList {
        self.fair_queue
    }

    closed spec fn notified(&self) -> Seq<SocketEvt> {
        self.events@
    }

    fn get_pipes(&self) -> (pipes: &Pipes<C>) {
        &self.pipes
    }

    fn get_pipes_mut(&mut self) -> (pipes: &mut Pipes<C>) {
        &mut self.pipes
    }

    fn get_fair_queue(&self) -> (queue: &PrioList) {
        &self.fair_queue
    }

    fn get_fair_queue_mut(&mut self) -> (queue: &mut PrioList) {
        &mut self.fair_queue
    }

    fn send_notify(&mut self, evt: SocketEvt) {
        self.events.push(evt);
    }
}

} // verus!
