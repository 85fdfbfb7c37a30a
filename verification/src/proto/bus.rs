use vstd::prelude::*;
use std::rc::Rc;
use crate::context::{Context, Effect, Event, Schedulable, Timeout};
use crate::endpoint::Pipe;
use crate::global::SocketType;
use crate::id::EndpointId;
use crate::io_error::{invalid_input_io_error, timedout_io_error, ErrorKind, IoError};
use crate::message::{Message, MessageView};
use crate::proto::handles::token_of;
use crate::proto::outlets::{
    all_busy, asked_to_close, first_outlet, in_turn, published, with_outlet, with_ready,
    without_outlet, Outlet, Outlets,
};
use crate::proto::pair::cancelled;
use crate::protocol::policy::priolist::{PrioList, Ring};
use crate::socket::{answers, Answer, ConfigOption, Protocol, Reply};
use crate::transport::Token;

verus! {

/// What a bus socket is doing for its user.
#[derive(Debug)]
pub enum State {
    /// Nothing.
    Idle,
    /// The pipe was asked for a message.
    Receiving(EndpointId, Timeout),
    /// The user waits for a pipe that has a message.
    RecvOnHold(Timeout),
}

/// The books of a bus socket.
pub struct Books {
    /// The pipes, in the order in which they were added, and whether each
    /// can send.
    pub outlets: Seq<Outlet>,
    /// The fair queue: the pipes by priority, those that have a message
    /// marked active, and the cursor on the one that is asked next.
    pub fq: Ring,
}

/// What a transition comes to.
pub struct Step {
    /// The state that it leads to.
    pub state: State,
    /// The books after it.
    pub books: Books,
    /// What was asked of the context, in order.
    pub asked: Seq<Effect>,
    /// What the user was answered, in order.
    pub answered: Seq<Answer>,
}

/// No pipe is there to send over.
pub open spec fn not_connected() -> Answer {
    Answer::Failed(ErrorKind::NotConnected, "no connected endpoint"@)
}

/// Nothing happens.
pub open spec fn step_stay(state: State, books: Books) -> Step {
    Step { state, books, asked: Seq::empty(), answered: Seq::empty() }
}

/// The books with a pipe added under `eid`: it is in the queue, open but
/// not yet known to have a message, and not yet known to be able to send. A
/// second pipe of one name is not taken in.
pub open spec fn books_with_pipe(books: Books, eid: EndpointId, pipe: Pipe) -> Books {
    match first_outlet(books.outlets, 0, eid) {
        Some(_) => books,
        None => Books {
            outlets: with_outlet(books.outlets, eid, pipe),
            fq: books.fq.inserted(token_of(eid), pipe.recv_priority()).shown(token_of(eid)),
        },
    }
}

/// The books with the pipe named `eid` let go.
pub open spec fn books_without_pipe(books: Books, eid: EndpointId) -> Books {
    Books {
        outlets: without_outlet(books.outlets, eid),
        fq: books.fq.removed(token_of(eid)),
    }
}

/// The state once the pipe named `eid` has left: a receive that was with it
/// is put on hold.
pub open spec fn without_pipe(state: State, eid: EndpointId) -> State {
    match state {
        State::Receiving(id, timeout) if id == eid => State::RecvOnHold(timeout),
        any => any,
    }
}

/// To send: every pipe that can send is ordered to send the message, and
/// is not taken to be able to send until it says so again; the user is
/// answered at once. Without a pipe the user is answered that the socket is
/// not connected. The deadline is cleared either way, and a receive that is
/// under way goes on.
pub open spec fn step_send(state: State, books: Books, msg: Rc<Message>, timeout: Timeout) -> Step {
    if books.outlets.len() == 0 {
        Step { state, books, asked: cancelled(timeout), answered: seq![not_connected()] }
    } else {
        Step {
            state,
            books: Books { outlets: all_busy(books.outlets), ..books },
            asked: published(books.outlets, msg) + cancelled(timeout),
            answered: seq![Answer::Send],
        }
    }
}

/// The pipe whose turn it is is asked for a message, and is no longer taken
/// to have one; if it is no pipe's turn, the receive is put on hold.
pub open spec fn step_ask(books: Books, timeout: Timeout) -> Step {
    let after = Books { fq: books.fq.turn_taken(), ..books };
    match in_turn(books.fq, books.outlets) {
        Some(i) => Step {
            state: State::Receiving(books.outlets[i].eid, timeout),
            books: after,
            asked: seq![Effect::Recv(books.outlets[i].pipe.eid())],
            answered: Seq::empty(),
        },
        None => Step {
            state: State::RecvOnHold(timeout),
            books: after,
            asked: Seq::empty(),
            answered: Seq::empty(),
        },
    }
}

/// To receive: without a pipe the user is answered that the socket is not
/// connected, and the deadline is cleared; else the pipe whose turn it is
/// is asked.
pub open spec fn step_recv(books: Books, timeout: Timeout) -> Step {
    if books.outlets.len() == 0 {
        Step {
            state: State::Idle,
            books,
            asked: cancelled(timeout),
            answered: seq![not_connected()],
        }
    } else {
        step_ask(books, timeout)
    }
}

/// The pipe named `eid` has given the message `msg`: if it is the pipe that
/// was asked, the user is given the message and the deadline is cleared;
/// what comes from another pipe is dropped. The message goes to the user
/// only, and to no pipe.
pub open spec fn step_on_recv_ack(state: State, books: Books, eid: EndpointId, msg: MessageView) -> Step {
    match state {
        State::Receiving(id, timeout) if id == eid => Step {
            state: State::Idle,
            books,
            asked: cancelled(timeout),
            answered: seq![Answer::Recv(msg)],
        },
        any => step_stay(any, books),
    }
}

/// The deadline of the receive has passed: the user is answered so.
pub open spec fn step_on_recv_timeout(books: Books) -> Step {
    Step {
        state: State::Idle,
        books,
        asked: Seq::empty(),
        answered: seq![Answer::Failed(ErrorKind::TimedOut, "Recv timed out"@)],
    }
}

/// The pipe named `eid` has a message: a receive on hold goes on; else the
/// socket's owner is told that there is something to receive.
pub open spec fn step_on_recv_ready(state: State, books: Books, eid: EndpointId) -> Step {
    let books = Books { fq: books.fq.activated(token_of(eid)), ..books };
    match state {
        State::RecvOnHold(timeout) => step_ask(books, timeout),
        any => Step {
            state: any,
            books,
            asked: seq![Effect::Raise(Event::CanRecv)],
            answered: Seq::empty(),
        },
    }
}

/// The part of a bus socket that its transitions work on: the pipes, the
/// fair queue, and the answers that the user is owed.
pub struct Inner {
    replies: Vec<Reply>,
    outlets: Outlets,
    fq: PrioList,
}

impl Inner {
    pub closed spec fn books(&self) -> Books {
        Books { outlets: self.outlets@, fq: self.fq@ }
    }

    /// The answers that the user was not given yet, oldest first.
    pub closed spec fn replies(&self) -> Seq<Reply> {
        self.replies@
    }

    /// The fair queue is in order.
    pub open spec fn sound(&self) -> bool {
        self.books().fq.wf()
    }

    /// That `after` is `before` once the transition that comes to `step`
    /// was made, where `asked0` and `asked1` are the context's journal
    /// before and after it.
    pub open spec fn stepped(
        before: Inner,
        asked0: Seq<Effect>,
        step: Step,
        after: Inner,
        asked1: Seq<Effect>,
    ) -> bool {
        &&& after.books() == step.books
        &&& asked1 == asked0 + step.asked
        &&& answers(after.replies()) == answers(before.replies()) + step.answered
    }

    fn add_pipe<C: Context>(&mut self, ctx: &mut C, eid: EndpointId, pipe: Pipe)
        requires
            old(self).sound(),
        ensures
            final(self).sound(),
            final(self).replies() == old(self).replies(),
            final(self).books() == books_with_pipe(old(self).books(), eid, pipe),
            final(ctx).journal() == old(ctx).journal() + (match first_outlet(
                old(self).books().outlets,
                0,
                eid,
            ) {
                Some(_) => seq![Effect::Close(pipe.eid(), true)],
                None => Seq::empty(),
            }),
    {
        let priority = pipe.get_recv_priority();
        match self.outlets.enlist(&mut self.fq, eid, pipe, priority) {
            None => {
                proof {
                    assert(ctx.journal() =~= old(ctx).journal() + Seq::<Effect>::empty());
                }
            },
            Some(refused) => {
                refused.close(ctx);
                proof {
                    assert(ctx.journal() =~= old(ctx).journal() + seq![
                        Effect::Close(pipe.eid(), true),
                    ]);
                }
            },
        }
    }

    fn remove_pipe(&mut self, eid: EndpointId) -> (removed: Option<Pipe>)
        requires
            old(self).sound(),
        ensures
            final(self).sound(),
            final(self).replies() == old(self).replies(),
            final(self).books() == books_without_pipe(old(self).books(), eid),
            removed == (match first_outlet(old(self).books().outlets, 0, eid) {
                Some(i) => Some(old(self).books().outlets[i].pipe),
                None => None,
            }),
    {
        let ghost before = self.fq;
        self.fq.remove(&Token(eid.0));
        proof {
            crate::protocol::policy::priolist::rings_follow(before, self.fq, token_of(eid), 0);
        }
        self.outlets.remove(eid)
    }

    /// Gives the pipe whose turn it is its turn, and asks it for a message.
    fn ask<C: Context>(&mut self, ctx: &mut C) -> (from: Option<EndpointId>)
        requires
            old(self).sound(),
        ensures
            final(self).sound(),
            final(self).replies() == old(self).replies(),
            final(self).books() == (Books {
                fq: old(self).books().fq.turn_taken(),
                ..old(self).books()
            }),
            match in_turn(old(self).books().fq, old(self).books().outlets) {
                Some(i) => from == Some(old(self).books().outlets[i].eid) && final(ctx).journal()
                    == old(ctx).journal().push(
                    Effect::Recv(old(self).books().outlets[i].pipe.eid()),
                ),
                None => from is None && final(ctx).journal() == old(ctx).journal(),
            },
    {
        match self.outlets.take_turn(&mut self.fq) {
            Some((eid, pipe)) => {
                pipe.recv(ctx);
                Some(eid)
            },
            None => None,
        }
    }

    fn on_recv_ready(&mut self, eid: EndpointId)
        requires
            old(self).sound(),
        ensures
            final(self).sound(),
            final(self).replies() == old(self).replies(),
            final(self).books() == (Books {
                fq: old(self).books().fq.activated(token_of(eid)),
                ..old(self).books()
            }),
    {
        let ghost before = self.fq;
        self.fq.activate(Token(eid.0));
        proof {
            crate::protocol::policy::priolist::rings_follow(before, self.fq, token_of(eid), 0);
        }
    }

    /// Orders each pipe that can send to send the message.
    fn publish<C: Context>(&mut self, ctx: &mut C, msg: Rc<Message>)
        ensures
            final(self).sound() == old(self).sound(),
            final(self).replies() == old(self).replies(),
            final(self).books() == (Books {
                outlets: all_busy(old(self).books().outlets),
                ..old(self).books()
            }),
            final(ctx).journal() == old(ctx).journal() + published(old(self).books().outlets, msg),
    {
        self.outlets.publish(ctx, msg);
    }

    fn on_send_ready(&mut self, eid: EndpointId)
        ensures
            final(self).sound() == old(self).sound(),
            final(self).replies() == old(self).replies(),
            final(self).books() == (Books {
                outlets: with_ready(old(self).books().outlets, eid),
                ..old(self).books()
            }),
    {
        self.outlets.set_ready(eid);
    }

    /// Answers the user, and clears the deadline if one was set.
    fn answer<C: Context>(&mut self, ctx: &mut C, reply: Reply, timeout: Timeout)
        ensures
            final(self).sound() == old(self).sound(),
            final(self).books() == old(self).books(),
            answers(final(self).replies()) == answers(old(self).replies()) + seq![reply@],
            final(ctx).journal() == old(ctx).journal() + cancelled(timeout),
    {
        self.replies.push(reply);
        proof {
            assert(answers(self.replies()) =~= answers(old(self).replies()) + seq![reply@]);
        }
        if let Some(sched) = timeout {
            ctx.cancel(sched);
        }
        proof {
            assert(ctx.journal() =~= old(ctx).journal() + cancelled(timeout));
        }
    }

    fn close<C: Context>(&mut self, ctx: &mut C)
        requires
            old(self).sound(),
        ensures
            final(self).sound(),
            final(self).replies() == old(self).replies(),
            final(self).books().outlets.len() == 0,
            final(self).books().fq.items.len() == 0,
            final(self).books().fq.cursor is None,
            final(ctx).journal() == old(ctx).journal() + asked_to_close(old(self).books().outlets),
    {
        self.outlets.close_all(ctx);
        self.fq = PrioList::new();
    }
}

/// That a transition made what `step` says: `next` is the state that it
/// leads to, and the inner part and the context's journal went along.
pub open spec fn made(
    step: Step,
    next: State,
    before: Inner,
    asked0: Seq<Effect>,
    after: Inner,
    asked1: Seq<Effect>,
) -> bool {
    next == step.state && Inner::stepped(before, asked0, step, after, asked1)
}

impl State {
    pub open spec fn spec_name(self) -> Seq<char> {
        match self {
            State::Idle => "Idle"@,
            State::Receiving(_, _) => "Receiving"@,
            State::RecvOnHold(_) => "RecvOnHold"@,
        }
    }

    pub fn name(&self) -> (name: &'static str)
        ensures
            name@ == self.spec_name(),
    {
        match *self {
            State::Idle => "Idle",
            State::Receiving(_, _) => "Receiving",
            State::RecvOnHold(_) => "RecvOnHold",
        }
    }

    fn on_pipe_removed(self, eid: EndpointId) -> (next: State)
        ensures
            next == without_pipe(self, eid),
    {
        match self {
            State::Receiving(id, timeout) => {
                if id == eid {
                    State::RecvOnHold(timeout)
                } else {
                    State::Receiving(id, timeout)
                }
            },
            any => any,
        }
    }

    fn send<C: Context>(self, ctx: &mut C, inner: &mut Inner, msg: Rc<Message>, timeout: Timeout) -> (next:
        State)
        ensures
            final(inner).sound() == old(inner).sound(),
            made(
                step_send(self, old(inner).books(), msg, timeout),
                next,
                *old(inner),
                old(ctx).journal(),
                *final(inner),
                final(ctx).journal(),
            ),
    {
        if inner.outlets.is_empty() {
            let error = IoError::new(ErrorKind::NotConnected, "no connected endpoint");
            inner.answer(ctx, Reply::Failed(error), timeout);
        } else {
            inner.publish(ctx, msg);
            inner.answer(ctx, Reply::Send, timeout);
            proof {
                assert(ctx.journal() =~= old(ctx).journal() + (published(
                    old(inner).books().outlets,
                    msg,
                ) + cancelled(timeout)));
            }
        }
        self
    }

    /// Asks the pipe whose turn it is.
    fn ask<C: Context>(ctx: &mut C, inner: &mut Inner, timeout: Timeout) -> (next: State)
        requires
            old(inner).sound(),
        ensures
            final(inner).sound(),
            made(
                step_ask(old(inner).books(), timeout),
                next,
                *old(inner),
                old(ctx).journal(),
                *final(inner),
                final(ctx).journal(),
            ),
    {
        proof {
            assert(answers(inner.replies()) =~= answers(inner.replies()) + Seq::<Answer>::empty());
        }
        match inner.ask(ctx) {
            Some(eid) => {
                proof {
                    let i = in_turn(old(inner).books().fq, old(inner).books().outlets).unwrap();
                    assert(ctx.journal() =~= old(ctx).journal() + seq![
                        Effect::Recv(old(inner).books().outlets[i].pipe.eid()),
                    ]);
                }
                State::Receiving(eid, timeout)
            },
            None => {
                proof {
                    assert(ctx.journal() =~= old(ctx).journal() + Seq::<Effect>::empty());
                }
                State::RecvOnHold(timeout)
            },
        }
    }

    fn recv<C: Context>(self, ctx: &mut C, inner: &mut Inner, timeout: Timeout) -> (next: State)
        requires
            old(inner).sound(),
        ensures
            final(inner).sound(),
            made(
                step_recv(old(inner).books(), timeout),
                next,
                *old(inner),
                old(ctx).journal(),
                *final(inner),
                final(ctx).journal(),
            ),
    {
        if inner.outlets.is_empty() {
            let error = IoError::new(ErrorKind::NotConnected, "no connected endpoint");
            inner.answer(ctx, Reply::Failed(error), timeout);
            State::Idle
        } else {
            State::ask(ctx, inner, timeout)
        }
    }

    fn on_recv_ack<C: Context>(
        self,
        ctx: &mut C,
        inner: &mut Inner,
        eid: EndpointId,
        msg: Message,
    ) -> (next: State)
        ensures
            final(inner).sound() == old(inner).sound(),
            made(
                step_on_recv_ack(self, old(inner).books(), eid, msg@),
                next,
                *old(inner),
                old(ctx).journal(),
                *final(inner),
                final(ctx).journal(),
            ),
    {
        match self {
            State::Receiving(id, timeout) => {
                if id == eid {
                    inner.answer(ctx, Reply::Recv(msg), timeout);
                    State::Idle
                } else {
                    proof {
                        assert(ctx.journal() =~= old(ctx).journal() + Seq::<Effect>::empty());
                        assert(answers(inner.replies()) =~= answers(inner.replies()) + Seq::<
                            Answer,
                        >::empty());
                    }
                    State::Receiving(id, timeout)
                }
            },
            any => {
                proof {
                    assert(ctx.journal() =~= old(ctx).journal() + Seq::<Effect>::empty());
                    assert(answers(inner.replies()) =~= answers(inner.replies()) + Seq::<
                        Answer,
                    >::empty());
                }
                any
            },
        }
    }

    fn on_recv_timeout<C: Context>(self, ctx: &mut C, inner: &mut Inner) -> (next: State)
        ensures
            final(inner).sound() == old(inner).sound(),
            made(
                step_on_recv_timeout(old(inner).books()),
                next,
                *old(inner),
                old(ctx).journal(),
                *final(inner),
                final(ctx).journal(),
            ),
    {
        let error = timedout_io_error("Recv timed out");
        inner.answer(ctx, Reply::Failed(error), None);
        State::Idle
    }

    fn on_recv_ready<C: Context>(self, ctx: &mut C, inner: &mut Inner, eid: EndpointId) -> (next:
        State)
        requires
            old(inner).sound(),
        ensures
            final(inner).sound(),
            made(
                step_on_recv_ready(self, old(inner).books(), eid),
                next,
                *old(inner),
                old(ctx).journal(),
                *final(inner),
                final(ctx).journal(),
            ),
    {
        inner.on_recv_ready(eid);
        match self {
            State::RecvOnHold(timeout) => State::ask(ctx, inner, timeout),
            any => {
                ctx.raise(Event::CanRecv);
                proof {
                    assert(ctx.journal() =~= old(ctx).journal() + seq![
                        Effect::Raise(Event::CanRecv),
                    ]);
                    assert(answers(inner.replies()) =~= answers(inner.replies()) + Seq::<
                        Answer,
                    >::empty());
                }
                any
            },
        }
    }
}

/// The bus pattern: a message goes to every pipe that can send, and
/// messages are taken from the pipes in turn. What comes in is given to the
/// user and sent nowhere, so that nothing goes back over the pipe that it
/// came by.
pub struct Bus {
    inner: Inner,
    state: Option<State>,
}

impl Bus {
    /// What the socket is doing: it is in a state but while a transition is
    /// made.
    pub closed spec fn state(&self) -> Option<State> {
        self.state
    }

    pub closed spec fn inner(&self) -> Inner {
        self.inner
    }

    pub fn new() -> (bus: Bus)
        ensures
            bus.sound(),
            bus.state() == Some(State::Idle),
            bus.inner().books().outlets.len() == 0,
            bus.inner().books().fq.items.len() == 0,
            bus.inner().books().fq.cursor is None,
            bus.inner().replies().len() == 0,
    {
        Bus {
            inner: Inner { replies: Vec::new(), outlets: Outlets::new(), fq: PrioList::new() },
            state: Some(State::Idle),
        }
    }

    /// That `after` is `before` once the transition that comes to `step`
    /// was made, where `asked0` and `asked1` are the context's journal
    /// before and after it.
    pub open spec fn moved(
        before: Bus,
        asked0: Seq<Effect>,
        step: Step,
        after: Bus,
        asked1: Seq<Effect>,
    ) -> bool {
        &&& after.state() == Some(step.state)
        &&& Inner::stepped(before.inner(), asked0, step, after.inner(), asked1)
    }
}

impl Protocol for Bus {
    /// The fair queue is in order, and the socket is in a state.
    open spec fn sound(&self) -> bool {
        self.inner().sound() && self.state() is Some
    }

    open spec fn socket_type(&self) -> SocketType {
        SocketType::Bus
    }

    open spec fn owed(&self) -> Seq<Reply> {
        self.inner().replies()
    }

    fn id(&self) -> (id: u16)
        ensures
            id == SocketType::Bus.spec_id(),
    {
        SocketType::Bus.id()
    }

    fn peer_id(&self) -> (id: u16)
        ensures
            id == SocketType::Bus.spec_id(),
    {
        SocketType::Bus.peer().id()
    }

    open spec fn did_set_option(
        before: Self,
        option: ConfigOption,
        after: Self,
        r: Result<(), IoError>,
    ) -> bool {
        &&& after == before
        &&& crate::io_error::fails_with(
            r,
            ErrorKind::InvalidInput,
            "the option is not one of this protocol"@,
        )
    }

    /// A bus socket has no option of its own.
    fn set_option(&mut self, option: ConfigOption) -> (r: Result<(), IoError>) {
        Err(invalid_input_io_error("the option is not one of this protocol"))
    }

    /// Hands out the answers that the user is owed, oldest first.
    fn take_replies(&mut self) -> (replies: Vec<Reply>)
        ensures
            replies@ == old(self).inner().replies(),
            final(self).inner().replies().len() == 0,
            final(self).inner().books() == old(self).inner().books(),
            final(self).state() == old(self).state(),
    {
        let mut replies: Vec<Reply> = Vec::new();
        replies.append(&mut self.inner.replies);
        replies
    }

    open spec fn did_add_pipe(
        before: Self,
        eid: EndpointId,
        pipe: Pipe,
        after: Self,
        asked0: Seq<Effect>,
        asked1: Seq<Effect>,
    ) -> bool {
        &&& after.state() == before.state()
        &&& after.inner().replies() == before.inner().replies()
        &&& after.inner().books() == books_with_pipe(before.inner().books(), eid, pipe)
        &&& asked1 == asked0 + (match first_outlet(
            before.inner().books().outlets,
            0,
            eid,
        ) {
            Some(_) => seq![Effect::Close(pipe.eid(), true)],
            None => Seq::empty(),
        })
    }

    /// Takes the pipe in, unless a pipe is known by that name already: then
    /// the new pipe is ordered to close.
    fn add_pipe<C: Context>(&mut self, ctx: &mut C, eid: EndpointId, pipe: Pipe) {
        self.inner.add_pipe(ctx, eid, pipe);
    }

    open spec fn did_remove_pipe(
        before: Self,
        eid: EndpointId,
        after: Self,
        asked0: Seq<Effect>,
        asked1: Seq<Effect>,
        removed: Option<Pipe>,
    ) -> bool {
        &&& removed == (match first_outlet(before.inner().books().outlets, 0, eid) {
            Some(i) => Some(before.inner().books().outlets[i].pipe),
            None => None,
        })
        &&& after.state() == Some(
            if removed is Some {
                without_pipe(before.state().unwrap(), eid)
            } else {
                before.state().unwrap()
            },
        )
        &&& after.inner().replies() == before.inner().replies()
        &&& after.inner().books() == books_without_pipe(before.inner().books(), eid)
        &&& asked1 == asked0
    }

    /// Lets the pipe go; a receive that was with it is put on hold.
    fn remove_pipe<C: Context>(&mut self, ctx: &mut C, eid: EndpointId) -> (removed: Option<Pipe>) {
        let pipe = self.inner.remove_pipe(eid);
        if pipe.is_some() {
            if let Some(state) = self.state.take() {
                self.state = Some(state.on_pipe_removed(eid));
            }
        }
        pipe
    }

    open spec fn did_send(
        before: Self,
        msg: Message,
        timeout: Timeout,
        after: Self,
        asked0: Seq<Effect>,
        asked1: Seq<Effect>,
    ) -> bool {
        exists|shared: Rc<Message>|
            shared == msg && #[trigger] Bus::moved(
                before,
                asked0,
                step_send(
                    before.state().unwrap(),
                    before.inner().books(),
                    shared,
                    timeout,
                ),
                after,
                asked1,
            )
    }

    fn send<C: Context>(&mut self, ctx: &mut C, msg: Message, timeout: Timeout) {
        if let Some(state) = self.state.take() {
            let shared = Rc::new(msg);
            let ghost witness = shared;
            let next = state.send(ctx, &mut self.inner, shared, timeout);
            self.state = Some(next);
            proof {
                assert(Bus::moved(
                    *old(self),
                    old(ctx).journal(),
                    step_send(
                        old(self).state().unwrap(),
                        old(self).inner().books(),
                        witness,
                        timeout,
                    ),
                    *self,
                    ctx.journal(),
                ));
            }
        }
    }

    open spec fn did_on_send_ack(
        before: Self,
        eid: EndpointId,
        after: Self,
        asked0: Seq<Effect>,
        asked1: Seq<Effect>,
    ) -> bool {
        &&& after == before
        &&& asked1 == asked0
    }

    /// The user was answered when the message was sent: nothing changes.
    fn on_send_ack<C: Context>(&mut self, ctx: &mut C, eid: EndpointId) {
    }

    open spec fn did_on_send_timeout(
        before: Self,
        after: Self,
        asked0: Seq<Effect>,
        asked1: Seq<Effect>,
    ) -> bool {
        &&& after == before
        &&& asked1 == asked0
    }

    fn on_send_timeout<C: Context>(&mut self, ctx: &mut C) {
    }

    open spec fn did_on_send_ready(
        before: Self,
        eid: EndpointId,
        after: Self,
        asked0: Seq<Effect>,
        asked1: Seq<Effect>,
    ) -> bool {
        &&& after.state() == before.state()
        &&& after.inner().replies() == before.inner().replies()
        &&& after.inner().books() == (Books {
            outlets: with_ready(before.inner().books().outlets, eid),
            ..before.inner().books()
        })
        &&& asked1 == asked0
    }

    /// The pipe named `eid` can send: the next message goes to it too.
    fn on_send_ready<C: Context>(&mut self, ctx: &mut C, eid: EndpointId) {
        self.inner.on_send_ready(eid);
    }

    open spec fn did_recv(
        before: Self,
        timeout: Timeout,
        after: Self,
        asked0: Seq<Effect>,
        asked1: Seq<Effect>,
    ) -> bool {
        Bus::moved(
            before,
            asked0,
            step_recv(before.inner().books(), timeout),
            after,
            asked1,
        )
    }

    fn recv<C: Context>(&mut self, ctx: &mut C, timeout: Timeout) {
        if let Some(state) = self.state.take() {
            let next = state.recv(ctx, &mut self.inner, timeout);
            self.state = Some(next);
        }
    }

    open spec fn did_on_recv_ack(
        before: Self,
        eid: EndpointId,
        msg: Message,
        after: Self,
        asked0: Seq<Effect>,
        asked1: Seq<Effect>,
    ) -> bool {
        Bus::moved(
            before,
            asked0,
            step_on_recv_ack(before.state().unwrap(), before.inner().books(), eid, msg@),
            after,
            asked1,
        )
    }

    fn on_recv_ack<C: Context>(&mut self, ctx: &mut C, eid: EndpointId, msg: Message) {
        if let Some(state) = self.state.take() {
            let next = state.on_recv_ack(ctx, &mut self.inner, eid, msg);
            self.state = Some(next);
        }
    }

    open spec fn did_on_recv_timeout(
        before: Self,
        after: Self,
        asked0: Seq<Effect>,
        asked1: Seq<Effect>,
    ) -> bool {
        Bus::moved(
            before,
            asked0,
            step_on_recv_timeout(before.inner().books()),
            after,
            asked1,
        )
    }

    fn on_recv_timeout<C: Context>(&mut self, ctx: &mut C) {
        if let Some(state) = self.state.take() {
            let next = state.on_recv_timeout(ctx, &mut self.inner);
            self.state = Some(next);
        }
    }

    open spec fn did_on_recv_ready(
        before: Self,
        eid: EndpointId,
        after: Self,
        asked0: Seq<Effect>,
        asked1: Seq<Effect>,
    ) -> bool {
        Bus::moved(
            before,
            asked0,
            step_on_recv_ready(before.state().unwrap(), before.inner().books(), eid),
            after,
            asked1,
        )
    }

    fn on_recv_ready<C: Context>(&mut self, ctx: &mut C, eid: EndpointId) {
        if let Some(state) = self.state.take() {
            let next = state.on_recv_ready(ctx, &mut self.inner, eid);
            self.state = Some(next);
        }
    }

    open spec fn did_on_timer_tick(
        before: Self,
        task: Schedulable,
        after: Self,
        asked0: Seq<Effect>,
        asked1: Seq<Effect>,
    ) -> bool {
        &&& after == before
        &&& asked1 == asked0
    }

    /// A bus socket sets no timer of its own: nothing changes.
    fn on_timer_tick<C: Context>(&mut self, ctx: &mut C, task: Schedulable) {
    }

    open spec fn did_close(
        before: Self,
        after: Self,
        asked0: Seq<Effect>,
        asked1: Seq<Effect>,
    ) -> bool {
        &&& after.state() == before.state()
        &&& after.inner().replies() == before.inner().replies()
        &&& after.inner().books().outlets.len() == 0
        &&& after.inner().books().fq.items.len() == 0
        &&& after.inner().books().fq.cursor is None
        &&& asked1 == asked0 + asked_to_close(
            before.inner().books().outlets,
        )
    }

    /// Orders every pipe to close, and lets them all go.
    fn close<C: Context>(&mut self, ctx: &mut C) {
        self.inner.close(ctx)
    }
}

} // verus!
