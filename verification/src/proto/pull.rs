use vstd::prelude::*;
use crate::context::{Context, Effect, Event, Schedulable, Timeout};
use crate::endpoint::Pipe;
use crate::global::SocketType;
use crate::id::EndpointId;
use crate::io_error::{invalid_input_io_error, timedout_io_error, ErrorKind, IoError};
use crate::message::{Message, MessageView};
use crate::proto::handles::{first_named, in_turn, token_of, Handle, Handles};
use crate::proto::pair::cancelled;
use crate::protocol::policy::priolist::{PrioList, Ring};
use crate::socket::{answers, Answer, ConfigOption, Protocol, Reply};
use crate::transport::Token;

verus! {

/// What a pull socket is doing for its user.
#[derive(Debug)]
pub enum State {
    /// Nothing.
    Idle,
    /// The pipe was asked for a message.
    Receiving(EndpointId, Timeout),
    /// The user waits for a pipe that has a message.
    RecvOnHold(Timeout),
}

/// The books of a pull socket.
pub struct Books {
    /// The pipes, in the order in which they were added.
    pub pipes: Seq<Handle>,
    /// The fair queue: the pipes by priority, those that have a message
    /// marked active, and the cursor on the one that is asked next.
    pub fq: Ring,
}

/// What a transition comes to.
pub struct Step {
    /// The state that it leads to.
    pub state: State,
    /// The books after it.
    pub books: Books,
    /// What was asked of the context, in order.
    pub asked: Seq<Effect>,
    /// What the user was answered, in order.
    pub answered: Seq<Answer>,
}

/// No pipe is there to receive from.
pub open spec fn not_connected() -> Answer {
    Answer::Failed(ErrorKind::NotConnected, "no connected endpoint"@)
}

/// A pull socket does not send.
pub open spec fn cannot_send() -> Answer {
    Answer::Failed(ErrorKind::InvalidInput, "a pull socket cannot send"@)
}

/// Nothing happens.
pub open spec fn step_stay(state: State, books: Books) -> Step {
    Step { state, books, asked: Seq::empty(), answered: Seq::empty() }
}

/// The books with a pipe added under `eid`: it is in the queue, open but
/// not yet known to have a message. A second pipe of one name is not taken
/// in.
pub open spec fn books_with_pipe(books: Books, eid: EndpointId, pipe: Pipe) -> Books {
    match first_named(books.pipes, 0, eid) {
        Some(_) => books,
        None => Books {
            pipes: books.pipes.push(Handle { eid, pipe }),
            fq: books.fq.inserted(token_of(eid), pipe.recv_priority()).shown(token_of(eid)),
        },
    }
}

/// The books with the pipe named `eid` let go.
pub open spec fn books_without_pipe(books: Books, eid: EndpointId) -> Books {
    Books {
        pipes: match first_named(books.pipes, 0, eid) {
            Some(i) => books.pipes.remove(i),
            None => books.pipes,
        },
        fq: books.fq.removed(token_of(eid)),
    }
}

/// The state once the pipe named `eid` has left: a receive that was with it
/// is put on hold.
pub open spec fn without_pipe(state: State, eid: EndpointId) -> State {
    match state {
        State::Receiving(id, timeout) if id == eid => State::RecvOnHold(timeout),
        any => any,
    }
}

/// The pipe whose turn it is is asked for a message, and is no longer taken
/// to have one; if it is no pipe's turn, the receive is put on hold.
pub open spec fn step_ask(books: Books, timeout: Timeout) -> Step {
    let after = Books { fq: books.fq.turn_taken(), ..books };
    match in_turn(books.fq, books.pipes) {
        Some(i) => Step {
            state: State::Receiving(books.pipes[i].eid, timeout),
            books: after,
            asked: seq![Effect::Recv(books.pipes[i].pipe.eid())],
            answered: Seq::empty(),
        },
        None => Step {
            state: State::RecvOnHold(timeout),
            books: after,
            asked: Seq::empty(),
            answered: Seq::empty(),
        },
    }
}

/// To receive: without a pipe the user is answered that the socket is not
/// connected, and the deadline is cleared; else the pipe whose turn it is
/// is asked.
pub open spec fn step_recv(books: Books, timeout: Timeout) -> Step {
    if books.pipes.len() == 0 {
        Step {
            state: State::Idle,
            books,
            asked: cancelled(timeout),
            answered: seq![not_connected()],
        }
    } else {
        step_ask(books, timeout)
    }
}

/// The pipe named `eid` has given the message `msg`: if it is the pipe that
/// was asked, the user is given the message and the deadline is cleared;
/// what comes from another pipe is dropped.
pub open spec fn step_on_recv_ack(state: State, books: Books, eid: EndpointId, msg: MessageView) -> Step {
    match state {
        State::Receiving(id, timeout) if id == eid => Step {
            state: State::Idle,
            books,
            asked: cancelled(timeout),
            answered: seq![Answer::Recv(msg)],
        },
        any => step_stay(any, books),
    }
}

/// The deadline of the receive has passed: the user is answered so.
pub open spec fn step_on_recv_timeout(books: Books) -> Step {
    Step {
        state: State::Idle,
        books,
        asked: Seq::empty(),
        answered: seq![Answer::Failed(ErrorKind::TimedOut, "Recv timed out"@)],
    }
}

/// The pipe named `eid` has a message: a receive on hold goes on; else the
/// socket's owner is told that there is something to receive.
pub open spec fn step_on_recv_ready(state: State, books: Books, eid: EndpointId) -> Step {
    let books = Books { fq: books.fq.activated(token_of(eid)), ..books };
    match state {
        State::RecvOnHold(timeout) => step_ask(books, timeout),
        any => Step {
            state: any,
            books,
            asked: seq![Effect::Raise(Event::CanRecv)],
            answered: Seq::empty(),
        },
    }
}

/// A pull socket does not send: the user is answered so, and the deadline
/// is cleared.
pub open spec fn step_send(state: State, books: Books, timeout: Timeout) -> Step {
    Step { state, books, asked: cancelled(timeout), answered: seq![cannot_send()] }
}

/// The part of a pull socket that its transitions work on: the pipes, the
/// fair queue, and the answers that the user is owed.
pub struct Inner {
    replies: Vec<Reply>,
    pipes: Handles,
    fq: PrioList,
}

impl Inner {
    pub closed spec fn books(&self) -> Books {
        Books { pipes: self.pipes@, fq: self.fq@ }
    }

    /// The answers that the user was not given yet, oldest first.
    pub closed spec fn replies(&self) -> Seq<Reply> {
        self.replies@
    }

    /// The fair queue is in order.
    pub open spec fn sound(&self) -> bool {
        self.books().fq.wf()
    }

    /// That `after` is `before` once the transition that comes to `step`
    /// was made, where `asked0` and `asked1` are the context's journal
    /// before and after it.
    pub open spec fn stepped(
        before: Inner,
        asked0: Seq<Effect>,
        step: Step,
        after: Inner,
        asked1: Seq<Effect>,
    ) -> bool {
        &&& after.books() == step.books
        &&& asked1 == asked0 + step.asked
        &&& answers(after.replies()) == answers(before.replies()) + step.answered
    }

    fn add_pipe<C: Context>(&mut self, ctx: &mut C, eid: EndpointId, pipe: Pipe)
        requires
            old(self).sound(),
        ensures
            final(self).sound(),
            final(self).replies() == old(self).replies(),
            final(self).books() == books_with_pipe(old(self).books(), eid, pipe),
            final(ctx).journal() == old(ctx).journal() + (match first_named(
                old(self).books().pipes,
                0,
                eid,
            ) {
                Some(_) => seq![Effect::Close(pipe.eid(), true)],
                None => Seq::empty(),
            }),
    {
        let priority = pipe.get_recv_priority();
        match self.pipes.enlist(&mut self.fq, eid, pipe, priority) {
            None => {
                proof {
                    assert(ctx.journal() =~= old(ctx).journal() + Seq::<Effect>::empty());
                }
            },
            Some(refused) => {
                refused.close(ctx);
                proof {
                    assert(ctx.journal() =~= old(ctx).journal() + seq![
                        Effect::Close(pipe.eid(), true),
                    ]);
                }
            },
        }
    }

    fn remove_pipe(&mut self, eid: EndpointId) -> (removed: Option<Pipe>)
        requires
            old(self).sound(),
        ensures
            final(self).sound(),
            final(self).replies() == old(self).replies(),
            final(self).books() == books_without_pipe(old(self).books(), eid),
            removed == (match first_named(old(self).books().pipes, 0, eid) {
                Some(i) => Some(old(self).books().pipes[i].pipe),
                None => None,
            }),
    {
        let ghost before = self.fq;
        self.fq.remove(&Token(eid.0));
        proof {
            crate::protocol::policy::priolist::rings_follow(before, self.fq, token_of(eid), 0);
        }
        self.pipes.remove(eid)
    }

    /// Gives the pipe whose turn it is its turn, and asks it for a message.
    fn ask<C: Context>(&mut self, ctx: &mut C) -> (from: Option<EndpointId>)
        requires
            old(self).sound(),
        ensures
            final(self).sound(),
            final(self).replies() == old(self).replies(),
            final(self).books() == (Books {
                fq: old(self).books().fq.turn_taken(),
                ..old(self).books()
            }),
            match in_turn(old(self).books().fq, old(self).books().pipes) {
                Some(i) => from == Some(old(self).books().pipes[i].eid) && final(ctx).journal()
                    == old(ctx).journal().push(
                    Effect::Recv(old(self).books().pipes[i].pipe.eid()),
                ),
                None => from is None && final(ctx).journal() == old(ctx).journal(),
            },
    {
        match self.pipes.take_turn(&mut self.fq) {
            Some((eid, pipe)) => {
                pipe.recv(ctx);
                Some(eid)
            },
            None => None,
        }
    }

    fn on_recv_ready(&mut self, eid: EndpointId)
        requires
            old(self).sound(),
        ensures
            final(self).sound(),
            final(self).replies() == old(self).replies(),
            final(self).books() == (Books {
                fq: old(self).books().fq.activated(token_of(eid)),
                ..old(self).books()
            }),
    {
        let ghost before = self.fq;
        self.fq.activate(Token(eid.0));
        proof {
            crate::protocol::policy::priolist::rings_follow(before, self.fq, token_of(eid), 0);
        }
    }

    /// Answers the user, and clears the deadline if one was set.
    fn answer<C: Context>(&mut self, ctx: &mut C, reply: Reply, timeout: Timeout)
        ensures
            final(self).sound() == old(self).sound(),
            final(self).books() == old(self).books(),
            answers(final(self).replies()) == answers(old(self).replies()) + seq![reply@],
            final(ctx).journal() == old(ctx).journal() + cancelled(timeout),
    {
        self.replies.push(reply);
        proof {
            assert(answers(self.replies()) =~= answers(old(self).replies()) + seq![reply@]);
        }
        if let Some(sched) = timeout {
            ctx.cancel(sched);
        }
        proof {
            assert(ctx.journal() =~= old(ctx).journal() + cancelled(timeout));
        }
    }

    fn close<C: Context>(&mut self, ctx: &mut C)
        requires
            old(self).sound(),
        ensures
            final(self).sound(),
            final(self).replies() == old(self).replies(),
            final(self).books().pipes.len() == 0,
            final(self).books().fq.items.len() == 0,
            final(self).books().fq.cursor is None,
            final(ctx).journal() == old(ctx).journal() + crate::proto::handles::asked_to_close_all(
                old(self).books().pipes,
            ),
    {
        self.pipes.close_all(ctx);
        self.fq = PrioList::new();
    }
}

/// That a transition made what `step` says: `next` is the state that it
/// leads to, and the inner part and the context's journal went along.
pub open spec fn made(
    step: Step,
    next: State,
    before: Inner,
    asked0: Seq<Effect>,
    after: Inner,
    asked1: Seq<Effect>,
) -> bool {
    next == step.state && Inner::stepped(before, asked0, step, after, asked1)
}

impl State {
    pub open spec fn spec_name(self) -> Seq<char> {
        match self {
            State::Idle => "Idle"@,
            State::Receiving(_, _) => "Receiving"@,
            State::RecvOnHold(_) => "RecvOnHold"@,
        }
    }

    pub fn name(&self) -> (name: &'static str)
        ensures
            name@ == self.spec_name(),
    {
        match *self {
            State::Idle => "Idle",
            State::Receiving(_, _) => "Receiving",
            State::RecvOnHold(_) => "RecvOnHold",
        }
    }

    fn on_pipe_removed(self, eid: EndpointId) -> (next: State)
        ensures
            next == without_pipe(self, eid),
    {
        match self {
            State::Receiving(id, timeout) => {
                if id == eid {
                    State::RecvOnHold(timeout)
                } else {
                    State::Receiving(id, timeout)
                }
            },
            any => any,
        }
    }

    /// Asks the pipe whose turn it is.
    fn ask<C: Context>(ctx: &mut C, inner: &mut Inner, timeout: Timeout) -> (next: State)
        requires
            old(inner).sound(),
        ensures
            final(inner).sound(),
            made(
                step_ask(old(inner).books(), timeout),
                next,
                *old(inner),
                old(ctx).journal(),
                *final(inner),
                final(ctx).journal(),
            ),
    {
        proof {
            assert(answers(inner.replies()) =~= answers(inner.replies()) + Seq::<Answer>::empty());
        }
        match inner.ask(ctx) {
            Some(eid) => {
                proof {
                    let i = in_turn(old(inner).books().fq, old(inner).books().pipes).unwrap();
                    assert(ctx.journal() =~= old(ctx).journal() + seq![
                        Effect::Recv(old(inner).books().pipes[i].pipe.eid()),
                    ]);
                }
                State::Receiving(eid, timeout)
            },
            None => {
                proof {
                    assert(ctx.journal() =~= old(ctx).journal() + Seq::<Effect>::empty());
                }
                State::RecvOnHold(timeout)
            },
        }
    }

    fn recv<C: Context>(self, ctx: &mut C, inner: &mut Inner, timeout: Timeout) -> (next: State)
        requires
            old(inner).sound(),
        ensures
            final(inner).sound(),
            made(
                step_recv(old(inner).books(), timeout),
                next,
                *old(inner),
                old(ctx).journal(),
                *final(inner),
                final(ctx).journal(),
            ),
    {
        if inner.pipes.is_empty() {
            let error = IoError::new(ErrorKind::NotConnected, "no connected endpoint");
            inner.answer(ctx, Reply::Failed(error), timeout);
            State::Idle
        } else {
            State::ask(ctx, inner, timeout)
        }
    }

    fn on_recv_ack<C: Context>(
        self,
        ctx: &mut C,
        inner: &mut Inner,
        eid: EndpointId,
        msg: Message,
    ) -> (next: State)
        ensures
            final(inner).sound() == old(inner).sound(),
            made(
                step_on_recv_ack(self, old(inner).books(), eid, msg@),
                next,
                *old(inner),
                old(ctx).journal(),
                *final(inner),
                final(ctx).journal(),
            ),
    {
        match self {
            State::Receiving(id, timeout) => {
                if id == eid {
                    inner.answer(ctx, Reply::Recv(msg), timeout);
                    State::Idle
                } else {
                    proof {
                        assert(ctx.journal() =~= old(ctx).journal() + Seq::<Effect>::empty());
                        assert(answers(inner.replies()) =~= answers(inner.replies()) + Seq::<
                            Answer,
                        >::empty());
                    }
                    State::Receiving(id, timeout)
                }
            },
            any => {
                proof {
                    assert(ctx.journal() =~= old(ctx).journal() + Seq::<Effect>::empty());
                    assert(answers(inner.replies()) =~= answers(inner.replies()) + Seq::<
                        Answer,
                    >::empty());
                }
                any
            },
        }
    }

    fn on_recv_timeout<C: Context>(self, ctx: &mut C, inner: &mut Inner) -> (next: State)
        ensures
            final(inner).sound() == old(inner).sound(),
            made(
                step_on_recv_timeout(old(inner).books()),
                next,
                *old(inner),
                old(ctx).journal(),
                *final(inner),
                final(ctx).journal(),
            ),
    {
        let error = timedout_io_error("Recv timed out");
        inner.answer(ctx, Reply::Failed(error), None);
        State::Idle
    }

    fn on_recv_ready<C: Context>(self, ctx: &mut C, inner: &mut Inner, eid: EndpointId) -> (next:
        State)
        requires
            old(inner).sound(),
        ensures
            final(inner).sound(),
            made(
                step_on_recv_ready(self, old(inner).books(), eid),
                next,
                *old(inner),
                old(ctx).journal(),
                *final(inner),
                final(ctx).journal(),
            ),
    {
        inner.on_recv_ready(eid);
        match self {
            State::RecvOnHold(timeout) => State::ask(ctx, inner, timeout),
            any => {
                ctx.raise(Event::CanRecv);
                proof {
                    assert(ctx.journal() =~= old(ctx).journal() + seq![
                        Effect::Raise(Event::CanRecv),
                    ]);
                    assert(answers(inner.replies()) =~= answers(inner.replies()) + Seq::<
                        Answer,
                    >::empty());
                }
                any
            },
        }
    }

    fn send<C: Context>(self, ctx: &mut C, inner: &mut Inner, timeout: Timeout) -> (next: State)
        ensures
            final(inner).sound() == old(inner).sound(),
            made(
                step_send(self, old(inner).books(), timeout),
                next,
                *old(inner),
                old(ctx).journal(),
                *final(inner),
                final(ctx).journal(),
            ),
    {
        let error = invalid_input_io_error("a pull socket cannot send");
        inner.answer(ctx, Reply::Failed(error), timeout);
        self
    }
}

/// The pull pattern: messages are taken from the pipes in turn, among those
/// that have one.
pub struct Pull {
    inner: Inner,
    state: Option<State>,
}

impl Pull {
    /// What the socket is doing: it is in a state but while a transition is
    /// made.
    pub closed spec fn state(&self) -> Option<State> {
        self.state
    }

    pub closed spec fn inner(&self) -> Inner {
        self.inner
    }

    pub fn new() -> (pull: Pull)
        ensures
            pull.sound(),
            pull.state() == Some(State::Idle),
            pull.inner().books().pipes.len() == 0,
            pull.inner().books().fq.items.len() == 0,
            pull.inner().books().fq.cursor is None,
            pull.inner().replies().len() == 0,
    {
        Pull {
            inner: Inner { replies: Vec::new(), pipes: Handles::new(), fq: PrioList::new() },
            state: Some(State::Idle),
        }
    }

    /// That `after` is `before` once the transition that comes to `step`
    /// was made, where `asked0` and `asked1` are the context's journal
    /// before and after it.
    pub open spec fn moved(
        before: Pull,
        asked0: Seq<Effect>,
        step: Step,
        after: Pull,
        asked1: Seq<Effect>,
    ) -> bool {
        &&& after.state() == Some(step.state)
        &&& Inner::stepped(before.inner(), asked0, step, after.inner(), asked1)
    }
}

impl Protocol for Pull {
    /// The fair queue is in order, and the socket is in a state.
    open spec fn sound(&self) -> bool {
        self.inner().sound() && self.state() is Some
    }

    open spec fn socket_type(&self) -> SocketType {
        SocketType::Pull
    }

    open spec fn owed(&self) -> Seq<Reply> {
        self.inner().replies()
    }

    fn id(&self) -> (id: u16)
        ensures
            id == SocketType::Pull.spec_id(),
    {
        SocketType::Pull.id()
    }

    fn peer_id(&self) -> (id: u16)
        ensures
            id == SocketType::Push.spec_id(),
    {
        SocketType::Pull.peer().id()
    }

    open spec fn did_set_option(
        before: Self,
        option: ConfigOption,
        after: Self,
        r: Result<(), IoError>,
    ) -> bool {
        &&& after == before
        &&& crate::io_error::fails_with(
            r,
            ErrorKind::InvalidInput,
            "the option is not one of this protocol"@,
        )
    }

    /// A pull socket has no option of its own.
    fn set_option(&mut self, option: ConfigOption) -> (r: Result<(), IoError>) {
        Err(invalid_input_io_error("the option is not one of this protocol"))
    }

    /// Hands out the answers that the user is owed, oldest first.
    fn take_replies(&mut self) -> (replies: Vec<Reply>)
        ensures
            replies@ == old(self).inner().replies(),
            final(self).inner().replies().len() == 0,
            final(self).inner().books() == old(self).inner().books(),
            final(self).inner().sound() == old(self).inner().sound(),
            final(self).state() == old(self).state(),
    {
        let mut replies: Vec<Reply> = Vec::new();
        replies.append(&mut self.inner.replies);
        replies
    }

    open spec fn did_add_pipe(
        before: Self,
        eid: EndpointId,
        pipe: Pipe,
        after: Self,
        asked0: Seq<Effect>,
        asked1: Seq<Effect>,
    ) -> bool {
        &&& after.state() == before.state()
        &&& after.inner().replies() == before.inner().replies()
        &&& after.inner().books() == books_with_pipe(before.inner().books(), eid, pipe)
        &&& asked1 == asked0 + (match first_named(
            before.inner().books().pipes,
            0,
            eid,
        ) {
            Some(_) => seq![Effect::Close(pipe.eid(), true)],
            None => Seq::empty(),
        })
    }

    /// Takes the pipe in, unless a pipe is known by that name already: then
    /// the new pipe is ordered to close.
    fn add_pipe<C: Context>(&mut self, ctx: &mut C, eid: EndpointId, pipe: Pipe) {
        self.inner.add_pipe(ctx, eid, pipe);
    }

    open spec fn did_remove_pipe(
        before: Self,
        eid: EndpointId,
        after: Self,
        asked0: Seq<Effect>,
        asked1: Seq<Effect>,
        removed: Option<Pipe>,
    ) -> bool {
        &&& removed == (match first_named(before.inner().books().pipes, 0, eid) {
            Some(i) => Some(before.inner().books().pipes[i].pipe),
            None => None,
        })
        &&& after.state() == Some(
            if removed is Some {
                without_pipe(before.state().unwrap(), eid)
            } else {
                before.state().unwrap()
            },
        )
        &&& after.inner().replies() == before.inner().replies()
        &&& after.inner().books() == books_without_pipe(before.inner().books(), eid)
        &&& asked1 == asked0
    }

    /// Lets the pipe go; a receive that was with it is put on hold.
    fn remove_pipe<C: Context>(&mut self, ctx: &mut C, eid: EndpointId) -> (removed: Option<Pipe>) {
        let pipe = self.inner.remove_pipe(eid);
        if pipe.is_some() {
            if let Some(state) = self.state.take() {
                self.state = Some(state.on_pipe_removed(eid));
            }
        }
        pipe
    }

    open spec fn did_send(
        before: Self,
        msg: Message,
        timeout: Timeout,
        after: Self,
        asked0: Seq<Effect>,
        asked1: Seq<Effect>,
    ) -> bool {
        Pull::moved(
            before,
            asked0,
            step_send(before.state().unwrap(), before.inner().books(), timeout),
            after,
            asked1,
        )
    }

    fn send<C: Context>(&mut self, ctx: &mut C, msg: Message, timeout: Timeout) {
        if let Some(state) = self.state.take() {
            let next = state.send(ctx, &mut self.inner, timeout);
            self.state = Some(next);
        }
    }

    open spec fn did_on_send_ack(
        before: Self,
        eid: EndpointId,
        after: Self,
        asked0: Seq<Effect>,
        asked1: Seq<Effect>,
    ) -> bool {
        &&& after == before
        &&& asked1 == asked0
    }

    /// Nothing goes out on a pull socket: what a pipe says of sending
    /// changes nothing.
    fn on_send_ack<C: Context>(&mut self, ctx: &mut C, eid: EndpointId) {
    }

    open spec fn did_on_send_timeout(
        before: Self,
        after: Self,
        asked0: Seq<Effect>,
        asked1: Seq<Effect>,
    ) -> bool {
        &&& after == before
        &&& asked1 == asked0
    }

    fn on_send_timeout<C: Context>(&mut self, ctx: &mut C) {
    }

    open spec fn did_on_send_ready(
        before: Self,
        eid: EndpointId,
        after: Self,
        asked0: Seq<Effect>,
        asked1: Seq<Effect>,
    ) -> bool {
        &&& after == before
        &&& asked1 == asked0
    }

    fn on_send_ready<C: Context>(&mut self, ctx: &mut C, eid: EndpointId) {
    }

    open spec fn did_recv(
        before: Self,
        timeout: Timeout,
        after: Self,
        asked0: Seq<Effect>,
        asked1: Seq<Effect>,
    ) -> bool {
        Pull::moved(
            before,
            asked0,
            step_recv(before.inner().books(), timeout),
            after,
            asked1,
        )
    }

    fn recv<C: Context>(&mut self, ctx: &mut C, timeout: Timeout) {
        if let Some(state) = self.state.take() {
            let next = state.recv(ctx, &mut self.inner, timeout);
            self.state = Some(next);
        }
    }

    open spec fn did_on_recv_ack(
        before: Self,
        eid: EndpointId,
        msg: Message,
        after: Self,
        asked0: Seq<Effect>,
        asked1: Seq<Effect>,
    ) -> bool {
        Pull::moved(
            before,
            asked0,
            step_on_recv_ack(before.state().unwrap(), before.inner().books(), eid, msg@),
            after,
            asked1,
        )
    }

    fn on_recv_ack<C: Context>(&mut self, ctx: &mut C, eid: EndpointId, msg: Message) {
        if let Some(state) = self.state.take() {
            let next = state.on_recv_ack(ctx, &mut self.inner, eid, msg);
            self.state = Some(next);
        }
    }

    open spec fn did_on_recv_timeout(
        before: Self,
        after: Self,
        asked0: Seq<Effect>,
        asked1: Seq<Effect>,
    ) -> bool {
        Pull::moved(
            before,
            asked0,
            step_on_recv_timeout(before.inner().books()),
            after,
            asked1,
        )
    }

    fn on_recv_timeout<C: Context>(&mut self, ctx: &mut C) {
        if let Some(state) = self.state.take() {
            let next = state.on_recv_timeout(ctx, &mut self.inner);
            self.state = Some(next);
        }
    }

    open spec fn did_on_recv_ready(
        before: Self,
        eid: EndpointId,
        after: Self,
        asked0: Seq<Effect>,
        asked1: Seq<Effect>,
    ) -> bool {
        Pull::moved(
            before,
            asked0,
            step_on_recv_ready(before.state().unwrap(), before.inner().books(), eid),
            after,
            asked1,
        )
    }

    fn on_recv_ready<C: Context>(&mut self, ctx: &mut C, eid: EndpointId) {
        if let Some(state) = self.state.take() {
            let next = state.on_recv_ready(ctx, &mut self.inner, eid);
            self.state = Some(next);
        }
    }

    open spec fn did_on_timer_tick(
        before: Self,
        task: Schedulable,
        after: Self,
        asked0: Seq<Effect>,
        asked1: Seq<Effect>,
    ) -> bool {
        &&& after == before
        &&& asked1 == asked0
    }

    /// A pull socket sets no timer of its own: nothing changes.
    fn on_timer_tick<C: Context>(&mut self, ctx: &mut C, task: Schedulable) {
    }

    open spec fn did_close(
        before: Self,
        after: Self,
        asked0: Seq<Effect>,
        asked1: Seq<Effect>,
    ) -> bool {
        &&& after.state() == before.state()
        &&& after.inner().replies() == before.inner().replies()
        &&& after.inner().books().pipes.len() == 0
        &&& after.inner().books().fq.items.len() == 0
        &&& after.inner().books().fq.cursor is None
        &&& asked1 == asked0 + crate::proto::handles::asked_to_close_all(
            before.inner().books().pipes,
        )
    }

    /// Orders every pipe to close, and lets them all go.
    fn close<C: Context>(&mut self, ctx: &mut C) {
        self.inner.close(ctx)
    }
}

/// Fair queueing. Let the pipes of a pull socket be known to the queue once
/// each, all with a message and all of one priority. A receive then asks the
/// pipe under the queue's cursor; and once that pipe has given its message
/// and has said that it has another, the socket is idle, the user has the
/// message, and the cursor has gone on by one pipe as `advance` moves it.
/// So the pipes are asked in turn, and of any number of messages that the
/// user is given each pipe gives its share, rounded down or up, as
/// `fair_share` counts.
pub proof fn pipes_are_asked_in_turn(books: Books, timeout: Timeout, msg: MessageView, c: int, i: int)
    requires
        books.fq.wf(),
        crate::protocol::policy::priolist::all_equal_and_eligible(books.fq.items),
        books.fq.cursor == Some(c),
        books.fq.position(books.fq.items[c].token) == Some(c),
        in_turn(books.fq, books.pipes) == Some(i),
    ensures
        ({
            let from = books.pipes[i].eid;
            let asked = step_recv(books, timeout);
            let given = step_on_recv_ack(asked.state, asked.books, from, msg);
            let ready = step_on_recv_ready(given.state, given.books, from);
            &&& token_of(from) == books.fq.items[c].token
            &&& asked.state == State::Receiving(from, timeout)
            &&& asked.asked == seq![Effect::Recv(books.pipes[i].pipe.eid())]
            &&& given.state == State::Idle
            &&& given.answered == seq![Answer::Recv(msg)]
            &&& ready.state == State::Idle
            &&& ready.books == (Books {
                pipes: books.pipes,
                fq: Ring {
                    items: books.fq.items,
                    cursor: crate::protocol::policy::priolist::next_after(books.fq.items, c),
                },
            })
        }),
{
    let token = books.fq.items[c].token;
    crate::proto::handles::first_named_finds(books.pipes, 0, crate::proto::handles::eid_of(token));
    assert(token_of(books.pipes[i].eid) == token);
    crate::protocol::policy::priolist::busy_and_back_is_a_turn(books.fq, c);
}

} // verus!
