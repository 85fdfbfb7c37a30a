use vstd::prelude::*;
use std::rc::Rc;
use crate::context::{Context, Effect, Schedulable, Timeout};
use crate::endpoint::Pipe;
use crate::global::SocketType;
use crate::id::EndpointId;
use crate::io_error::{invalid_input_io_error, timedout_io_error, ErrorKind, IoError};
use crate::message::{share, Message};
use crate::proto::handles::{first_named, in_turn, token_of, Handle, Handles};
use crate::proto::pair::cancelled;
use crate::protocol::policy::priolist::{PrioList, Ring};
use crate::socket::{answers, Answer, ConfigOption, Protocol, Reply};
use crate::transport::Token;

verus! {

/// What a push socket is doing for its user.
#[derive(Debug)]
pub enum State {
    /// Nothing.
    Idle,
    /// The message is with the pipe, to be sent.
    Sending(EndpointId, Rc<Message>, Timeout),
    /// The message waits for a pipe that can send.
    SendOnHold(Rc<Message>, Timeout),
}

/// The books of a push socket.
pub struct Books {
    /// The pipes, in the order in which they were added.
    pub pipes: Seq<Handle>,
    /// The balancer: the pipes by priority, those that can send marked
    /// active, and the cursor on the one that is given the next message.
    pub lb: Ring,
}

/// What a transition comes to.
pub struct Step {
    /// The state that it leads to.
    pub state: State,
    /// The books after it.
    pub books: Books,
    /// What was asked of the context, in order.
    pub asked: Seq<Effect>,
    /// What the user was answered, in order.
    pub answered: Seq<Answer>,
}

/// No pipe is there to send over.
pub open spec fn not_connected() -> Answer {
    Answer::Failed(ErrorKind::NotConnected, "no connected endpoint"@)
}

/// A push socket does not receive.
pub open spec fn cannot_receive() -> Answer {
    Answer::Failed(ErrorKind::InvalidInput, "a push socket cannot receive"@)
}

/// Nothing happens.
pub open spec fn step_stay(state: State, books: Books) -> Step {
    Step { state, books, asked: Seq::empty(), answered: Seq::empty() }
}

/// The books with a pipe added under `eid`: it is in the balancer, open but
/// not yet known to be able to send. A second pipe of one name is not taken
/// in.
pub open spec fn books_with_pipe(books: Books, eid: EndpointId, pipe: Pipe) -> Books {
    match first_named(books.pipes, 0, eid) {
        Some(_) => books,
        None => Books {
            pipes: books.pipes.push(Handle { eid, pipe }),
            lb: books.lb.inserted(token_of(eid), pipe.send_priority()).shown(token_of(eid)),
        },
    }
}

/// The books with the pipe named `eid` let go.
pub open spec fn books_without_pipe(books: Books, eid: EndpointId) -> Books {
    Books {
        pipes: match first_named(books.pipes, 0, eid) {
            Some(i) => books.pipes.remove(i),
            None => books.pipes,
        },
        lb: books.lb.removed(token_of(eid)),
    }
}

/// The state once the pipe named `eid` has left: what was with it is put
/// on hold.
pub open spec fn without_pipe(state: State, eid: EndpointId) -> State {
    match state {
        State::Sending(id, msg, timeout) if id == eid => State::SendOnHold(msg, timeout),
        any => any,
    }
}

/// The message is given to the pipe whose turn it is, which is no longer
/// taken to be able to send; if it is no pipe's turn, the message is put on
/// hold.
pub open spec fn step_hand(books: Books, msg: Rc<Message>, timeout: Timeout) -> Step {
    let after = Books { lb: books.lb.turn_taken(), ..books };
    match in_turn(books.lb, books.pipes) {
        Some(i) => Step {
            state: State::Sending(books.pipes[i].eid, msg, timeout),
            books: after,
            asked: seq![Effect::Send(books.pipes[i].pipe.eid(), msg)],
            answered: Seq::empty(),
        },
        None => Step {
            state: State::SendOnHold(msg, timeout),
            books: after,
            asked: Seq::empty(),
            answered: Seq::empty(),
        },
    }
}

/// To send: without a pipe the user is answered that the socket is not
/// connected, and the deadline is cleared; else the message is handed to a
/// pipe.
pub open spec fn step_send(books: Books, msg: Rc<Message>, timeout: Timeout) -> Step {
    if books.pipes.len() == 0 {
        Step {
            state: State::Idle,
            books,
            asked: cancelled(timeout),
            answered: seq![not_connected()],
        }
    } else {
        step_hand(books, msg, timeout)
    }
}

/// The pipe named `eid` has sent a message: if it is the one that the user
/// is sending, the user is answered and the deadline is cleared.
pub open spec fn step_on_send_ack(state: State, books: Books, eid: EndpointId) -> Step {
    match state {
        State::Sending(id, _, timeout) if id == eid => Step {
            state: State::Idle,
            books,
            asked: cancelled(timeout),
            answered: seq![Answer::Send],
        },
        any => step_stay(any, books),
    }
}

/// The deadline of the send has passed: the user is answered so.
pub open spec fn step_on_send_timeout(books: Books) -> Step {
    Step {
        state: State::Idle,
        books,
        asked: Seq::empty(),
        answered: seq![Answer::Failed(ErrorKind::TimedOut, "Send timed out"@)],
    }
}

/// The pipe named `eid` can send: a message on hold is handed to the pipe
/// whose turn it is.
pub open spec fn step_on_send_ready(state: State, books: Books, eid: EndpointId) -> Step {
    let books = Books { lb: books.lb.activated(token_of(eid)), ..books };
    match state {
        State::SendOnHold(msg, timeout) => step_hand(books, msg, timeout),
        any => step_stay(any, books),
    }
}

/// A push socket does not receive: the user is answered so, and the
/// deadline is cleared.
pub open spec fn step_recv(state: State, books: Books, timeout: Timeout) -> Step {
    Step { state, books, asked: cancelled(timeout), answered: seq![cannot_receive()] }
}

/// The part of a push socket that its transitions work on: the pipes, the
/// balancer, and the answers that the user is owed.
pub struct Inner {
    replies: Vec<Reply>,
    pipes: Handles,
    lb: PrioList,
}

impl Inner {
    pub closed spec fn books(&self) -> Books {
        Books { pipes: self.pipes@, lb: self.lb@ }
    }

    /// The answers that the user was not given yet, oldest first.
    pub closed spec fn replies(&self) -> Seq<Reply> {
        self.replies@
    }

    /// The balancer is in order.
    pub open spec fn sound(&self) -> bool {
        self.books().lb.wf()
    }

    /// That `after` is `before` once the transition that comes to `step`
    /// was made, where `asked0` and `asked1` are the context's journal
    /// before and after it.
    pub open spec fn stepped(
        before: Inner,
        asked0: Seq<Effect>,
        step: Step,
        after: Inner,
        asked1: Seq<Effect>,
    ) -> bool {
        &&& after.books() == step.books
        &&& asked1 == asked0 + step.asked
        &&& answers(after.replies()) == answers(before.replies()) + step.answered
    }

    fn add_pipe<C: Context>(&mut self, ctx: &mut C, eid: EndpointId, pipe: Pipe)
        requires
            old(self).sound(),
        ensures
            final(self).sound(),
            final(self).replies() == old(self).replies(),
            final(self).books() == books_with_pipe(old(self).books(), eid, pipe),
            final(ctx).journal() == old(ctx).journal() + (match first_named(
                old(self).books().pipes,
                0,
                eid,
            ) {
                Some(_) => seq![Effect::Close(pipe.eid(), true)],
                None => Seq::empty(),
            }),
    {
        let priority = pipe.get_send_priority();
        match self.pipes.enlist(&mut self.lb, eid, pipe, priority) {
            None => {
                proof {
                    assert(ctx.journal() =~= old(ctx).journal() + Seq::<Effect>::empty());
                }
            },
            Some(refused) => {
                refused.close(ctx);
                proof {
                    assert(ctx.journal() =~= old(ctx).journal() + seq![
                        Effect::Close(pipe.eid(), true),
                    ]);
                }
            },
        }
    }

    fn remove_pipe(&mut self, eid: EndpointId) -> (removed: Option<Pipe>)
        requires
            old(self).sound(),
        ensures
            final(self).sound(),
            final(self).replies() == old(self).replies(),
            final(self).books() == books_without_pipe(old(self).books(), eid),
            removed == (match first_named(old(self).books().pipes, 0, eid) {
                Some(i) => Some(old(self).books().pipes[i].pipe),
                None => None,
            }),
    {
        let ghost before = self.lb;
        self.lb.remove(&Token(eid.0));
        proof {
            crate::protocol::policy::priolist::rings_follow(before, self.lb, token_of(eid), 0);
        }
        self.pipes.remove(eid)
    }

    /// Gives the pipe whose turn it is its turn, and orders it to send the
    /// message.
    fn hand<C: Context>(&mut self, ctx: &mut C, msg: Rc<Message>) -> (to: Option<EndpointId>)
        requires
            old(self).sound(),
        ensures
            final(self).sound(),
            final(self).replies() == old(self).replies(),
            final(self).books() == (Books {
                lb: old(self).books().lb.turn_taken(),
                ..old(self).books()
            }),
            match in_turn(old(self).books().lb, old(self).books().pipes) {
                Some(i) => to == Some(old(self).books().pipes[i].eid) && final(ctx).journal()
                    == old(ctx).journal().push(
                    Effect::Send(old(self).books().pipes[i].pipe.eid(), msg),
                ),
                None => to is None && final(ctx).journal() == old(ctx).journal(),
            },
    {
        match self.pipes.take_turn(&mut self.lb) {
            Some((eid, pipe)) => {
                pipe.send(ctx, msg);
                Some(eid)
            },
            None => None,
        }
    }

    fn on_send_ready(&mut self, eid: EndpointId)
        requires
            old(self).sound(),
        ensures
            final(self).sound(),
            final(self).replies() == old(self).replies(),
            final(self).books() == (Books {
                lb: old(self).books().lb.activated(token_of(eid)),
                ..old(self).books()
            }),
    {
        let ghost before = self.lb;
        self.lb.activate(Token(eid.0));
        proof {
            crate::protocol::policy::priolist::rings_follow(before, self.lb, token_of(eid), 0);
        }
    }

    /// Answers the user, and clears the deadline if one was set.
    fn answer<C: Context>(&mut self, ctx: &mut C, reply: Reply, timeout: Timeout)
        ensures
            final(self).sound() == old(self).sound(),
            final(self).books() == old(self).books(),
            answers(final(self).replies()) == answers(old(self).replies()) + seq![reply@],
            final(ctx).journal() == old(ctx).journal() + cancelled(timeout),
    {
        self.replies.push(reply);
        proof {
            assert(answers(self.replies()) =~= answers(old(self).replies()) + seq![reply@]);
        }
        if let Some(sched) = timeout {
            ctx.cancel(sched);
        }
        proof {
            assert(ctx.journal() =~= old(ctx).journal() + cancelled(timeout));
        }
    }

    fn close<C: Context>(&mut self, ctx: &mut C)
        requires
            old(self).sound(),
        ensures
            final(self).sound(),
            final(self).replies() == old(self).replies(),
            final(self).books().pipes.len() == 0,
            final(self).books().lb.items.len() == 0,
            final(self).books().lb.cursor is None,
            final(ctx).journal() == old(ctx).journal() + crate::proto::handles::asked_to_close_all(
                old(self).books().pipes,
            ),
    {
        self.pipes.close_all(ctx);
        self.lb = PrioList::new();
    }
}

/// That a transition made what `step` says: `next` is the state that it
/// leads to, and the inner part and the context's journal went along.
pub open spec fn made(
    step: Step,
    next: State,
    before: Inner,
    asked0: Seq<Effect>,
    after: Inner,
    asked1: Seq<Effect>,
) -> bool {
    next == step.state && Inner::stepped(before, asked0, step, after, asked1)
}

impl State {
    pub open spec fn spec_name(self) -> Seq<char> {
        match self {
            State::Idle => "Idle"@,
            State::Sending(_, _, _) => "Sending"@,
            State::SendOnHold(_, _) => "SendOnHold"@,
        }
    }

    pub fn name(&self) -> (name: &'static str)
        ensures
            name@ == self.spec_name(),
    {
        match *self {
            State::Idle => "Idle",
            State::Sending(_, _, _) => "Sending",
            State::SendOnHold(_, _) => "SendOnHold",
        }
    }

    fn on_pipe_removed(self, eid: EndpointId) -> (next: State)
        ensures
            next == without_pipe(self, eid),
    {
        match self {
            State::Sending(id, msg, timeout) => {
                if id == eid {
                    State::SendOnHold(msg, timeout)
                } else {
                    State::Sending(id, msg, timeout)
                }
            },
            any => any,
        }
    }

    /// Hands the message to the pipe whose turn it is.
    fn hand<C: Context>(ctx: &mut C, inner: &mut Inner, msg: Rc<Message>, timeout: Timeout) -> (next:
        State)
        requires
            old(inner).sound(),
        ensures
            final(inner).sound(),
            made(
                step_hand(old(inner).books(), msg, timeout),
                next,
                *old(inner),
                old(ctx).journal(),
                *final(inner),
                final(ctx).journal(),
            ),
    {
        proof {
            assert(answers(inner.replies()) =~= answers(inner.replies()) + Seq::<Answer>::empty());
        }
        match inner.hand(ctx, share(&msg)) {
            Some(eid) => {
                proof {
                    let i = in_turn(old(inner).books().lb, old(inner).books().pipes).unwrap();
                    assert(ctx.journal() =~= old(ctx).journal() + seq![
                        Effect::Send(old(inner).books().pipes[i].pipe.eid(), msg),
                    ]);
                }
                State::Sending(eid, msg, timeout)
            },
            None => {
                proof {
                    assert(ctx.journal() =~= old(ctx).journal() + Seq::<Effect>::empty());
                }
                State::SendOnHold(msg, timeout)
            },
        }
    }

    fn send<C: Context>(self, ctx: &mut C, inner: &mut Inner, msg: Rc<Message>, timeout: Timeout) -> (next:
        State)
        requires
            old(inner).sound(),
        ensures
            final(inner).sound(),
            made(
                step_send(old(inner).books(), msg, timeout),
                next,
                *old(inner),
                old(ctx).journal(),
                *final(inner),
                final(ctx).journal(),
            ),
    {
        if inner.pipes.is_empty() {
            let error = IoError::new(ErrorKind::NotConnected, "no connected endpoint");
            inner.answer(ctx, Reply::Failed(error), timeout);
            State::Idle
        } else {
            State::hand(ctx, inner, msg, timeout)
        }
    }

    fn on_send_ack<C: Context>(self, ctx: &mut C, inner: &mut Inner, eid: EndpointId) -> (next:
        State)
        ensures
            final(inner).sound() == old(inner).sound(),
            made(
                step_on_send_ack(self, old(inner).books(), eid),
                next,
                *old(inner),
                old(ctx).journal(),
                *final(inner),
                final(ctx).journal(),
            ),
    {
        match self {
            State::Sending(id, msg, timeout) => {
                if id == eid {
                    inner.answer(ctx, Reply::Send, timeout);
                    State::Idle
                } else {
                    proof {
                        assert(ctx.journal() =~= old(ctx).journal() + Seq::<Effect>::empty());
                        assert(answers(inner.replies()) =~= answers(inner.replies()) + Seq::<
                            Answer,
                        >::empty());
                    }
                    State::Sending(id, msg, timeout)
                }
            },
            any => {
                proof {
                    assert(ctx.journal() =~= old(ctx).journal() + Seq::<Effect>::empty());
                    assert(answers(inner.replies()) =~= answers(inner.replies()) + Seq::<
                        Answer,
                    >::empty());
                }
                any
            },
        }
    }

    fn on_send_timeout<C: Context>(self, ctx: &mut C, inner: &mut Inner) -> (next: State)
        ensures
            final(inner).sound() == old(inner).sound(),
            made(
                step_on_send_timeout(old(inner).books()),
                next,
                *old(inner),
                old(ctx).journal(),
                *final(inner),
                final(ctx).journal(),
            ),
    {
        let error = timedout_io_error("Send timed out");
        inner.answer(ctx, Reply::Failed(error), None);
        State::Idle
    }

    fn on_send_ready<C: Context>(self, ctx: &mut C, inner: &mut Inner, eid: EndpointId) -> (next:
        State)
        requires
            old(inner).sound(),
        ensures
            final(inner).sound(),
            made(
                step_on_send_ready(self, old(inner).books(), eid),
                next,
                *old(inner),
                old(ctx).journal(),
                *final(inner),
                final(ctx).journal(),
            ),
    {
        inner.on_send_ready(eid);
        match self {
            State::SendOnHold(msg, timeout) => State::hand(ctx, inner, msg, timeout),
            any => {
                proof {
                    assert(ctx.journal() =~= old(ctx).journal() + Seq::<Effect>::empty());
                    assert(answers(inner.replies()) =~= answers(inner.replies()) + Seq::<
                        Answer,
                    >::empty());
                }
                any
            },
        }
    }

    fn recv<C: Context>(self, ctx: &mut C, inner: &mut Inner, timeout: Timeout) -> (next: State)
        ensures
            final(inner).sound() == old(inner).sound(),
            made(
                step_recv(self, old(inner).books(), timeout),
                next,
                *old(inner),
                old(ctx).journal(),
                *final(inner),
                final(ctx).journal(),
            ),
    {
        let error = invalid_input_io_error("a push socket cannot receive");
        inner.answer(ctx, Reply::Failed(error), timeout);
        self
    }
}

/// The push pattern: each message goes to one of the pipes, in turn among
/// those that can send.
pub struct Push {
    inner: Inner,
    state: Option<State>,
}

impl Push {
    /// What the socket is doing: it is in a state but while a transition is
    /// made.
    pub closed spec fn state(&self) -> Option<State> {
        self.state
    }

    pub closed spec fn inner(&self) -> Inner {
        self.inner
    }

    pub fn new() -> (push: Push)
        ensures
            push.sound(),
            push.state() == Some(State::Idle),
            push.inner().books().pipes.len() == 0,
            push.inner().books().lb.items.len() == 0,
            push.inner().books().lb.cursor is None,
            push.inner().replies().len() == 0,
    {
        Push {
            inner: Inner { replies: Vec::new(), pipes: Handles::new(), lb: PrioList::new() },
            state: Some(State::Idle),
        }
    }

    /// That `after` is `before` once the transition that comes to `step`
    /// was made, where `asked0` and `asked1` are the context's journal
    /// before and after it.
    pub open spec fn moved(
        before: Push,
        asked0: Seq<Effect>,
        step: Step,
        after: Push,
        asked1: Seq<Effect>,
    ) -> bool {
        &&& after.state() == Some(step.state)
        &&& Inner::stepped(before.inner(), asked0, step, after.inner(), asked1)
    }
}

impl Protocol for Push {
    /// The balancer is in order, and the socket is in a state.
    open spec fn sound(&self) -> bool {
        self.inner().sound() && self.state() is Some
    }

    open spec fn socket_type(&self) -> SocketType {
        SocketType::Push
    }

    open spec fn owed(&self) -> Seq<Reply> {
        self.inner().replies()
    }

    fn id(&self) -> (id: u16)
        ensures
            id == SocketType::Push.spec_id(),
    {
        SocketType::Push.id()
    }

    fn peer_id(&self) -> (id: u16)
        ensures
            id == SocketType::Pull.spec_id(),
    {
        SocketType::Push.peer().id()
    }

    open spec fn did_set_option(
        before: Self,
        option: ConfigOption,
        after: Self,
        r: Result<(), IoError>,
    ) -> bool {
        &&& after == before
        &&& crate::io_error::fails_with(
            r,
            ErrorKind::InvalidInput,
            "the option is not one of this protocol"@,
        )
    }

    /// A push socket has no option of its own.
    fn set_option(&mut self, option: ConfigOption) -> (r: Result<(), IoError>) {
        Err(invalid_input_io_error("the option is not one of this protocol"))
    }

    /// Hands out the answers that the user is owed, oldest first.
    fn take_replies(&mut self) -> (replies: Vec<Reply>)
        ensures
            replies@ == old(self).inner().replies(),
            final(self).inner().replies().len() == 0,
            final(self).inner().books() == old(self).inner().books(),
            final(self).inner().sound() == old(self).inner().sound(),
            final(self).state() == old(self).state(),
    {
        let mut replies: Vec<Reply> = Vec::new();
        replies.append(&mut self.inner.replies);
        replies
    }

    open spec fn did_add_pipe(
        before: Self,
        eid: EndpointId,
        pipe: Pipe,
        after: Self,
        asked0: Seq<Effect>,
        asked1: Seq<Effect>,
    ) -> bool {
        &&& after.state() == before.state()
        &&& after.inner().replies() == before.inner().replies()
        &&& after.inner().books() == books_with_pipe(before.inner().books(), eid, pipe)
        &&& asked1 == asked0 + (match first_named(
            before.inner().books().pipes,
            0,
            eid,
        ) {
            Some(_) => seq![Effect::Close(pipe.eid(), true)],
            None => Seq::empty(),
        })
    }

    /// Takes the pipe in, unless a pipe is known by that name already: then
    /// the new pipe is ordered to close.
    fn add_pipe<C: Context>(&mut self, ctx: &mut C, eid: EndpointId, pipe: Pipe) {
        self.inner.add_pipe(ctx, eid, pipe);
    }

    open spec fn did_remove_pipe(
        before: Self,
        eid: EndpointId,
        after: Self,
        asked0: Seq<Effect>,
        asked1: Seq<Effect>,
        removed: Option<Pipe>,
    ) -> bool {
        &&& removed == (match first_named(before.inner().books().pipes, 0, eid) {
            Some(i) => Some(before.inner().books().pipes[i].pipe),
            None => None,
        })
        &&& after.state() == Some(
            if removed is Some {
                without_pipe(before.state().unwrap(), eid)
            } else {
                before.state().unwrap()
            },
        )
        &&& after.inner().replies() == before.inner().replies()
        &&& after.inner().books() == books_without_pipe(before.inner().books(), eid)
        &&& asked1 == asked0
    }

    /// Lets the pipe go; what was with it is put on hold.
    fn remove_pipe<C: Context>(&mut self, ctx: &mut C, eid: EndpointId) -> (removed: Option<Pipe>) {
        let pipe = self.inner.remove_pipe(eid);
        if pipe.is_some() {
            if let Some(state) = self.state.take() {
                self.state = Some(state.on_pipe_removed(eid));
            }
        }
        pipe
    }

    open spec fn did_send(
        before: Self,
        msg: Message,
        timeout: Timeout,
        after: Self,
        asked0: Seq<Effect>,
        asked1: Seq<Effect>,
    ) -> bool {
        exists|shared: Rc<Message>|
            shared == msg && #[trigger] Push::moved(
                before,
                asked0,
                step_send(before.inner().books(), shared, timeout),
                after,
                asked1,
            )
    }

    fn send<C: Context>(&mut self, ctx: &mut C, msg: Message, timeout: Timeout) {
        if let Some(state) = self.state.take() {
            let shared = Rc::new(msg);
            let ghost witness = shared;
            let next = state.send(ctx, &mut self.inner, shared, timeout);
            self.state = Some(next);
            proof {
                assert(Push::moved(
                    *old(self),
                    old(ctx).journal(),
                    step_send(old(self).inner().books(), witness, timeout),
                    *self,
                    ctx.journal(),
                ));
            }
        }
    }

    open spec fn did_on_send_ack(
        before: Self,
        eid: EndpointId,
        after: Self,
        asked0: Seq<Effect>,
        asked1: Seq<Effect>,
    ) -> bool {
        Push::moved(
            before,
            asked0,
            step_on_send_ack(before.state().unwrap(), before.inner().books(), eid),
            after,
            asked1,
        )
    }

    fn on_send_ack<C: Context>(&mut self, ctx: &mut C, eid: EndpointId) {
        if let Some(state) = self.state.take() {
            let next = state.on_send_ack(ctx, &mut self.inner, eid);
            self.state = Some(next);
        }
    }

    open spec fn did_on_send_timeout(
        before: Self,
        after: Self,
        asked0: Seq<Effect>,
        asked1: Seq<Effect>,
    ) -> bool {
        Push::moved(
            before,
            asked0,
            step_on_send_timeout(before.inner().books()),
            after,
            asked1,
        )
    }

    fn on_send_timeout<C: Context>(&mut self, ctx: &mut C) {
        if let Some(state) = self.state.take() {
            let next = state.on_send_timeout(ctx, &mut self.inner);
            self.state = Some(next);
        }
    }

    open spec fn did_on_send_ready(
        before: Self,
        eid: EndpointId,
        after: Self,
        asked0: Seq<Effect>,
        asked1: Seq<Effect>,
    ) -> bool {
        Push::moved(
            before,
            asked0,
            step_on_send_ready(before.state().unwrap(), before.inner().books(), eid),
            after,
            asked1,
        )
    }

    fn on_send_ready<C: Context>(&mut self, ctx: &mut C, eid: EndpointId) {
        if let Some(state) = self.state.take() {
            let next = state.on_send_ready(ctx, &mut self.inner, eid);
            self.state = Some(next);
        }
    }

    open spec fn did_recv(
        before: Self,
        timeout: Timeout,
        after: Self,
        asked0: Seq<Effect>,
        asked1: Seq<Effect>,
    ) -> bool {
        Push::moved(
            before,
            asked0,
            step_recv(before.state().unwrap(), before.inner().books(), timeout),
            after,
            asked1,
        )
    }

    fn recv<C: Context>(&mut self, ctx: &mut C, timeout: Timeout) {
        if let Some(state) = self.state.take() {
            let next = state.recv(ctx, &mut self.inner, timeout);
            self.state = Some(next);
        }
    }

    open spec fn did_on_recv_ack(
        before: Self,
        eid: EndpointId,
        msg: Message,
        after: Self,
        asked0: Seq<Effect>,
        asked1: Seq<Effect>,
    ) -> bool {
        &&& after == before
        &&& asked1 == asked0
    }

    /// Nothing comes in on a push socket: what a pipe says of receiving
    /// changes nothing.
    fn on_recv_ack<C: Context>(&mut self, ctx: &mut C, eid: EndpointId, msg: Message) {
    }

    open spec fn did_on_recv_timeout(
        before: Self,
        after: Self,
        asked0: Seq<Effect>,
        asked1: Seq<Effect>,
    ) -> bool {
        &&& after == before
        &&& asked1 == asked0
    }

    fn on_recv_timeout<C: Context>(&mut self, ctx: &mut C) {
    }

    open spec fn did_on_recv_ready(
        before: Self,
        eid: EndpointId,
        after: Self,
        asked0: Seq<Effect>,
        asked1: Seq<Effect>,
    ) -> bool {
        &&& after == before
        &&& asked1 == asked0
    }

    fn on_recv_ready<C: Context>(&mut self, ctx: &mut C, eid: EndpointId) {
    }

    open spec fn did_on_timer_tick(
        before: Self,
        task: Schedulable,
        after: Self,
        asked0: Seq<Effect>,
        asked1: Seq<Effect>,
    ) -> bool {
        &&& after == before
        &&& asked1 == asked0
    }

    /// A push socket sets no timer of its own: nothing changes.
    fn on_timer_tick<C: Context>(&mut self, ctx: &mut C, task: Schedulable) {
    }

    open spec fn did_close(
        before: Self,
        after: Self,
        asked0: Seq<Effect>,
        asked1: Seq<Effect>,
    ) -> bool {
        &&& after.state() == before.state()
        &&& after.inner().replies() == before.inner().replies()
        &&& after.inner().books().pipes.len() == 0
        &&& after.inner().books().lb.items.len() == 0
        &&& after.inner().books().lb.cursor is None
        &&& asked1 == asked0 + crate::proto::handles::asked_to_close_all(
            before.inner().books().pipes,
        )
    }

    /// Orders every pipe to close, and lets them all go.
    fn close<C: Context>(&mut self, ctx: &mut C) {
        self.inner.close(ctx)
    }
}

/// Load balancing. Let the pipes of a push socket be known to the balancer
/// once each, all able to send and all of one priority. A message then goes
/// to the pipe under the balancer's cursor; and once that pipe has sent it
/// and has said that it can send again, the socket is idle, the user has
/// been answered, and the cursor has gone on by one pipe as `advance` moves
/// it. So the pipes are given the messages in turn, and of any number of
/// messages each pipe gets its share, rounded down or up, as `fair_share`
/// counts.
pub proof fn messages_go_round(books: Books, msg: Rc<Message>, timeout: Timeout, c: int, i: int)
    requires
        books.lb.wf(),
        crate::protocol::policy::priolist::all_equal_and_eligible(books.lb.items),
        books.lb.cursor == Some(c),
        books.lb.position(books.lb.items[c].token) == Some(c),
        in_turn(books.lb, books.pipes) == Some(i),
    ensures
        ({
            let to = books.pipes[i].eid;
            let sent = step_send(books, msg, timeout);
            let acked = step_on_send_ack(sent.state, sent.books, to);
            let ready = step_on_send_ready(acked.state, acked.books, to);
            &&& token_of(to) == books.lb.items[c].token
            &&& sent.state == State::Sending(to, msg, timeout)
            &&& sent.asked == seq![Effect::Send(books.pipes[i].pipe.eid(), msg)]
            &&& acked.state == State::Idle
            &&& acked.answered == seq![Answer::Send]
            &&& ready.state == State::Idle
            &&& ready.books == (Books {
                pipes: books.pipes,
                lb: Ring {
                    items: books.lb.items,
                    cursor: crate::protocol::policy::priolist::next_after(books.lb.items, c),
                },
            })
        }),
{
    let token = books.lb.items[c].token;
    crate::proto::handles::first_named_finds(books.pipes, 0, crate::proto::handles::eid_of(token));
    assert(token_of(books.pipes[i].eid) == token);
    crate::protocol::policy::priolist::busy_and_back_is_a_turn(books.lb, c);
}

} // verus!
