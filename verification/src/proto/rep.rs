use vstd::prelude::*;
use std::rc::Rc;
use crate::context::{Context, Effect, Event, Schedulable, Timeout};
use crate::endpoint::Pipe;
use crate::global::SocketType;
use crate::id::EndpointId;
use crate::io_error::{invalid_input_io_error, timedout_io_error, ErrorKind, IoError};
use crate::message::{Message, MessageView};
use crate::proto::handles::{first_named, in_turn, token_of, Handle, Handles};
use crate::proto::pair::cancelled;
use crate::protocol::policy::priolist::{PrioList, Ring};
use crate::protocol::with_backtrace::{Backtrace, WithBacktrace};
use crate::socket::{answers, Answer, ConfigOption, Protocol, Reply};
use crate::transport::Token;

verus! {

/// What a reply socket is doing for its user.
#[derive(Debug)]
pub enum State {
    /// Nothing: there is no request to answer.
    Idle,
    /// The pipe was asked for a request.
    Receiving(EndpointId, Timeout),
    /// The user waits for a pipe that has a request.
    RecvOnHold(Timeout),
    /// The user has the request that came from the pipe, and may answer it.
    Active(EndpointId),
    /// The reply is with the pipe, to be sent.
    Sending(EndpointId, Rc<Message>, Timeout),
}

/// Where the routing header at the front of `payload` ends, read from
/// `from` on: it is made of words of four bytes, the last of which is the
/// first that has its top bit set, the request's number. `None` where the
/// payload ends before such a word.
pub open spec fn header_end(payload: Seq<u8>, from: int) -> Option<int>
    decreases payload.len() - from,
{
    if from < 0 || from + 4 > payload.len() {
        None
    } else if payload[from] >= 0x80 {
        Some(from + 4)
    } else {
        header_end(payload, from + 4)
    }
}

/// Parts a request into its routing header and the user's bytes, or gives
/// nothing where the routing header does not end.
pub fn split_request(payload: Vec<u8>) -> (parts: Option<(Vec<u8>, Vec<u8>)>)
    ensures
        match header_end(payload@, 0) {
            Some(n) => parts matches Some(p) && p.0@ == payload@.take(n) && p.1@ == payload@.skip(n),
            None => parts is None,
        },
{
    let mut at: usize = 0;
    while payload.len() - at >= 4
        invariant
            at <= payload@.len(),
            header_end(payload@, 0) == header_end(payload@, at as int),
        decreases payload@.len() - at,
    {
        if payload[at] >= 0x80 {
            let mut header = payload;
            let body = header.split_off(at + 4);
            return Some((header, body));
        }
        at = at + 4;
    }
    None
}

/// The books of a reply socket.
pub struct Books {
    /// The pipes, in the order in which they were added.
    pub pipes: Seq<Handle>,
    /// The fair queue: the pipes by priority, those that have a message
    /// marked active, and the cursor on the one that is asked next.
    pub fq: Ring,
    /// The routing header of the request that the user may answer.
    pub backtrace: Seq<u8>,
}

/// What a transition comes to.
pub struct Step {
    /// The state that it leads to.
    pub state: State,
    /// The books after it.
    pub books: Books,
    /// What was asked of the context, in order.
    pub asked: Seq<Effect>,
    /// What the user was answered, in order.
    pub answered: Seq<Answer>,
}

/// No pipe is there to receive from.
pub open spec fn not_connected() -> Answer {
    Answer::Failed(ErrorKind::NotConnected, "no connected endpoint"@)
}

/// There is no request to answer.
pub open spec fn no_request() -> Answer {
    Answer::Failed(ErrorKind::InvalidInput, "Can't send: no pending request"@)
}

/// The pipe that the request came from has left.
pub open spec fn requester_gone() -> Answer {
    Answer::Failed(ErrorKind::NotConnected, "the pipe of the request is gone"@)
}

/// The reply and the routing header are more than a message can hold.
pub open spec fn too_long() -> Answer {
    Answer::Failed(ErrorKind::InvalidInput, "the message is too long"@)
}

/// Nothing happens.
pub open spec fn step_stay(state: State, books: Books) -> Step {
    Step { state, books, asked: Seq::empty(), answered: Seq::empty() }
}

/// The books with a pipe added under `eid`: it is in the queue, open but not
/// yet known to have a message. A second pipe of one name is not taken in.
pub open spec fn books_with_pipe(books: Books, eid: EndpointId, pipe: Pipe) -> Books {
    match first_named(books.pipes, 0, eid) {
        Some(_) => books,
        None => Books {
            pipes: books.pipes.push(Handle { eid, pipe }),
            fq: books.fq.inserted(token_of(eid), pipe.recv_priority()).shown(token_of(eid)),
            ..books
        },
    }
}

/// The books with the pipe named `eid` let go.
pub open spec fn books_without_pipe(books: Books, eid: EndpointId) -> Books {
    Books {
        pipes: match first_named(books.pipes, 0, eid) {
            Some(i) => books.pipes.remove(i),
            None => books.pipes,
        },
        fq: books.fq.removed(token_of(eid)),
        ..books
    }
}

/// The pipe named `eid` has left: a receive that was with it is put on
/// hold; the request that came from it can no longer be answered, and the
/// user who is answering it is told so.
pub open spec fn step_on_pipe_removed(state: State, books: Books, eid: EndpointId) -> Step {
    match state {
        State::Receiving(id, timeout) if id == eid => step_stay(State::RecvOnHold(timeout), books),
        State::Active(id) if id == eid => step_stay(
            State::Idle,
            Books { backtrace: Seq::empty(), ..books },
        ),
        State::Sending(id, _, timeout) if id == eid => Step {
            state: State::Idle,
            books: Books { backtrace: Seq::empty(), ..books },
            asked: cancelled(timeout),
            answered: seq![requester_gone()],
        },
        any => step_stay(any, books),
    }
}

/// The pipe whose turn it is is asked for a message, and is no longer taken
/// to have one; if it is no pipe's turn, the receive is put on hold.
pub open spec fn step_ask(books: Books, timeout: Timeout) -> Step {
    let after = Books { fq: books.fq.turn_taken(), ..books };
    match in_turn(books.fq, books.pipes) {
        Some(i) => Step {
            state: State::Receiving(books.pipes[i].eid, timeout),
            books: after,
            asked: seq![Effect::Recv(books.pipes[i].pipe.eid())],
            answered: Seq::empty(),
        },
        None => Step {
            state: State::RecvOnHold(timeout),
            books: after,
            asked: Seq::empty(),
            answered: Seq::empty(),
        },
    }
}

/// To receive: the request at hand, if there is one, is given up. Without
/// a pipe the user is answered that the socket is not connected, and the
/// deadline is cleared; else the pipe whose turn it is is asked.
pub open spec fn step_recv(books: Books, timeout: Timeout) -> Step {
    let books = Books { backtrace: Seq::empty(), ..books };
    if books.pipes.len() == 0 {
        Step {
            state: State::Idle,
            books,
            asked: cancelled(timeout),
            answered: seq![not_connected()],
        }
    } else {
        step_ask(books, timeout)
    }
}

/// The pipe named `eid` has given a message with the bytes `payload`. If
/// it is the pipe that was asked: the routing header is kept, the user is
/// given the rest, and the deadline is cleared; but a message whose routing
/// header does not end is dropped, and the next pipe is asked. What comes
/// from another pipe is dropped.
pub open spec fn step_on_recv_ack(state: State, books: Books, eid: EndpointId, payload: Seq<u8>) -> Step {
    match state {
        State::Receiving(id, timeout) if id == eid => match header_end(payload, 0) {
            Some(n) => Step {
                state: State::Active(eid),
                books: Books { backtrace: payload.take(n), ..books },
                asked: cancelled(timeout),
                answered: seq![
                    Answer::Recv(MessageView { header: Seq::empty(), body: payload.skip(n) }),
                ],
            },
            None => step_ask(books, timeout),
        },
        any => step_stay(any, books),
    }
}

/// The deadline of the receive has passed: the user is answered so.
pub open spec fn step_on_recv_timeout(books: Books) -> Step {
    Step {
        state: State::Idle,
        books,
        asked: Seq::empty(),
        answered: seq![Answer::Failed(ErrorKind::TimedOut, "Recv timed out"@)],
    }
}

/// The pipe named `eid` has a message: a receive on hold goes on; else the
/// socket's owner is told that there is something to receive.
pub open spec fn step_on_recv_ready(state: State, books: Books, eid: EndpointId) -> Step {
    let books = Books { fq: books.fq.activated(token_of(eid)), ..books };
    match state {
        State::RecvOnHold(timeout) => step_ask(books, timeout),
        any => Step {
            state: any,
            books,
            asked: seq![Effect::Raise(Event::CanRecv)],
            answered: Seq::empty(),
        },
    }
}

/// Whether `reply` is what the user's message `msg` becomes with the
/// routing header `backtrace` put back in front; `None` stands for a
/// message that would be too long.
pub open spec fn routed(backtrace: Seq<u8>, msg: MessageView, reply: Option<Rc<Message>>) -> bool {
    match reply {
        Some(r) => r@ == (MessageView { header: backtrace + msg.header, body: msg.body }),
        None => backtrace.len() + msg.payload().len() > usize::MAX,
    }
}

/// To send `reply`, the user's message behind the routing header of the
/// request: it goes to the pipe that the request came from. Where there is
/// no request to answer, the user is told so, the deadline is cleared, and
/// nothing else changes.
pub open spec fn step_send(
    state: State,
    books: Books,
    reply: Option<Rc<Message>>,
    timeout: Timeout,
) -> Step {
    match state {
        State::Active(eid) => match (first_named(books.pipes, 0, eid), reply) {
            (Some(i), Some(msg)) => Step {
                state: State::Sending(eid, msg, timeout),
                books,
                asked: seq![Effect::Send(books.pipes[i].pipe.eid(), msg)],
                answered: Seq::empty(),
            },
            (Some(_), None) => Step {
                state: State::Active(eid),
                books,
                asked: cancelled(timeout),
                answered: seq![too_long()],
            },
            (None, _) => Step {
                state: State::Idle,
                books: Books { backtrace: Seq::empty(), ..books },
                asked: cancelled(timeout),
                answered: seq![requester_gone()],
            },
        },
        any => Step { state: any, books, asked: cancelled(timeout), answered: seq![no_request()] },
    }
}

/// The pipe named `eid` has sent a message: if it is the reply, the user is
/// answered, the deadline is cleared, and the routing header is dropped.
pub open spec fn step_on_send_ack(state: State, books: Books, eid: EndpointId) -> Step {
    match state {
        State::Sending(id, _, timeout) if id == eid => Step {
            state: State::Idle,
            books: Books { backtrace: Seq::empty(), ..books },
            asked: cancelled(timeout),
            answered: seq![Answer::Send],
        },
        any => step_stay(any, books),
    }
}

/// The deadline of the send has passed: the user is answered so, and the
/// request is given up.
pub open spec fn step_on_send_timeout(books: Books) -> Step {
    Step {
        state: State::Idle,
        books: Books { backtrace: Seq::empty(), ..books },
        asked: Seq::empty(),
        answered: seq![Answer::Failed(ErrorKind::TimedOut, "Send timed out"@)],
    }
}

/// The part of a reply socket that its transitions work on: the pipes, the
/// fair queue, the routing header of the request at hand, and the answers
/// that the user is owed.
pub struct Inner {
    replies: Vec<Reply>,
    pipes: Handles,
    fq: PrioList,
    backtrace: Backtrace,
}

impl Inner {
    pub closed spec fn books(&self) -> Books {
        Books { pipes: self.pipes@, fq: self.fq@, backtrace: self.backtrace.kept() }
    }

    /// The answers that the user was not given yet, oldest first.
    pub closed spec fn replies(&self) -> Seq<Reply> {
        self.replies@
    }

    /// The fair queue is in order.
    pub open spec fn sound(&self) -> bool {
        self.books().fq.wf()
    }

    /// That `after` is `before` once the transition that comes to `step`
    /// was made, where `asked0` and `asked1` are the context's journal
    /// before and after it.
    pub open spec fn stepped(
        before: Inner,
        asked0: Seq<Effect>,
        step: Step,
        after: Inner,
        asked1: Seq<Effect>,
    ) -> bool {
        &&& after.books() == step.books
        &&& asked1 == asked0 + step.asked
        &&& answers(after.replies()) == answers(before.replies()) + step.answered
    }

    fn add_pipe<C: Context>(&mut self, ctx: &mut C, eid: EndpointId, pipe: Pipe)
        requires
            old(self).sound(),
        ensures
            final(self).sound(),
            final(self).replies() == old(self).replies(),
            final(self).books() == books_with_pipe(old(self).books(), eid, pipe),
            final(ctx).journal() == old(ctx).journal() + (match first_named(
                old(self).books().pipes,
                0,
                eid,
            ) {
                Some(_) => seq![Effect::Close(pipe.eid(), true)],
                None => Seq::empty(),
            }),
    {
        let priority = pipe.get_recv_priority();
        match self.pipes.enlist(&mut self.fq, eid, pipe, priority) {
            None => {
                proof {
                    assert(ctx.journal() =~= old(ctx).journal() + Seq::<Effect>::empty());
                }
            },
            Some(refused) => {
                refused.close(ctx);
                proof {
                    assert(ctx.journal() =~= old(ctx).journal() + seq![
                        Effect::Close(pipe.eid(), true),
                    ]);
                }
            },
        }
    }

    fn remove_pipe(&mut self, eid: EndpointId) -> (removed: Option<Pipe>)
        requires
            old(self).sound(),
        ensures
            final(self).sound(),
            final(self).replies() == old(self).replies(),
            final(self).books() == books_without_pipe(old(self).books(), eid),
            removed == (match first_named(old(self).books().pipes, 0, eid) {
                Some(i) => Some(old(self).books().pipes[i].pipe),
                None => None,
            }),
    {
        let ghost before = self.fq;
        self.fq.remove(&Token(eid.0));
        proof {
            crate::protocol::policy::priolist::rings_follow(before, self.fq, token_of(eid), 0);
        }
        self.pipes.remove(eid)
    }

    /// Gives the pipe whose turn it is its turn, and asks it for a message.
    fn ask<C: Context>(&mut self, ctx: &mut C) -> (from: Option<EndpointId>)
        requires
            old(self).sound(),
        ensures
            final(self).sound(),
            final(self).replies() == old(self).replies(),
            final(self).books() == (Books {
                fq: old(self).books().fq.turn_taken(),
                ..old(self).books()
            }),
            match in_turn(old(self).books().fq, old(self).books().pipes) {
                Some(i) => from == Some(old(self).books().pipes[i].eid) && final(ctx).journal()
                    == old(ctx).journal().push(
                    Effect::Recv(old(self).books().pipes[i].pipe.eid()),
                ),
                None => from is None && final(ctx).journal() == old(ctx).journal(),
            },
    {
        match self.pipes.take_turn(&mut self.fq) {
            Some((eid, pipe)) => {
                pipe.recv(ctx);
                Some(eid)
            },
            None => None,
        }
    }

    fn on_recv_ready(&mut self, eid: EndpointId)
        requires
            old(self).sound(),
        ensures
            final(self).sound(),
            final(self).replies() == old(self).replies(),
            final(self).books() == (Books {
                fq: old(self).books().fq.activated(token_of(eid)),
                ..old(self).books()
            }),
    {
        let ghost before = self.fq;
        self.fq.activate(Token(eid.0));
        proof {
            crate::protocol::policy::priolist::rings_follow(before, self.fq, token_of(eid), 0);
        }
    }

    /// Orders the pipe named `eid` to send the message, if the pipe is
    /// there.
    fn send_to<C: Context>(&self, ctx: &mut C, eid: EndpointId, msg: Rc<Message>) -> (sent: bool)
        ensures
            match first_named(self.books().pipes, 0, eid) {
                Some(i) => sent && final(ctx).journal() == old(ctx).journal().push(
                    Effect::Send(self.books().pipes[i].pipe.eid(), msg),
                ),
                None => !sent && final(ctx).journal() == old(ctx).journal(),
            },
    {
        match self.pipes.get(eid) {
            Some(pipe) => {
                pipe.send(ctx, msg);
                true
            },
            None => false,
        }
    }

    fn has_pipe(&self, eid: EndpointId) -> (has: bool)
        ensures
            has == first_named(self.books().pipes, 0, eid).is_some(),
    {
        self.pipes.find(eid).is_some()
    }

    fn keep_backtrace(&mut self, header: &[u8])
        ensures
            final(self).sound() == old(self).sound(),
            final(self).replies() == old(self).replies(),
            final(self).books() == (Books { backtrace: header@, ..old(self).books() }),
    {
        self.backtrace.set_backtrace(header);
    }

    fn drop_backtrace(&mut self)
        ensures
            final(self).sound() == old(self).sound(),
            final(self).replies() == old(self).replies(),
            final(self).books() == (Books { backtrace: Seq::empty(), ..old(self).books() }),
    {
        self.backtrace.clear_backtrace();
    }

    /// The user's message behind the routing header that is kept, or
    /// nothing where the two are more than a message can hold.
    fn route(&self, msg: Message) -> (reply: Option<Rc<Message>>)
        ensures
            routed(self.books().backtrace, msg@, reply),
    {
        let kept = self.backtrace.backtrace();
        let n = msg.len();
        if kept.len() > usize::MAX - n {
            None
        } else {
            let (mut header, body) = msg.explode();
            let mut routing: Vec<u8> = Vec::new();
            routing.extend_from_slice(kept);
            routing.append(&mut header);
            assert(routing@ =~= self.books().backtrace + msg@.header);
            Some(Rc::new(Message::with_header_and_body(routing, body)))
        }
    }

    /// Answers the user, and clears the deadline if one was set.
    fn answer<C: Context>(&mut self, ctx: &mut C, reply: Reply, timeout: Timeout)
        ensures
            final(self).sound() == old(self).sound(),
            final(self).books() == old(self).books(),
            answers(final(self).replies()) == answers(old(self).replies()) + seq![reply@],
            final(ctx).journal() == old(ctx).journal() + cancelled(timeout),
    {
        self.replies.push(reply);
        proof {
            assert(answers(self.replies()) =~= answers(old(self).replies()) + seq![reply@]);
        }
        if let Some(sched) = timeout {
            ctx.cancel(sched);
        }
        proof {
            assert(ctx.journal() =~= old(ctx).journal() + cancelled(timeout));
        }
    }

    fn close<C: Context>(&mut self, ctx: &mut C)
        requires
            old(self).sound(),
        ensures
            final(self).sound(),
            final(self).replies() == old(self).replies(),
            final(self).books().pipes.len() == 0,
            final(self).books().fq.items.len() == 0,
            final(self).books().fq.cursor is None,
            final(self).books().backtrace == old(self).books().backtrace,
            final(ctx).journal() == old(ctx).journal() + crate::proto::handles::asked_to_close_all(
                old(self).books().pipes,
            ),
    {
        self.pipes.close_all(ctx);
        self.fq = PrioList::new();
    }
}

/// That a transition made what `step` says: `next` is the state that it
/// leads to, and the inner part and the context's journal went along.
pub open spec fn made(
    step: Step,
    next: State,
    before: Inner,
    asked0: Seq<Effect>,
    after: Inner,
    asked1: Seq<Effect>,
) -> bool {
    next == step.state && Inner::stepped(before, asked0, step, after, asked1)
}

impl State {
    pub open spec fn spec_name(self) -> Seq<char> {
        match self {
            State::Idle => "Idle"@,
            State::Receiving(_, _) => "Receiving"@,
            State::RecvOnHold(_) => "RecvOnHold"@,
            State::Active(_) => "Active"@,
            State::Sending(_, _, _) => "Sending"@,
        }
    }

    pub fn name(&self) -> (name: &'static str)
        ensures
            name@ == self.spec_name(),
    {
        match *self {
            State::Idle => "Idle",
            State::Receiving(_, _) => "Receiving",
            State::RecvOnHold(_) => "RecvOnHold",
            State::Active(_) => "Active",
            State::Sending(_, _, _) => "Sending",
        }
    }

    fn on_pipe_removed<C: Context>(self, ctx: &mut C, inner: &mut Inner, eid: EndpointId) -> (next:
        State)
        ensures
            final(inner).sound() == old(inner).sound(),
            made(
                step_on_pipe_removed(self, old(inner).books(), eid),
                next,
                *old(inner),
                old(ctx).journal(),
                *final(inner),
                final(ctx).journal(),
            ),
    {
        proof {
            assert(ctx.journal() =~= old(ctx).journal() + Seq::<Effect>::empty());
            assert(answers(inner.replies()) =~= answers(inner.replies()) + Seq::<Answer>::empty());
        }
        match self {
            State::Receiving(id, timeout) => {
                if id == eid {
                    State::RecvOnHold(timeout)
                } else {
                    State::Receiving(id, timeout)
                }
            },
            State::Active(id) => {
                if id == eid {
                    inner.drop_backtrace();
                    State::Idle
                } else {
                    State::Active(id)
                }
            },
            State::Sending(id, msg, timeout) => {
                if id == eid {
                    inner.drop_backtrace();
                    let error = IoError::new(
                        ErrorKind::NotConnected,
                        "the pipe of the request is gone",
                    );
                    inner.answer(ctx, Reply::Failed(error), timeout);
                    State::Idle
                } else {
                    State::Sending(id, msg, timeout)
                }
            },
            any => any,
        }
    }

    /// Asks the pipe whose turn it is.
    fn ask<C: Context>(ctx: &mut C, inner: &mut Inner, timeout: Timeout) -> (next: State)
        requires
            old(inner).sound(),
        ensures
            final(inner).sound(),
            made(
                step_ask(old(inner).books(), timeout),
                next,
                *old(inner),
                old(ctx).journal(),
                *final(inner),
                final(ctx).journal(),
            ),
    {
        proof {
            assert(answers(inner.replies()) =~= answers(inner.replies()) + Seq::<Answer>::empty());
        }
        match inner.ask(ctx) {
            Some(eid) => {
                proof {
                    let i = in_turn(old(inner).books().fq, old(inner).books().pipes).unwrap();
                    assert(ctx.journal() =~= old(ctx).journal() + seq![
                        Effect::Recv(old(inner).books().pipes[i].pipe.eid()),
                    ]);
                }
                State::Receiving(eid, timeout)
            },
            None => {
                proof {
                    assert(ctx.journal() =~= old(ctx).journal() + Seq::<Effect>::empty());
                }
                State::RecvOnHold(timeout)
            },
        }
    }

    fn recv<C: Context>(self, ctx: &mut C, inner: &mut Inner, timeout: Timeout) -> (next: State)
        requires
            old(inner).sound(),
        ensures
            final(inner).sound(),
            made(
                step_recv(old(inner).books(), timeout),
                next,
                *old(inner),
                old(ctx).journal(),
                *final(inner),
                final(ctx).journal(),
            ),
    {
        inner.drop_backtrace();
        if inner.pipes.is_empty() {
            let error = IoError::new(ErrorKind::NotConnected, "no connected endpoint");
            inner.answer(ctx, Reply::Failed(error), timeout);
            State::Idle
        } else {
            State::ask(ctx, inner, timeout)
        }
    }

    fn on_recv_ack<C: Context>(
        self,
        ctx: &mut C,
        inner: &mut Inner,
        eid: EndpointId,
        msg: Message,
    ) -> (next: State)
        requires
            old(inner).sound(),
        ensures
            final(inner).sound(),
            made(
                step_on_recv_ack(self, old(inner).books(), eid, msg@.payload()),
                next,
                *old(inner),
                old(ctx).journal(),
                *final(inner),
                final(ctx).journal(),
            ),
    {
        match self {
            State::Receiving(id, timeout) => {
                if id == eid {
                    let _fits = msg.len();
                    let (mut payload, mut body) = msg.explode();
                    payload.append(&mut body);
                    match split_request(payload) {
                        Some((header, body)) => {
                            inner.keep_backtrace(header.as_slice());
                            inner.answer(ctx, Reply::Recv(Message::with_body(body)), timeout);
                            State::Active(eid)
                        },
                        None => State::ask(ctx, inner, timeout),
                    }
                } else {
                    proof {
                        assert(ctx.journal() =~= old(ctx).journal() + Seq::<Effect>::empty());
                        assert(answers(inner.replies()) =~= answers(inner.replies()) + Seq::<
                            Answer,
                        >::empty());
                    }
                    State::Receiving(id, timeout)
                }
            },
            any => {
                proof {
                    assert(ctx.journal() =~= old(ctx).journal() + Seq::<Effect>::empty());
                    assert(answers(inner.replies()) =~= answers(inner.replies()) + Seq::<
                        Answer,
                    >::empty());
                }
                any
            },
        }
    }

    fn on_recv_timeout<C: Context>(self, ctx: &mut C, inner: &mut Inner) -> (next: State)
        ensures
            final(inner).sound() == old(inner).sound(),
            made(
                step_on_recv_timeout(old(inner).books()),
                next,
                *old(inner),
                old(ctx).journal(),
                *final(inner),
                final(ctx).journal(),
            ),
    {
        let error = timedout_io_error("Recv timed out");
        inner.answer(ctx, Reply::Failed(error), None);
        State::Idle
    }

    fn on_recv_ready<C: Context>(self, ctx: &mut C, inner: &mut Inner, eid: EndpointId) -> (next:
        State)
        requires
            old(inner).sound(),
        ensures
            final(inner).sound(),
            made(
                step_on_recv_ready(self, old(inner).books(), eid),
                next,
                *old(inner),
                old(ctx).journal(),
                *final(inner),
                final(ctx).journal(),
            ),
    {
        inner.on_recv_ready(eid);
        match self {
            State::RecvOnHold(timeout) => State::ask(ctx, inner, timeout),
            any => {
                ctx.raise(Event::CanRecv);
                proof {
                    assert(ctx.journal() =~= old(ctx).journal() + seq![
                        Effect::Raise(Event::CanRecv),
                    ]);
                    assert(answers(inner.replies()) =~= answers(inner.replies()) + Seq::<
                        Answer,
                    >::empty());
                }
                any
            },
        }
    }

    fn send<C: Context>(
        self,
        ctx: &mut C,
        inner: &mut Inner,
        reply: Option<Rc<Message>>,
        timeout: Timeout,
    ) -> (next: State)
        ensures
            final(inner).sound() == old(inner).sound(),
            made(
                step_send(self, old(inner).books(), reply, timeout),
                next,
                *old(inner),
                old(ctx).journal(),
                *final(inner),
                final(ctx).journal(),
            ),
    {
        match self {
            State::Active(eid) => {
                if !inner.has_pipe(eid) {
                    inner.drop_backtrace();
                    let error = IoError::new(
                        ErrorKind::NotConnected,
                        "the pipe of the request is gone",
                    );
                    inner.answer(ctx, Reply::Failed(error), timeout);
                    State::Idle
                } else {
                    match reply {
                        Some(msg) => {
                            inner.send_to(ctx, eid, crate::message::share(&msg));
                            proof {
                                crate::proto::handles::first_named_finds(
                                    old(inner).books().pipes,
                                    0,
                                    eid,
                                );
                                let i = first_named(old(inner).books().pipes, 0, eid).unwrap();
                                assert(ctx.journal() =~= old(ctx).journal() + seq![
                                    Effect::Send(old(inner).books().pipes[i].pipe.eid(), msg),
                                ]);
                                assert(answers(inner.replies()) =~= answers(inner.replies())
                                    + Seq::<Answer>::empty());
                            }
                            State::Sending(eid, msg, timeout)
                        },
                        None => {
                            let error = invalid_input_io_error("the message is too long");
                            inner.answer(ctx, Reply::Failed(error), timeout);
                            State::Active(eid)
                        },
                    }
                }
            },
            any => {
                let error = invalid_input_io_error("Can't send: no pending request");
                inner.answer(ctx, Reply::Failed(error), timeout);
                any
            },
        }
    }

    fn on_send_ack<C: Context>(self, ctx: &mut C, inner: &mut Inner, eid: EndpointId) -> (next:
        State)
        ensures
            final(inner).sound() == old(inner).sound(),
            made(
                step_on_send_ack(self, old(inner).books(), eid),
                next,
                *old(inner),
                old(ctx).journal(),
                *final(inner),
                final(ctx).journal(),
            ),
    {
        match self {
            State::Sending(id, msg, timeout) => {
                if id == eid {
                    inner.drop_backtrace();
                    inner.answer(ctx, Reply::Send, timeout);
                    State::Idle
                } else {
                    proof {
                        assert(ctx.journal() =~= old(ctx).journal() + Seq::<Effect>::empty());
                        assert(answers(inner.replies()) =~= answers(inner.replies()) + Seq::<
                            Answer,
                        >::empty());
                    }
                    State::Sending(id, msg, timeout)
                }
            },
            any => {
                proof {
                    assert(ctx.journal() =~= old(ctx).journal() + Seq::<Effect>::empty());
                    assert(answers(inner.replies()) =~= answers(inner.replies()) + Seq::<
                        Answer,
                    >::empty());
                }
                any
            },
        }
    }

    fn on_send_timeout<C: Context>(self, ctx: &mut C, inner: &mut Inner) -> (next: State)
        ensures
            final(inner).sound() == old(inner).sound(),
            made(
                step_on_send_timeout(old(inner).books()),
                next,
                *old(inner),
                old(ctx).journal(),
                *final(inner),
                final(ctx).journal(),
            ),
    {
        inner.drop_backtrace();
        let error = timedout_io_error("Send timed out");
        inner.answer(ctx, Reply::Failed(error), None);
        State::Idle
    }
}

/// The reply pattern: the socket receives a request, from the pipes in
/// turn, and sends its answer back to where the request came from.
pub struct Rep {
    inner: Inner,
    state: Option<State>,
}

impl Rep {
    /// What the socket is doing: it is in a state but while a transition is
    /// made.
    pub closed spec fn state(&self) -> Option<State> {
        self.state
    }

    pub closed spec fn inner(&self) -> Inner {
        self.inner
    }

    pub fn new() -> (rep: Rep)
        ensures
            rep.sound(),
            rep.state() == Some(State::Idle),
            rep.inner().books().pipes.len() == 0,
            rep.inner().books().fq.items.len() == 0,
            rep.inner().books().fq.cursor is None,
            rep.inner().books().backtrace.len() == 0,
            rep.inner().replies().len() == 0,
    {
        Rep {
            inner: Inner {
                replies: Vec::new(),
                pipes: Handles::new(),
                fq: PrioList::new(),
                backtrace: Backtrace::new(),
            },
            state: Some(State::Idle),
        }
    }

    /// That `after` is `before` once the transition that comes to `step`
    /// was made, where `asked0` and `asked1` are the context's journal
    /// before and after it.
    pub open spec fn moved(
        before: Rep,
        asked0: Seq<Effect>,
        step: Step,
        after: Rep,
        asked1: Seq<Effect>,
    ) -> bool {
        &&& after.state() == Some(step.state)
        &&& Inner::stepped(before.inner(), asked0, step, after.inner(), asked1)
    }
}

impl Protocol for Rep {
    /// The fair queue is in order, and the socket is in a state.
    open spec fn sound(&self) -> bool {
        self.inner().sound() && self.state() is Some
    }

    open spec fn socket_type(&self) -> SocketType {
        SocketType::Rep
    }

    open spec fn owed(&self) -> Seq<Reply> {
        self.inner().replies()
    }

    fn id(&self) -> (id: u16)
        ensures
            id == SocketType::Rep.spec_id(),
    {
        SocketType::Rep.id()
    }

    fn peer_id(&self) -> (id: u16)
        ensures
            id == SocketType::Req.spec_id(),
    {
        SocketType::Rep.peer().id()
    }

    open spec fn did_set_option(
        before: Self,
        option: ConfigOption,
        after: Self,
        r: Result<(), IoError>,
    ) -> bool {
        &&& after == before
        &&& crate::io_error::fails_with(
            r,
            ErrorKind::InvalidInput,
            "the option is not one of this protocol"@,
        )
    }

    /// A reply socket has no option of its own.
    fn set_option(&mut self, option: ConfigOption) -> (r: Result<(), IoError>) {
        Err(invalid_input_io_error("the option is not one of this protocol"))
    }

    /// Hands out the answers that the user is owed, oldest first.
    fn take_replies(&mut self) -> (replies: Vec<Reply>)
        ensures
            replies@ == old(self).inner().replies(),
            final(self).inner().replies().len() == 0,
            final(self).inner().books() == old(self).inner().books(),
            final(self).inner().sound() == old(self).inner().sound(),
            final(self).state() == old(self).state(),
    {
        let mut replies: Vec<Reply> = Vec::new();
        replies.append(&mut self.inner.replies);
        replies
    }

    open spec fn did_add_pipe(
        before: Self,
        eid: EndpointId,
        pipe: Pipe,
        after: Self,
        asked0: Seq<Effect>,
        asked1: Seq<Effect>,
    ) -> bool {
        &&& after.state() == before.state()
        &&& after.inner().replies() == before.inner().replies()
        &&& after.inner().books() == books_with_pipe(before.inner().books(), eid, pipe)
        &&& asked1 == asked0 + (match first_named(
            before.inner().books().pipes,
            0,
            eid,
        ) {
            Some(_) => seq![Effect::Close(pipe.eid(), true)],
            None => Seq::empty(),
        })
    }

    /// Takes the pipe in, unless a pipe is known by that name already: then
    /// the new pipe is ordered to close.
    fn add_pipe<C: Context>(&mut self, ctx: &mut C, eid: EndpointId, pipe: Pipe) {
        self.inner.add_pipe(ctx, eid, pipe);
    }

    open spec fn did_remove_pipe(
        before: Self,
        eid: EndpointId,
        after: Self,
        asked0: Seq<Effect>,
        asked1: Seq<Effect>,
        removed: Option<Pipe>,
    ) -> bool {
        &&& removed == (match first_named(before.inner().books().pipes, 0, eid) {
            Some(i) => Some(before.inner().books().pipes[i].pipe),
            None => None,
        })
        &&& Rep::moved(
            before,
            asked0,
            if removed is Some {
                step_on_pipe_removed(
                    before.state().unwrap(),
                    books_without_pipe(before.inner().books(), eid),
                    eid,
                )
            } else {
                step_stay(
                    before.state().unwrap(),
                    books_without_pipe(before.inner().books(), eid),
                )
            },
            after,
            asked1,
        )
    }

    /// Lets the pipe go, and makes of the state what the pipe's leaving
    /// makes of it.
    fn remove_pipe<C: Context>(&mut self, ctx: &mut C, eid: EndpointId) -> (removed: Option<Pipe>) {
        let pipe = self.inner.remove_pipe(eid);
        if pipe.is_some() {
            if let Some(state) = self.state.take() {
                let next = state.on_pipe_removed(ctx, &mut self.inner, eid);
                self.state = Some(next);
            }
        } else {
            proof {
                assert(ctx.journal() =~= old(ctx).journal() + Seq::<Effect>::empty());
                assert(answers(self.inner.replies()) =~= answers(self.inner.replies()) + Seq::<
                    Answer,
                >::empty());
            }
        }
        pipe
    }

    open spec fn did_send(
        before: Self,
        msg: Message,
        timeout: Timeout,
        after: Self,
        asked0: Seq<Effect>,
        asked1: Seq<Effect>,
    ) -> bool {
        exists|reply: Option<Rc<Message>>|
            {
                &&& routed(before.inner().books().backtrace, msg@, reply)
                &&& #[trigger] Rep::moved(
                    before,
                    asked0,
                    step_send(
                        before.state().unwrap(),
                        before.inner().books(),
                        reply,
                        timeout,
                    ),
                    after,
                    asked1,
                )
            }
    }

    /// Sends the user's message as the answer to the request at hand.
    fn send<C: Context>(&mut self, ctx: &mut C, msg: Message, timeout: Timeout) {
        if let Some(state) = self.state.take() {
            let reply = self.inner.route(msg);
            let ghost witness = reply;
            let next = state.send(ctx, &mut self.inner, reply, timeout);
            self.state = Some(next);
            proof {
                assert(Rep::moved(
                    *old(self),
                    old(ctx).journal(),
                    step_send(
                        old(self).state().unwrap(),
                        old(self).inner().books(),
                        witness,
                        timeout,
                    ),
                    *self,
                    ctx.journal(),
                ));
            }
        }
    }

    open spec fn did_on_send_ack(
        before: Self,
        eid: EndpointId,
        after: Self,
        asked0: Seq<Effect>,
        asked1: Seq<Effect>,
    ) -> bool {
        Rep::moved(
            before,
            asked0,
            step_on_send_ack(before.state().unwrap(), before.inner().books(), eid),
            after,
            asked1,
        )
    }

    fn on_send_ack<C: Context>(&mut self, ctx: &mut C, eid: EndpointId) {
        if let Some(state) = self.state.take() {
            let next = state.on_send_ack(ctx, &mut self.inner, eid);
            self.state = Some(next);
        }
    }

    open spec fn did_on_send_timeout(
        before: Self,
        after: Self,
        asked0: Seq<Effect>,
        asked1: Seq<Effect>,
    ) -> bool {
        Rep::moved(
            before,
            asked0,
            step_on_send_timeout(before.inner().books()),
            after,
            asked1,
        )
    }

    fn on_send_timeout<C: Context>(&mut self, ctx: &mut C) {
        if let Some(state) = self.state.take() {
            let next = state.on_send_timeout(ctx, &mut self.inner);
            self.state = Some(next);
        }
    }

    open spec fn did_on_send_ready(
        before: Self,
        eid: EndpointId,
        after: Self,
        asked0: Seq<Effect>,
        asked1: Seq<Effect>,
    ) -> bool {
        &&& after == before
        &&& asked1 == asked0
    }

    /// A reply goes to the pipe of its request, whether or not the pipe has
    /// said that it can send: nothing changes.
    fn on_send_ready<C: Context>(&mut self, ctx: &mut C, eid: EndpointId) {
    }

    open spec fn did_recv(
        before: Self,
        timeout: Timeout,
        after: Self,
        asked0: Seq<Effect>,
        asked1: Seq<Effect>,
    ) -> bool {
        Rep::moved(
            before,
            asked0,
            step_recv(before.inner().books(), timeout),
            after,
            asked1,
        )
    }

    fn recv<C: Context>(&mut self, ctx: &mut C, timeout: Timeout) {
        if let Some(state) = self.state.take() {
            let next = state.recv(ctx, &mut self.inner, timeout);
            self.state = Some(next);
        }
    }

    open spec fn did_on_recv_ack(
        before: Self,
        eid: EndpointId,
        msg: Message,
        after: Self,
        asked0: Seq<Effect>,
        asked1: Seq<Effect>,
    ) -> bool {
        Rep::moved(
            before,
            asked0,
            step_on_recv_ack(
                before.state().unwrap(),
                before.inner().books(),
                eid,
                msg@.payload(),
            ),
            after,
            asked1,
        )
    }

    fn on_recv_ack<C: Context>(&mut self, ctx: &mut C, eid: EndpointId, msg: Message) {
        if let Some(state) = self.state.take() {
            let next = state.on_recv_ack(ctx, &mut self.inner, eid, msg);
            self.state = Some(next);
        }
    }

    open spec fn did_on_recv_timeout(
        before: Self,
        after: Self,
        asked0: Seq<Effect>,
        asked1: Seq<Effect>,
    ) -> bool {
        Rep::moved(
            before,
            asked0,
            step_on_recv_timeout(before.inner().books()),
            after,
            asked1,
        )
    }

    fn on_recv_timeout<C: Context>(&mut self, ctx: &mut C) {
        if let Some(state) = self.state.take() {
            let next = state.on_recv_timeout(ctx, &mut self.inner);
            self.state = Some(next);
        }
    }

    open spec fn did_on_recv_ready(
        before: Self,
        eid: EndpointId,
        after: Self,
        asked0: Seq<Effect>,
        asked1: Seq<Effect>,
    ) -> bool {
        Rep::moved(
            before,
            asked0,
            step_on_recv_ready(before.state().unwrap(), before.inner().books(), eid),
            after,
            asked1,
        )
    }

    fn on_recv_ready<C: Context>(&mut self, ctx: &mut C, eid: EndpointId) {
        if let Some(state) = self.state.take() {
            let next = state.on_recv_ready(ctx, &mut self.inner, eid);
            self.state = Some(next);
        }
    }

    open spec fn did_on_timer_tick(
        before: Self,
        task: Schedulable,
        after: Self,
        asked0: Seq<Effect>,
        asked1: Seq<Effect>,
    ) -> bool {
        &&& after == before
        &&& asked1 == asked0
    }

    /// A reply socket sets no timer of its own: nothing changes.
    fn on_timer_tick<C: Context>(&mut self, ctx: &mut C, task: Schedulable) {
    }

    open spec fn did_close(
        before: Self,
        after: Self,
        asked0: Seq<Effect>,
        asked1: Seq<Effect>,
    ) -> bool {
        &&& after.state() == before.state()
        &&& after.inner().replies() == before.inner().replies()
        &&& after.inner().books().pipes.len() == 0
        &&& after.inner().books().fq.items.len() == 0
        &&& after.inner().books().fq.cursor is None
        &&& after.inner().books().backtrace == before.inner().books().backtrace
        &&& asked1 == asked0 + crate::proto::handles::asked_to_close_all(
            before.inner().books().pipes,
        )
    }

    /// Orders every pipe to close, and lets them all go.
    fn close<C: Context>(&mut self, ctx: &mut C) {
        self.inner.close(ctx)
    }
}

} // verus!
