use vstd::prelude::*;
use std::rc::Rc;
use std::time::Duration;
use crate::context::{Context, Effect, Event, Schedulable, Timeout};
use crate::endpoint::Pipe;
use crate::global::SocketType;
use crate::id::EndpointId;
use crate::io_error::{invalid_input_io_error, timedout_io_error, ErrorKind, IoError};
use crate::message::{Message, MessageView};
use crate::proto::handles::token_of;
use crate::proto::numbered::{
    body_of_reply, frame, framed, next_counter, replies_to, request_id, take_number,
};
use crate::proto::outlets::{
    all_busy, asked_to_close, first_outlet, in_turn, published, with_outlet, with_ready,
    without_outlet, Outlet, Outlets,
};
use crate::proto::pair::cancelled;
use crate::protocol::policy::priolist::{PrioList, Ring};
use crate::socket::{answers, Answer, ConfigOption, Protocol, Reply};
use crate::transport::Token;

verus! {

/// What a surveyor is doing for its user.
#[derive(Debug)]
pub enum State {
    /// Nothing.
    Idle,
    /// The pipe was asked for a response.
    Receiving(EndpointId, Timeout),
    /// The user waits for a pipe that has a message.
    RecvOnHold(Timeout),
}

/// The survey that is under way.
#[derive(Debug)]
pub struct Survey {
    /// The survey's number.
    pub id: u32,
    /// The timer after which the survey is over, if it is set.
    pub timer: Timeout,
}

/// The books of a surveyor.
pub struct Books {
    /// The pipes, in the order in which they were added, and whether each
    /// can send.
    pub outlets: Seq<Outlet>,
    /// The fair queue: the pipes by priority, those that have a message
    /// marked active, and the cursor on the one that is asked next.
    pub fq: Ring,
    /// The survey that is under way.
    pub survey: Option<Survey>,
    /// Whether the last survey ran out of time.
    pub over: bool,
    /// The count that the next survey's number is made of.
    pub counter: u32,
    /// How long a survey takes responses.
    pub deadline: Duration,
}

impl Books {
    /// The timer after which the survey is over, if it is set.
    pub open spec fn timer(self) -> Timeout {
        match self.survey {
            Some(s) => s.timer,
            None => None,
        }
    }

    /// What is asked of the context to end the survey later, where the
    /// context names the timer `handle`; it names none where it could not
    /// set one.
    pub open spec fn asked_to_arm(self, handle: Timeout) -> Seq<Effect> {
        match handle {
            Some(h) => seq![Effect::Schedule(Schedulable::SurveyCancel, self.deadline, h)],
            None => Seq::empty(),
        }
    }
}

/// What a transition comes to.
pub struct Step {
    /// The state that it leads to.
    pub state: State,
    /// The books after it.
    pub books: Books,
    /// What was asked of the context, in order.
    pub asked: Seq<Effect>,
    /// What the user was answered, in order.
    pub answered: Seq<Answer>,
}

/// No pipe is there to send over.
pub open spec fn not_connected() -> Answer {
    Answer::Failed(ErrorKind::NotConnected, "no connected endpoint"@)
}

/// No survey was made.
pub open spec fn no_survey() -> Answer {
    Answer::Failed(ErrorKind::InvalidInput, "Can't recv: no pending survey"@)
}

/// The survey ran out of time.
pub open spec fn survey_over() -> Answer {
    Answer::Failed(ErrorKind::TimedOut, "survey timed out"@)
}

/// The survey and its number are more than a message can hold.
pub open spec fn too_long() -> Answer {
    Answer::Failed(ErrorKind::InvalidInput, "the message is too long"@)
}

/// Nothing happens.
pub open spec fn step_stay(state: State, books: Books) -> Step {
    Step { state, books, asked: Seq::empty(), answered: Seq::empty() }
}

/// The books with a pipe added under `eid`: it is in the queue, open but
/// not yet known to have a message, and not yet known to be able to send. A
/// second pipe of one name is not taken in.
pub open spec fn books_with_pipe(books: Books, eid: EndpointId, pipe: Pipe) -> Books {
    match first_outlet(books.outlets, 0, eid) {
        Some(_) => books,
        None => Books {
            outlets: with_outlet(books.outlets, eid, pipe),
            fq: books.fq.inserted(token_of(eid), pipe.recv_priority()).shown(token_of(eid)),
            ..books
        },
    }
}

/// The books with the pipe named `eid` let go.
pub open spec fn books_without_pipe(books: Books, eid: EndpointId) -> Books {
    Books {
        outlets: without_outlet(books.outlets, eid),
        fq: books.fq.removed(token_of(eid)),
        ..books
    }
}

/// The state once the pipe named `eid` has left: a receive that was with it
/// is put on hold.
pub open spec fn without_pipe(state: State, eid: EndpointId) -> State {
    match state {
        State::Receiving(id, timeout) if id == eid => State::RecvOnHold(timeout),
        any => any,
    }
}

/// To send `survey`, which is numbered `id`: the survey before, if one is
/// under way, is over and its timer cleared. Without a pipe the user is
/// answered that the socket is not connected. Else every pipe that can send
/// is ordered to send the survey, the timer is set after which the survey
/// is over, which `handle` names, and the user is answered. The deadline is
/// cleared either way.
pub open spec fn step_launch(
    books: Books,
    id: u32,
    survey: Option<Rc<Message>>,
    timeout: Timeout,
    handle: Timeout,
) -> Step {
    let given_up = cancelled(books.timer());
    let fresh = Books { survey: None, over: false, ..books };
    match survey {
        None => Step {
            state: State::Idle,
            books: fresh,
            asked: given_up + cancelled(timeout),
            answered: seq![too_long()],
        },
        Some(msg) => if books.outlets.len() == 0 {
            Step {
                state: State::Idle,
                books: fresh,
                asked: given_up + cancelled(timeout),
                answered: seq![not_connected()],
            }
        } else {
            Step {
                state: State::Idle,
                books: Books {
                    outlets: all_busy(books.outlets),
                    survey: Some(Survey { id, timer: handle }),
                    ..fresh
                },
                asked: given_up + published(books.outlets, msg) + books.asked_to_arm(handle)
                    + cancelled(timeout),
                answered: seq![Answer::Send],
            }
        },
    }
}

/// To send `survey`, the user's message behind the number that the count
/// gives: the count goes on, and the survey is launched.
pub open spec fn step_send(
    books: Books,
    survey: Option<Rc<Message>>,
    timeout: Timeout,
    handle: Timeout,
) -> Step {
    step_launch(
        Books { counter: next_counter(books.counter), ..books },
        request_id(books.counter),
        survey,
        timeout,
        handle,
    )
}

/// The pipe whose turn it is is asked for a message, and is no longer taken
/// to have one; if it is no pipe's turn, the receive is put on hold.
pub open spec fn step_ask(books: Books, timeout: Timeout) -> Step {
    let after = Books { fq: books.fq.turn_taken(), ..books };
    match in_turn(books.fq, books.outlets) {
        Some(i) => Step {
            state: State::Receiving(books.outlets[i].eid, timeout),
            books: after,
            asked: seq![Effect::Recv(books.outlets[i].pipe.eid())],
            answered: Seq::empty(),
        },
        None => Step {
            state: State::RecvOnHold(timeout),
            books: after,
            asked: Seq::empty(),
            answered: Seq::empty(),
        },
    }
}

/// To receive: where no survey is under way, the user is told so, or that
/// the last survey ran out of time, the deadline is cleared, and nothing
/// else changes; else the pipe whose turn it is is asked.
pub open spec fn step_recv(state: State, books: Books, timeout: Timeout) -> Step {
    if books.survey is None {
        Step {
            state,
            books,
            asked: cancelled(timeout),
            answered: seq![
                if books.over {
                    survey_over()
                } else {
                    no_survey()
                },
            ],
        }
    } else {
        step_ask(books, timeout)
    }
}

/// The pipe named `eid` has given a message with the bytes `payload`. If
/// it is the pipe that was asked, and the message is a response to the
/// survey that is under way: the user is given what follows the number, and
/// the deadline is cleared; any other message from that pipe is dropped,
/// and the next pipe is asked. What comes from another pipe is dropped.
pub open spec fn step_on_recv_ack(state: State, books: Books, eid: EndpointId, payload: Seq<u8>) -> Step {
    match state {
        State::Receiving(id, timeout) if id == eid => match books.survey {
            Some(s) if replies_to(payload, s.id) => Step {
                state: State::Idle,
                books,
                asked: cancelled(timeout),
                answered: seq![
                    Answer::Recv(MessageView { header: Seq::empty(), body: payload.skip(4) }),
                ],
            },
            _ => step_ask(books, timeout),
        },
        any => step_stay(any, books),
    }
}

/// The deadline of the receive has passed: the user is answered so.
pub open spec fn step_on_recv_timeout(books: Books) -> Step {
    Step {
        state: State::Idle,
        books,
        asked: Seq::empty(),
        answered: seq![Answer::Failed(ErrorKind::TimedOut, "Recv timed out"@)],
    }
}

/// The pipe named `eid` has a message: a receive on hold goes on; else the
/// socket's owner is told that there is something to receive.
pub open spec fn step_on_recv_ready(state: State, books: Books, eid: EndpointId) -> Step {
    let books = Books { fq: books.fq.activated(token_of(eid)), ..books };
    match state {
        State::RecvOnHold(timeout) => step_ask(books, timeout),
        any => Step {
            state: any,
            books,
            asked: seq![Effect::Raise(Event::CanRecv)],
            answered: Seq::empty(),
        },
    }
}

/// The timer `task` has run down. If it is the one after which a survey is
/// over, and a survey is under way: the survey is over, and a user who is
/// receiving is told that it ran out of time, the deadline cleared. Another
/// timer changes nothing.
pub open spec fn step_on_timer_tick(state: State, books: Books, task: Schedulable) -> Step {
    if task is SurveyCancel && books.survey is Some {
        let books = Books { survey: None, over: true, ..books };
        match state {
            State::Receiving(_, timeout) => Step {
                state: State::Idle,
                books,
                asked: cancelled(timeout),
                answered: seq![survey_over()],
            },
            State::RecvOnHold(timeout) => Step {
                state: State::Idle,
                books,
                asked: cancelled(timeout),
                answered: seq![survey_over()],
            },
            State::Idle => step_stay(State::Idle, books),
        }
    } else {
        step_stay(state, books)
    }
}

/// The part of a surveyor that its transitions work on.
pub struct Inner {
    replies: Vec<Reply>,
    outlets: Outlets,
    fq: PrioList,
    survey: Option<Survey>,
    over: bool,
    counter: u32,
    deadline: Duration,
}

impl Inner {
    pub closed spec fn books(&self) -> Books {
        Books {
            outlets: self.outlets@,
            fq: self.fq@,
            survey: self.survey,
            over: self.over,
            counter: self.counter,
            deadline: self.deadline,
        }
    }

    /// The answers that the user was not given yet, oldest first.
    pub closed spec fn replies(&self) -> Seq<Reply> {
        self.replies@
    }

    /// The fair queue is in order.
    pub open spec fn sound(&self) -> bool {
        self.books().fq.wf()
    }

    /// That `after` is `before` once the transition that comes to `step`
    /// was made, where `asked0` and `asked1` are the context's journal
    /// before and after it.
    pub open spec fn stepped(
        before: Inner,
        asked0: Seq<Effect>,
        step: Step,
        after: Inner,
        asked1: Seq<Effect>,
    ) -> bool {
        &&& after.books() == step.books
        &&& asked1 == asked0 + step.asked
        &&& answers(after.replies()) == answers(before.replies()) + step.answered
    }

    fn add_pipe<C: Context>(&mut self, ctx: &mut C, eid: EndpointId, pipe: Pipe)
        requires
            old(self).sound(),
        ensures
            final(self).sound(),
            final(self).replies() == old(self).replies(),
            final(self).books() == books_with_pipe(old(self).books(), eid, pipe),
            final(ctx).journal() == old(ctx).journal() + (match first_outlet(
                old(self).books().outlets,
                0,
                eid,
            ) {
                Some(_) => seq![Effect::Close(pipe.eid(), true)],
                None => Seq::empty(),
            }),
    {
        let priority = pipe.get_recv_priority();
        match self.outlets.enlist(&mut self.fq, eid, pipe, priority) {
            None => {
                proof {
                    assert(ctx.journal() =~= old(ctx).journal() + Seq::<Effect>::empty());
                }
            },
            Some(refused) => {
                refused.close(ctx);
                proof {
                    assert(ctx.journal() =~= old(ctx).journal() + seq![
                        Effect::Close(pipe.eid(), true),
                    ]);
                }
            },
        }
    }

    fn remove_pipe(&mut self, eid: EndpointId) -> (removed: Option<Pipe>)
        requires
            old(self).sound(),
        ensures
            final(self).sound(),
            final(self).replies() == old(self).replies(),
            final(self).books() == books_without_pipe(old(self).books(), eid),
            removed == (match first_outlet(old(self).books().outlets, 0, eid) {
                Some(i) => Some(old(self).books().outlets[i].pipe),
                None => None,
            }),
    {
        let ghost before = self.fq;
        self.fq.remove(&Token(eid.0));
        proof {
            crate::protocol::policy::priolist::rings_follow(before, self.fq, token_of(eid), 0);
        }
        self.outlets.remove(eid)
    }

    /// Gives the pipe whose turn it is its turn, and asks it for a message.
    fn ask<C: Context>(&mut self, ctx: &mut C) -> (from: Option<EndpointId>)
        requires
            old(self).sound(),
        ensures
            final(self).sound(),
            final(self).replies() == old(self).replies(),
            final(self).books() == (Books {
                fq: old(self).books().fq.turn_taken(),
                ..old(self).books()
            }),
            match in_turn(old(self).books().fq, old(self).books().outlets) {
                Some(i) => from == Some(old(self).books().outlets[i].eid) && final(ctx).journal()
                    == old(ctx).journal().push(
                    Effect::Recv(old(self).books().outlets[i].pipe.eid()),
                ),
                None => from is None && final(ctx).journal() == old(ctx).journal(),
            },
    {
        match self.outlets.take_turn(&mut self.fq) {
            Some((eid, pipe)) => {
                pipe.recv(ctx);
                Some(eid)
            },
            None => None,
        }
    }

    fn on_recv_ready(&mut self, eid: EndpointId)
        requires
            old(self).sound(),
        ensures
            final(self).sound(),
            final(self).replies() == old(self).replies(),
            final(self).books() == (Books {
                fq: old(self).books().fq.activated(token_of(eid)),
                ..old(self).books()
            }),
    {
        let ghost before = self.fq;
        self.fq.activate(Token(eid.0));
        proof {
            crate::protocol::policy::priolist::rings_follow(before, self.fq, token_of(eid), 0);
        }
    }

    /// The survey that is under way, if one is, is over, and its timer is
    /// cleared; `over` says whether it ran out of time.
    fn end_survey<C: Context>(&mut self, ctx: &mut C, over: bool)
        ensures
            final(self).sound() == old(self).sound(),
            final(self).replies() == old(self).replies(),
            final(self).books() == (Books { survey: None, over, ..old(self).books() }),
            final(ctx).journal() == old(ctx).journal() + cancelled(old(self).books().timer()),
    {
        if let Some(survey) = self.survey.take() {
            if let Some(handle) = survey.timer {
                ctx.cancel(handle);
            }
        }
        self.over = over;
        proof {
            assert(ctx.journal() =~= old(ctx).journal() + cancelled(old(self).books().timer()));
        }
    }

    /// Sends the survey numbered `id` over every pipe that can send, and
    /// sets the timer after which it is over.
    fn launch<C: Context>(&mut self, ctx: &mut C, id: u32, msg: Rc<Message>)
        requires
            old(self).books().survey is None,
        ensures
            final(self).sound() == old(self).sound(),
            final(self).replies() == old(self).replies(),
            final(self).books() == (Books {
                outlets: all_busy(old(self).books().outlets),
                survey: Some(Survey { id, timer: final(self).books().timer() }),
                ..old(self).books()
            }),
            final(ctx).journal() == old(ctx).journal() + published(old(self).books().outlets, msg)
                + old(self).books().asked_to_arm(final(self).books().timer()),
    {
        self.outlets.publish(ctx, msg);
        let handle = match ctx.schedule(Schedulable::SurveyCancel, self.deadline) {
            Ok(handle) => Some(handle),
            Err(_) => None,
        };
        self.survey = Some(Survey { id, timer: handle });
        proof {
            assert(ctx.journal() =~= old(ctx).journal() + published(old(self).books().outlets, msg)
                + old(self).books().asked_to_arm(handle));
        }
    }

    /// What follows the number in the bytes, if they begin with the number
    /// of the survey that is under way.
    fn response_body(&self, payload: Vec<u8>) -> (body: Option<Vec<u8>>)
        ensures
            match self.books().survey {
                Some(s) if replies_to(payload@, s.id) => body matches Some(b) && b@
                    == payload@.skip(4),
                _ => body is None,
            },
    {
        match &self.survey {
            Some(survey) => body_of_reply(survey.id, payload),
            None => None,
        }
    }

    /// Answers the user, and clears the deadline if one was set.
    fn answer<C: Context>(&mut self, ctx: &mut C, reply: Reply, timeout: Timeout)
        ensures
            final(self).sound() == old(self).sound(),
            final(self).books() == old(self).books(),
            answers(final(self).replies()) == answers(old(self).replies()) + seq![reply@],
            final(ctx).journal() == old(ctx).journal() + cancelled(timeout),
    {
        self.replies.push(reply);
        proof {
            assert(answers(self.replies()) =~= answers(old(self).replies()) + seq![reply@]);
        }
        if let Some(sched) = timeout {
            ctx.cancel(sched);
        }
        proof {
            assert(ctx.journal() =~= old(ctx).journal() + cancelled(timeout));
        }
    }

    fn close<C: Context>(&mut self, ctx: &mut C)
        requires
            old(self).sound(),
        ensures
            final(self).sound(),
            final(self).replies() == old(self).replies(),
            final(self).books().outlets.len() == 0,
            final(self).books().fq.items.len() == 0,
            final(self).books().fq.cursor is None,
            final(self).books().survey is None,
            final(self).books().over == old(self).books().over,
            final(self).books().counter == old(self).books().counter,
            final(self).books().deadline == old(self).books().deadline,
            final(ctx).journal() == old(ctx).journal() + asked_to_close(old(self).books().outlets)
                + cancelled(old(self).books().timer()),
    {
        self.outlets.close_all(ctx);
        self.fq = PrioList::new();
        let over = self.over;
        self.end_survey(ctx, over);
    }
}

/// That a transition made what `step` says: `next` is the state that it
/// leads to, and the inner part and the context's journal went along.
pub open spec fn made(
    step: Step,
    next: State,
    before: Inner,
    asked0: Seq<Effect>,
    after: Inner,
    asked1: Seq<Effect>,
) -> bool {
    next == step.state && Inner::stepped(before, asked0, step, after, asked1)
}

impl State {
    pub open spec fn spec_name(self) -> Seq<char> {
        match self {
            State::Idle => "Idle"@,
            State::Receiving(_, _) => "Receiving"@,
            State::RecvOnHold(_) => "RecvOnHold"@,
        }
    }

    pub fn name(&self) -> (name: &'static str)
        ensures
            name@ == self.spec_name(),
    {
        match *self {
            State::Idle => "Idle",
            State::Receiving(_, _) => "Receiving",
            State::RecvOnHold(_) => "RecvOnHold",
        }
    }

    fn on_pipe_removed(self, eid: EndpointId) -> (next: State)
        ensures
            next == without_pipe(self, eid),
    {
        match self {
            State::Receiving(id, timeout) => {
                if id == eid {
                    State::RecvOnHold(timeout)
                } else {
                    State::Receiving(id, timeout)
                }
            },
            any => any,
        }
    }

    fn send<C: Context>(
        self,
        ctx: &mut C,
        inner: &mut Inner,
        id: u32,
        survey: Option<Rc<Message>>,
        timeout: Timeout,
    ) -> (next: State)
        ensures
            final(inner).sound() == old(inner).sound(),
            made(
                step_launch(old(inner).books(), id, survey, timeout, final(inner).books().timer()),
                next,
                *old(inner),
                old(ctx).journal(),
                *final(inner),
                final(ctx).journal(),
            ),
    {
        inner.end_survey(ctx, false);
        match survey {
            None => {
                let error = invalid_input_io_error("the message is too long");
                inner.answer(ctx, Reply::Failed(error), timeout);
                proof {
                    assert(ctx.journal() =~= old(ctx).journal() + (cancelled(
                        old(inner).books().timer(),
                    ) + cancelled(timeout)));
                }
            },
            Some(msg) => {
                if inner.outlets.is_empty() {
                    let error = IoError::new(ErrorKind::NotConnected, "no connected endpoint");
                    inner.answer(ctx, Reply::Failed(error), timeout);
                    proof {
                        assert(ctx.journal() =~= old(ctx).journal() + (cancelled(
                            old(inner).books().timer(),
                        ) + cancelled(timeout)));
                    }
                } else {
                    inner.launch(ctx, id, msg);
                    inner.answer(ctx, Reply::Send, timeout);
                    proof {
                        let books = old(inner).books();
                        assert(ctx.journal() =~= old(ctx).journal() + (cancelled(books.timer())
                            + published(books.outlets, msg) + books.asked_to_arm(
                            inner.books().timer(),
                        ) + cancelled(timeout)));
                    }
                }
            },
        }
        State::Idle
    }

    /// Asks the pipe whose turn it is.
    fn ask<C: Context>(ctx: &mut C, inner: &mut Inner, timeout: Timeout) -> (next: State)
        requires
            old(inner).sound(),
        ensures
            final(inner).sound(),
            made(
                step_ask(old(inner).books(), timeout),
                next,
                *old(inner),
                old(ctx).journal(),
                *final(inner),
                final(ctx).journal(),
            ),
    {
        proof {
            assert(answers(inner.replies()) =~= answers(inner.replies()) + Seq::<Answer>::empty());
        }
        match inner.ask(ctx) {
            Some(eid) => {
                proof {
                    let i = in_turn(old(inner).books().fq, old(inner).books().outlets).unwrap();
                    assert(ctx.journal() =~= old(ctx).journal() + seq![
                        Effect::Recv(old(inner).books().outlets[i].pipe.eid()),
                    ]);
                }
                State::Receiving(eid, timeout)
            },
            None => {
                proof {
                    assert(ctx.journal() =~= old(ctx).journal() + Seq::<Effect>::empty());
                }
                State::RecvOnHold(timeout)
            },
        }
    }

    fn recv<C: Context>(self, ctx: &mut C, inner: &mut Inner, timeout: Timeout) -> (next: State)
        requires
            old(inner).sound(),
        ensures
            final(inner).sound(),
            made(
                step_recv(self, old(inner).books(), timeout),
                next,
                *old(inner),
                old(ctx).journal(),
                *final(inner),
                final(ctx).journal(),
            ),
    {
        if inner.survey.is_none() {
            let error = if inner.over {
                timedout_io_error("survey timed out")
            } else {
                invalid_input_io_error("Can't recv: no pending survey")
            };
            inner.answer(ctx, Reply::Failed(error), timeout);
            self
        } else {
            State::ask(ctx, inner, timeout)
        }
    }

    fn on_recv_ack<C: Context>(
        self,
        ctx: &mut C,
        inner: &mut Inner,
        eid: EndpointId,
        msg: Message,
    ) -> (next: State)
        requires
            old(inner).sound(),
        ensures
            final(inner).sound(),
            made(
                step_on_recv_ack(self, old(inner).books(), eid, msg@.payload()),
                next,
                *old(inner),
                old(ctx).journal(),
                *final(inner),
                final(ctx).journal(),
            ),
    {
        match self {
            State::Receiving(id, timeout) => {
                if id == eid {
                    let _fits = msg.len();
                    let (mut payload, mut body) = msg.explode();
                    payload.append(&mut body);
                    match inner.response_body(payload) {
                        Some(body) => {
                            inner.answer(ctx, Reply::Recv(Message::with_body(body)), timeout);
                            State::Idle
                        },
                        None => State::ask(ctx, inner, timeout),
                    }
                } else {
                    proof {
                        assert(ctx.journal() =~= old(ctx).journal() + Seq::<Effect>::empty());
                        assert(answers(inner.replies()) =~= answers(inner.replies()) + Seq::<
                            Answer,
                        >::empty());
                    }
                    State::Receiving(id, timeout)
                }
            },
            any => {
                proof {
                    assert(ctx.journal() =~= old(ctx).journal() + Seq::<Effect>::empty());
                    assert(answers(inner.replies()) =~= answers(inner.replies()) + Seq::<
                        Answer,
                    >::empty());
                }
                any
            },
        }
    }

    fn on_recv_timeout<C: Context>(self, ctx: &mut C, inner: &mut Inner) -> (next: State)
        ensures
            final(inner).sound() == old(inner).sound(),
            made(
                step_on_recv_timeout(old(inner).books()),
                next,
                *old(inner),
                old(ctx).journal(),
                *final(inner),
                final(ctx).journal(),
            ),
    {
        let error = timedout_io_error("Recv timed out");
        inner.answer(ctx, Reply::Failed(error), None);
        State::Idle
    }

    fn on_recv_ready<C: Context>(self, ctx: &mut C, inner: &mut Inner, eid: EndpointId) -> (next:
        State)
        requires
            old(inner).sound(),
        ensures
            final(inner).sound(),
            made(
                step_on_recv_ready(self, old(inner).books(), eid),
                next,
                *old(inner),
                old(ctx).journal(),
                *final(inner),
                final(ctx).journal(),
            ),
    {
        inner.on_recv_ready(eid);
        match self {
            State::RecvOnHold(timeout) => State::ask(ctx, inner, timeout),
            any => {
                ctx.raise(Event::CanRecv);
                proof {
                    assert(ctx.journal() =~= old(ctx).journal() + seq![
                        Effect::Raise(Event::CanRecv),
                    ]);
                    assert(answers(inner.replies()) =~= answers(inner.replies()) + Seq::<
                        Answer,
                    >::empty());
                }
                any
            },
        }
    }

    fn on_timer_tick<C: Context>(self, ctx: &mut C, inner: &mut Inner, task: Schedulable) -> (next:
        State)
        ensures
            final(inner).sound() == old(inner).sound(),
            made(
                step_on_timer_tick(self, old(inner).books(), task),
                next,
                *old(inner),
                old(ctx).journal(),
                *final(inner),
                final(ctx).journal(),
            ),
    {
        let ends = match task {
            Schedulable::SurveyCancel => inner.survey.is_some(),
            _ => false,
        };
        if ends {
            inner.survey = None;
            inner.over = true;
            match self {
                State::Receiving(_, timeout) => {
                    let error = timedout_io_error("survey timed out");
                    inner.answer(ctx, Reply::Failed(error), timeout);
                    State::Idle
                },
                State::RecvOnHold(timeout) => {
                    let error = timedout_io_error("survey timed out");
                    inner.answer(ctx, Reply::Failed(error), timeout);
                    State::Idle
                },
                State::Idle => {
                    proof {
                        assert(ctx.journal() =~= old(ctx).journal() + Seq::<Effect>::empty());
                        assert(answers(inner.replies()) =~= answers(inner.replies()) + Seq::<
                            Answer,
                        >::empty());
                    }
                    State::Idle
                },
            }
        } else {
            proof {
                assert(ctx.journal() =~= old(ctx).journal() + Seq::<Effect>::empty());
                assert(answers(inner.replies()) =~= answers(inner.replies()) + Seq::<
                    Answer,
                >::empty());
            }
            self
        }
    }
}

/// The survey pattern, the asking side: a survey goes to every pipe that
/// can send, and the responses to it are taken from the pipes in turn until
/// the survey is over.
pub struct Surveyor {
    inner: Inner,
    state: Option<State>,
}

impl Surveyor {
    /// What the socket is doing: it is in a state but while a transition is
    /// made.
    pub closed spec fn state(&self) -> Option<State> {
        self.state
    }

    pub closed spec fn inner(&self) -> Inner {
        self.inner
    }

    /// A surveyor whose surveys take responses for `deadline`.
    pub fn new(deadline: Duration) -> (surveyor: Surveyor)
        ensures
            surveyor.sound(),
            surveyor.state() == Some(State::Idle),
            surveyor.inner().books().outlets.len() == 0,
            surveyor.inner().books().fq.items.len() == 0,
            surveyor.inner().books().fq.cursor is None,
            surveyor.inner().books().survey is None,
            !surveyor.inner().books().over,
            surveyor.inner().books().counter == 0,
            surveyor.inner().books().deadline == deadline,
            surveyor.inner().replies().len() == 0,
    {
        Surveyor {
            inner: Inner {
                replies: Vec::new(),
                outlets: Outlets::new(),
                fq: PrioList::new(),
                survey: None,
                over: false,
                counter: 0,
                deadline,
            },
            state: Some(State::Idle),
        }
    }

    /// From now on a survey takes responses for `deadline`. A timer that is
    /// set already runs on.
    pub fn set_survey_deadline(&mut self, deadline: Duration)
        ensures
            final(self).state() == old(self).state(),
            final(self).inner().replies() == old(self).inner().replies(),
            final(self).inner().books() == (Books { deadline, ..old(self).inner().books() }),
    {
        self.inner.deadline = deadline;
    }

    /// That `after` is `before` once the transition that comes to `step`
    /// was made, where `asked0` and `asked1` are the context's journal
    /// before and after it.
    pub open spec fn moved(
        before: Surveyor,
        asked0: Seq<Effect>,
        step: Step,
        after: Surveyor,
        asked1: Seq<Effect>,
    ) -> bool {
        &&& after.state() == Some(step.state)
        &&& Inner::stepped(before.inner(), asked0, step, after.inner(), asked1)
    }
}

impl Protocol for Surveyor {
    /// The fair queue is in order, and the socket is in a state.
    open spec fn sound(&self) -> bool {
        self.inner().sound() && self.state() is Some
    }

    open spec fn socket_type(&self) -> SocketType {
        SocketType::Surveyor
    }

    open spec fn owed(&self) -> Seq<Reply> {
        self.inner().replies()
    }

    fn id(&self) -> (id: u16)
        ensures
            id == SocketType::Surveyor.spec_id(),
    {
        SocketType::Surveyor.id()
    }

    fn peer_id(&self) -> (id: u16)
        ensures
            id == SocketType::Respondent.spec_id(),
    {
        SocketType::Surveyor.peer().id()
    }

    open spec fn did_set_option(
        before: Self,
        option: ConfigOption,
        after: Self,
        r: Result<(), IoError>,
    ) -> bool {
        &&& after.state() == before.state()
        &&& after.inner().replies() == before.inner().replies()
        &&& match option {
            ConfigOption::SurveyDeadline(deadline) => r is Ok && after.inner().books()
                == (Books { deadline, ..before.inner().books() }),
            _ => crate::io_error::fails_with(
                r,
                ErrorKind::InvalidInput,
                "the option is not one of this protocol"@,
            ) && after.inner().books() == before.inner().books(),
        }
    }

    /// A surveyor has one option of its own: how long a survey takes
    /// responses.
    fn set_option(&mut self, option: ConfigOption) -> (r: Result<(), IoError>) {
        match option {
            ConfigOption::SurveyDeadline(deadline) => {
                self.set_survey_deadline(deadline);
                Ok(())
            },
            _ => Err(invalid_input_io_error("the option is not one of this protocol")),
        }
    }

    /// Hands out the answers that the user is owed, oldest first.
    fn take_replies(&mut self) -> (replies: Vec<Reply>)
        ensures
            replies@ == old(self).inner().replies(),
            final(self).inner().replies().len() == 0,
            final(self).inner().books() == old(self).inner().books(),
            final(self).state() == old(self).state(),
    {
        let mut replies: Vec<Reply> = Vec::new();
        replies.append(&mut self.inner.replies);
        replies
    }

    open spec fn did_add_pipe(
        before: Self,
        eid: EndpointId,
        pipe: Pipe,
        after: Self,
        asked0: Seq<Effect>,
        asked1: Seq<Effect>,
    ) -> bool {
        &&& after.state() == before.state()
        &&& after.inner().replies() == before.inner().replies()
        &&& after.inner().books() == books_with_pipe(before.inner().books(), eid, pipe)
        &&& asked1 == asked0 + (match first_outlet(
            before.inner().books().outlets,
            0,
            eid,
        ) {
            Some(_) => seq![Effect::Close(pipe.eid(), true)],
            None => Seq::empty(),
        })
    }

    /// Takes the pipe in, unless a pipe is known by that name already: then
    /// the new pipe is ordered to close.
    fn add_pipe<C: Context>(&mut self, ctx: &mut C, eid: EndpointId, pipe: Pipe) {
        self.inner.add_pipe(ctx, eid, pipe);
    }

    open spec fn did_remove_pipe(
        before: Self,
        eid: EndpointId,
        after: Self,
        asked0: Seq<Effect>,
        asked1: Seq<Effect>,
        removed: Option<Pipe>,
    ) -> bool {
        &&& removed == (match first_outlet(before.inner().books().outlets, 0, eid) {
            Some(i) => Some(before.inner().books().outlets[i].pipe),
            None => None,
        })
        &&& after.state() == Some(
            if removed is Some {
                without_pipe(before.state().unwrap(), eid)
            } else {
                before.state().unwrap()
            },
        )
        &&& after.inner().replies() == before.inner().replies()
        &&& after.inner().books() == books_without_pipe(before.inner().books(), eid)
        &&& asked1 == asked0
    }

    /// Lets the pipe go; a receive that was with it is put on hold.
    fn remove_pipe<C: Context>(&mut self, ctx: &mut C, eid: EndpointId) -> (removed: Option<Pipe>) {
        let pipe = self.inner.remove_pipe(eid);
        if pipe.is_some() {
            if let Some(state) = self.state.take() {
                self.state = Some(state.on_pipe_removed(eid));
            }
        }
        pipe
    }

    open spec fn did_send(
        before: Self,
        msg: Message,
        timeout: Timeout,
        after: Self,
        asked0: Seq<Effect>,
        asked1: Seq<Effect>,
    ) -> bool {
        exists|survey: Option<Rc<Message>>|
            {
                &&& framed(request_id(before.inner().books().counter), msg@, survey)
                &&& #[trigger] Surveyor::moved(
                    before,
                    asked0,
                    step_send(
                        before.inner().books(),
                        survey,
                        timeout,
                        after.inner().books().timer(),
                    ),
                    after,
                    asked1,
                )
            }
    }

    /// Sends the user's message as a new survey. The timer's name in the
    /// books afterwards is the one that the context gave, if a timer was
    /// set.
    fn send<C: Context>(&mut self, ctx: &mut C, msg: Message, timeout: Timeout) {
        if let Some(state) = self.state.take() {
            let id = take_number(&mut self.inner.counter);
            let survey = frame(id, msg);
            let ghost witness = survey;
            let next = state.send(ctx, &mut self.inner, id, survey, timeout);
            self.state = Some(next);
            proof {
                assert(Surveyor::moved(
                    *old(self),
                    old(ctx).journal(),
                    step_send(
                        old(self).inner().books(),
                        witness,
                        timeout,
                        self.inner().books().timer(),
                    ),
                    *self,
                    ctx.journal(),
                ));
            }
        }
    }

    open spec fn did_on_send_ack(
        before: Self,
        eid: EndpointId,
        after: Self,
        asked0: Seq<Effect>,
        asked1: Seq<Effect>,
    ) -> bool {
        &&& after == before
        &&& asked1 == asked0
    }

    /// The user was answered when the survey was sent: nothing changes.
    fn on_send_ack<C: Context>(&mut self, ctx: &mut C, eid: EndpointId) {
    }

    open spec fn did_on_send_timeout(
        before: Self,
        after: Self,
        asked0: Seq<Effect>,
        asked1: Seq<Effect>,
    ) -> bool {
        &&& after == before
        &&& asked1 == asked0
    }

    fn on_send_timeout<C: Context>(&mut self, ctx: &mut C) {
    }

    open spec fn did_on_send_ready(
        before: Self,
        eid: EndpointId,
        after: Self,
        asked0: Seq<Effect>,
        asked1: Seq<Effect>,
    ) -> bool {
        &&& after.state() == before.state()
        &&& after.inner().replies() == before.inner().replies()
        &&& after.inner().books() == (Books {
            outlets: with_ready(before.inner().books().outlets, eid),
            ..before.inner().books()
        })
        &&& asked1 == asked0
    }

    /// The pipe named `eid` can send: the next survey goes to it too.
    fn on_send_ready<C: Context>(&mut self, ctx: &mut C, eid: EndpointId) {
        self.inner.outlets.set_ready(eid);
    }

    open spec fn did_recv(
        before: Self,
        timeout: Timeout,
        after: Self,
        asked0: Seq<Effect>,
        asked1: Seq<Effect>,
    ) -> bool {
        Surveyor::moved(
            before,
            asked0,
            step_recv(before.state().unwrap(), before.inner().books(), timeout),
            after,
            asked1,
        )
    }

    fn recv<C: Context>(&mut self, ctx: &mut C, timeout: Timeout) {
        if let Some(state) = self.state.take() {
            let next = state.recv(ctx, &mut self.inner, timeout);
            self.state = Some(next);
        }
    }

    open spec fn did_on_recv_ack(
        before: Self,
        eid: EndpointId,
        msg: Message,
        after: Self,
        asked0: Seq<Effect>,
        asked1: Seq<Effect>,
    ) -> bool {
        Surveyor::moved(
            before,
            asked0,
            step_on_recv_ack(
                before.state().unwrap(),
                before.inner().books(),
                eid,
                msg@.payload(),
            ),
            after,
            asked1,
        )
    }

    fn on_recv_ack<C: Context>(&mut self, ctx: &mut C, eid: EndpointId, msg: Message) {
        if let Some(state) = self.state.take() {
            let next = state.on_recv_ack(ctx, &mut self.inner, eid, msg);
            self.state = Some(next);
        }
    }

    open spec fn did_on_recv_timeout(
        before: Self,
        after: Self,
        asked0: Seq<Effect>,
        asked1: Seq<Effect>,
    ) -> bool {
        Surveyor::moved(
            before,
            asked0,
            step_on_recv_timeout(before.inner().books()),
            after,
            asked1,
        )
    }

    fn on_recv_timeout<C: Context>(&mut self, ctx: &mut C) {
        if let Some(state) = self.state.take() {
            let next = state.on_recv_timeout(ctx, &mut self.inner);
            self.state = Some(next);
        }
    }

    open spec fn did_on_recv_ready(
        before: Self,
        eid: EndpointId,
        after: Self,
        asked0: Seq<Effect>,
        asked1: Seq<Effect>,
    ) -> bool {
        Surveyor::moved(
            before,
            asked0,
            step_on_recv_ready(before.state().unwrap(), before.inner().books(), eid),
            after,
            asked1,
        )
    }

    fn on_recv_ready<C: Context>(&mut self, ctx: &mut C, eid: EndpointId) {
        if let Some(state) = self.state.take() {
            let next = state.on_recv_ready(ctx, &mut self.inner, eid);
            self.state = Some(next);
        }
    }

    open spec fn did_on_timer_tick(
        before: Self,
        task: Schedulable,
        after: Self,
        asked0: Seq<Effect>,
        asked1: Seq<Effect>,
    ) -> bool {
        Surveyor::moved(
            before,
            asked0,
            step_on_timer_tick(before.state().unwrap(), before.inner().books(), task),
            after,
            asked1,
        )
    }

    fn on_timer_tick<C: Context>(&mut self, ctx: &mut C, task: Schedulable) {
        if let Some(state) = self.state.take() {
            let next = state.on_timer_tick(ctx, &mut self.inner, task);
            self.state = Some(next);
        }
    }

    open spec fn did_close(
        before: Self,
        after: Self,
        asked0: Seq<Effect>,
        asked1: Seq<Effect>,
    ) -> bool {
        &&& after.state() == before.state()
        &&& after.inner().replies() == before.inner().replies()
        &&& after.inner().books().outlets.len() == 0
        &&& after.inner().books().fq.items.len() == 0
        &&& after.inner().books().fq.cursor is None
        &&& after.inner().books().survey is None
        &&& after.inner().books().over == before.inner().books().over
        &&& after.inner().books().counter == before.inner().books().counter
        &&& after.inner().books().deadline == before.inner().books().deadline
        &&& asked1 == asked0 + asked_to_close(
            before.inner().books().outlets,
        ) + cancelled(before.inner().books().timer())
    }

    /// Orders every pipe to close, lets them all go, and ends the survey
    /// that is under way.
    fn close<C: Context>(&mut self, ctx: &mut C) {
        self.inner.close(ctx)
    }
}

} // verus!
