use vstd::prelude::*;
use std::rc::Rc;
use std::time::Duration;
use crate::context::{Context, Effect, Event, Schedulable, Timeout};
use crate::endpoint::Pipe;
use crate::global::SocketType;
use crate::id::EndpointId;
use crate::io_error::{invalid_input_io_error, timedout_io_error, ErrorKind, IoError};
use crate::message::{share, Message, MessageView};
use crate::proto::handles::{first_named, in_turn, token_of, Handle, Handles};
use crate::proto::pair::cancelled;
use crate::protocol::policy::priolist::{PrioList, Ring};
use crate::socket::{answers, Answer, ConfigOption, Protocol, Reply};
use crate::transport::Token;
use crate::proto::numbered::{
    body_of_reply, frame, framed, next_counter, replies_to, request_id, take_number,
};
use crate::wire::be_u32;

verus! {

/// What a request socket is doing for its user.
#[derive(Debug)]
pub enum State {
    /// Nothing.
    Idle,
    /// The request is with the pipe, to be sent.
    Sending(EndpointId, Rc<Message>, Timeout),
    /// The request waits for a pipe that can send.
    SendOnHold(Rc<Message>, Timeout),
    /// The pipe was asked for the reply.
    Receiving(EndpointId, Timeout),
    /// The user waits for a pipe that has a message.
    RecvOnHold(Timeout),
}

/// The request that waits for its reply.
#[derive(Debug)]
pub struct Pending {
    /// The request's number.
    pub id: u32,
    /// The request as it travels: its number in front.
    pub request: Rc<Message>,
    /// The timer after which the request is sent again, if it is set.
    pub resend: Timeout,
}

/// The books of a request socket.
pub struct Books {
    /// The pipes, in the order in which they were added.
    pub pipes: Seq<Handle>,
    /// The balancer: the pipes by send priority, those that can send marked
    /// active, and the cursor on the one that is given the next request.
    pub lb: Ring,
    /// The fair queue: the pipes by receive priority, those that have a
    /// message marked active, and the cursor on the one that is asked next.
    pub fq: Ring,
    /// The request that waits for its reply.
    pub pending: Option<Pending>,
    /// The count that the next request's number is made of.
    pub counter: u32,
    /// The time after which a request without a reply is sent again.
    pub resend_interval: Duration,
}

impl Books {
    /// The timer after which the request is sent again, if it is set.
    pub open spec fn resend(self) -> Timeout {
        match self.pending {
            Some(p) => p.resend,
            None => None,
        }
    }

    /// The books with the timer `handle` kept for the request that waits,
    /// if one does.
    pub open spec fn armed(self, handle: Timeout) -> Books {
        match self.pending {
            Some(p) => Books { pending: Some(Pending { resend: handle, ..p }), ..self },
            None => self,
        }
    }

    /// What is asked of the context to have the request sent again later,
    /// where the context names the timer `handle`; it names none where it
    /// could not set one, or where no request waits.
    pub open spec fn asked_to_arm(self, handle: Timeout) -> Seq<Effect> {
        match (self.pending, handle) {
            (Some(_), Some(h)) => seq![
                Effect::Schedule(Schedulable::ReqResend, self.resend_interval, h),
            ],
            _ => Seq::empty(),
        }
    }
}

/// What a transition comes to.
pub struct Step {
    /// The state that it leads to.
    pub state: State,
    /// The books after it.
    pub books: Books,
    /// What was asked of the context, in order.
    pub asked: Seq<Effect>,
    /// What the user was answered, in order.
    pub answered: Seq<Answer>,
}

/// No pipe is there to send over.
pub open spec fn not_connected() -> Answer {
    Answer::Failed(ErrorKind::NotConnected, "no connected endpoint"@)
}

/// No request waits for a reply.
pub open spec fn no_request() -> Answer {
    Answer::Failed(ErrorKind::InvalidInput, "Can't recv: no pending request"@)
}

/// The request and its number are more than a message can hold.
pub open spec fn too_long() -> Answer {
    Answer::Failed(ErrorKind::InvalidInput, "the message is too long"@)
}

/// Nothing happens.
pub open spec fn step_stay(state: State, books: Books) -> Step {
    Step { state, books, asked: Seq::empty(), answered: Seq::empty() }
}

/// The books with a pipe added under `eid`: it is in the balancer and in
/// the queue, open but not yet known to be able to send or to have a
/// message. A second pipe of one name is not taken in.
pub open spec fn books_with_pipe(books: Books, eid: EndpointId, pipe: Pipe) -> Books {
    match first_named(books.pipes, 0, eid) {
        Some(_) => books,
        None => Books {
            pipes: books.pipes.push(Handle { eid, pipe }),
            lb: books.lb.inserted(token_of(eid), pipe.send_priority()).shown(token_of(eid)),
            fq: books.fq.inserted(token_of(eid), pipe.recv_priority()).shown(token_of(eid)),
            ..books
        },
    }
}

/// The books with the pipe named `eid` let go.
pub open spec fn books_without_pipe(books: Books, eid: EndpointId) -> Books {
    Books {
        pipes: match first_named(books.pipes, 0, eid) {
            Some(i) => books.pipes.remove(i),
            None => books.pipes,
        },
        lb: books.lb.removed(token_of(eid)),
        fq: books.fq.removed(token_of(eid)),
        ..books
    }
}

/// The state once the pipe named `eid` has left: what was with it is put
/// on hold.
pub open spec fn without_pipe(state: State, eid: EndpointId) -> State {
    match state {
        State::Sending(id, request, timeout) if id == eid => State::SendOnHold(request, timeout),
        State::Receiving(id, timeout) if id == eid => State::RecvOnHold(timeout),
        any => any,
    }
}

/// The request is given to the pipe whose turn it is, which is no longer
/// taken to be able to send; if it is no pipe's turn, the request is put on
/// hold.
pub open spec fn step_hand(books: Books, request: Rc<Message>, timeout: Timeout) -> Step {
    let after = Books { lb: books.lb.turn_taken(), ..books };
    match in_turn(books.lb, books.pipes) {
        Some(i) => Step {
            state: State::Sending(books.pipes[i].eid, request, timeout),
            books: after,
            asked: seq![Effect::Send(books.pipes[i].pipe.eid(), request)],
            answered: Seq::empty(),
        },
        None => Step {
            state: State::SendOnHold(request, timeout),
            books: after,
            asked: Seq::empty(),
            answered: Seq::empty(),
        },
    }
}

/// To send `request`, which is numbered `id`: the request before, if one
/// still waits, is given up and its timer cleared. Without a pipe the user
/// is answered that the socket is not connected, and the deadline is
/// cleared; else the new request waits for its reply from now on, and is
/// handed to a pipe.
pub open spec fn step_launch(
    books: Books,
    id: u32,
    request: Option<Rc<Message>>,
    timeout: Timeout,
) -> Step {
    let given_up = cancelled(books.resend());
    let fresh = Books { pending: None, ..books };
    match request {
        None => Step {
            state: State::Idle,
            books: fresh,
            asked: given_up + cancelled(timeout),
            answered: seq![too_long()],
        },
        Some(r) => if books.pipes.len() == 0 {
            Step {
                state: State::Idle,
                books: fresh,
                asked: given_up + cancelled(timeout),
                answered: seq![not_connected()],
            }
        } else {
            let waiting = Books {
                pending: Some(Pending { id, request: r, resend: None }),
                ..fresh
            };
            let handed = step_hand(waiting, r, timeout);
            Step { asked: given_up + handed.asked, ..handed }
        },
    }
}

/// To send `request`, the user's message behind the number that the count
/// gives: the count goes on, and the request is launched.
pub open spec fn step_send(books: Books, request: Option<Rc<Message>>, timeout: Timeout) -> Step {
    step_launch(
        Books { counter: next_counter(books.counter), ..books },
        request_id(books.counter),
        request,
        timeout,
    )
}

/// The pipe named `eid` has sent a message: if it is the request that the
/// user is sending, the user is answered, the deadline is cleared, and the
/// timer is set after which the request is sent again; `handle` names it.
pub open spec fn step_on_send_ack(state: State, books: Books, eid: EndpointId, handle: Timeout) -> Step {
    match state {
        State::Sending(id, _, timeout) if id == eid => Step {
            state: State::Idle,
            books: books.armed(handle),
            asked: cancelled(timeout) + books.asked_to_arm(handle),
            answered: seq![Answer::Send],
        },
        any => step_stay(any, books),
    }
}

/// The deadline of the send has passed: the user is answered so, and the
/// request is given up.
pub open spec fn step_on_send_timeout(books: Books) -> Step {
    Step {
        state: State::Idle,
        books: Books { pending: None, ..books },
        asked: cancelled(books.resend()),
        answered: seq![Answer::Failed(ErrorKind::TimedOut, "Send timed out"@)],
    }
}

/// The pipe named `eid` can send: a request on hold is handed to the pipe
/// whose turn it is.
pub open spec fn step_on_send_ready(state: State, books: Books, eid: EndpointId) -> Step {
    let books = Books { lb: books.lb.activated(token_of(eid)), ..books };
    match state {
        State::SendOnHold(request, timeout) => step_hand(books, request, timeout),
        any => step_stay(any, books),
    }
}

/// Whether the request can be sent again now: one waits for its reply, and
/// the user is not sending.
pub open spec fn can_resend(state: State, books: Books) -> bool {
    books.pending is Some && !(state is Sending) && !(state is SendOnHold)
}

/// The timer `task` has run down. If it is the one after which a request is
/// sent again, and the request can be: it is given to the pipe whose turn
/// it is, if it is one's, and the timer is set anew; `handle` names it.
/// Another timer changes nothing.
pub open spec fn step_on_timer_tick(
    state: State,
    books: Books,
    task: Schedulable,
    handle: Timeout,
) -> Step {
    if task is ReqResend && can_resend(state, books) {
        let request = books.pending.unwrap().request;
        Step {
            state,
            books: (Books { lb: books.lb.turn_taken(), ..books }).armed(handle),
            asked: (match in_turn(books.lb, books.pipes) {
                Some(i) => seq![Effect::Send(books.pipes[i].pipe.eid(), request)],
                None => Seq::empty(),
            }) + books.asked_to_arm(handle),
            answered: Seq::empty(),
        }
    } else {
        step_stay(state, books)
    }
}

/// The pipe whose turn it is is asked for a message, and is no longer taken
/// to have one; if it is no pipe's turn, the receive is put on hold.
pub open spec fn step_ask(books: Books, timeout: Timeout) -> Step {
    let after = Books { fq: books.fq.turn_taken(), ..books };
    match in_turn(books.fq, books.pipes) {
        Some(i) => Step {
            state: State::Receiving(books.pipes[i].eid, timeout),
            books: after,
            asked: seq![Effect::Recv(books.pipes[i].pipe.eid())],
            answered: Seq::empty(),
        },
        None => Step {
            state: State::RecvOnHold(timeout),
            books: after,
            asked: Seq::empty(),
            answered: Seq::empty(),
        },
    }
}

/// To receive: where no request waits for a reply, the user is told so, the
/// deadline is cleared, and nothing else changes; else the pipe whose turn
/// it is is asked.
pub open spec fn step_recv(state: State, books: Books, timeout: Timeout) -> Step {
    if books.pending is None {
        Step { state, books, asked: cancelled(timeout), answered: seq![no_request()] }
    } else {
        step_ask(books, timeout)
    }
}

/// The pipe named `eid` has given a message with the bytes `payload`. If
/// it is the pipe that was asked, and the message is the reply to the
/// request that waits: the user is given what follows the number, the
/// deadline and the timer are cleared, and no request waits any more; any
/// other message from that pipe is dropped, and the next pipe is asked.
/// What comes from another pipe is dropped.
pub open spec fn step_on_recv_ack(state: State, books: Books, eid: EndpointId, payload: Seq<u8>) -> Step {
    match state {
        State::Receiving(id, timeout) if id == eid => match books.pending {
            Some(p) if replies_to(payload, p.id) => Step {
                state: State::Idle,
                books: Books { pending: None, ..books },
                asked: cancelled(timeout) + cancelled(p.resend),
                answered: seq![
                    Answer::Recv(MessageView { header: Seq::empty(), body: payload.skip(4) }),
                ],
            },
            _ => step_ask(books, timeout),
        },
        any => step_stay(any, books),
    }
}

/// The deadline of the receive has passed: the user is answered so. The
/// request goes on waiting for its reply.
pub open spec fn step_on_recv_timeout(books: Books) -> Step {
    Step {
        state: State::Idle,
        books,
        asked: Seq::empty(),
        answered: seq![Answer::Failed(ErrorKind::TimedOut, "Recv timed out"@)],
    }
}

/// The pipe named `eid` has a message: a receive on hold goes on; else the
/// socket's owner is told that there is something to receive.
pub open spec fn step_on_recv_ready(state: State, books: Books, eid: EndpointId) -> Step {
    let books = Books { fq: books.fq.activated(token_of(eid)), ..books };
    match state {
        State::RecvOnHold(timeout) => step_ask(books, timeout),
        any => Step {
            state: any,
            books,
            asked: seq![Effect::Raise(Event::CanRecv)],
            answered: Seq::empty(),
        },
    }
}

/// The part of a request socket that its transitions work on.
pub struct Inner {
    replies: Vec<Reply>,
    pipes: Handles,
    lb: PrioList,
    fq: PrioList,
    pending: Option<Pending>,
    counter: u32,
    resend_interval: Duration,
}

impl Inner {
    pub closed spec fn books(&self) -> Books {
        Books {
            pipes: self.pipes@,
            lb: self.lb@,
            fq: self.fq@,
            pending: self.pending,
            counter: self.counter,
            resend_interval: self.resend_interval,
        }
    }

    /// The answers that the user was not given yet, oldest first.
    pub closed spec fn replies(&self) -> Seq<Reply> {
        self.replies@
    }

    /// The balancer and the fair queue are in order.
    pub open spec fn sound(&self) -> bool {
        self.books().lb.wf() && self.books().fq.wf()
    }

    /// That `after` is `before` once the transition that comes to `step`
    /// was made, where `asked0` and `asked1` are the context's journal
    /// before and after it.
    pub open spec fn stepped(
        before: Inner,
        asked0: Seq<Effect>,
        step: Step,
        after: Inner,
        asked1: Seq<Effect>,
    ) -> bool {
        &&& after.books() == step.books
        &&& asked1 == asked0 + step.asked
        &&& answers(after.replies()) == answers(before.replies()) + step.answered
    }

    fn add_pipe<C: Context>(&mut self, ctx: &mut C, eid: EndpointId, pipe: Pipe)
        requires
            old(self).sound(),
        ensures
            final(self).sound(),
            final(self).replies() == old(self).replies(),
            final(self).books() == books_with_pipe(old(self).books(), eid, pipe),
            final(ctx).journal() == old(ctx).journal() + (match first_named(
                old(self).books().pipes,
                0,
                eid,
            ) {
                Some(_) => seq![Effect::Close(pipe.eid(), true)],
                None => Seq::empty(),
            }),
    {
        let send_priority = pipe.get_send_priority();
        let recv_priority = pipe.get_recv_priority();
        match self.pipes.enlist(&mut self.lb, eid, pipe, send_priority) {
            None => {
                let token = Token(eid.0);
                let ghost before = self.fq;
                self.fq.insert(token, recv_priority);
                let ghost inserted = self.fq;
                self.fq.show(token);
                proof {
                    crate::protocol::policy::priolist::rings_follow(
                        before,
                        inserted,
                        token,
                        recv_priority,
                    );
                    crate::protocol::policy::priolist::rings_follow(
                        inserted,
                        self.fq,
                        token,
                        recv_priority,
                    );
                    assert(ctx.journal() =~= old(ctx).journal() + Seq::<Effect>::empty());
                }
            },
            Some(refused) => {
                refused.close(ctx);
                proof {
                    assert(ctx.journal() =~= old(ctx).journal() + seq![
                        Effect::Close(pipe.eid(), true),
                    ]);
                }
            },
        }
    }

    fn remove_pipe(&mut self, eid: EndpointId) -> (removed: Option<Pipe>)
        requires
            old(self).sound(),
        ensures
            final(self).sound(),
            final(self).replies() == old(self).replies(),
            final(self).books() == books_without_pipe(old(self).books(), eid),
            removed == (match first_named(old(self).books().pipes, 0, eid) {
                Some(i) => Some(old(self).books().pipes[i].pipe),
                None => None,
            }),
    {
        let ghost lb = self.lb;
        let ghost fq = self.fq;
        self.lb.remove(&Token(eid.0));
        self.fq.remove(&Token(eid.0));
        proof {
            crate::protocol::policy::priolist::rings_follow(lb, self.lb, token_of(eid), 0);
            crate::protocol::policy::priolist::rings_follow(fq, self.fq, token_of(eid), 0);
        }
        self.pipes.remove(eid)
    }

    /// Gives the pipe whose turn it is to send its turn, and orders it to
    /// send the message.
    fn hand<C: Context>(&mut self, ctx: &mut C, msg: Rc<Message>) -> (to: Option<EndpointId>)
        requires
            old(self).sound(),
        ensures
            final(self).sound(),
            final(self).replies() == old(self).replies(),
            final(self).books() == (Books {
                lb: old(self).books().lb.turn_taken(),
                ..old(self).books()
            }),
            match in_turn(old(self).books().lb, old(self).books().pipes) {
                Some(i) => to == Some(old(self).books().pipes[i].eid) && final(ctx).journal()
                    == old(ctx).journal().push(
                    Effect::Send(old(self).books().pipes[i].pipe.eid(), msg),
                ),
                None => to is None && final(ctx).journal() == old(ctx).journal(),
            },
    {
        match self.pipes.take_turn(&mut self.lb) {
            Some((eid, pipe)) => {
                pipe.send(ctx, msg);
                Some(eid)
            },
            None => None,
        }
    }

    /// Gives the pipe whose turn it is to receive its turn, and asks it for
    /// a message.
    fn ask<C: Context>(&mut self, ctx: &mut C) -> (from: Option<EndpointId>)
        requires
            old(self).sound(),
        ensures
            final(self).sound(),
            final(self).replies() == old(self).replies(),
            final(self).books() == (Books {
                fq: old(self).books().fq.turn_taken(),
                ..old(self).books()
            }),
            match in_turn(old(self).books().fq, old(self).books().pipes) {
                Some(i) => from == Some(old(self).books().pipes[i].eid) && final(ctx).journal()
                    == old(ctx).journal().push(
                    Effect::Recv(old(self).books().pipes[i].pipe.eid()),
                ),
                None => from is None && final(ctx).journal() == old(ctx).journal(),
            },
    {
        match self.pipes.take_turn(&mut self.fq) {
            Some((eid, pipe)) => {
                pipe.recv(ctx);
                Some(eid)
            },
            None => None,
        }
    }

    fn on_send_ready(&mut self, eid: EndpointId)
        requires
            old(self).sound(),
        ensures
            final(self).sound(),
            final(self).replies() == old(self).replies(),
            final(self).books() == (Books {
                lb: old(self).books().lb.activated(token_of(eid)),
                ..old(self).books()
            }),
    {
        let ghost before = self.lb;
        self.lb.activate(Token(eid.0));
        proof {
            crate::protocol::policy::priolist::rings_follow(before, self.lb, token_of(eid), 0);
        }
    }

    fn on_recv_ready(&mut self, eid: EndpointId)
        requires
            old(self).sound(),
        ensures
            final(self).sound(),
            final(self).replies() == old(self).replies(),
            final(self).books() == (Books {
                fq: old(self).books().fq.activated(token_of(eid)),
                ..old(self).books()
            }),
    {
        let ghost before = self.fq;
        self.fq.activate(Token(eid.0));
        proof {
            crate::protocol::policy::priolist::rings_follow(before, self.fq, token_of(eid), 0);
        }
    }

    /// Gives the request that waits up, if one does, and clears its timer.
    fn give_up<C: Context>(&mut self, ctx: &mut C)
        ensures
            final(self).sound() == old(self).sound(),
            final(self).replies() == old(self).replies(),
            final(self).books() == (Books { pending: None, ..old(self).books() }),
            final(ctx).journal() == old(ctx).journal() + cancelled(old(self).books().resend()),
    {
        if let Some(pending) = self.pending.take() {
            if let Some(handle) = pending.resend {
                ctx.cancel(handle);
            }
        }
        proof {
            assert(ctx.journal() =~= old(ctx).journal() + cancelled(old(self).books().resend()));
        }
    }

    /// The number of the next request; the count goes on.
    fn next_id(&mut self) -> (id: u32)
        ensures
            id == request_id(old(self).books().counter),
            final(self).sound() == old(self).sound(),
            final(self).replies() == old(self).replies(),
            final(self).books() == (Books {
                counter: next_counter(old(self).books().counter),
                ..old(self).books()
            }),
    {
        take_number(&mut self.counter)
    }

    /// The request is the one that waits for its reply from now on.
    fn await_reply(&mut self, id: u32, request: Rc<Message>)
        ensures
            final(self).sound() == old(self).sound(),
            final(self).replies() == old(self).replies(),
            final(self).books() == (Books {
                pending: Some(Pending { id, request, resend: None }),
                ..old(self).books()
            }),
    {
        self.pending = Some(Pending { id, request, resend: None });
    }

    /// Sets the timer after which the request that waits is sent again, if
    /// one waits.
    fn arm<C: Context>(&mut self, ctx: &mut C)
        ensures
            final(self).sound() == old(self).sound(),
            final(self).replies() == old(self).replies(),
            final(self).books() == old(self).books().armed(final(self).books().resend()),
            final(ctx).journal() == old(ctx).journal() + old(self).books().asked_to_arm(
                final(self).books().resend(),
            ),
    {
        if let Some(pending) = self.pending.take() {
            let handle = match ctx.schedule(Schedulable::ReqResend, self.resend_interval) {
                Ok(handle) => Some(handle),
                Err(_) => None,
            };
            self.pending = Some(Pending { resend: handle, ..pending });
        }
        proof {
            assert(ctx.journal() =~= old(ctx).journal() + old(self).books().asked_to_arm(
                self.books().resend(),
            ));
        }
    }

    /// Gives the request that waits to the pipe whose turn it is to send,
    /// if it is one's.
    fn resend<C: Context>(&mut self, ctx: &mut C)
        requires
            old(self).sound(),
            old(self).books().pending is Some,
        ensures
            final(self).sound(),
            final(self).replies() == old(self).replies(),
            final(self).books() == (Books {
                lb: old(self).books().lb.turn_taken(),
                ..old(self).books()
            }),
            final(ctx).journal() == old(ctx).journal() + (match in_turn(
                old(self).books().lb,
                old(self).books().pipes,
            ) {
                Some(i) => seq![
                    Effect::Send(
                        old(self).books().pipes[i].pipe.eid(),
                        old(self).books().pending.unwrap().request,
                    ),
                ],
                None => Seq::empty(),
            }),
    {
        if let Some(pending) = &self.pending {
            match self.pipes.take_turn(&mut self.lb) {
                Some((_, pipe)) => {
                    pipe.send(ctx, share(&pending.request));
                    proof {
                        let i = in_turn(old(self).books().lb, old(self).books().pipes).unwrap();
                        assert(ctx.journal() =~= old(ctx).journal() + seq![
                            Effect::Send(
                                old(self).books().pipes[i].pipe.eid(),
                                old(self).books().pending.unwrap().request,
                            ),
                        ]);
                    }
                },
                None => {
                    proof {
                        assert(ctx.journal() =~= old(ctx).journal() + Seq::<Effect>::empty());
                    }
                },
            }
        }
    }

    /// Answers the user, and clears the deadline if one was set.
    fn answer<C: Context>(&mut self, ctx: &mut C, reply: Reply, timeout: Timeout)
        ensures
            final(self).sound() == old(self).sound(),
            final(self).books() == old(self).books(),
            answers(final(self).replies()) == answers(old(self).replies()) + seq![reply@],
            final(ctx).journal() == old(ctx).journal() + cancelled(timeout),
    {
        self.replies.push(reply);
        proof {
            assert(answers(self.replies()) =~= answers(old(self).replies()) + seq![reply@]);
        }
        if let Some(sched) = timeout {
            ctx.cancel(sched);
        }
        proof {
            assert(ctx.journal() =~= old(ctx).journal() + cancelled(timeout));
        }
    }

    /// What follows the number in the bytes, if they begin with the number
    /// of the request that waits.
    fn reply_body(&self, payload: Vec<u8>) -> (body: Option<Vec<u8>>)
        ensures
            match self.books().pending {
                Some(p) if replies_to(payload@, p.id) => body matches Some(b) && b@
                    == payload@.skip(4),
                _ => body is None,
            },
    {
        match &self.pending {
            Some(pending) => body_of_reply(pending.id, payload),
            None => None,
        }
    }

    fn close<C: Context>(&mut self, ctx: &mut C)
        requires
            old(self).sound(),
        ensures
            final(self).sound(),
            final(self).replies() == old(self).replies(),
            final(self).books().pipes.len() == 0,
            final(self).books().lb.items.len() == 0,
            final(self).books().lb.cursor is None,
            final(self).books().fq.items.len() == 0,
            final(self).books().fq.cursor is None,
            final(self).books().pending is None,
            final(self).books().counter == old(self).books().counter,
            final(self).books().resend_interval == old(self).books().resend_interval,
            final(ctx).journal() == old(ctx).journal() + crate::proto::handles::asked_to_close_all(
                old(self).books().pipes,
            ) + cancelled(old(self).books().resend()),
    {
        self.pipes.close_all(ctx);
        self.lb = PrioList::new();
        self.fq = PrioList::new();
        self.give_up(ctx);
    }
}

/// That a transition made what `step` says: `next` is the state that it
/// leads to, and the inner part and the context's journal went along.
pub open spec fn made(
    step: Step,
    next: State,
    before: Inner,
    asked0: Seq<Effect>,
    after: Inner,
    asked1: Seq<Effect>,
) -> bool {
    next == step.state && Inner::stepped(before, asked0, step, after, asked1)
}

impl State {
    pub open spec fn spec_name(self) -> Seq<char> {
        match self {
            State::Idle => "Idle"@,
            State::Sending(_, _, _) => "Sending"@,
            State::SendOnHold(_, _) => "SendOnHold"@,
            State::Receiving(_, _) => "Receiving"@,
            State::RecvOnHold(_) => "RecvOnHold"@,
        }
    }

    pub fn name(&self) -> (name: &'static str)
        ensures
            name@ == self.spec_name(),
    {
        match *self {
            State::Idle => "Idle",
            State::Sending(_, _, _) => "Sending",
            State::SendOnHold(_, _) => "SendOnHold",
            State::Receiving(_, _) => "Receiving",
            State::RecvOnHold(_) => "RecvOnHold",
        }
    }

    fn is_sending(&self) -> (sending: bool)
        ensures
            sending == (*self is Sending || *self is SendOnHold),
    {
        match *self {
            State::Sending(_, _, _) => true,
            State::SendOnHold(_, _) => true,
            _ => false,
        }
    }

    fn on_pipe_removed(self, eid: EndpointId) -> (next: State)
        ensures
            next == without_pipe(self, eid),
    {
        match self {
            State::Sending(id, request, timeout) => {
                if id == eid {
                    State::SendOnHold(request, timeout)
                } else {
                    State::Sending(id, request, timeout)
                }
            },
            State::Receiving(id, timeout) => {
                if id == eid {
                    State::RecvOnHold(timeout)
                } else {
                    State::Receiving(id, timeout)
                }
            },
            any => any,
        }
    }

    /// Hands the request to the pipe whose turn it is.
    fn hand<C: Context>(ctx: &mut C, inner: &mut Inner, request: Rc<Message>, timeout: Timeout) -> (next:
        State)
        requires
            old(inner).sound(),
        ensures
            final(inner).sound(),
            made(
                step_hand(old(inner).books(), request, timeout),
                next,
                *old(inner),
                old(ctx).journal(),
                *final(inner),
                final(ctx).journal(),
            ),
    {
        proof {
            assert(answers(inner.replies()) =~= answers(inner.replies()) + Seq::<Answer>::empty());
        }
        match inner.hand(ctx, share(&request)) {
            Some(eid) => {
                proof {
                    let i = in_turn(old(inner).books().lb, old(inner).books().pipes).unwrap();
                    assert(ctx.journal() =~= old(ctx).journal() + seq![
                        Effect::Send(old(inner).books().pipes[i].pipe.eid(), request),
                    ]);
                }
                State::Sending(eid, request, timeout)
            },
            None => {
                proof {
                    assert(ctx.journal() =~= old(ctx).journal() + Seq::<Effect>::empty());
                }
                State::SendOnHold(request, timeout)
            },
        }
    }

    fn send<C: Context>(
        self,
        ctx: &mut C,
        inner: &mut Inner,
        id: u32,
        request: Option<Rc<Message>>,
        timeout: Timeout,
    ) -> (next: State)
        requires
            old(inner).sound(),
        ensures
            final(inner).sound(),
            made(
                step_launch(old(inner).books(), id, request, timeout),
                next,
                *old(inner),
                old(ctx).journal(),
                *final(inner),
                final(ctx).journal(),
            ),
    {
        inner.give_up(ctx);
        let ghost given_up = ctx.journal();
        match request {
            None => {
                let error = invalid_input_io_error("the message is too long");
                inner.answer(ctx, Reply::Failed(error), timeout);
                proof {
                    assert(ctx.journal() =~= old(ctx).journal() + (cancelled(
                        old(inner).books().resend(),
                    ) + cancelled(timeout)));
                }
                State::Idle
            },
            Some(r) => {
                if inner.pipes.is_empty() {
                    let error = IoError::new(ErrorKind::NotConnected, "no connected endpoint");
                    inner.answer(ctx, Reply::Failed(error), timeout);
                    proof {
                        assert(ctx.journal() =~= old(ctx).journal() + (cancelled(
                            old(inner).books().resend(),
                        ) + cancelled(timeout)));
                    }
                    State::Idle
                } else {
                    inner.await_reply(id, share(&r));
                    let ghost waiting = inner.books();
                    let next = State::hand(ctx, inner, r, timeout);
                    proof {
                        assert(ctx.journal() =~= old(ctx).journal() + (cancelled(
                            old(inner).books().resend(),
                        ) + step_hand(waiting, r, timeout).asked));
                    }
                    next
                }
            },
        }
    }

    fn on_send_ack<C: Context>(self, ctx: &mut C, inner: &mut Inner, eid: EndpointId) -> (next:
        State)
        ensures
            final(inner).sound() == old(inner).sound(),
            made(
                step_on_send_ack(self, old(inner).books(), eid, final(inner).books().resend()),
                next,
                *old(inner),
                old(ctx).journal(),
                *final(inner),
                final(ctx).journal(),
            ),
    {
        match self {
            State::Sending(id, request, timeout) => {
                if id == eid {
                    inner.answer(ctx, Reply::Send, timeout);
                    inner.arm(ctx);
                    proof {
                        assert(ctx.journal() =~= old(ctx).journal() + (cancelled(timeout)
                            + old(inner).books().asked_to_arm(inner.books().resend())));
                    }
                    State::Idle
                } else {
                    proof {
                        assert(ctx.journal() =~= old(ctx).journal() + Seq::<Effect>::empty());
                        assert(answers(inner.replies()) =~= answers(inner.replies()) + Seq::<
                            Answer,
                        >::empty());
                    }
                    State::Sending(id, request, timeout)
                }
            },
            any => {
                proof {
                    assert(ctx.journal() =~= old(ctx).journal() + Seq::<Effect>::empty());
                    assert(answers(inner.replies()) =~= answers(inner.replies()) + Seq::<
                        Answer,
                    >::empty());
                }
                any
            },
        }
    }

    fn on_send_timeout<C: Context>(self, ctx: &mut C, inner: &mut Inner) -> (next: State)
        ensures
            final(inner).sound() == old(inner).sound(),
            made(
                step_on_send_timeout(old(inner).books()),
                next,
                *old(inner),
                old(ctx).journal(),
                *final(inner),
                final(ctx).journal(),
            ),
    {
        inner.give_up(ctx);
        let error = timedout_io_error("Send timed out");
        inner.answer(ctx, Reply::Failed(error), None);
        proof {
            assert(ctx.journal() =~= old(ctx).journal() + cancelled(old(inner).books().resend()));
        }
        State::Idle
    }

    fn on_send_ready<C: Context>(self, ctx: &mut C, inner: &mut Inner, eid: EndpointId) -> (next:
        State)
        requires
            old(inner).sound(),
        ensures
            final(inner).sound(),
            made(
                step_on_send_ready(self, old(inner).books(), eid),
                next,
                *old(inner),
                old(ctx).journal(),
                *final(inner),
                final(ctx).journal(),
            ),
    {
        inner.on_send_ready(eid);
        match self {
            State::SendOnHold(request, timeout) => State::hand(ctx, inner, request, timeout),
            any => {
                proof {
                    assert(ctx.journal() =~= old(ctx).journal() + Seq::<Effect>::empty());
                    assert(answers(inner.replies()) =~= answers(inner.replies()) + Seq::<
                        Answer,
                    >::empty());
                }
                any
            },
        }
    }

    fn on_timer_tick<C: Context>(self, ctx: &mut C, inner: &mut Inner, task: Schedulable) -> (next:
        State)
        requires
            old(inner).sound(),
        ensures
            final(inner).sound(),
            made(
                step_on_timer_tick(self, old(inner).books(), task, final(inner).books().resend()),
                next,
                *old(inner),
                old(ctx).journal(),
                *final(inner),
                final(ctx).journal(),
            ),
    {
        proof {
            assert(answers(inner.replies()) =~= answers(inner.replies()) + Seq::<Answer>::empty());
        }
        let resend = match task {
            Schedulable::ReqResend => !self.is_sending() && inner.pending.is_some(),
            _ => false,
        };
        if resend {
            inner.resend(ctx);
            inner.arm(ctx);
            proof {
                let books = old(inner).books();
                let request = books.pending.unwrap().request;
                let sent = match in_turn(books.lb, books.pipes) {
                    Some(i) => seq![Effect::Send(books.pipes[i].pipe.eid(), request)],
                    None => Seq::<Effect>::empty(),
                };
                assert(ctx.journal() =~= old(ctx).journal() + (sent + books.asked_to_arm(
                    inner.books().resend(),
                )));
            }
        } else {
            proof {
                assert(ctx.journal() =~= old(ctx).journal() + Seq::<Effect>::empty());
            }
        }
        self
    }

    /// Asks the pipe whose turn it is.
    fn ask<C: Context>(ctx: &mut C, inner: &mut Inner, timeout: Timeout) -> (next: State)
        requires
            old(inner).sound(),
        ensures
            final(inner).sound(),
            made(
                step_ask(old(inner).books(), timeout),
                next,
                *old(inner),
                old(ctx).journal(),
                *final(inner),
                final(ctx).journal(),
            ),
    {
        proof {
            assert(answers(inner.replies()) =~= answers(inner.replies()) + Seq::<Answer>::empty());
        }
        match inner.ask(ctx) {
            Some(eid) => {
                proof {
                    let i = in_turn(old(inner).books().fq, old(inner).books().pipes).unwrap();
                    assert(ctx.journal() =~= old(ctx).journal() + seq![
                        Effect::Recv(old(inner).books().pipes[i].pipe.eid()),
                    ]);
                }
                State::Receiving(eid, timeout)
            },
            None => {
                proof {
                    assert(ctx.journal() =~= old(ctx).journal() + Seq::<Effect>::empty());
                }
                State::RecvOnHold(timeout)
            },
        }
    }

    fn recv<C: Context>(self, ctx: &mut C, inner: &mut Inner, timeout: Timeout) -> (next: State)
        requires
            old(inner).sound(),
        ensures
            final(inner).sound(),
            made(
                step_recv(self, old(inner).books(), timeout),
                next,
                *old(inner),
                old(ctx).journal(),
                *final(inner),
                final(ctx).journal(),
            ),
    {
        if inner.pending.is_none() {
            let error = invalid_input_io_error("Can't recv: no pending request");
            inner.answer(ctx, Reply::Failed(error), timeout);
            self
        } else {
            State::ask(ctx, inner, timeout)
        }
    }

    fn on_recv_ack<C: Context>(
        self,
        ctx: &mut C,
        inner: &mut Inner,
        eid: EndpointId,
        msg: Message,
    ) -> (next: State)
        requires
            old(inner).sound(),
        ensures
            final(inner).sound(),
            made(
                step_on_recv_ack(self, old(inner).books(), eid, msg@.payload()),
                next,
                *old(inner),
                old(ctx).journal(),
                *final(inner),
                final(ctx).journal(),
            ),
    {
        match self {
            State::Receiving(id, timeout) => {
                if id == eid {
                    let _fits = msg.len();
                    let (mut payload, mut body) = msg.explode();
                    payload.append(&mut body);
                    match inner.reply_body(payload) {
                        Some(body) => {
                            inner.answer(ctx, Reply::Recv(Message::with_body(body)), timeout);
                            inner.give_up(ctx);
                            proof {
                                assert(ctx.journal() =~= old(ctx).journal() + (cancelled(timeout)
                                    + cancelled(old(inner).books().resend())));
                            }
                            State::Idle
                        },
                        None => State::ask(ctx, inner, timeout),
                    }
                } else {
                    proof {
                        assert(ctx.journal() =~= old(ctx).journal() + Seq::<Effect>::empty());
                        assert(answers(inner.replies()) =~= answers(inner.replies()) + Seq::<
                            Answer,
                        >::empty());
                    }
                    State::Receiving(id, timeout)
                }
            },
            any => {
                proof {
                    assert(ctx.journal() =~= old(ctx).journal() + Seq::<Effect>::empty());
                    assert(answers(inner.replies()) =~= answers(inner.replies()) + Seq::<
                        Answer,
                    >::empty());
                }
                any
            },
        }
    }

    fn on_recv_timeout<C: Context>(self, ctx: &mut C, inner: &mut Inner) -> (next: State)
        ensures
            final(inner).sound() == old(inner).sound(),
            made(
                step_on_recv_timeout(old(inner).books()),
                next,
                *old(inner),
                old(ctx).journal(),
                *final(inner),
                final(ctx).journal(),
            ),
    {
        let error = timedout_io_error("Recv timed out");
        inner.answer(ctx, Reply::Failed(error), None);
        State::Idle
    }

    fn on_recv_ready<C: Context>(self, ctx: &mut C, inner: &mut Inner, eid: EndpointId) -> (next:
        State)
        requires
            old(inner).sound(),
        ensures
            final(inner).sound(),
            made(
                step_on_recv_ready(self, old(inner).books(), eid),
                next,
                *old(inner),
                old(ctx).journal(),
                *final(inner),
                final(ctx).journal(),
            ),
    {
        inner.on_recv_ready(eid);
        match self {
            State::RecvOnHold(timeout) => State::ask(ctx, inner, timeout),
            any => {
                ctx.raise(Event::CanRecv);
                proof {
                    assert(ctx.journal() =~= old(ctx).journal() + seq![
                        Effect::Raise(Event::CanRecv),
                    ]);
                    assert(answers(inner.replies()) =~= answers(inner.replies()) + Seq::<
                        Answer,
                    >::empty());
                }
                any
            },
        }
    }
}

/// The request pattern: the socket sends a request, to the pipes in turn,
/// and receives the reply to it; a request that gets no reply in time is
/// sent again.
pub struct Req {
    inner: Inner,
    state: Option<State>,
}

impl Req {
    /// What the socket is doing: it is in a state but while a transition is
    /// made.
    pub closed spec fn state(&self) -> Option<State> {
        self.state
    }

    pub closed spec fn inner(&self) -> Inner {
        self.inner
    }

    /// A request socket that sends a request again after `resend_interval`
    /// without a reply.
    pub fn new(resend_interval: Duration) -> (req: Req)
        ensures
            req.sound(),
            req.state() == Some(State::Idle),
            req.inner().books().pipes.len() == 0,
            req.inner().books().lb.items.len() == 0,
            req.inner().books().lb.cursor is None,
            req.inner().books().fq.items.len() == 0,
            req.inner().books().fq.cursor is None,
            req.inner().books().pending is None,
            req.inner().books().counter == 0,
            req.inner().books().resend_interval == resend_interval,
            req.inner().replies().len() == 0,
    {
        Req {
            inner: Inner {
                replies: Vec::new(),
                pipes: Handles::new(),
                lb: PrioList::new(),
                fq: PrioList::new(),
                pending: None,
                counter: 0,
                resend_interval,
            },
            state: Some(State::Idle),
        }
    }

    /// From now on a request is sent again after `interval` without a
    /// reply. A timer that is set already runs on.
    pub fn set_resend_interval(&mut self, interval: Duration)
        ensures
            final(self).state() == old(self).state(),
            final(self).inner().replies() == old(self).inner().replies(),
            final(self).inner().sound() == old(self).inner().sound(),
            final(self).inner().books() == (Books {
                resend_interval: interval,
                ..old(self).inner().books()
            }),
    {
        self.inner.resend_interval = interval;
    }

    /// That `after` is `before` once the transition that comes to `step`
    /// was made, where `asked0` and `asked1` are the context's journal
    /// before and after it.
    pub open spec fn moved(
        before: Req,
        asked0: Seq<Effect>,
        step: Step,
        after: Req,
        asked1: Seq<Effect>,
    ) -> bool {
        &&& after.state() == Some(step.state)
        &&& Inner::stepped(before.inner(), asked0, step, after.inner(), asked1)
    }
}

impl Protocol for Req {
    /// The balancer and the fair queue are in order, and the socket is in a
    /// state.
    open spec fn sound(&self) -> bool {
        self.inner().sound() && self.state() is Some
    }

    open spec fn socket_type(&self) -> SocketType {
        SocketType::Req
    }

    open spec fn owed(&self) -> Seq<Reply> {
        self.inner().replies()
    }

    fn id(&self) -> (id: u16)
        ensures
            id == SocketType::Req.spec_id(),
    {
        SocketType::Req.id()
    }

    fn peer_id(&self) -> (id: u16)
        ensures
            id == SocketType::Rep.spec_id(),
    {
        SocketType::Req.peer().id()
    }

    open spec fn did_set_option(
        before: Self,
        option: ConfigOption,
        after: Self,
        r: Result<(), IoError>,
    ) -> bool {
        &&& after.state() == before.state()
        &&& after.inner().replies() == before.inner().replies()
        &&& match option {
            ConfigOption::ResendInterval(interval) => r is Ok && after.inner().books()
                == (Books { resend_interval: interval, ..before.inner().books() }),
            _ => crate::io_error::fails_with(
                r,
                ErrorKind::InvalidInput,
                "the option is not one of this protocol"@,
            ) && after.inner().books() == before.inner().books(),
        }
    }

    /// A request socket has one option of its own: how long a request
    /// waits for its reply before it is sent again.
    fn set_option(&mut self, option: ConfigOption) -> (r: Result<(), IoError>) {
        match option {
            ConfigOption::ResendInterval(interval) => {
                self.set_resend_interval(interval);
                Ok(())
            },
            _ => Err(invalid_input_io_error("the option is not one of this protocol")),
        }
    }

    /// Hands out the answers that the user is owed, oldest first.
    fn take_replies(&mut self) -> (replies: Vec<Reply>)
        ensures
            replies@ == old(self).inner().replies(),
            final(self).inner().replies().len() == 0,
            final(self).inner().books() == old(self).inner().books(),
            final(self).inner().sound() == old(self).inner().sound(),
            final(self).state() == old(self).state(),
    {
        let mut replies: Vec<Reply> = Vec::new();
        replies.append(&mut self.inner.replies);
        replies
    }

    open spec fn did_add_pipe(
        before: Self,
        eid: EndpointId,
        pipe: Pipe,
        after: Self,
        asked0: Seq<Effect>,
        asked1: Seq<Effect>,
    ) -> bool {
        &&& after.state() == before.state()
        &&& after.inner().replies() == before.inner().replies()
        &&& after.inner().books() == books_with_pipe(before.inner().books(), eid, pipe)
        &&& asked1 == asked0 + (match first_named(
            before.inner().books().pipes,
            0,
            eid,
        ) {
            Some(_) => seq![Effect::Close(pipe.eid(), true)],
            None => Seq::empty(),
        })
    }

    /// Takes the pipe in, unless a pipe is known by that name already: then
    /// the new pipe is ordered to close.
    fn add_pipe<C: Context>(&mut self, ctx: &mut C, eid: EndpointId, pipe: Pipe) {
        self.inner.add_pipe(ctx, eid, pipe);
    }

    open spec fn did_remove_pipe(
        before: Self,
        eid: EndpointId,
        after: Self,
        asked0: Seq<Effect>,
        asked1: Seq<Effect>,
        removed: Option<Pipe>,
    ) -> bool {
        &&& removed == (match first_named(before.inner().books().pipes, 0, eid) {
            Some(i) => Some(before.inner().books().pipes[i].pipe),
            None => None,
        })
        &&& after.state() == Some(
            if removed is Some {
                without_pipe(before.state().unwrap(), eid)
            } else {
                before.state().unwrap()
            },
        )
        &&& after.inner().replies() == before.inner().replies()
        &&& after.inner().books() == books_without_pipe(before.inner().books(), eid)
        &&& asked1 == asked0
    }

    /// Lets the pipe go; what was with it is put on hold.
    fn remove_pipe<C: Context>(&mut self, ctx: &mut C, eid: EndpointId) -> (removed: Option<Pipe>) {
        let pipe = self.inner.remove_pipe(eid);
        if pipe.is_some() {
            if let Some(state) = self.state.take() {
                self.state = Some(state.on_pipe_removed(eid));
            }
        }
        pipe
    }

    open spec fn did_send(
        before: Self,
        msg: Message,
        timeout: Timeout,
        after: Self,
        asked0: Seq<Effect>,
        asked1: Seq<Effect>,
    ) -> bool {
        exists|request: Option<Rc<Message>>|
            {
                &&& framed(request_id(before.inner().books().counter), msg@, request)
                &&& #[trigger] Req::moved(
                    before,
                    asked0,
                    step_send(before.inner().books(), request, timeout),
                    after,
                    asked1,
                )
            }
    }

    /// Sends the user's message as a new request.
    fn send<C: Context>(&mut self, ctx: &mut C, msg: Message, timeout: Timeout) {
        if let Some(state) = self.state.take() {
            let id = self.inner.next_id();
            let request = frame(id, msg);
            let ghost witness = request;
            let next = state.send(ctx, &mut self.inner, id, request, timeout);
            self.state = Some(next);
            proof {
                assert(Req::moved(
                    *old(self),
                    old(ctx).journal(),
                    step_send(old(self).inner().books(), witness, timeout),
                    *self,
                    ctx.journal(),
                ));
            }
        }
    }

    open spec fn did_on_send_ack(
        before: Self,
        eid: EndpointId,
        after: Self,
        asked0: Seq<Effect>,
        asked1: Seq<Effect>,
    ) -> bool {
        Req::moved(
            before,
            asked0,
            step_on_send_ack(
                before.state().unwrap(),
                before.inner().books(),
                eid,
                after.inner().books().resend(),
            ),
            after,
            asked1,
        )
    }

    /// The timer's name in the books afterwards is the one that the context
    /// gave, if a timer was set.
    fn on_send_ack<C: Context>(&mut self, ctx: &mut C, eid: EndpointId) {
        if let Some(state) = self.state.take() {
            let next = state.on_send_ack(ctx, &mut self.inner, eid);
            self.state = Some(next);
        }
    }

    open spec fn did_on_send_timeout(
        before: Self,
        after: Self,
        asked0: Seq<Effect>,
        asked1: Seq<Effect>,
    ) -> bool {
        Req::moved(
            before,
            asked0,
            step_on_send_timeout(before.inner().books()),
            after,
            asked1,
        )
    }

    fn on_send_timeout<C: Context>(&mut self, ctx: &mut C) {
        if let Some(state) = self.state.take() {
            let next = state.on_send_timeout(ctx, &mut self.inner);
            self.state = Some(next);
        }
    }

    open spec fn did_on_send_ready(
        before: Self,
        eid: EndpointId,
        after: Self,
        asked0: Seq<Effect>,
        asked1: Seq<Effect>,
    ) -> bool {
        Req::moved(
            before,
            asked0,
            step_on_send_ready(before.state().unwrap(), before.inner().books(), eid),
            after,
            asked1,
        )
    }

    fn on_send_ready<C: Context>(&mut self, ctx: &mut C, eid: EndpointId) {
        if let Some(state) = self.state.take() {
            let next = state.on_send_ready(ctx, &mut self.inner, eid);
            self.state = Some(next);
        }
    }

    open spec fn did_recv(
        before: Self,
        timeout: Timeout,
        after: Self,
        asked0: Seq<Effect>,
        asked1: Seq<Effect>,
    ) -> bool {
        Req::moved(
            before,
            asked0,
            step_recv(before.state().unwrap(), before.inner().books(), timeout),
            after,
            asked1,
        )
    }

    fn recv<C: Context>(&mut self, ctx: &mut C, timeout: Timeout) {
        if let Some(state) = self.state.take() {
            let next = state.recv(ctx, &mut self.inner, timeout);
            self.state = Some(next);
        }
    }

    open spec fn did_on_recv_ack(
        before: Self,
        eid: EndpointId,
        msg: Message,
        after: Self,
        asked0: Seq<Effect>,
        asked1: Seq<Effect>,
    ) -> bool {
        Req::moved(
            before,
            asked0,
            step_on_recv_ack(
                before.state().unwrap(),
                before.inner().books(),
                eid,
                msg@.payload(),
            ),
            after,
            asked1,
        )
    }

    fn on_recv_ack<C: Context>(&mut self, ctx: &mut C, eid: EndpointId, msg: Message) {
        if let Some(state) = self.state.take() {
            let next = state.on_recv_ack(ctx, &mut self.inner, eid, msg);
            self.state = Some(next);
        }
    }

    open spec fn did_on_recv_timeout(
        before: Self,
        after: Self,
        asked0: Seq<Effect>,
        asked1: Seq<Effect>,
    ) -> bool {
        Req::moved(
            before,
            asked0,
            step_on_recv_timeout(before.inner().books()),
            after,
            asked1,
        )
    }

    fn on_recv_timeout<C: Context>(&mut self, ctx: &mut C) {
        if let Some(state) = self.state.take() {
            let next = state.on_recv_timeout(ctx, &mut self.inner);
            self.state = Some(next);
        }
    }

    open spec fn did_on_recv_ready(
        before: Self,
        eid: EndpointId,
        after: Self,
        asked0: Seq<Effect>,
        asked1: Seq<Effect>,
    ) -> bool {
        Req::moved(
            before,
            asked0,
            step_on_recv_ready(before.state().unwrap(), before.inner().books(), eid),
            after,
            asked1,
        )
    }

    fn on_recv_ready<C: Context>(&mut self, ctx: &mut C, eid: EndpointId) {
        if let Some(state) = self.state.take() {
            let next = state.on_recv_ready(ctx, &mut self.inner, eid);
            self.state = Some(next);
        }
    }

    open spec fn did_on_timer_tick(
        before: Self,
        task: Schedulable,
        after: Self,
        asked0: Seq<Effect>,
        asked1: Seq<Effect>,
    ) -> bool {
        Req::moved(
            before,
            asked0,
            step_on_timer_tick(
                before.state().unwrap(),
                before.inner().books(),
                task,
                after.inner().books().resend(),
            ),
            after,
            asked1,
        )
    }

    /// The timer's name in the books afterwards is the one that the context
    /// gave, if a timer was set.
    fn on_timer_tick<C: Context>(&mut self, ctx: &mut C, task: Schedulable) {
        if let Some(state) = self.state.take() {
            let next = state.on_timer_tick(ctx, &mut self.inner, task);
            self.state = Some(next);
        }
    }

    open spec fn did_close(
        before: Self,
        after: Self,
        asked0: Seq<Effect>,
        asked1: Seq<Effect>,
    ) -> bool {
        &&& after.state() == before.state()
        &&& after.inner().replies() == before.inner().replies()
        &&& after.inner().books().pipes.len() == 0
        &&& after.inner().books().lb.items.len() == 0
        &&& after.inner().books().lb.cursor is None
        &&& after.inner().books().fq.items.len() == 0
        &&& after.inner().books().fq.cursor is None
        &&& after.inner().books().pending is None
        &&& after.inner().books().counter == before.inner().books().counter
        &&& after.inner().books().resend_interval == before.inner().books().resend_interval
        &&& asked1 == asked0 + crate::proto::handles::asked_to_close_all(
            before.inner().books().pipes,
        ) + cancelled(before.inner().books().resend())
    }

    /// Orders every pipe to close, lets them all go, and gives the request
    /// that waits up.
    fn close<C: Context>(&mut self, ctx: &mut C) {
        self.inner.close(ctx)
    }
}

/// A reply finds its request. The request that a request socket makes of a
/// message is parted by a reply socket into the request's number, which it
/// keeps as the routing header, and the message; and the reply that the
/// reply socket makes of its user's answer, with that routing header in
/// front, is the reply to that request and to no other, and gives the
/// answer back.
pub proof fn reply_finds_its_request(
    counter: u32,
    asked: MessageView,
    request: Rc<Message>,
    answer: MessageView,
    reply: Rc<Message>,
    other: u32,
)
    requires
        framed(request_id(counter), asked, Some(request)),
        crate::proto::rep::routed(be_u32(request_id(counter)), answer, Some(reply)),
    ensures
        crate::proto::rep::header_end(request@.payload(), 0) == Some(4int),
        request@.payload().take(4) == be_u32(request_id(counter)),
        request@.payload().skip(4) == asked.payload(),
        replies_to(reply@.payload(), request_id(counter)),
        reply@.payload().skip(4) == answer.payload(),
        replies_to(reply@.payload(), other) ==> other == request_id(counter),
{
    let id = request_id(counter);
    crate::proto::numbered::numbers_are_told_apart(counter, other);
    let sent = request@.payload();
    assert(sent =~= be_u32(id) + asked.payload());
    assert(sent[0] == be_u32(id)[0]);
    assert(sent.take(4) =~= be_u32(id));
    assert(sent.skip(4) =~= asked.payload());
    let back = reply@.payload();
    assert(back =~= be_u32(id) + answer.payload());
    assert(back.take(4) =~= be_u32(id));
    assert(back.skip(4) =~= answer.payload());
}

} // verus!
