use vstd::prelude::*;
use std::rc::Rc;
use crate::context::{Context, Effect, Event, Schedulable, Timeout};
use crate::endpoint::Pipe;
use crate::global::SocketType;
use crate::id::EndpointId;
use crate::io_error::{invalid_input_io_error, timedout_io_error, ErrorKind, IoError};
use crate::message::{share, Message};
use crate::socket::{Answer, ConfigOption, Protocol, Reply};

verus! {

/// What a pair is doing for its user.
#[derive(Debug)]
pub enum State {
    /// Nothing.
    Idle,
    /// The message is with the pipe, to be sent.
    Sending(EndpointId, Rc<Message>, Timeout),
    /// The message waits for a pipe that can send.
    SendOnHold(Rc<Message>, Timeout),
    /// The pipe was asked for a message.
    Receiving(EndpointId, Timeout),
    /// The receive waits for a pipe that has a message.
    RecvOnHold(Timeout),
}

/// What a pair knows of its pipe.
pub struct Link {
    /// The pipe, under the name that the pair knows it by.
    pub pipe: Option<(EndpointId, Pipe)>,
    /// Whether the pipe has said that it can send, and was not given a
    /// message since.
    pub send_ready: bool,
    /// Whether the pipe has said that it has a message, and was not asked
    /// for one since.
    pub recv_ready: bool,
}

/// What a transition comes to.
pub struct Step {
    /// The state that it leads to.
    pub state: State,
    /// What the pair then knows of its pipe.
    pub link: Link,
    /// What was asked of the context, in order.
    pub asked: Seq<Effect>,
    /// What the user was answered, in order.
    pub answered: Seq<Answer>,
}

/// What is asked of the context to clear a deadline, if one was set.
pub open spec fn cancelled(timeout: Timeout) -> Seq<Effect> {
    match timeout {
        Some(handle) => seq![Effect::Cancel(handle)],
        None => Seq::empty(),
    }
}

/// The link once the pipe named `eid`, if it is the pair's, has said that
/// it can send.
pub open spec fn link_on_send_ready(link: Link, eid: EndpointId) -> Link {
    if link.pipe matches Some(p) && p.0 == eid {
        Link { send_ready: true, ..link }
    } else {
        link
    }
}

/// The link once the pipe named `eid`, if it is the pair's, has said that
/// it has a message.
pub open spec fn link_on_recv_ready(link: Link, eid: EndpointId) -> Link {
    if link.pipe matches Some(p) && p.0 == eid {
        Link { recv_ready: true, ..link }
    } else {
        link
    }
}

/// The link of a pair whose pipe has left, or that was closed: there is no
/// pipe, and so nothing that could send or has a message.
pub open spec fn link_closed(link: Link) -> Link {
    Link { pipe: None, send_ready: false, recv_ready: false }
}

/// Whether the link is in order: only a pipe that is there is taken to be
/// able to send or to have a message.
pub open spec fn link_in_order(link: Link) -> bool {
    link.pipe is None ==> !link.send_ready && !link.recv_ready
}

/// What closing a pair asks of the context: to close the pipe, if there is one.
pub open spec fn asked_to_close(link: Link) -> Seq<Effect> {
    match link.pipe {
        Some(p) => seq![Effect::Close(p.1.eid(), true)],
        None => Seq::empty(),
    }
}

/// To send: if the pipe has said that it can send, it is no longer taken
/// to, and the message goes to it if there still is a pipe; else the
/// message is put on hold.
pub open spec fn step_send(link: Link, msg: Rc<Message>, timeout: Timeout) -> Step {
    if !link.send_ready {
        Step {
            state: State::SendOnHold(msg, timeout),
            link,
            asked: Seq::empty(),
            answered: Seq::empty(),
        }
    } else {
        let link = Link { send_ready: false, ..link };
        match link.pipe {
            Some(p) => Step {
                state: State::Sending(p.0, msg, timeout),
                link,
                asked: seq![Effect::Send(p.1.eid(), msg)],
                answered: Seq::empty(),
            },
            None => Step {
                state: State::SendOnHold(msg, timeout),
                link,
                asked: Seq::empty(),
                answered: Seq::empty(),
            },
        }
    }
}

/// To receive: if the pipe has said that it has a message, it is no longer
/// taken to, and it is asked for the message if there still is a pipe; else
/// the receive is put on hold.
pub open spec fn step_recv(link: Link, timeout: Timeout) -> Step {
    if !link.recv_ready {
        Step {
            state: State::RecvOnHold(timeout),
            link,
            asked: Seq::empty(),
            answered: Seq::empty(),
        }
    } else {
        let link = Link { recv_ready: false, ..link };
        match link.pipe {
            Some(p) => Step {
                state: State::Receiving(p.0, timeout),
                link,
                asked: seq![Effect::Recv(p.1.eid())],
                answered: Seq::empty(),
            },
            None => Step {
                state: State::RecvOnHold(timeout),
                link,
                asked: Seq::empty(),
                answered: Seq::empty(),
            },
        }
    }
}

/// A step that changes nothing and says nothing.
pub open spec fn step_stay(state: State, link: Link) -> Step {
    Step { state, link, asked: Seq::empty(), answered: Seq::empty() }
}

/// The pipe named `eid` has left: what was with it is put on hold.
pub open spec fn step_on_pipe_removed(state: State, link: Link, eid: EndpointId) -> Step {
    match state {
        State::Sending(id, msg, timeout) if id == eid => step_stay(
            State::SendOnHold(msg, timeout),
            link,
        ),
        State::Receiving(id, timeout) if id == eid => step_stay(State::RecvOnHold(timeout), link),
        any => step_stay(any, link),
    }
}

/// The pipe named `eid` has sent a message: if it is the one that the pair
/// is sending, the user is answered and the deadline is cleared.
pub open spec fn step_on_send_ack(state: State, link: Link, eid: EndpointId) -> Step {
    match state {
        State::Sending(id, msg, timeout) if id == eid => Step {
            state: State::Idle,
            link,
            asked: cancelled(timeout),
            answered: seq![Answer::Send],
        },
        any => step_stay(any, link),
    }
}

/// The deadline of the send has passed: the user is answered so.
pub open spec fn step_on_send_timeout(link: Link) -> Step {
    Step {
        state: State::Idle,
        link,
        asked: Seq::empty(),
        answered: seq![Answer::Failed(ErrorKind::TimedOut, "Send timed out"@)],
    }
}

/// The pipe named `eid` can send: a message on hold is sent.
pub open spec fn step_on_send_ready(state: State, link: Link, eid: EndpointId) -> Step {
    let link = link_on_send_ready(link, eid);
    match state {
        State::SendOnHold(msg, timeout) => step_send(link, msg, timeout),
        any => step_stay(any, link),
    }
}

/// The pipe named `eid` has received `msg`: if the pair is receiving from
/// it, the user is given the message and the deadline is cleared.
pub open spec fn step_on_recv_ack(state: State, link: Link, eid: EndpointId, msg: Message) -> Step {
    match state {
        State::Receiving(id, timeout) if id == eid => Step {
            state: State::Idle,
            link,
            asked: cancelled(timeout),
            answered: seq![Answer::Recv(msg@)],
        },
        any => step_stay(any, link),
    }
}

/// The deadline of the receive has passed: the user is answered so.
pub open spec fn step_on_recv_timeout(link: Link) -> Step {
    Step {
        state: State::Idle,
        link,
        asked: Seq::empty(),
        answered: seq![Answer::Failed(ErrorKind::TimedOut, "Recv timed out"@)],
    }
}

/// The pipe named `eid` has a message: a receive on hold goes on; else the
/// socket's owner is told that there is something to receive.
pub open spec fn step_on_recv_ready(state: State, link: Link, eid: EndpointId) -> Step {
    let link = link_on_recv_ready(link, eid);
    match state {
        State::RecvOnHold(timeout) => step_recv(link, timeout),
        any => Step {
            state: any,
            link,
            asked: seq![Effect::Raise(Event::CanRecv)],
            answered: Seq::empty(),
        },
    }
}

/// The part of a pair that its transitions work on: the pipe, what is known
/// of it, and the answers that the user is owed.
pub struct Inner {
    replies: Vec<Reply>,
    pipe: Option<(EndpointId, Pipe)>,
    send_ready: bool,
    recv_ready: bool,
}

impl Inner {
    /// What is known of the pipe.
    pub closed spec fn link(&self) -> Link {
        Link { pipe: self.pipe, send_ready: self.send_ready, recv_ready: self.recv_ready }
    }

    /// The answers that the user was not given yet, oldest first.
    pub closed spec fn replies(&self) -> Seq<Reply> {
        self.replies@
    }

    /// That `after` is `before` once the transition that comes to `step`
    /// was made, where `asked0` and `asked1` are the context's journal
    /// before and after it.
    pub open spec fn stepped(
        before: Inner,
        asked0: Seq<Effect>,
        step: Step,
        after: Inner,
        asked1: Seq<Effect>,
    ) -> bool {
        &&& after.link() == step.link
        &&& asked1 == asked0 + step.asked
        &&& crate::socket::answers(after.replies()) == crate::socket::answers(before.replies())
            + step.answered
    }

    fn add_pipe<C: Context>(&mut self, ctx: &mut C, eid: EndpointId, pipe: Pipe)
        ensures
            final(self).replies() == old(self).replies(),
            if old(self).link().pipe is None {
                &&& final(self).link() == (Link {
                    pipe: Some((eid, pipe)),
                    send_ready: false,
                    recv_ready: false,
                })
                &&& final(ctx).journal() == old(ctx).journal()
            } else {
                &&& final(self).link() == old(self).link()
                &&& final(ctx).journal() == old(ctx).journal().push(Effect::Close(pipe.eid(), true))
            },
    {
        if self.pipe.is_none() {
            self.pipe = Some((eid, pipe));
            self.send_ready = false;
            self.recv_ready = false;
        } else {
            pipe.close(ctx);
        }
    }

    fn remove_pipe<C: Context>(&mut self, ctx: &mut C, eid: EndpointId) -> (removed: Option<Pipe>)
        ensures
            final(self).replies() == old(self).replies(),
            final(ctx).journal() == old(ctx).journal(),
            match old(self).link().pipe {
                Some(p) if p.0 == eid => removed == Some(p.1) && final(self).link() == link_closed(
                    old(self).link(),
                ),
                _ => removed is None && final(self).link() == old(self).link(),
            },
    {
        if let Some((id, pipe)) = self.pipe.take() {
            if id == eid {
                self.send_ready = false;
                self.recv_ready = false;
                return Some(pipe);
            } else {
                self.pipe = Some((id, pipe));
            }
        }
        None
    }

    fn send<C: Context>(&mut self, ctx: &mut C, msg: Rc<Message>) -> (to: Option<EndpointId>)
        ensures
            Self::stepped(
                *old(self),
                old(ctx).journal(),
                step_send(old(self).link(), msg, None),
                *final(self),
                final(ctx).journal(),
            ),
            final(self).replies() == old(self).replies(),
            to == (match step_send(old(self).link(), msg, None).state {
                State::Sending(eid, _, _) => Some(eid),
                _ => None,
            }),
    {
        proof {
            assert(ctx.journal() + Seq::<Effect>::empty() =~= ctx.journal());
            assert(crate::socket::answers(self.replies()) + Seq::<Answer>::empty()
                =~= crate::socket::answers(self.replies()));
        }
        if self.send_ready == false {
            return None;
        }
        self.send_ready = false;
        match &self.pipe {
            None => None,
            Some((eid, pipe)) => {
                pipe.send(ctx, msg);
                proof {
                    assert(ctx.journal() =~= old(ctx).journal() + seq![
                        Effect::Send(pipe.eid(), msg),
                    ]);
                }
                Some(*eid)
            },
        }
    }

    fn on_send_ready(&mut self, eid: EndpointId)
        ensures
            final(self).replies() == old(self).replies(),
            final(self).link() == link_on_send_ready(old(self).link(), eid),
    {
        let mine = match &self.pipe {
            Some((id, _)) => *id == eid,
            None => false,
        };
        if mine {
            self.send_ready = true;
        }
    }

    fn on_send_ack<C: Context>(&mut self, ctx: &mut C, timeout: Timeout)
        ensures
            final(self).link() == old(self).link(),
            final(self).replies() == old(self).replies().push(Reply::Send),
            final(ctx).journal() == old(ctx).journal() + cancelled(timeout),
    {
        self.replies.push(Reply::Send);
        if let Some(sched) = timeout {
            ctx.cancel(sched);
            proof {
                assert(ctx.journal() =~= old(ctx).journal() + cancelled(timeout));
            }
        } else {
            proof {
                assert(ctx.journal() =~= old(ctx).journal() + cancelled(timeout));
            }
        }
    }

    fn on_send_timeout(&mut self)
        ensures
            final(self).link() == old(self).link(),
            crate::socket::answers(final(self).replies()) == crate::socket::answers(
                old(self).replies(),
            ).push(Answer::Failed(ErrorKind::TimedOut, "Send timed out"@)),
    {
        let error = timedout_io_error("Send timed out");
        self.replies.push(Reply::Failed(error));
        proof {
            assert(crate::socket::answers(self.replies()) =~= crate::socket::answers(
                old(self).replies(),
            ).push(Answer::Failed(ErrorKind::TimedOut, "Send timed out"@)));
        }
    }

    fn recv<C: Context>(&mut self, ctx: &mut C) -> (from: Option<EndpointId>)
        ensures
            Self::stepped(
                *old(self),
                old(ctx).journal(),
                step_recv(old(self).link(), None),
                *final(self),
                final(ctx).journal(),
            ),
            final(self).replies() == old(self).replies(),
            from == (match step_recv(old(self).link(), None).state {
                State::Receiving(eid, _) => Some(eid),
                _ => None,
            }),
    {
        proof {
            assert(ctx.journal() + Seq::<Effect>::empty() =~= ctx.journal());
            assert(crate::socket::answers(self.replies()) + Seq::<Answer>::empty()
                =~= crate::socket::answers(self.replies()));
        }
        if self.recv_ready == false {
            return None;
        }
        self.recv_ready = false;
        match &self.pipe {
            None => None,
            Some((eid, pipe)) => {
                pipe.recv(ctx);
                proof {
                    assert(ctx.journal() =~= old(ctx).journal() + seq![Effect::Recv(pipe.eid())]);
                }
                Some(*eid)
            },
        }
    }

    fn on_recv_ready(&mut self, eid: EndpointId)
        ensures
            final(self).replies() == old(self).replies(),
            final(self).link() == link_on_recv_ready(old(self).link(), eid),
    {
        let mine = match &self.pipe {
            Some((id, _)) => *id == eid,
            None => false,
        };
        if mine {
            self.recv_ready = true;
        }
    }

    fn on_recv_ack<C: Context>(&mut self, ctx: &mut C, timeout: Timeout, msg: Message)
        ensures
            final(self).link() == old(self).link(),
            final(self).replies() == old(self).replies().push(Reply::Recv(msg)),
            final(ctx).journal() == old(ctx).journal() + cancelled(timeout),
    {
        self.replies.push(Reply::Recv(msg));
        if let Some(sched) = timeout {
            ctx.cancel(sched);
            proof {
                assert(ctx.journal() =~= old(ctx).journal() + cancelled(timeout));
            }
        } else {
            proof {
                assert(ctx.journal() =~= old(ctx).journal() + cancelled(timeout));
            }
        }
    }

    fn on_recv_timeout(&mut self)
        ensures
            final(self).link() == old(self).link(),
            crate::socket::answers(final(self).replies()) == crate::socket::answers(
                old(self).replies(),
            ).push(Answer::Failed(ErrorKind::TimedOut, "Recv timed out"@)),
    {
        let error = timedout_io_error("Recv timed out");
        self.replies.push(Reply::Failed(error));
        proof {
            assert(crate::socket::answers(self.replies()) =~= crate::socket::answers(
                old(self).replies(),
            ).push(Answer::Failed(ErrorKind::TimedOut, "Recv timed out"@)));
        }
    }

    fn close<C: Context>(&mut self, ctx: &mut C)
        ensures
            final(self).replies() == old(self).replies(),
            final(self).link() == link_closed(old(self).link()),
            final(ctx).journal() == (match old(self).link().pipe {
                Some(p) => old(ctx).journal().push(Effect::Close(p.1.eid(), true)),
                None => old(ctx).journal(),
            }),
    {
        match self.pipe.take() {
            Some((_, pipe)) => pipe.close(ctx),
            None => {},
        }
        self.send_ready = false;
        self.recv_ready = false;
    }
}

/// That a transition made what `step` says: `next` is the state that it
/// leads to, and the inner part and the context's journal went along.
pub open spec fn made(
    step: Step,
    next: State,
    before: Inner,
    asked0: Seq<Effect>,
    after: Inner,
    asked1: Seq<Effect>,
) -> bool {
    next == step.state && Inner::stepped(before, asked0, step, after, asked1)
}

impl State {
    pub open spec fn spec_name(self) -> Seq<char> {
        match self {
            State::Idle => "Idle"@,
            State::Sending(_, _, _) => "Sending"@,
            State::SendOnHold(_, _) => "SendOnHold"@,
            State::Receiving(_, _) => "Receiving"@,
            State::RecvOnHold(_) => "RecvOnHold"@,
        }
    }

    pub fn name(&self) -> (name: &'static str)
        ensures
            name@ == self.spec_name(),
    {
        match *self {
            State::Idle => "Idle",
            State::Sending(_, _, _) => "Sending",
            State::SendOnHold(_, _) => "SendOnHold",
            State::Receiving(_, _) => "Receiving",
            State::RecvOnHold(_) => "RecvOnHold",
        }
    }

    fn on_pipe_removed<C: Context>(self, ctx: &mut C, inner: &mut Inner, eid: EndpointId) -> (next:
        State)
        ensures
            made(
                step_on_pipe_removed(self, old(inner).link(), eid),
                next,
                *old(inner),
                old(ctx).journal(),
                *final(inner),
                final(ctx).journal(),
            ),
    {
        proof {
            assert(ctx.journal() + Seq::<Effect>::empty() =~= ctx.journal());
            assert(crate::socket::answers(inner.replies()) + Seq::<Answer>::empty()
                =~= crate::socket::answers(inner.replies()));
        }
        match self {
            State::Sending(id, msg, timeout) => {
                if id == eid {
                    State::SendOnHold(msg, timeout)
                } else {
                    State::Sending(id, msg, timeout)
                }
            },
            State::Receiving(id, timeout) => {
                if id == eid {
                    State::RecvOnHold(timeout)
                } else {
                    State::Receiving(id, timeout)
                }
            },
            any => any,
        }
    }

    fn send<C: Context>(self, ctx: &mut C, inner: &mut Inner, msg: Rc<Message>, timeout: Timeout) -> (next:
        State)
        ensures
            made(
                step_send(old(inner).link(), msg, timeout),
                next,
                *old(inner),
                old(ctx).journal(),
                *final(inner),
                final(ctx).journal(),
            ),
    {
        if let Some(eid) = inner.send(ctx, share(&msg)) {
            State::Sending(eid, msg, timeout)
        } else {
            State::SendOnHold(msg, timeout)
        }
    }

    fn on_send_ack<C: Context>(self, ctx: &mut C, inner: &mut Inner, eid: EndpointId) -> (next:
        State)
        ensures
            made(
                step_on_send_ack(self, old(inner).link(), eid),
                next,
                *old(inner),
                old(ctx).journal(),
                *final(inner),
                final(ctx).journal(),
            ),
    {
        proof {
            assert(ctx.journal() + Seq::<Effect>::empty() =~= ctx.journal());
            assert(crate::socket::answers(inner.replies()) + Seq::<Answer>::empty()
                =~= crate::socket::answers(inner.replies()));
        }
        match self {
            State::Sending(id, msg, timeout) => {
                if id == eid {
                    inner.on_send_ack(ctx, timeout);
                    proof {
                        assert(crate::socket::answers(inner.replies()) =~= crate::socket::answers(
                            old(inner).replies(),
                        ) + seq![Answer::Send]);
                    }
                    State::Idle
                } else {
                    State::Sending(id, msg, timeout)
                }
            },
            any => any,
        }
    }

    fn on_send_timeout<C: Context>(self, ctx: &mut C, inner: &mut Inner) -> (next: State)
        ensures
            made(
                step_on_send_timeout(old(inner).link()),
                next,
                *old(inner),
                old(ctx).journal(),
                *final(inner),
                final(ctx).journal(),
            ),
    {
        inner.on_send_timeout();
        proof {
            assert(ctx.journal() + Seq::<Effect>::empty() =~= ctx.journal());
            assert(crate::socket::answers(inner.replies()) =~= crate::socket::answers(
                old(inner).replies(),
            ) + seq![Answer::Failed(ErrorKind::TimedOut, "Send timed out"@)]);
        }
        State::Idle
    }

    fn on_send_ready<C: Context>(self, ctx: &mut C, inner: &mut Inner, eid: EndpointId) -> (next:
        State)
        ensures
            made(
                step_on_send_ready(self, old(inner).link(), eid),
                next,
                *old(inner),
                old(ctx).journal(),
                *final(inner),
                final(ctx).journal(),
            ),
    {
        inner.on_send_ready(eid);
        proof {
            assert(ctx.journal() + Seq::<Effect>::empty() =~= ctx.journal());
            assert(crate::socket::answers(inner.replies()) + Seq::<Answer>::empty()
                =~= crate::socket::answers(inner.replies()));
        }
        match self {
            State::SendOnHold(msg, timeout) => State::Idle.send(ctx, inner, msg, timeout),
            any => any,
        }
    }

    fn recv<C: Context>(self, ctx: &mut C, inner: &mut Inner, timeout: Timeout) -> (next: State)
        ensures
            made(
                step_recv(old(inner).link(), timeout),
                next,
                *old(inner),
                old(ctx).journal(),
                *final(inner),
                final(ctx).journal(),
            ),
    {
        match inner.recv(ctx) {
            None => State::RecvOnHold(timeout),
            Some(eid) => State::Receiving(eid, timeout),
        }
    }

    fn on_recv_ack<C: Context>(
        self,
        ctx: &mut C,
        inner: &mut Inner,
        eid: EndpointId,
        msg: Message,
    ) -> (next: State)
        ensures
            made(
                step_on_recv_ack(self, old(inner).link(), eid, msg),
                next,
                *old(inner),
                old(ctx).journal(),
                *final(inner),
                final(ctx).journal(),
            ),
    {
        proof {
            assert(ctx.journal() + Seq::<Effect>::empty() =~= ctx.journal());
            assert(crate::socket::answers(inner.replies()) + Seq::<Answer>::empty()
                =~= crate::socket::answers(inner.replies()));
        }
        match self {
            State::Receiving(id, timeout) => {
                if id == eid {
                    inner.on_recv_ack(ctx, timeout, msg);
                    proof {
                        assert(crate::socket::answers(inner.replies()) =~= crate::socket::answers(
                            old(inner).replies(),
                        ) + seq![Answer::Recv(msg@)]);
                    }
                    State::Idle
                } else {
                    State::Receiving(id, timeout)
                }
            },
            any => any,
        }
    }

    fn on_recv_timeout<C: Context>(self, ctx: &mut C, inner: &mut Inner) -> (next: State)
        ensures
            made(
                step_on_recv_timeout(old(inner).link()),
                next,
                *old(inner),
                old(ctx).journal(),
                *final(inner),
                final(ctx).journal(),
            ),
    {
        inner.on_recv_timeout();
        proof {
            assert(ctx.journal() + Seq::<Effect>::empty() =~= ctx.journal());
            assert(crate::socket::answers(inner.replies()) =~= crate::socket::answers(
                old(inner).replies(),
            ) + seq![Answer::Failed(ErrorKind::TimedOut, "Recv timed out"@)]);
        }
        State::Idle
    }

    fn on_recv_ready<C: Context>(self, ctx: &mut C, inner: &mut Inner, eid: EndpointId) -> (next:
        State)
        ensures
            made(
                step_on_recv_ready(self, old(inner).link(), eid),
                next,
                *old(inner),
                old(ctx).journal(),
                *final(inner),
                final(ctx).journal(),
            ),
    {
        inner.on_recv_ready(eid);
        proof {
            assert(crate::socket::answers(inner.replies()) + Seq::<Answer>::empty()
                =~= crate::socket::answers(inner.replies()));
        }
        match self {
            State::RecvOnHold(timeout) => State::Idle.recv(ctx, inner, timeout),
            any => {
                ctx.raise(Event::CanRecv);
                proof {
                    assert(ctx.journal() =~= old(ctx).journal() + seq![
                        Effect::Raise(Event::CanRecv),
                    ]);
                }
                any
            },
        }
    }
}

/// The pair pattern: one socket talks to one other, both ways.
pub struct Pair {
    inner: Inner,
    state: Option<State>,
}

impl Pair {
    /// What the pair is doing: it is in a state but while a transition is
    /// made.
    pub closed spec fn state(&self) -> Option<State> {
        self.state
    }

    pub closed spec fn inner(&self) -> Inner {
        self.inner
    }

    /// The identifier of the pair protocol.
    pub open spec fn spec_id() -> u16 {
        SocketType::Pair.spec_id()
    }

    pub fn new() -> (pair: Pair)
        ensures
            pair.sound(),
            pair.state() == Some(State::Idle),
            pair.inner().link() == (Link { pipe: None, send_ready: false, recv_ready: false }),
            pair.inner().replies().len() == 0,
    {
        Pair {
            inner: Inner { replies: Vec::new(), pipe: None, send_ready: false, recv_ready: false },
            state: Some(State::Idle),
        }
    }

    /// That `after` is `before` once the transition that comes to `step`
    /// was made.
    pub open spec fn moved(
        before: Pair,
        asked0: Seq<Effect>,
        step: Step,
        after: Pair,
        asked1: Seq<Effect>,
    ) -> bool {
        &&& after.state() == Some(step.state)
        &&& Inner::stepped(before.inner(), asked0, step, after.inner(), asked1)
    }

    /// Makes a transition: takes the state out, lets `transition` make the
    /// next state of it, and puts that one back.
    fn apply<C: Context, F>(&mut self, ctx: &mut C, transition: F) where
        F: FnOnce(State, &mut C, &mut Inner) -> State,

        requires
            forall|s: State, c: &mut C, i: &mut Inner| #[trigger] transition.requires((s, c, i)),
        ensures
            match old(self).state() {
                None => *final(self) == *old(self) && *final(ctx) == *old(ctx),
                Some(s) => exists|c: &mut C, i: &mut Inner, next: State|
                    {
                        &&& *c == *old(ctx)
                        &&& *final(c) == *final(ctx)
                        &&& *i == old(self).inner()
                        &&& *final(i) == final(self).inner()
                        &&& final(self).state() == Some(next)
                        &&& #[trigger] transition.ensures((s, c, i), next)
                    },
            },
    {
        if let Some(old_state) = self.state.take() {
            let new_state = transition(old_state, ctx, &mut self.inner);
            self.state = Some(new_state);
        }
    }
}

impl Protocol for Pair {
    /// The pair is in a state, and only a pipe that is there is taken to be
    /// able to send or to have a message.
    open spec fn sound(&self) -> bool {
        self.state() is Some && link_in_order(self.inner().link())
    }

    open spec fn socket_type(&self) -> SocketType {
        SocketType::Pair
    }

    open spec fn owed(&self) -> Seq<Reply> {
        self.inner().replies()
    }

    fn id(&self) -> (id: u16)
        ensures
            id == Pair::spec_id(),
    {
        SocketType::Pair.id()
    }

    fn peer_id(&self) -> (id: u16)
        ensures
            id == Pair::spec_id(),
    {
        SocketType::Pair.id()
    }

    open spec fn did_set_option(
        before: Self,
        option: ConfigOption,
        after: Self,
        r: Result<(), IoError>,
    ) -> bool {
        &&& after == before
        &&& crate::io_error::fails_with(
            r,
            ErrorKind::InvalidInput,
            "the option is not one of this protocol"@,
        )
    }

    /// A pair has no option of its own.
    fn set_option(&mut self, option: ConfigOption) -> (r: Result<(), IoError>) {
        Err(invalid_input_io_error("the option is not one of this protocol"))
    }

    /// Hands out the answers that the user is owed, oldest first.
    fn take_replies(&mut self) -> (replies: Vec<Reply>)
        ensures
            replies@ == old(self).inner().replies(),
            final(self).inner().replies().len() == 0,
            final(self).inner().link() == old(self).inner().link(),
            final(self).state() == old(self).state(),
    {
        let mut replies: Vec<Reply> = Vec::new();
        replies.append(&mut self.inner.replies);
        replies
    }

    open spec fn did_add_pipe(
        before: Self,
        eid: EndpointId,
        pipe: Pipe,
        after: Self,
        asked0: Seq<Effect>,
        asked1: Seq<Effect>,
    ) -> bool {
        &&& after.state() == before.state()
        &&& after.inner().replies() == before.inner().replies()
        &&& if before.inner().link().pipe is None {
            &&& after.inner().link() == (Link {
                pipe: Some((eid, pipe)),
                send_ready: false,
                recv_ready: false,
            })
            &&& asked1 == asked0
        } else {
            &&& after.inner().link() == before.inner().link()
            &&& asked1 == asked0.push(Effect::Close(pipe.eid(), true))
        }
    }

    fn add_pipe<C: Context>(&mut self, ctx: &mut C, eid: EndpointId, pipe: Pipe) {
        self.inner.add_pipe(ctx, eid, pipe)
    }

    open spec fn did_remove_pipe(
        before: Self,
        eid: EndpointId,
        after: Self,
        asked0: Seq<Effect>,
        asked1: Seq<Effect>,
        removed: Option<Pipe>,
    ) -> bool {
        &&& crate::socket::answers(after.inner().replies()) == crate::socket::answers(
            before.inner().replies(),
        )
        &&& asked1 == asked0
        &&& match before.inner().link().pipe {
            Some(p) if p.0 == eid => {
                &&& removed == Some(p.1)
                &&& after.inner().link() == link_closed(before.inner().link())
                &&& after.state() == Some(
                    step_on_pipe_removed(
                        before.state().unwrap(),
                        after.inner().link(),
                        eid,
                    ).state,
                )
            },
            _ => {
                &&& removed is None
                &&& after.state() == before.state()
                &&& after.inner().link() == before.inner().link()
            },
        }
    }

    fn remove_pipe<C: Context>(&mut self, ctx: &mut C, eid: EndpointId) -> (removed: Option<Pipe>) {
        let pipe = self.inner.remove_pipe(ctx, eid);
        if pipe.is_some() {
            proof {
                assert(ctx.journal() + Seq::<Effect>::empty() =~= ctx.journal());
                assert(crate::socket::answers(self.inner().replies()) + Seq::<Answer>::empty()
                    =~= crate::socket::answers(self.inner().replies()));
            }
            let transition = |s: State, ctx: &mut C, inner: &mut Inner| -> (next: State)
                ensures
                    made(
                        step_on_pipe_removed(s, old(inner).link(), eid),
                        next,
                        *old(inner),
                        old(ctx).journal(),
                        *final(inner),
                        final(ctx).journal(),
                    ),
                {
                    s.on_pipe_removed(ctx, inner, eid)
                };
            self.apply(ctx, transition);
        }
        pipe
    }

    open spec fn did_send(
        before: Self,
        msg: Message,
        timeout: Timeout,
        after: Self,
        asked0: Seq<Effect>,
        asked1: Seq<Effect>,
    ) -> bool {
        exists|shared: Rc<Message>|
            shared == msg && #[trigger] Pair::moved(
                before,
                asked0,
                step_send(before.inner().link(), shared, timeout),
                after,
                asked1,
            )
    }

    fn send<C: Context>(&mut self, ctx: &mut C, msg: Message, timeout: Timeout) {
        let shared = Rc::new(msg);
        let ghost witness = shared;
        let transition = |s: State, ctx: &mut C, inner: &mut Inner| -> (next: State)
            ensures
                made(
                    step_send(old(inner).link(), shared, timeout),
                    next,
                    *old(inner),
                    old(ctx).journal(),
                    *final(inner),
                    final(ctx).journal(),
                ),
            {
                s.send(ctx, inner, shared, timeout)
            };
        self.apply(ctx, transition);
        proof {
            assert(Pair::moved(
                *old(self),
                old(ctx).journal(),
                step_send(old(self).inner().link(), witness, timeout),
                *self,
                ctx.journal(),
            ));
        }
    }

    open spec fn did_on_send_ack(
        before: Self,
        eid: EndpointId,
        after: Self,
        asked0: Seq<Effect>,
        asked1: Seq<Effect>,
    ) -> bool {
        Pair::moved(
            before,
            asked0,
            step_on_send_ack(before.state().unwrap(), before.inner().link(), eid),
            after,
            asked1,
        )
    }

    fn on_send_ack<C: Context>(&mut self, ctx: &mut C, eid: EndpointId) {
        let transition = |s: State, ctx: &mut C, inner: &mut Inner| -> (next: State)
            ensures
                made(
                    step_on_send_ack(s, old(inner).link(), eid),
                    next,
                    *old(inner),
                    old(ctx).journal(),
                    *final(inner),
                    final(ctx).journal(),
                ),
            {
                s.on_send_ack(ctx, inner, eid)
            };
        self.apply(ctx, transition);
    }

    open spec fn did_on_send_timeout(
        before: Self,
        after: Self,
        asked0: Seq<Effect>,
        asked1: Seq<Effect>,
    ) -> bool {
        Pair::moved(
            before,
            asked0,
            step_on_send_timeout(before.inner().link()),
            after,
            asked1,
        )
    }

    fn on_send_timeout<C: Context>(&mut self, ctx: &mut C) {
        let transition = |s: State, ctx: &mut C, inner: &mut Inner| -> (next: State)
            ensures
                made(
                    step_on_send_timeout(old(inner).link()),
                    next,
                    *old(inner),
                    old(ctx).journal(),
                    *final(inner),
                    final(ctx).journal(),
                ),
            {
                s.on_send_timeout(ctx, inner)
            };
        self.apply(ctx, transition);
    }

    open spec fn did_on_send_ready(
        before: Self,
        eid: EndpointId,
        after: Self,
        asked0: Seq<Effect>,
        asked1: Seq<Effect>,
    ) -> bool {
        Pair::moved(
            before,
            asked0,
            step_on_send_ready(before.state().unwrap(), before.inner().link(), eid),
            after,
            asked1,
        )
    }

    fn on_send_ready<C: Context>(&mut self, ctx: &mut C, eid: EndpointId) {
        let transition = |s: State, ctx: &mut C, inner: &mut Inner| -> (next: State)
            ensures
                made(
                    step_on_send_ready(s, old(inner).link(), eid),
                    next,
                    *old(inner),
                    old(ctx).journal(),
                    *final(inner),
                    final(ctx).journal(),
                ),
            {
                s.on_send_ready(ctx, inner, eid)
            };
        self.apply(ctx, transition);
    }

    open spec fn did_recv(
        before: Self,
        timeout: Timeout,
        after: Self,
        asked0: Seq<Effect>,
        asked1: Seq<Effect>,
    ) -> bool {
        Pair::moved(
            before,
            asked0,
            step_recv(before.inner().link(), timeout),
            after,
            asked1,
        )
    }

    fn recv<C: Context>(&mut self, ctx: &mut C, timeout: Timeout) {
        let transition = |s: State, ctx: &mut C, inner: &mut Inner| -> (next: State)
            ensures
                made(
                    step_recv(old(inner).link(), timeout),
                    next,
                    *old(inner),
                    old(ctx).journal(),
                    *final(inner),
                    final(ctx).journal(),
                ),
            {
                s.recv(ctx, inner, timeout)
            };
        self.apply(ctx, transition);
    }

    open spec fn did_on_recv_ack(
        before: Self,
        eid: EndpointId,
        msg: Message,
        after: Self,
        asked0: Seq<Effect>,
        asked1: Seq<Effect>,
    ) -> bool {
        Pair::moved(
            before,
            asked0,
            step_on_recv_ack(before.state().unwrap(), before.inner().link(), eid, msg),
            after,
            asked1,
        )
    }

    fn on_recv_ack<C: Context>(&mut self, ctx: &mut C, eid: EndpointId, msg: Message) {
        let transition = |s: State, ctx: &mut C, inner: &mut Inner| -> (next: State)
            ensures
                made(
                    step_on_recv_ack(s, old(inner).link(), eid, msg),
                    next,
                    *old(inner),
                    old(ctx).journal(),
                    *final(inner),
                    final(ctx).journal(),
                ),
            {
                s.on_recv_ack(ctx, inner, eid, msg)
            };
        self.apply(ctx, transition);
    }

    open spec fn did_on_recv_timeout(
        before: Self,
        after: Self,
        asked0: Seq<Effect>,
        asked1: Seq<Effect>,
    ) -> bool {
        Pair::moved(
            before,
            asked0,
            step_on_recv_timeout(before.inner().link()),
            after,
            asked1,
        )
    }

    fn on_recv_timeout<C: Context>(&mut self, ctx: &mut C) {
        let transition = |s: State, ctx: &mut C, inner: &mut Inner| -> (next: State)
            ensures
                made(
                    step_on_recv_timeout(old(inner).link()),
                    next,
                    *old(inner),
                    old(ctx).journal(),
                    *final(inner),
                    final(ctx).journal(),
                ),
            {
                s.on_recv_timeout(ctx, inner)
            };
        self.apply(ctx, transition);
    }

    open spec fn did_on_recv_ready(
        before: Self,
        eid: EndpointId,
        after: Self,
        asked0: Seq<Effect>,
        asked1: Seq<Effect>,
    ) -> bool {
        Pair::moved(
            before,
            asked0,
            step_on_recv_ready(before.state().unwrap(), before.inner().link(), eid),
            after,
            asked1,
        )
    }

    fn on_recv_ready<C: Context>(&mut self, ctx: &mut C, eid: EndpointId) {
        let transition = |s: State, ctx: &mut C, inner: &mut Inner| -> (next: State)
            ensures
                made(
                    step_on_recv_ready(s, old(inner).link(), eid),
                    next,
                    *old(inner),
                    old(ctx).journal(),
                    *final(inner),
                    final(ctx).journal(),
                ),
            {
                s.on_recv_ready(ctx, inner, eid)
            };
        self.apply(ctx, transition);
    }

    open spec fn did_on_timer_tick(
        before: Self,
        task: Schedulable,
        after: Self,
        asked0: Seq<Effect>,
        asked1: Seq<Effect>,
    ) -> bool {
        &&& after == before
        &&& asked1 == asked0
    }

    /// A pair sets no timer of its own: nothing changes.
    fn on_timer_tick<C: Context>(&mut self, ctx: &mut C, task: Schedulable) {
    }

    open spec fn did_close(
        before: Self,
        after: Self,
        asked0: Seq<Effect>,
        asked1: Seq<Effect>,
    ) -> bool {
        &&& after.state() == before.state()
        &&& after.inner().replies() == before.inner().replies()
        &&& after.inner().link() == link_closed(before.inner().link())
        &&& asked1 == asked0 + asked_to_close(before.inner().link())
    }

    fn close<C: Context>(&mut self, ctx: &mut C) {
        self.inner.close(ctx);
        proof {
            assert(final(ctx).journal() =~= old(ctx).journal() + asked_to_close(
                old(self).inner().link(),
            ));
        }
    }
}

/// Closing a pair that was closed asks nothing and changes nothing.
pub proof fn close_is_idempotent(link: Link)
    ensures
        link_closed(link_closed(link)) == link_closed(link),
        asked_to_close(link_closed(link)) == Seq::<Effect>::empty(),
{
}

} // verus!

