use vstd::prelude::*;
use std::rc::Rc;
use crate::context::{Context, Effect, Schedulable, Timeout};
use crate::endpoint::Pipe;
use crate::global::SocketType;
use crate::id::EndpointId;
use crate::io_error::{invalid_input_io_error, ErrorKind, IoError};
use crate::message::Message;
use crate::proto::outlets::{
    all_busy, asked_to_close, first_outlet, published, with_outlet, with_ready, without_outlet,
    Outlet, Outlets,
};
use crate::proto::pair::cancelled;
use crate::socket::{answers, Answer, ConfigOption, Protocol, Reply};

verus! {

/// No pipe is there to publish over.
pub open spec fn not_connected() -> Answer {
    Answer::Failed(ErrorKind::NotConnected, "no connected endpoint"@)
}

/// A publisher does not receive.
pub open spec fn cannot_receive() -> Answer {
    Answer::Failed(ErrorKind::InvalidInput, "a pub socket cannot receive"@)
}

/// The publish pattern: each message goes to every pipe that can send.
pub struct Pub {
    replies: Vec<Reply>,
    outlets: Outlets,
}

impl Pub {
    /// The pipes, in the order in which they were added.
    pub closed spec fn outlets(&self) -> Seq<Outlet> {
        self.outlets@
    }

    /// The answers that the user was not given yet, oldest first.
    pub closed spec fn replies(&self) -> Seq<Reply> {
        self.replies@
    }

    pub fn new() -> (publisher: Pub)
        ensures
            publisher.outlets().len() == 0,
            publisher.replies().len() == 0,
    {
        Pub { replies: Vec::new(), outlets: Outlets::new() }
    }

    /// Answers the user, and clears the deadline if one was set.
    fn answer<C: Context>(&mut self, ctx: &mut C, reply: Reply, timeout: Timeout)
        ensures
            final(self).outlets() == old(self).outlets(),
            answers(final(self).replies()) == answers(old(self).replies()) + seq![reply@],
            final(ctx).journal() == old(ctx).journal() + cancelled(timeout),
    {
        self.replies.push(reply);
        proof {
            assert(answers(self.replies()) =~= answers(old(self).replies()) + seq![reply@]);
        }
        if let Some(sched) = timeout {
            ctx.cancel(sched);
        }
        proof {
            assert(ctx.journal() =~= old(ctx).journal() + cancelled(timeout));
        }
    }
}

impl Protocol for Pub {
    /// A publisher keeps no books that could be unsound.
    open spec fn sound(&self) -> bool {
        true
    }

    open spec fn socket_type(&self) -> SocketType {
        SocketType::Pub
    }

    open spec fn owed(&self) -> Seq<Reply> {
        self.replies()
    }

    fn id(&self) -> (id: u16)
        ensures
            id == SocketType::Pub.spec_id(),
    {
        SocketType::Pub.id()
    }

    fn peer_id(&self) -> (id: u16)
        ensures
            id == SocketType::Sub.spec_id(),
    {
        SocketType::Pub.peer().id()
    }

    open spec fn did_set_option(
        before: Self,
        option: ConfigOption,
        after: Self,
        r: Result<(), IoError>,
    ) -> bool {
        &&& after == before
        &&& crate::io_error::fails_with(
            r,
            ErrorKind::InvalidInput,
            "the option is not one of this protocol"@,
        )
    }

    /// A publisher has no option of its own.
    fn set_option(&mut self, option: ConfigOption) -> (r: Result<(), IoError>) {
        Err(invalid_input_io_error("the option is not one of this protocol"))
    }

    /// Hands out the answers that the user is owed, oldest first.
    fn take_replies(&mut self) -> (replies: Vec<Reply>)
        ensures
            replies@ == old(self).replies(),
            final(self).replies().len() == 0,
            final(self).outlets() == old(self).outlets(),
    {
        let mut replies: Vec<Reply> = Vec::new();
        replies.append(&mut self.replies);
        replies
    }

    open spec fn did_add_pipe(
        before: Self,
        eid: EndpointId,
        pipe: Pipe,
        after: Self,
        asked0: Seq<Effect>,
        asked1: Seq<Effect>,
    ) -> bool {
        &&& after.replies() == before.replies()
        &&& after.outlets() == with_outlet(before.outlets(), eid, pipe)
        &&& asked1 == asked0 + (match first_outlet(
            before.outlets(),
            0,
            eid,
        ) {
            Some(_) => seq![Effect::Close(pipe.eid(), true)],
            None => Seq::empty(),
        })
    }

    /// Takes the pipe in, unless a pipe is known by that name already: then
    /// the new pipe is ordered to close.
    fn add_pipe<C: Context>(&mut self, ctx: &mut C, eid: EndpointId, pipe: Pipe) {
        match self.outlets.insert(eid, pipe) {
            Some(refused) => {
                refused.close(ctx);
                proof {
                    assert(ctx.journal() =~= old(ctx).journal() + seq![
                        Effect::Close(pipe.eid(), true),
                    ]);
                }
            },
            None => {
                proof {
                    assert(ctx.journal() =~= old(ctx).journal() + Seq::<Effect>::empty());
                }
            },
        }
    }

    open spec fn did_remove_pipe(
        before: Self,
        eid: EndpointId,
        after: Self,
        asked0: Seq<Effect>,
        asked1: Seq<Effect>,
        removed: Option<Pipe>,
    ) -> bool {
        &&& removed == (match first_outlet(before.outlets(), 0, eid) {
            Some(i) => Some(before.outlets()[i].pipe),
            None => None,
        })
        &&& after.replies() == before.replies()
        &&& after.outlets() == without_outlet(before.outlets(), eid)
        &&& asked1 == asked0
    }

    fn remove_pipe<C: Context>(&mut self, ctx: &mut C, eid: EndpointId) -> (removed: Option<Pipe>) {
        self.outlets.remove(eid)
    }

    open spec fn did_send(
        before: Self,
        msg: Message,
        timeout: Timeout,
        after: Self,
        asked0: Seq<Effect>,
        asked1: Seq<Effect>,
    ) -> bool {
        &&& after.outlets() == all_busy(before.outlets())
        &&& answers(after.replies()) == answers(before.replies()) + seq![
            if before.outlets().len() == 0 {
                not_connected()
            } else {
                Answer::Send
            },
        ]
        &&& exists|shared: Rc<Message>|
            shared == msg && asked1 == asked0 + #[trigger] published(
                before.outlets(),
                shared,
            ) + cancelled(timeout)
    }

    /// Publishes the message: every pipe that can send is ordered to send
    /// it, and is not taken to be able to send until it says so again; the
    /// user is answered at once, and the deadline is cleared. Without a
    /// pipe the user is answered that the socket is not connected.
    fn send<C: Context>(&mut self, ctx: &mut C, msg: Message, timeout: Timeout) {
        let shared = Rc::new(msg);
        let ghost witness = shared;
        if self.outlets.is_empty() {
            let error = IoError::new(ErrorKind::NotConnected, "no connected endpoint");
            self.answer(ctx, Reply::Failed(error), timeout);
            proof {
                assert(self.outlets() =~= all_busy(old(self).outlets()));
                assert(ctx.journal() =~= old(ctx).journal() + published(
                    old(self).outlets(),
                    witness,
                ) + cancelled(timeout));
            }
        } else {
            self.outlets.publish(ctx, shared);
            self.answer(ctx, Reply::Send, timeout);
            proof {
                assert(ctx.journal() == old(ctx).journal() + published(
                    old(self).outlets(),
                    witness,
                ) + cancelled(timeout));
            }
        }
    }

    open spec fn did_on_send_ack(
        before: Self,
        eid: EndpointId,
        after: Self,
        asked0: Seq<Effect>,
        asked1: Seq<Effect>,
    ) -> bool {
        &&& after == before
        &&& asked1 == asked0
    }

    /// The user was answered when the message was published: nothing
    /// changes.
    fn on_send_ack<C: Context>(&mut self, ctx: &mut C, eid: EndpointId) {
    }

    open spec fn did_on_send_timeout(
        before: Self,
        after: Self,
        asked0: Seq<Effect>,
        asked1: Seq<Effect>,
    ) -> bool {
        &&& after == before
        &&& asked1 == asked0
    }

    fn on_send_timeout<C: Context>(&mut self, ctx: &mut C) {
    }

    open spec fn did_on_send_ready(
        before: Self,
        eid: EndpointId,
        after: Self,
        asked0: Seq<Effect>,
        asked1: Seq<Effect>,
    ) -> bool {
        &&& after.replies() == before.replies()
        &&& after.outlets() == with_ready(before.outlets(), eid)
        &&& asked1 == asked0
    }

    /// The pipe named `eid` can send: the next message goes to it too.
    fn on_send_ready<C: Context>(&mut self, ctx: &mut C, eid: EndpointId) {
        self.outlets.set_ready(eid);
    }

    open spec fn did_recv(
        before: Self,
        timeout: Timeout,
        after: Self,
        asked0: Seq<Effect>,
        asked1: Seq<Effect>,
    ) -> bool {
        &&& after.outlets() == before.outlets()
        &&& answers(after.replies()) == answers(before.replies()) + seq![
            cannot_receive(),
        ]
        &&& asked1 == asked0 + cancelled(timeout)
    }

    /// A publisher does not receive: the user is answered so, and the
    /// deadline is cleared.
    fn recv<C: Context>(&mut self, ctx: &mut C, timeout: Timeout) {
        let error = invalid_input_io_error("a pub socket cannot receive");
        self.answer(ctx, Reply::Failed(error), timeout);
    }

    open spec fn did_on_recv_ack(
        before: Self,
        eid: EndpointId,
        msg: Message,
        after: Self,
        asked0: Seq<Effect>,
        asked1: Seq<Effect>,
    ) -> bool {
        &&& after == before
        &&& asked1 == asked0
    }

    /// Nothing comes in on a publisher: what a pipe says of receiving
    /// changes nothing.
    fn on_recv_ack<C: Context>(&mut self, ctx: &mut C, eid: EndpointId, msg: Message) {
    }

    open spec fn did_on_recv_timeout(
        before: Self,
        after: Self,
        asked0: Seq<Effect>,
        asked1: Seq<Effect>,
    ) -> bool {
        &&& after == before
        &&& asked1 == asked0
    }

    fn on_recv_timeout<C: Context>(&mut self, ctx: &mut C) {
    }

    open spec fn did_on_recv_ready(
        before: Self,
        eid: EndpointId,
        after: Self,
        asked0: Seq<Effect>,
        asked1: Seq<Effect>,
    ) -> bool {
        &&& after == before
        &&& asked1 == asked0
    }

    fn on_recv_ready<C: Context>(&mut self, ctx: &mut C, eid: EndpointId) {
    }

    open spec fn did_on_timer_tick(
        before: Self,
        task: Schedulable,
        after: Self,
        asked0: Seq<Effect>,
        asked1: Seq<Effect>,
    ) -> bool {
        &&& after == before
        &&& asked1 == asked0
    }

    /// A publisher sets no timer of its own: nothing changes.
    fn on_timer_tick<C: Context>(&mut self, ctx: &mut C, task: Schedulable) {
    }

    open spec fn did_close(
        before: Self,
        after: Self,
        asked0: Seq<Effect>,
        asked1: Seq<Effect>,
    ) -> bool {
        &&& after.replies() == before.replies()
        &&& after.outlets().len() == 0
        &&& asked1 == asked0 + asked_to_close(before.outlets())
    }

    /// Orders every pipe to close, and lets them all go.
    fn close<C: Context>(&mut self, ctx: &mut C) {
        self.outlets.close_all(ctx)
    }
}

} // verus!
