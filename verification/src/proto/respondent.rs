use vstd::prelude::*;
use std::rc::Rc;
use crate::context::{Context, Effect, Schedulable, Timeout};
use crate::endpoint::Pipe;
use crate::global::SocketType;
use crate::id::EndpointId;
use crate::io_error::{ErrorKind, IoError};
use crate::message::Message;
use crate::proto::handles::first_named;
use crate::proto::rep::{
    books_with_pipe, books_without_pipe, routed, step_on_pipe_removed, step_on_recv_ack,
    step_on_recv_ready, step_on_recv_timeout, step_on_send_ack, step_on_send_timeout, step_recv,
    step_send, step_stay, Rep,
};
use crate::socket::{ConfigOption, Protocol, Reply};

verus! {

/// The survey pattern, the answering side. A respondent answers surveys as
/// a reply socket answers requests: it receives a survey, from the pipes in
/// turn, keeps the survey's number, and sends its response back behind that
/// number to where the survey came from. It is a reply socket under another
/// name.
pub struct Respondent {
    engine: Rep,
}

impl Respondent {
    /// The reply socket that does the work.
    pub closed spec fn engine(&self) -> Rep {
        self.engine
    }

    pub fn new() -> (respondent: Respondent)
        ensures
            respondent.sound(),
            respondent.engine().state() == Some(crate::proto::rep::State::Idle),
            respondent.engine().inner().books().pipes.len() == 0,
            respondent.engine().inner().books().fq.items.len() == 0,
            respondent.engine().inner().books().fq.cursor is None,
            respondent.engine().inner().books().backtrace.len() == 0,
            respondent.engine().inner().replies().len() == 0,
    {
        Respondent { engine: Rep::new() }
    }
}

impl Protocol for Respondent {
    /// The reply socket is sound.
    open spec fn sound(&self) -> bool {
        self.engine().sound()
    }

    open spec fn socket_type(&self) -> SocketType {
        SocketType::Respondent
    }

    open spec fn owed(&self) -> Seq<Reply> {
        self.engine().inner().replies()
    }

    fn id(&self) -> (id: u16)
        ensures
            id == SocketType::Respondent.spec_id(),
    {
        SocketType::Respondent.id()
    }

    fn peer_id(&self) -> (id: u16)
        ensures
            id == SocketType::Surveyor.spec_id(),
    {
        SocketType::Respondent.peer().id()
    }

    open spec fn did_set_option(
        before: Self,
        option: ConfigOption,
        after: Self,
        r: Result<(), IoError>,
    ) -> bool {
        &&& after.engine() == before.engine()
        &&& crate::io_error::fails_with(
            r,
            ErrorKind::InvalidInput,
            "the option is not one of this protocol"@,
        )
    }

    /// A respondent has no option of its own.
    fn set_option(&mut self, option: ConfigOption) -> (r: Result<(), IoError>) {
        self.engine.set_option(option)
    }

    /// Hands out the answers that the user is owed, oldest first.
    fn take_replies(&mut self) -> (replies: Vec<Reply>)
        ensures
            replies@ == old(self).engine().inner().replies(),
            final(self).engine().inner().replies().len() == 0,
            final(self).engine().inner().books() == old(self).engine().inner().books(),
            final(self).engine().inner().sound() == old(self).engine().inner().sound(),
            final(self).engine().state() == old(self).engine().state(),
    {
        self.engine.take_replies()
    }

    open spec fn did_add_pipe(
        before: Self,
        eid: EndpointId,
        pipe: Pipe,
        after: Self,
        asked0: Seq<Effect>,
        asked1: Seq<Effect>,
    ) -> bool {
        &&& after.engine().state() == before.engine().state()
        &&& after.engine().inner().replies() == before.engine().inner().replies()
        &&& after.engine().inner().books() == books_with_pipe(
            before.engine().inner().books(),
            eid,
            pipe,
        )
        &&& asked1 == asked0 + (match first_named(
            before.engine().inner().books().pipes,
            0,
            eid,
        ) {
            Some(_) => seq![Effect::Close(pipe.eid(), true)],
            None => Seq::empty(),
        })
    }

    fn add_pipe<C: Context>(&mut self, ctx: &mut C, eid: EndpointId, pipe: Pipe) {
        self.engine.add_pipe(ctx, eid, pipe)
    }

    open spec fn did_remove_pipe(
        before: Self,
        eid: EndpointId,
        after: Self,
        asked0: Seq<Effect>,
        asked1: Seq<Effect>,
        removed: Option<Pipe>,
    ) -> bool {
        &&& removed == (match first_named(before.engine().inner().books().pipes, 0, eid) {
            Some(i) => Some(before.engine().inner().books().pipes[i].pipe),
            None => None,
        })
        &&& Rep::moved(
            before.engine(),
            asked0,
            if removed is Some {
                step_on_pipe_removed(
                    before.engine().state().unwrap(),
                    books_without_pipe(before.engine().inner().books(), eid),
                    eid,
                )
            } else {
                step_stay(
                    before.engine().state().unwrap(),
                    books_without_pipe(before.engine().inner().books(), eid),
                )
            },
            after.engine(),
            asked1,
        )
    }

    fn remove_pipe<C: Context>(&mut self, ctx: &mut C, eid: EndpointId) -> (removed: Option<Pipe>) {
        self.engine.remove_pipe(ctx, eid)
    }

    open spec fn did_send(
        before: Self,
        msg: Message,
        timeout: Timeout,
        after: Self,
        asked0: Seq<Effect>,
        asked1: Seq<Effect>,
    ) -> bool {
        exists|reply: Option<Rc<Message>>|
            {
                &&& routed(before.engine().inner().books().backtrace, msg@, reply)
                &&& #[trigger] Rep::moved(
                    before.engine(),
                    asked0,
                    step_send(
                        before.engine().state().unwrap(),
                        before.engine().inner().books(),
                        reply,
                        timeout,
                    ),
                    after.engine(),
                    asked1,
                )
            }
    }

    /// Sends the user's message as the response to the survey at hand.
    fn send<C: Context>(&mut self, ctx: &mut C, msg: Message, timeout: Timeout) {
        self.engine.send(ctx, msg, timeout);
        proof {
            let reply = choose|reply: Option<Rc<Message>>|
                {
                    &&& routed(old(self).engine.inner().books().backtrace, msg@, reply)
                    &&& #[trigger] Rep::moved(
                        old(self).engine,
                        old(ctx).journal(),
                        step_send(
                            old(self).engine.state().unwrap(),
                            old(self).engine.inner().books(),
                            reply,
                            timeout,
                        ),
                        self.engine,
                        ctx.journal(),
                    )
                };
            assert(Rep::moved(
                old(self).engine(),
                old(ctx).journal(),
                step_send(
                    old(self).engine().state().unwrap(),
                    old(self).engine().inner().books(),
                    reply,
                    timeout,
                ),
                self.engine(),
                ctx.journal(),
            ));
        }
    }

    open spec fn did_on_send_ack(
        before: Self,
        eid: EndpointId,
        after: Self,
        asked0: Seq<Effect>,
        asked1: Seq<Effect>,
    ) -> bool {
        Rep::moved(
            before.engine(),
            asked0,
            step_on_send_ack(
                before.engine().state().unwrap(),
                before.engine().inner().books(),
                eid,
            ),
            after.engine(),
            asked1,
        )
    }

    fn on_send_ack<C: Context>(&mut self, ctx: &mut C, eid: EndpointId) {
        self.engine.on_send_ack(ctx, eid)
    }

    open spec fn did_on_send_timeout(
        before: Self,
        after: Self,
        asked0: Seq<Effect>,
        asked1: Seq<Effect>,
    ) -> bool {
        Rep::moved(
            before.engine(),
            asked0,
            step_on_send_timeout(before.engine().inner().books()),
            after.engine(),
            asked1,
        )
    }

    fn on_send_timeout<C: Context>(&mut self, ctx: &mut C) {
        self.engine.on_send_timeout(ctx)
    }

    open spec fn did_on_send_ready(
        before: Self,
        eid: EndpointId,
        after: Self,
        asked0: Seq<Effect>,
        asked1: Seq<Effect>,
    ) -> bool {
        &&& after.engine() == before.engine()
        &&& asked1 == asked0
    }

    fn on_send_ready<C: Context>(&mut self, ctx: &mut C, eid: EndpointId) {
        self.engine.on_send_ready(ctx, eid)
    }

    open spec fn did_recv(
        before: Self,
        timeout: Timeout,
        after: Self,
        asked0: Seq<Effect>,
        asked1: Seq<Effect>,
    ) -> bool {
        Rep::moved(
            before.engine(),
            asked0,
            step_recv(before.engine().inner().books(), timeout),
            after.engine(),
            asked1,
        )
    }

    fn recv<C: Context>(&mut self, ctx: &mut C, timeout: Timeout) {
        self.engine.recv(ctx, timeout)
    }

    open spec fn did_on_recv_ack(
        before: Self,
        eid: EndpointId,
        msg: Message,
        after: Self,
        asked0: Seq<Effect>,
        asked1: Seq<Effect>,
    ) -> bool {
        Rep::moved(
            before.engine(),
            asked0,
            step_on_recv_ack(
                before.engine().state().unwrap(),
                before.engine().inner().books(),
                eid,
                msg@.payload(),
            ),
            after.engine(),
            asked1,
        )
    }

    fn on_recv_ack<C: Context>(&mut self, ctx: &mut C, eid: EndpointId, msg: Message) {
        self.engine.on_recv_ack(ctx, eid, msg)
    }

    open spec fn did_on_recv_timeout(
        before: Self,
        after: Self,
        asked0: Seq<Effect>,
        asked1: Seq<Effect>,
    ) -> bool {
        Rep::moved(
            before.engine(),
            asked0,
            step_on_recv_timeout(before.engine().inner().books()),
            after.engine(),
            asked1,
        )
    }

    fn on_recv_timeout<C: Context>(&mut self, ctx: &mut C) {
        self.engine.on_recv_timeout(ctx)
    }

    open spec fn did_on_recv_ready(
        before: Self,
        eid: EndpointId,
        after: Self,
        asked0: Seq<Effect>,
        asked1: Seq<Effect>,
    ) -> bool {
        Rep::moved(
            before.engine(),
            asked0,
            step_on_recv_ready(
                before.engine().state().unwrap(),
                before.engine().inner().books(),
                eid,
            ),
            after.engine(),
            asked1,
        )
    }

    fn on_recv_ready<C: Context>(&mut self, ctx: &mut C, eid: EndpointId) {
        self.engine.on_recv_ready(ctx, eid)
    }

    open spec fn did_on_timer_tick(
        before: Self,
        task: Schedulable,
        after: Self,
        asked0: Seq<Effect>,
        asked1: Seq<Effect>,
    ) -> bool {
        &&& after.engine() == before.engine()
        &&& asked1 == asked0
    }

    fn on_timer_tick<C: Context>(&mut self, ctx: &mut C, task: Schedulable) {
        self.engine.on_timer_tick(ctx, task)
    }

    open spec fn did_close(
        before: Self,
        after: Self,
        asked0: Seq<Effect>,
        asked1: Seq<Effect>,
    ) -> bool {
        &&& after.engine().state() == before.engine().state()
        &&& after.engine().inner().replies() == before.engine().inner().replies()
        &&& after.engine().inner().books().pipes.len() == 0
        &&& after.engine().inner().books().fq.items.len() == 0
        &&& after.engine().inner().books().fq.cursor is None
        &&& after.engine().inner().books().backtrace == before.engine().inner().books().backtrace
        &&& asked1 == asked0 + crate::proto::handles::asked_to_close_all(
            before.engine().inner().books().pipes,
        )
    }

    fn close<C: Context>(&mut self, ctx: &mut C) {
        self.engine.close(ctx)
    }
}

} // verus!
