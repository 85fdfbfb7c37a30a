use vstd::prelude::*;
use std::rc::Rc;
use crate::context::{Context, Effect};
use crate::id::EndpointId;
use crate::message::Message;

verus! {

/// A protocol's handle on one of its pipes. The pipe itself is kept by the
/// reactor; the handle passes the protocol's orders on through the context.
#[derive(Debug)]
pub struct Pipe {
    id: EndpointId,
    url: Option<String>,
    send_priority: u8,
    recv_priority: u8,
}

/// How soon a pipe is given messages, and asked for them, unless it is told
/// otherwise.
pub const DEFAULT_PRIORITY: u8 = 8;

impl Pipe {
    pub closed spec fn eid(&self) -> EndpointId {
        self.id
    }

    pub closed spec fn address(&self) -> Option<String> {
        self.url
    }

    /// How soon the pipe is given messages among the pipes that can send:
    /// the lower the number, the sooner.
    pub closed spec fn send_priority(&self) -> u8 {
        self.send_priority
    }

    /// How soon the pipe is asked for messages among the pipes that have
    /// one: the lower the number, the sooner.
    pub closed spec fn recv_priority(&self) -> u8 {
        self.recv_priority
    }

    pub fn new(id: EndpointId, url: Option<String>) -> (pipe: Pipe)
        ensures
            pipe.eid() == id,
            pipe.address() == url,
            pipe.send_priority() == DEFAULT_PRIORITY,
            pipe.recv_priority() == DEFAULT_PRIORITY,
    {
        Pipe { id, url, send_priority: DEFAULT_PRIORITY, recv_priority: DEFAULT_PRIORITY }
    }

    pub fn with_priorities(
        id: EndpointId,
        url: Option<String>,
        send_priority: u8,
        recv_priority: u8,
    ) -> (pipe: Pipe)
        ensures
            pipe.eid() == id,
            pipe.address() == url,
            pipe.send_priority() == send_priority,
            pipe.recv_priority() == recv_priority,
    {
        Pipe { id, url, send_priority, recv_priority }
    }

    pub fn get_send_priority(&self) -> (priority: u8)
        ensures
            priority == self.send_priority(),
    {
        self.send_priority
    }

    pub fn get_recv_priority(&self) -> (priority: u8)
        ensures
            priority == self.recv_priority(),
    {
        self.recv_priority
    }

    pub fn id(&self) -> (id: EndpointId)
        ensures
            id == self.eid(),
    {
        self.id
    }

    pub fn url(&self) -> (url: &Option<String>)
        ensures
            *url == self.address(),
    {
        &self.url
    }

    pub fn open<C: Context>(&self, ctx: &mut C)
        ensures
            final(ctx).journal() == old(ctx).journal().push(Effect::Open(self.eid(), true)),
    {
        ctx.open(self.id, true)
    }

    pub fn send<C: Context>(&self, ctx: &mut C, msg: Rc<Message>)
        ensures
            final(ctx).journal() == old(ctx).journal().push(Effect::Send(self.eid(), msg)),
    {
        ctx.send(self.id, msg)
    }

    pub fn recv<C: Context>(&self, ctx: &mut C)
        ensures
            final(ctx).journal() == old(ctx).journal().push(Effect::Recv(self.eid())),
    {
        ctx.recv(self.id)
    }

    pub fn close<C: Context>(&self, ctx: &mut C)
        ensures
            final(ctx).journal() == old(ctx).journal().push(Effect::Close(self.eid(), true)),
    {
        ctx.close(self.id, true)
    }
}

} // verus!
