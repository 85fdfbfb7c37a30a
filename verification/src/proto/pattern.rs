use vstd::prelude::*;
use std::time::Duration;
use crate::context::{Context, Effect, Schedulable, Timeout};
use crate::endpoint::Pipe;
use crate::global::SocketType;
use crate::id::EndpointId;
use crate::io_error::IoError;
use crate::message::Message;
use crate::proto::bus::Bus;
use crate::proto::pair::Pair;
use crate::proto::publ::Pub;
use crate::proto::pull::Pull;
use crate::proto::push::Push;
use crate::proto::rep::Rep;
use crate::proto::req::Req;
use crate::proto::respondent::Respondent;
use crate::proto::sub::Sub;
use crate::proto::surveyor::Surveyor;
use crate::socket::{ConfigOption, Protocol, Reply};

verus! {

/// The protocol of a socket: one of the patterns, chosen when the socket is
/// made.
pub enum Pattern {
    Pair(Pair),
    Pub(Pub),
    Sub(Sub),
    Req(Req),
    Rep(Rep),
    Push(Push),
    Pull(Pull),
    Surveyor(Surveyor),
    Respondent(Respondent),
    Bus(Bus),
}

impl Pattern {
    /// The protocol of a new socket of the pattern. A request socket sends
    /// a request again after `resend_interval` without a reply, and a
    /// surveyor's surveys take responses for `survey_deadline`, unless the
    /// user sets these options.
    pub fn of(socket_type: SocketType, resend_interval: Duration, survey_deadline: Duration) -> (pattern:
        Pattern)
        ensures
            pattern.sound(),
            pattern.socket_type() == socket_type,
    {
        match socket_type {
            SocketType::Pair => Pattern::Pair(Pair::new()),
            SocketType::Pub => Pattern::Pub(Pub::new()),
            SocketType::Sub => Pattern::Sub(Sub::new()),
            SocketType::Req => Pattern::Req(Req::new(resend_interval)),
            SocketType::Rep => Pattern::Rep(Rep::new()),
            SocketType::Push => Pattern::Push(Push::new()),
            SocketType::Pull => Pattern::Pull(Pull::new()),
            SocketType::Surveyor => Pattern::Surveyor(Surveyor::new(survey_deadline)),
            SocketType::Respondent => Pattern::Respondent(Respondent::new()),
            SocketType::Bus => Pattern::Bus(Bus::new()),
        }
    }
}

impl Protocol for Pattern {
    /// The protocol that was chosen is sound.
    open spec fn sound(&self) -> bool {
        match *self {
            Pattern::Pair(p) => p.sound(),
            Pattern::Pub(p) => p.sound(),
            Pattern::Sub(p) => p.sound(),
            Pattern::Req(p) => p.sound(),
            Pattern::Rep(p) => p.sound(),
            Pattern::Push(p) => p.sound(),
            Pattern::Pull(p) => p.sound(),
            Pattern::Surveyor(p) => p.sound(),
            Pattern::Respondent(p) => p.sound(),
            Pattern::Bus(p) => p.sound(),
        }
    }

    open spec fn socket_type(&self) -> SocketType {
        match *self {
            Pattern::Pair(_) => SocketType::Pair,
            Pattern::Pub(_) => SocketType::Pub,
            Pattern::Sub(_) => SocketType::Sub,
            Pattern::Req(_) => SocketType::Req,
            Pattern::Rep(_) => SocketType::Rep,
            Pattern::Push(_) => SocketType::Push,
            Pattern::Pull(_) => SocketType::Pull,
            Pattern::Surveyor(_) => SocketType::Surveyor,
            Pattern::Respondent(_) => SocketType::Respondent,
            Pattern::Bus(_) => SocketType::Bus,
        }
    }

    open spec fn owed(&self) -> Seq<Reply> {
        match *self {
            Pattern::Pair(p) => p.owed(),
            Pattern::Pub(p) => p.owed(),
            Pattern::Sub(p) => p.owed(),
            Pattern::Req(p) => p.owed(),
            Pattern::Rep(p) => p.owed(),
            Pattern::Push(p) => p.owed(),
            Pattern::Pull(p) => p.owed(),
            Pattern::Surveyor(p) => p.owed(),
            Pattern::Respondent(p) => p.owed(),
            Pattern::Bus(p) => p.owed(),
        }
    }

    fn id(&self) -> (id: u16) {
        match self {
            Pattern::Pair(p) => p.id(),
            Pattern::Pub(p) => p.id(),
            Pattern::Sub(p) => p.id(),
            Pattern::Req(p) => p.id(),
            Pattern::Rep(p) => p.id(),
            Pattern::Push(p) => p.id(),
            Pattern::Pull(p) => p.id(),
            Pattern::Surveyor(p) => p.id(),
            Pattern::Respondent(p) => p.id(),
            Pattern::Bus(p) => p.id(),
        }
    }

    fn peer_id(&self) -> (id: u16) {
        match self {
            Pattern::Pair(p) => p.peer_id(),
            Pattern::Pub(p) => p.peer_id(),
            Pattern::Sub(p) => p.peer_id(),
            Pattern::Req(p) => p.peer_id(),
            Pattern::Rep(p) => p.peer_id(),
            Pattern::Push(p) => p.peer_id(),
            Pattern::Pull(p) => p.peer_id(),
            Pattern::Surveyor(p) => p.peer_id(),
            Pattern::Respondent(p) => p.peer_id(),
            Pattern::Bus(p) => p.peer_id(),
        }
    }

    open spec fn did_set_option(
        before: Self,
        option: ConfigOption,
        after: Self,
        r: Result<(), IoError>,
    ) -> bool {
        match (before, after) {
            (Pattern::Pair(b), Pattern::Pair(a)) => Pair::did_set_option(b, option, a, r),
            (Pattern::Pub(b), Pattern::Pub(a)) => Pub::did_set_option(b, option, a, r),
            (Pattern::Sub(b), Pattern::Sub(a)) => Sub::did_set_option(b, option, a, r),
            (Pattern::Req(b), Pattern::Req(a)) => Req::did_set_option(b, option, a, r),
            (Pattern::Rep(b), Pattern::Rep(a)) => Rep::did_set_option(b, option, a, r),
            (Pattern::Push(b), Pattern::Push(a)) => Push::did_set_option(b, option, a, r),
            (Pattern::Pull(b), Pattern::Pull(a)) => Pull::did_set_option(b, option, a, r),
            (Pattern::Surveyor(b), Pattern::Surveyor(a)) => Surveyor::did_set_option(
                b,
                option,
                a,
                r,
            ),
            (Pattern::Respondent(b), Pattern::Respondent(a)) => Respondent::did_set_option(
                b,
                option,
                a,
                r,
            ),
            (Pattern::Bus(b), Pattern::Bus(a)) => Bus::did_set_option(b, option, a, r),
            _ => false,
        }
    }

    fn set_option(&mut self, option: ConfigOption) -> (r: Result<(), IoError>) {
        match self {
            Pattern::Pair(p) => p.set_option(option),
            Pattern::Pub(p) => p.set_option(option),
            Pattern::Sub(p) => p.set_option(option),
            Pattern::Req(p) => p.set_option(option),
            Pattern::Rep(p) => p.set_option(option),
            Pattern::Push(p) => p.set_option(option),
            Pattern::Pull(p) => p.set_option(option),
            Pattern::Surveyor(p) => p.set_option(option),
            Pattern::Respondent(p) => p.set_option(option),
            Pattern::Bus(p) => p.set_option(option),
        }
    }

    fn take_replies(&mut self) -> (replies: Vec<Reply>) {
        match self {
            Pattern::Pair(p) => p.take_replies(),
            Pattern::Pub(p) => p.take_replies(),
            Pattern::Sub(p) => p.take_replies(),
            Pattern::Req(p) => p.take_replies(),
            Pattern::Rep(p) => p.take_replies(),
            Pattern::Push(p) => p.take_replies(),
            Pattern::Pull(p) => p.take_replies(),
            Pattern::Surveyor(p) => p.take_replies(),
            Pattern::Respondent(p) => p.take_replies(),
            Pattern::Bus(p) => p.take_replies(),
        }
    }

    open spec fn did_add_pipe(
        before: Self,
        eid: EndpointId,
        pipe: Pipe,
        after: Self,
        asked0: Seq<Effect>,
        asked1: Seq<Effect>,
    ) -> bool {
        match (before, after) {
            (Pattern::Pair(b), Pattern::Pair(a)) => Pair::did_add_pipe(
                b,
                eid,
                pipe,
                a,
                asked0,
                asked1,
            ),
            (Pattern::Pub(b), Pattern::Pub(a)) => Pub::did_add_pipe(
                b,
                eid,
                pipe,
                a,
                asked0,
                asked1,
            ),
            (Pattern::Sub(b), Pattern::Sub(a)) => Sub::did_add_pipe(
                b,
                eid,
                pipe,
                a,
                asked0,
                asked1,
            ),
            (Pattern::Req(b), Pattern::Req(a)) => Req::did_add_pipe(
                b,
                eid,
                pipe,
                a,
                asked0,
                asked1,
            ),
            (Pattern::Rep(b), Pattern::Rep(a)) => Rep::did_add_pipe(
                b,
                eid,
                pipe,
                a,
                asked0,
                asked1,
            ),
            (Pattern::Push(b), Pattern::Push(a)) => Push::did_add_pipe(
                b,
                eid,
                pipe,
                a,
                asked0,
                asked1,
            ),
            (Pattern::Pull(b), Pattern::Pull(a)) => Pull::did_add_pipe(
                b,
                eid,
                pipe,
                a,
                asked0,
                asked1,
            ),
            (Pattern::Surveyor(b), Pattern::Surveyor(a)) => Surveyor::did_add_pipe(
                b,
                eid,
                pipe,
                a,
                asked0,
                asked1,
            ),
            (Pattern::Respondent(b), Pattern::Respondent(a)) => Respondent::did_add_pipe(
                b,
                eid,
                pipe,
                a,
                asked0,
                asked1,
            ),
            (Pattern::Bus(b), Pattern::Bus(a)) => Bus::did_add_pipe(
                b,
                eid,
                pipe,
                a,
                asked0,
                asked1,
            ),
            _ => false,
        }
    }

    fn add_pipe<C: Context>(&mut self, ctx: &mut C, eid: EndpointId, pipe: Pipe) {
        match self {
            Pattern::Pair(p) => p.add_pipe(ctx, eid, pipe),
            Pattern::Pub(p) => p.add_pipe(ctx, eid, pipe),
            Pattern::Sub(p) => p.add_pipe(ctx, eid, pipe),
            Pattern::Req(p) => p.add_pipe(ctx, eid, pipe),
            Pattern::Rep(p) => p.add_pipe(ctx, eid, pipe),
            Pattern::Push(p) => p.add_pipe(ctx, eid, pipe),
            Pattern::Pull(p) => p.add_pipe(ctx, eid, pipe),
            Pattern::Surveyor(p) => p.add_pipe(ctx, eid, pipe),
            Pattern::Respondent(p) => p.add_pipe(ctx, eid, pipe),
            Pattern::Bus(p) => p.add_pipe(ctx, eid, pipe),
        }
    }

    open spec fn did_remove_pipe(
        before: Self,
        eid: EndpointId,
        after: Self,
        asked0: Seq<Effect>,
        asked1: Seq<Effect>,
        removed: Option<Pipe>,
    ) -> bool {
        match (before, after) {
            (Pattern::Pair(b), Pattern::Pair(a)) => Pair::did_remove_pipe(
                b,
                eid,
                a,
                asked0,
                asked1,
                removed,
            ),
            (Pattern::Pub(b), Pattern::Pub(a)) => Pub::did_remove_pipe(
                b,
                eid,
                a,
                asked0,
                asked1,
                removed,
            ),
            (Pattern::Sub(b), Pattern::Sub(a)) => Sub::did_remove_pipe(
                b,
                eid,
                a,
                asked0,
                asked1,
                removed,
            ),
            (Pattern::Req(b), Pattern::Req(a)) => Req::did_remove_pipe(
                b,
                eid,
                a,
                asked0,
                asked1,
                removed,
            ),
            (Pattern::Rep(b), Pattern::Rep(a)) => Rep::did_remove_pipe(
                b,
                eid,
                a,
                asked0,
                asked1,
                removed,
            ),
            (Pattern::Push(b), Pattern::Push(a)) => Push::did_remove_pipe(
                b,
                eid,
                a,
                asked0,
                asked1,
                removed,
            ),
            (Pattern::Pull(b), Pattern::Pull(a)) => Pull::did_remove_pipe(
                b,
                eid,
                a,
                asked0,
                asked1,
                removed,
            ),
            (Pattern::Surveyor(b), Pattern::Surveyor(a)) => Surveyor::did_remove_pipe(
                b,
                eid,
                a,
                asked0,
                asked1,
                removed,
            ),
            (Pattern::Respondent(b), Pattern::Respondent(a)) => Respondent::did_remove_pipe(
                b,
                eid,
                a,
                asked0,
                asked1,
                removed,
            ),
            (Pattern::Bus(b), Pattern::Bus(a)) => Bus::did_remove_pipe(
                b,
                eid,
                a,
                asked0,
                asked1,
                removed,
            ),
            _ => false,
        }
    }

    fn remove_pipe<C: Context>(&mut self, ctx: &mut C, eid: EndpointId) -> (removed: Option<Pipe>) {
        match self {
            Pattern::Pair(p) => p.remove_pipe(ctx, eid),
            Pattern::Pub(p) => p.remove_pipe(ctx, eid),
            Pattern::Sub(p) => p.remove_pipe(ctx, eid),
            Pattern::Req(p) => p.remove_pipe(ctx, eid),
            Pattern::Rep(p) => p.remove_pipe(ctx, eid),
            Pattern::Push(p) => p.remove_pipe(ctx, eid),
            Pattern::Pull(p) => p.remove_pipe(ctx, eid),
            Pattern::Surveyor(p) => p.remove_pipe(ctx, eid),
            Pattern::Respondent(p) => p.remove_pipe(ctx, eid),
            Pattern::Bus(p) => p.remove_pipe(ctx, eid),
        }
    }

    open spec fn did_send(
        before: Self,
        msg: Message,
        timeout: Timeout,
        after: Self,
        asked0: Seq<Effect>,
        asked1: Seq<Effect>,
    ) -> bool {
        match (before, after) {
            (Pattern::Pair(b), Pattern::Pair(a)) => Pair::did_send(
                b,
                msg,
                timeout,
                a,
                asked0,
                asked1,
            ),
            (Pattern::Pub(b), Pattern::Pub(a)) => Pub::did_send(b, msg, timeout, a, asked0, asked1),
            (Pattern::Sub(b), Pattern::Sub(a)) => Sub::did_send(b, msg, timeout, a, asked0, asked1),
            (Pattern::Req(b), Pattern::Req(a)) => Req::did_send(b, msg, timeout, a, asked0, asked1),
            (Pattern::Rep(b), Pattern::Rep(a)) => Rep::did_send(b, msg, timeout, a, asked0, asked1),
            (Pattern::Push(b), Pattern::Push(a)) => Push::did_send(
                b,
                msg,
                timeout,
                a,
                asked0,
                asked1,
            ),
            (Pattern::Pull(b), Pattern::Pull(a)) => Pull::did_send(
                b,
                msg,
                timeout,
                a,
                asked0,
                asked1,
            ),
            (Pattern::Surveyor(b), Pattern::Surveyor(a)) => Surveyor::did_send(
                b,
                msg,
                timeout,
                a,
                asked0,
                asked1,
            ),
            (Pattern::Respondent(b), Pattern::Respondent(a)) => Respondent::did_send(
                b,
                msg,
                timeout,
                a,
                asked0,
                asked1,
            ),
            (Pattern::Bus(b), Pattern::Bus(a)) => Bus::did_send(b, msg, timeout, a, asked0, asked1),
            _ => false,
        }
    }

    fn send<C: Context>(&mut self, ctx: &mut C, msg: Message, timeout: Timeout) {
        match self {
            Pattern::Pair(p) => p.send(ctx, msg, timeout),
            Pattern::Pub(p) => p.send(ctx, msg, timeout),
            Pattern::Sub(p) => p.send(ctx, msg, timeout),
            Pattern::Req(p) => p.send(ctx, msg, timeout),
            Pattern::Rep(p) => p.send(ctx, msg, timeout),
            Pattern::Push(p) => p.send(ctx, msg, timeout),
            Pattern::Pull(p) => p.send(ctx, msg, timeout),
            Pattern::Surveyor(p) => p.send(ctx, msg, timeout),
            Pattern::Respondent(p) => p.send(ctx, msg, timeout),
            Pattern::Bus(p) => p.send(ctx, msg, timeout),
        }
    }

    open spec fn did_on_send_ack(
        before: Self,
        eid: EndpointId,
        after: Self,
        asked0: Seq<Effect>,
        asked1: Seq<Effect>,
    ) -> bool {
        match (before, after) {
            (Pattern::Pair(b), Pattern::Pair(a)) => Pair::did_on_send_ack(
                b,
                eid,
                a,
                asked0,
                asked1,
            ),
            (Pattern::Pub(b), Pattern::Pub(a)) => Pub::did_on_send_ack(b, eid, a, asked0, asked1),
            (Pattern::Sub(b), Pattern::Sub(a)) => Sub::did_on_send_ack(b, eid, a, asked0, asked1),
            (Pattern::Req(b), Pattern::Req(a)) => Req::did_on_send_ack(b, eid, a, asked0, asked1),
            (Pattern::Rep(b), Pattern::Rep(a)) => Rep::did_on_send_ack(b, eid, a, asked0, asked1),
            (Pattern::Push(b), Pattern::Push(a)) => Push::did_on_send_ack(
                b,
                eid,
                a,
                asked0,
                asked1,
            ),
            (Pattern::Pull(b), Pattern::Pull(a)) => Pull::did_on_send_ack(
                b,
                eid,
                a,
                asked0,
                asked1,
            ),
            (Pattern::Surveyor(b), Pattern::Surveyor(a)) => Surveyor::did_on_send_ack(
                b,
                eid,
                a,
                asked0,
                asked1,
            ),
            (Pattern::Respondent(b), Pattern::Respondent(a)) => Respondent::did_on_send_ack(
                b,
                eid,
                a,
                asked0,
                asked1,
            ),
            (Pattern::Bus(b), Pattern::Bus(a)) => Bus::did_on_send_ack(b, eid, a, asked0, asked1),
            _ => false,
        }
    }

    fn on_send_ack<C: Context>(&mut self, ctx: &mut C, eid: EndpointId) {
        match self {
            Pattern::Pair(p) => p.on_send_ack(ctx, eid),
            Pattern::Pub(p) => p.on_send_ack(ctx, eid),
            Pattern::Sub(p) => p.on_send_ack(ctx, eid),
            Pattern::Req(p) => p.on_send_ack(ctx, eid),
            Pattern::Rep(p) => p.on_send_ack(ctx, eid),
            Pattern::Push(p) => p.on_send_ack(ctx, eid),
            Pattern::Pull(p) => p.on_send_ack(ctx, eid),
            Pattern::Surveyor(p) => p.on_send_ack(ctx, eid),
            Pattern::Respondent(p) => p.on_send_ack(ctx, eid),
            Pattern::Bus(p) => p.on_send_ack(ctx, eid),
        }
    }

    open spec fn did_on_send_timeout(
        before: Self,
        after: Self,
        asked0: Seq<Effect>,
        asked1: Seq<Effect>,
    ) -> bool {
        match (before, after) {
            (Pattern::Pair(b), Pattern::Pair(a)) => Pair::did_on_send_timeout(b, a, asked0, asked1),
            (Pattern::Pub(b), Pattern::Pub(a)) => Pub::did_on_send_timeout(b, a, asked0, asked1),
            (Pattern::Sub(b), Pattern::Sub(a)) => Sub::did_on_send_timeout(b, a, asked0, asked1),
            (Pattern::Req(b), Pattern::Req(a)) => Req::did_on_send_timeout(b, a, asked0, asked1),
            (Pattern::Rep(b), Pattern::Rep(a)) => Rep::did_on_send_timeout(b, a, asked0, asked1),
            (Pattern::Push(b), Pattern::Push(a)) => Push::did_on_send_timeout(b, a, asked0, asked1),
            (Pattern::Pull(b), Pattern::Pull(a)) => Pull::did_on_send_timeout(b, a, asked0, asked1),
            (Pattern::Surveyor(b), Pattern::Surveyor(a)) => Surveyor::did_on_send_timeout(
                b,
                a,
                asked0,
                asked1,
            ),
            (Pattern::Respondent(b), Pattern::Respondent(a)) => Respondent::did_on_send_timeout(
                b,
                a,
                asked0,
                asked1,
            ),
            (Pattern::Bus(b), Pattern::Bus(a)) => Bus::did_on_send_timeout(b, a, asked0, asked1),
            _ => false,
        }
    }

    fn on_send_timeout<C: Context>(&mut self, ctx: &mut C) {
        match self {
            Pattern::Pair(p) => p.on_send_timeout(ctx),
            Pattern::Pub(p) => p.on_send_timeout(ctx),
            Pattern::Sub(p) => p.on_send_timeout(ctx),
            Pattern::Req(p) => p.on_send_timeout(ctx),
            Pattern::Rep(p) => p.on_send_timeout(ctx),
            Pattern::Push(p) => p.on_send_timeout(ctx),
            Pattern::Pull(p) => p.on_send_timeout(ctx),
            Pattern::Surveyor(p) => p.on_send_timeout(ctx),
            Pattern::Respondent(p) => p.on_send_timeout(ctx),
            Pattern::Bus(p) => p.on_send_timeout(ctx),
        }
    }

    open spec fn did_on_send_ready(
        before: Self,
        eid: EndpointId,
        after: Self,
        asked0: Seq<Effect>,
        asked1: Seq<Effect>,
    ) -> bool {
        match (before, after) {
            (Pattern::Pair(b), Pattern::Pair(a)) => Pair::did_on_send_ready(
                b,
                eid,
                a,
                asked0,
                asked1,
            ),
            (Pattern::Pub(b), Pattern::Pub(a)) => Pub::did_on_send_ready(b, eid, a, asked0, asked1),
            (Pattern::Sub(b), Pattern::Sub(a)) => Sub::did_on_send_ready(b, eid, a, asked0, asked1),
            (Pattern::Req(b), Pattern::Req(a)) => Req::did_on_send_ready(b, eid, a, asked0, asked1),
            (Pattern::Rep(b), Pattern::Rep(a)) => Rep::did_on_send_ready(b, eid, a, asked0, asked1),
            (Pattern::Push(b), Pattern::Push(a)) => Push::did_on_send_ready(
                b,
                eid,
                a,
                asked0,
                asked1,
            ),
            (Pattern::Pull(b), Pattern::Pull(a)) => Pull::did_on_send_ready(
                b,
                eid,
                a,
                asked0,
                asked1,
            ),
            (Pattern::Surveyor(b), Pattern::Surveyor(a)) => Surveyor::did_on_send_ready(
                b,
                eid,
                a,
                asked0,
                asked1,
            ),
            (Pattern::Respondent(b), Pattern::Respondent(a)) => Respondent::did_on_send_ready(
                b,
                eid,
                a,
                asked0,
                asked1,
            ),
            (Pattern::Bus(b), Pattern::Bus(a)) => Bus::did_on_send_ready(b, eid, a, asked0, asked1),
            _ => false,
        }
    }

    fn on_send_ready<C: Context>(&mut self, ctx: &mut C, eid: EndpointId) {
        match self {
            Pattern::Pair(p) => p.on_send_ready(ctx, eid),
            Pattern::Pub(p) => p.on_send_ready(ctx, eid),
            Pattern::Sub(p) => p.on_send_ready(ctx, eid),
            Pattern::Req(p) => p.on_send_ready(ctx, eid),
            Pattern::Rep(p) => p.on_send_ready(ctx, eid),
            Pattern::Push(p) => p.on_send_ready(ctx, eid),
            Pattern::Pull(p) => p.on_send_ready(ctx, eid),
            Pattern::Surveyor(p) => p.on_send_ready(ctx, eid),
            Pattern::Respondent(p) => p.on_send_ready(ctx, eid),
            Pattern::Bus(p) => p.on_send_ready(ctx, eid),
        }
    }

    open spec fn did_recv(
        before: Self,
        timeout: Timeout,
        after: Self,
        asked0: Seq<Effect>,
        asked1: Seq<Effect>,
    ) -> bool {
        match (before, after) {
            (Pattern::Pair(b), Pattern::Pair(a)) => Pair::did_recv(b, timeout, a, asked0, asked1),
            (Pattern::Pub(b), Pattern::Pub(a)) => Pub::did_recv(b, timeout, a, asked0, asked1),
            (Pattern::Sub(b), Pattern::Sub(a)) => Sub::did_recv(b, timeout, a, asked0, asked1),
            (Pattern::Req(b), Pattern::Req(a)) => Req::did_recv(b, timeout, a, asked0, asked1),
            (Pattern::Rep(b), Pattern::Rep(a)) => Rep::did_recv(b, timeout, a, asked0, asked1),
            (Pattern::Push(b), Pattern::Push(a)) => Push::did_recv(b, timeout, a, asked0, asked1),
            (Pattern::Pull(b), Pattern::Pull(a)) => Pull::did_recv(b, timeout, a, asked0, asked1),
            (Pattern::Surveyor(b), Pattern::Surveyor(a)) => Surveyor::did_recv(
                b,
                timeout,
                a,
                asked0,
                asked1,
            ),
            (Pattern::Respondent(b), Pattern::Respondent(a)) => Respondent::did_recv(
                b,
                timeout,
                a,
                asked0,
                asked1,
            ),
            (Pattern::Bus(b), Pattern::Bus(a)) => Bus::did_recv(b, timeout, a, asked0, asked1),
            _ => false,
        }
    }

    fn recv<C: Context>(&mut self, ctx: &mut C, timeout: Timeout) {
        match self {
            Pattern::Pair(p) => p.recv(ctx, timeout),
            Pattern::Pub(p) => p.recv(ctx, timeout),
            Pattern::Sub(p) => p.recv(ctx, timeout),
            Pattern::Req(p) => p.recv(ctx, timeout),
            Pattern::Rep(p) => p.recv(ctx, timeout),
            Pattern::Push(p) => p.recv(ctx, timeout),
            Pattern::Pull(p) => p.recv(ctx, timeout),
            Pattern::Surveyor(p) => p.recv(ctx, timeout),
            Pattern::Respondent(p) => p.recv(ctx, timeout),
            Pattern::Bus(p) => p.recv(ctx, timeout),
        }
    }

    open spec fn did_on_recv_ack(
        before: Self,
        eid: EndpointId,
        msg: Message,
        after: Self,
        asked0: Seq<Effect>,
        asked1: Seq<Effect>,
    ) -> bool {
        match (before, after) {
            (Pattern::Pair(b), Pattern::Pair(a)) => Pair::did_on_recv_ack(
                b,
                eid,
                msg,
                a,
                asked0,
                asked1,
            ),
            (Pattern::Pub(b), Pattern::Pub(a)) => Pub::did_on_recv_ack(
                b,
                eid,
                msg,
                a,
                asked0,
                asked1,
            ),
            (Pattern::Sub(b), Pattern::Sub(a)) => Sub::did_on_recv_ack(
                b,
                eid,
                msg,
                a,
                asked0,
                asked1,
            ),
            (Pattern::Req(b), Pattern::Req(a)) => Req::did_on_recv_ack(
                b,
                eid,
                msg,
                a,
                asked0,
                asked1,
            ),
            (Pattern::Rep(b), Pattern::Rep(a)) => Rep::did_on_recv_ack(
                b,
                eid,
                msg,
                a,
                asked0,
                asked1,
            ),
            (Pattern::Push(b), Pattern::Push(a)) => Push::did_on_recv_ack(
                b,
                eid,
                msg,
                a,
                asked0,
                asked1,
            ),
            (Pattern::Pull(b), Pattern::Pull(a)) => Pull::did_on_recv_ack(
                b,
                eid,
                msg,
                a,
                asked0,
                asked1,
            ),
            (Pattern::Surveyor(b), Pattern::Surveyor(a)) => Surveyor::did_on_recv_ack(
                b,
                eid,
                msg,
                a,
                asked0,
                asked1,
            ),
            (Pattern::Respondent(b), Pattern::Respondent(a)) => Respondent::did_on_recv_ack(
                b,
                eid,
                msg,
                a,
                asked0,
                asked1,
            ),
            (Pattern::Bus(b), Pattern::Bus(a)) => Bus::did_on_recv_ack(
                b,
                eid,
                msg,
                a,
                asked0,
                asked1,
            ),
            _ => false,
        }
    }

    fn on_recv_ack<C: Context>(&mut self, ctx: &mut C, eid: EndpointId, msg: Message) {
        match self {
            Pattern::Pair(p) => p.on_recv_ack(ctx, eid, msg),
            Pattern::Pub(p) => p.on_recv_ack(ctx, eid, msg),
            Pattern::Sub(p) => p.on_recv_ack(ctx, eid, msg),
            Pattern::Req(p) => p.on_recv_ack(ctx, eid, msg),
            Pattern::Rep(p) => p.on_recv_ack(ctx, eid, msg),
            Pattern::Push(p) => p.on_recv_ack(ctx, eid, msg),
            Pattern::Pull(p) => p.on_recv_ack(ctx, eid, msg),
            Pattern::Surveyor(p) => p.on_recv_ack(ctx, eid, msg),
            Pattern::Respondent(p) => p.on_recv_ack(ctx, eid, msg),
            Pattern::Bus(p) => p.on_recv_ack(ctx, eid, msg),
        }
    }

    open spec fn did_on_recv_timeout(
        before: Self,
        after: Self,
        asked0: Seq<Effect>,
        asked1: Seq<Effect>,
    ) -> bool {
        match (before, after) {
            (Pattern::Pair(b), Pattern::Pair(a)) => Pair::did_on_recv_timeout(b, a, asked0, asked1),
            (Pattern::Pub(b), Pattern::Pub(a)) => Pub::did_on_recv_timeout(b, a, asked0, asked1),
            (Pattern::Sub(b), Pattern::Sub(a)) => Sub::did_on_recv_timeout(b, a, asked0, asked1),
            (Pattern::Req(b), Pattern::Req(a)) => Req::did_on_recv_timeout(b, a, asked0, asked1),
            (Pattern::Rep(b), Pattern::Rep(a)) => Rep::did_on_recv_timeout(b, a, asked0, asked1),
            (Pattern::Push(b), Pattern::Push(a)) => Push::did_on_recv_timeout(b, a, asked0, asked1),
            (Pattern::Pull(b), Pattern::Pull(a)) => Pull::did_on_recv_timeout(b, a, asked0, asked1),
            (Pattern::Surveyor(b), Pattern::Surveyor(a)) => Surveyor::did_on_recv_timeout(
                b,
                a,
                asked0,
                asked1,
            ),
            (Pattern::Respondent(b), Pattern::Respondent(a)) => Respondent::did_on_recv_timeout(
                b,
                a,
                asked0,
                asked1,
            ),
            (Pattern::Bus(b), Pattern::Bus(a)) => Bus::did_on_recv_timeout(b, a, asked0, asked1),
            _ => false,
        }
    }

    fn on_recv_timeout<C: Context>(&mut self, ctx: &mut C) {
        match self {
            Pattern::Pair(p) => p.on_recv_timeout(ctx),
            Pattern::Pub(p) => p.on_recv_timeout(ctx),
            Pattern::Sub(p) => p.on_recv_timeout(ctx),
            Pattern::Req(p) => p.on_recv_timeout(ctx),
            Pattern::Rep(p) => p.on_recv_timeout(ctx),
            Pattern::Push(p) => p.on_recv_timeout(ctx),
            Pattern::Pull(p) => p.on_recv_timeout(ctx),
            Pattern::Surveyor(p) => p.on_recv_timeout(ctx),
            Pattern::Respondent(p) => p.on_recv_timeout(ctx),
            Pattern::Bus(p) => p.on_recv_timeout(ctx),
        }
    }

    open spec fn did_on_recv_ready(
        before: Self,
        eid: EndpointId,
        after: Self,
        asked0: Seq<Effect>,
        asked1: Seq<Effect>,
    ) -> bool {
        match (before, after) {
            (Pattern::Pair(b), Pattern::Pair(a)) => Pair::did_on_recv_ready(
                b,
                eid,
                a,
                asked0,
                asked1,
            ),
            (Pattern::Pub(b), Pattern::Pub(a)) => Pub::did_on_recv_ready(b, eid, a, asked0, asked1),
            (Pattern::Sub(b), Pattern::Sub(a)) => Sub::did_on_recv_ready(b, eid, a, asked0, asked1),
            (Pattern::Req(b), Pattern::Req(a)) => Req::did_on_recv_ready(b, eid, a, asked0, asked1),
            (Pattern::Rep(b), Pattern::Rep(a)) => Rep::did_on_recv_ready(b, eid, a, asked0, asked1),
            (Pattern::Push(b), Pattern::Push(a)) => Push::did_on_recv_ready(
                b,
                eid,
                a,
                asked0,
                asked1,
            ),
            (Pattern::Pull(b), Pattern::Pull(a)) => Pull::did_on_recv_ready(
                b,
                eid,
                a,
                asked0,
                asked1,
            ),
            (Pattern::Surveyor(b), Pattern::Surveyor(a)) => Surveyor::did_on_recv_ready(
                b,
                eid,
                a,
                asked0,
                asked1,
            ),
            (Pattern::Respondent(b), Pattern::Respondent(a)) => Respondent::did_on_recv_ready(
                b,
                eid,
                a,
                asked0,
                asked1,
            ),
            (Pattern::Bus(b), Pattern::Bus(a)) => Bus::did_on_recv_ready(b, eid, a, asked0, asked1),
            _ => false,
        }
    }

    fn on_recv_ready<C: Context>(&mut self, ctx: &mut C, eid: EndpointId) {
        match self {
            Pattern::Pair(p) => p.on_recv_ready(ctx, eid),
            Pattern::Pub(p) => p.on_recv_ready(ctx, eid),
            Pattern::Sub(p) => p.on_recv_ready(ctx, eid),
            Pattern::Req(p) => p.on_recv_ready(ctx, eid),
            Pattern::Rep(p) => p.on_recv_ready(ctx, eid),
            Pattern::Push(p) => p.on_recv_ready(ctx, eid),
            Pattern::Pull(p) => p.on_recv_ready(ctx, eid),
            Pattern::Surveyor(p) => p.on_recv_ready(ctx, eid),
            Pattern::Respondent(p) => p.on_recv_ready(ctx, eid),
            Pattern::Bus(p) => p.on_recv_ready(ctx, eid),
        }
    }

    open spec fn did_on_timer_tick(
        before: Self,
        task: Schedulable,
        after: Self,
        asked0: Seq<Effect>,
        asked1: Seq<Effect>,
    ) -> bool {
        match (before, after) {
            (Pattern::Pair(b), Pattern::Pair(a)) => Pair::did_on_timer_tick(
                b,
                task,
                a,
                asked0,
                asked1,
            ),
            (Pattern::Pub(b), Pattern::Pub(a)) => Pub::did_on_timer_tick(
                b,
                task,
                a,
                asked0,
                asked1,
            ),
            (Pattern::Sub(b), Pattern::Sub(a)) => Sub::did_on_timer_tick(
                b,
                task,
                a,
                asked0,
                asked1,
            ),
            (Pattern::Req(b), Pattern::Req(a)) => Req::did_on_timer_tick(
                b,
                task,
                a,
                asked0,
                asked1,
            ),
            (Pattern::Rep(b), Pattern::Rep(a)) => Rep::did_on_timer_tick(
                b,
                task,
                a,
                asked0,
                asked1,
            ),
            (Pattern::Push(b), Pattern::Push(a)) => Push::did_on_timer_tick(
                b,
                task,
                a,
                asked0,
                asked1,
            ),
            (Pattern::Pull(b), Pattern::Pull(a)) => Pull::did_on_timer_tick(
                b,
                task,
                a,
                asked0,
                asked1,
            ),
            (Pattern::Surveyor(b), Pattern::Surveyor(a)) => Surveyor::did_on_timer_tick(
                b,
                task,
                a,
                asked0,
                asked1,
            ),
            (Pattern::Respondent(b), Pattern::Respondent(a)) => Respondent::did_on_timer_tick(
                b,
                task,
                a,
                asked0,
                asked1,
            ),
            (Pattern::Bus(b), Pattern::Bus(a)) => Bus::did_on_timer_tick(
                b,
                task,
                a,
                asked0,
                asked1,
            ),
            _ => false,
        }
    }

    fn on_timer_tick<C: Context>(&mut self, ctx: &mut C, task: Schedulable) {
        match self {
            Pattern::Pair(p) => p.on_timer_tick(ctx, task),
            Pattern::Pub(p) => p.on_timer_tick(ctx, task),
            Pattern::Sub(p) => p.on_timer_tick(ctx, task),
            Pattern::Req(p) => p.on_timer_tick(ctx, task),
            Pattern::Rep(p) => p.on_timer_tick(ctx, task),
            Pattern::Push(p) => p.on_timer_tick(ctx, task),
            Pattern::Pull(p) => p.on_timer_tick(ctx, task),
            Pattern::Surveyor(p) => p.on_timer_tick(ctx, task),
            Pattern::Respondent(p) => p.on_timer_tick(ctx, task),
            Pattern::Bus(p) => p.on_timer_tick(ctx, task),
        }
    }

    open spec fn did_close(
        before: Self,
        after: Self,
        asked0: Seq<Effect>,
        asked1: Seq<Effect>,
    ) -> bool {
        match (before, after) {
            (Pattern::Pair(b), Pattern::Pair(a)) => Pair::did_close(b, a, asked0, asked1),
            (Pattern::Pub(b), Pattern::Pub(a)) => Pub::did_close(b, a, asked0, asked1),
            (Pattern::Sub(b), Pattern::Sub(a)) => Sub::did_close(b, a, asked0, asked1),
            (Pattern::Req(b), Pattern::Req(a)) => Req::did_close(b, a, asked0, asked1),
            (Pattern::Rep(b), Pattern::Rep(a)) => Rep::did_close(b, a, asked0, asked1),
            (Pattern::Push(b), Pattern::Push(a)) => Push::did_close(b, a, asked0, asked1),
            (Pattern::Pull(b), Pattern::Pull(a)) => Pull::did_close(b, a, asked0, asked1),
            (Pattern::Surveyor(b), Pattern::Surveyor(a)) => Surveyor::did_close(
                b,
                a,
                asked0,
                asked1,
            ),
            (Pattern::Respondent(b), Pattern::Respondent(a)) => Respondent::did_close(
                b,
                a,
                asked0,
                asked1,
            ),
            (Pattern::Bus(b), Pattern::Bus(a)) => Bus::did_close(b, a, asked0, asked1),
            _ => false,
        }
    }

    fn close<C: Context>(&mut self, ctx: &mut C) {
        match self {
            Pattern::Pair(p) => p.close(ctx),
            Pattern::Pub(p) => p.close(ctx),
            Pattern::Sub(p) => p.close(ctx),
            Pattern::Req(p) => p.close(ctx),
            Pattern::Rep(p) => p.close(ctx),
            Pattern::Push(p) => p.close(ctx),
            Pattern::Pull(p) => p.close(ctx),
            Pattern::Surveyor(p) => p.close(ctx),
            Pattern::Respondent(p) => p.close(ctx),
            Pattern::Bus(p) => p.close(ctx),
        }
    }
}

} // verus!
