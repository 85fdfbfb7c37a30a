use vstd::prelude::*;
use crate::global::SocketType;
use crate::io_error::IoError;
use crate::message::Message;

verus! {

/// What a user asks of the event loop.
#[derive(Debug)]
pub enum EventLoopCmd {
    Ping,
    CreateSocket(SocketType),
    PingSocket(usize),
    Shutdown,
}

/// What the event loop lets a session know.
#[derive(Debug)]
pub enum SessionEvt {
    Pong,
    /// A socket was created under this number.
    SocketCreated(usize),
    SocketNotCreated,
}

/// What the event loop lets a socket's user know.
#[derive(Debug)]
pub enum SocketEvt {
    Pong,
    /// The message went out.
    MsgSent,
    /// The message did not go out.
    MsgNotSent(IoError),
    /// A message came in.
    MsgRecv(Message),
    /// No message came in.
    MsgNotRecv(IoError),
}

/// What a `SocketEvt` says.
pub enum Notice {
    Pong,
    MsgSent,
    /// The class and the message of the error.
    MsgNotSent(crate::io_error::ErrorKind, Seq<char>),
    MsgRecv(crate::message::MessageView),
    /// The class and the message of the error.
    MsgNotRecv(crate::io_error::ErrorKind, Seq<char>),
}

impl View for SocketEvt {
    type V = Notice;

    open spec fn view(&self) -> Notice {
        match *self {
            SocketEvt::Pong => Notice::Pong,
            SocketEvt::MsgSent => Notice::MsgSent,
            SocketEvt::MsgNotSent(e) => Notice::MsgNotSent(e.kind, e.message@),
            SocketEvt::MsgRecv(m) => Notice::MsgRecv(m@),
            SocketEvt::MsgNotRecv(e) => Notice::MsgNotRecv(e.kind, e.message@),
        }
    }
}

/// What a run of events says.
pub open spec fn notices(events: Seq<SocketEvt>) -> Seq<Notice> {
    events.map_values(|e: SocketEvt| e@)
}

} // verus!
