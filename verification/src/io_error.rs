use vstd::prelude::*;

verus! {

/// The classes of failure that the engine tells apart.
#[derive(Copy, Clone, Debug, PartialEq, Eq, Structural)]
pub enum ErrorKind {
    /// An operation was attempted before any pipe was active.
    NotConnected,
    /// A bad argument, or an operation that the pattern does not allow now.
    InvalidInput,
    /// Malformed bytes on the wire.
    InvalidData,
    /// A deadline elapsed.
    TimedOut,
    /// The peer hung up.
    ConnectionReset,
    /// The poller reported an error on the connection.
    ConnectionAborted,
    /// Nothing could be transferred right now.
    WouldBlock,
    /// Any other failure.
    Other,
}

/// An error: its class and a message for humans.
#[derive(Debug)]
pub struct IoError {
    pub kind: ErrorKind,
    pub message: String,
}

impl IoError {
    pub fn new(kind: ErrorKind, msg: &str) -> (e: IoError)
        ensures
            e.kind == kind,
            e.message@ == msg@,
    {
        IoError { kind, message: msg.to_owned() }
    }

    pub fn kind(&self) -> (k: ErrorKind)
        ensures
            k == self.kind,
    {
        self.kind
    }

    pub fn message(&self) -> (m: &str)
        ensures
            m@ == self.message@,
    {
        self.message.as_str()
    }

    /// A second error of the same class and with the same message.
    pub fn duplicate(&self) -> (e: IoError)
        ensures
            e.kind == self.kind,
            e.message@ == self.message@,
    {
        IoError { kind: self.kind, message: self.message.clone() }
    }
}

/// That `r` is the error of class `kind` with message `message`.
pub open spec fn fails_with<T>(r: Result<T, IoError>, kind: ErrorKind, message: Seq<char>) -> bool {
    r matches Err(e) && e.kind == kind && e.message@ == message
}

pub fn other_io_error(msg: &str) -> (e: IoError)
    ensures
        e.kind == ErrorKind::Other,
        e.message@ == msg@,
{
    IoError::new(ErrorKind::Other, msg)
}

pub fn invalid_data_io_error(msg: &str) -> (e: IoError)
    ensures
        e.kind == ErrorKind::InvalidData,
        e.message@ == msg@,
{
    IoError::new(ErrorKind::InvalidData, msg)
}

pub fn would_block_io_error(msg: &str) -> (e: IoError)
    ensures
        e.kind == ErrorKind::WouldBlock,
        e.message@ == msg@,
{
    IoError::new(ErrorKind::WouldBlock, msg)
}

pub fn invalid_input_io_error(msg: &str) -> (e: IoError)
    ensures
        e.kind == ErrorKind::InvalidInput,
        e.message@ == msg@,
{
    IoError::new(ErrorKind::InvalidInput, msg)
}

pub fn timedout_io_error(msg: &str) -> (e: IoError)
    ensures
        e.kind == ErrorKind::TimedOut,
        e.message@ == msg@,
{
    IoError::new(ErrorKind::TimedOut, msg)
}

/// Why a request could not be handed to the reactor's channel.
#[derive(Debug)]
pub enum NotifyError<T> {
    /// The channel itself failed.
    Io(IoError),
    /// The channel had no room; the request comes back.
    Full(T),
    /// The reactor is gone; the request comes back if it was not lost.
    Closed(Option<T>),
}

/// The error reported to the user for a failed notification: the channel's
/// own error as it is, any other case as `Other` with a fixed message.
pub open spec fn notify_error_message<T>(notify_error: NotifyError<T>) -> Seq<char> {
    match notify_error {
        NotifyError::Io(e) => e.message@,
        NotifyError::Full(_) => "channel full"@,
        NotifyError::Closed(_) => "channel closed"@,
    }
}

pub fn from_notify_error<T>(notify_error: NotifyError<T>) -> (e: IoError)
    ensures
        e.kind == (match notify_error {
            NotifyError::Io(inner) => inner.kind,
            _ => ErrorKind::Other,
        }),
        e.message@ == notify_error_message(notify_error),
        notify_error matches NotifyError::Io(inner) ==> e == inner,
{
    match notify_error {
        NotifyError::Io(e) => e,
        NotifyError::Full(_) => other_io_error("channel full"),
        NotifyError::Closed(_) => other_io_error("channel closed"),
    }
}

/// A failure of the timer wheel, with the wheel's description of it.
#[derive(Debug)]
pub struct TimerError {
    pub description: String,
}

pub fn from_timer_error(timer_error: TimerError) -> (e: IoError)
    ensures
        e.kind == ErrorKind::Other,
        e.message@ == timer_error.description@,
{
    other_io_error(timer_error.description.as_str())
}

} // verus!
