use vstd::prelude::*;
use crate::io_error::{other_io_error, IoError};

verus! {

/// The user's end of the channel to the reactor.
pub trait Sender<T> {
    fn send(&self, request: T) -> (r: Result<(), IoError>);
}

/// The user's end of a channel from the reactor.
pub trait Receiver<T> {
    fn receive(&self) -> (r: Result<T, IoError>);
}

/// What `receive` makes of what a channel gave: the value, or, of a channel
/// that is closed, an error.
pub fn received<T>(outcome: Option<T>) -> (r: Result<T, IoError>)
    ensures
        match outcome {
            Some(t) => r == Ok::<T, IoError>(t),
            None => crate::io_error::fails_with(
                r,
                crate::io_error::ErrorKind::Other,
                "evt channel closed"@,
            ),
        },
{
    match outcome {
        Some(t) => Ok(t),
        None => Err(other_io_error("evt channel closed")),
    }
}

} // verus!
