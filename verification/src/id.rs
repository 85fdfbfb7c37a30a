use vstd::prelude::*;
use crate::transport::Token;

verus! {

/// The name of a socket within its session.
#[derive(Copy, Clone, Debug, PartialEq, Eq, Hash, Structural)]
pub struct SocketId(pub usize);

/// The name of an endpoint, a pipe or an acceptor, within the reactor. It
/// is the number under which the poller knows the endpoint.
#[derive(Copy, Clone, Debug, PartialEq, Eq, Hash, Structural)]
pub struct EndpointId(pub usize);

/// The name of a device within its session.
#[derive(Copy, Clone, Debug, PartialEq, Eq, Hash, Structural)]
pub struct DeviceId(pub usize);

impl SocketId {
    pub fn value(&self) -> (v: usize)
        ensures
            v == self.0,
    {
        self.0
    }
}

impl EndpointId {
    pub fn value(&self) -> (v: usize)
        ensures
            v == self.0,
    {
        self.0
    }

    /// The endpoint that the poller knows under `token`.
    pub fn of_token(token: Token) -> (id: EndpointId)
        ensures
            id.0 == token.0,
    {
        EndpointId(token.0)
    }

    /// The token under which the poller knows the endpoint.
    pub fn token(&self) -> (token: Token)
        ensures
            token.0 == self.0,
    {
        Token(self.0)
    }
}

impl DeviceId {
    pub fn value(&self) -> (v: usize)
        ensures
            v == self.0,
    {
        self.0
    }
}

} // verus!
