pub mod acceptor;
pub mod backoff;
pub mod clock;
pub mod context;
pub mod device;
pub mod endpoint;
pub mod event_loop_msg;
pub mod facade;
pub mod global;
pub mod id;
pub mod io_error;
pub mod message;
pub mod pipe;
pub mod proto;
pub mod protocol;
pub mod reactor;
pub mod sequence;
pub mod session;
pub mod socket;
pub mod transport;
pub mod url;
pub mod wire;
