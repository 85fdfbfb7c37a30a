pub mod adapter;
pub mod bus;
pub mod dispatcher;
pub mod signal;
