pub mod bus;
pub mod policy;
pub mod with_backtrace;
