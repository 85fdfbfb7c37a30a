pub mod bus;
pub mod handles;
pub mod numbered;
pub mod outlets;
pub mod pair;
pub mod pattern;
pub mod publ;
pub mod pull;
pub mod push;
pub mod rep;
pub mod req;
pub mod respondent;
pub mod sub;
pub mod surveyor;
