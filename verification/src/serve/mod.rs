//! The wall behind a server: what the watch caches hold, and what is answered from them.
//!
//! Nothing decides in the server that does not decide on the command line. What is here resolves
//! the inputs of a decision out of what the caches list, and says what is answered where they do
//! not suffice.
pub mod cache;
pub mod handlers;
pub mod ledger;
pub mod objects;
pub mod options;
pub mod snapshot;
