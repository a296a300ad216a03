//! A small chat transcript: the person at the keyboard sends a line, a
//! provisional reply is shown at once, and it is replaced by the answer of the
//! conversation service when that arrives.
pub mod chat;
pub mod conversation;
pub mod laws;
pub mod message;
