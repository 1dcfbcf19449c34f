//! Coordinator side of a two-phase commit (2PC) protocol.
//!
//! The library holds the coordinator's decisions as a verified state
//! machine: the driver feeds it the outcome of the last piece of outside
//! work (a send, a poll of a channel, a pause) and gets back the next piece
//! of outside work to perform.

pub mod message;
pub mod names;
pub mod oplog;
pub mod protocol;
pub mod laws;
pub mod coordinator;
