//! The decisions of a container monitor: what a request to create a
//! container leads to, step by step, and what the end of a supervised
//! process leads to. The work on the system itself (terminals, pipes,
//! processes, files) is done by whoever drives this library.
//!
//! - `session`: one call to create a container, from the request to the answer.
//! - `reaper`: which processes are watched, and what is written when one ends.
//! - `server`: the table of the containers that were created.
//! - `request`: the request as plain values, and what is read out of a message.
//! - `child`: the record of one container.
//! - `decimal`: the text of process identifiers and exit codes.
//! - `failure`: how a failed call is told.
//! - `version`: the facts of the build.
//! - `wire`: what is taken on trust of the `capnp` crate.

pub mod child;
pub mod decimal;
pub mod failure;
pub mod reaper;
pub mod request;
pub mod server;
pub mod session;
mod table;
pub mod version;
pub mod wire;
