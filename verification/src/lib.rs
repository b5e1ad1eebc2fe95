//! A room-scoped broadcast relay.
//!
//! A few hosts and many clients join numbered rooms and exchange short text
//! messages; the relay decides who may reach whom. This library holds the
//! rules of the relay, with their behaviour stated as contracts:
//!
//! - [`room`]: one room, its host slot and its clients, and what a join, a
//!   leave, a broadcast and a direct send do to it;
//! - [`server`]: the registry that owns every room and takes commands one
//!   at a time;
//! - [`wshandler`]: the life of one connection as a state machine, with its
//!   heartbeat, and the envelopes that go on the wire;
//! - [`client`] and [`host`]: what each role does with the text of its peer;
//! - [`token`] and [`json`]: the text of host tokens and of JSON values;
//! - [`pipe`]: the outbound channel of a connection.
//!
//! Sockets, timers, the task that feeds the registry and the durable store
//! are the caller's: the library is handed what happened and says what is
//! to be done.

pub mod client;
mod entropy;
pub mod host;
pub mod json;
pub mod pipe;
pub mod room;
pub mod server;
pub mod token;
pub mod wshandler;
