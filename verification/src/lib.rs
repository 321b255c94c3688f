//! Core of an IRC daemon: wire-protocol codec, validation, host masks,
//! channel and server state, and the command handlers that drive them.
//!
//! Everything here is synchronous and deterministic.  Functions that the
//! daemon uses to answer clients return [`con::Envelope`] values (a message
//! addressed to a peer); the network layer around the library delivers them.

pub mod cap;
pub mod channel;
pub mod cmd;
pub mod con;
pub mod handlers;
pub mod join;
pub mod lists;
pub mod member;
pub mod message;
pub mod mode;
pub mod modes;
pub mod msg;
pub mod part;
pub mod ping_pong;
pub mod registration;
pub mod server;
pub mod simple;
pub mod util;
