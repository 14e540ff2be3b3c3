//! A sans-I/O core for relaying messages between a partitioned log broker and
//! a long-poll pub/sub service.
//!
//! Every decision the bridge takes lives here as a function from plain values
//! to plain values: how a payload is normalised, which bytes make up a
//! request, where a response's header block ends, how a transport outcome is
//! classified, and what a duty loop does next. Sockets, threads, sleeping and
//! the broker client stay with the caller.

pub mod bridge;
pub mod config;
pub mod kafka;
pub mod payload;
pub mod pubnub;
pub mod socket;
pub mod text;
