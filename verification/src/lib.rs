//! Decision logic of a local SOCKS5 ingress proxy and of an onion-service
//! request multiplexer.
//!
//! Every function here is a pure step from plain values to plain values:
//! the caller owns the sockets, the network client and the task scheduler,
//! feeds what happened in as events and carries out the actions that come
//! back.

pub mod echo;
pub mod intake;
pub mod intake_trace;
pub mod listener;
pub mod onion;
pub mod round_trip;
pub mod session;
pub mod session_trace;
pub mod startup;
pub mod target;
pub mod text;
