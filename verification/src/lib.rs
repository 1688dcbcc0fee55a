//! Core of a lightweight, bidirectional, transport-agnostic RPC library.
//!
//! The crate is organised as a sans-IO protocol engine: every decision the
//! protocol makes (framing, command dispatch, response correlation, timeout
//! and retry accounting, cancellation) is an ordinary function over plain
//! data, stated and verified here.  A driver (a transport, a timer, a test)
//! moves bytes and events between two engines.

pub mod codec;
pub mod config;
pub mod config_builder;
pub mod connection;
pub mod dispatcher;
pub mod dispose;
pub mod laws;
pub mod msg;
pub mod payload;
pub mod request;
pub mod rpc;
