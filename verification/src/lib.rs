//! Core of a multi-client chat relay.
//!
//! The relay moves text messages between named participants over byte
//! streams.  This crate holds the parts with real correctness concerns and
//! proves them: the delimiter-framed wire codec, the envelope format for
//! server-to-client traffic, the participant registry with its broadcaster,
//! the per-connection reader state machine, the writer command executor,
//! and the configuration model.  Sockets, threads, terminals and log sinks
//! live outside the crate and talk to it through plain values.

pub mod codec;
pub mod config;
pub mod envelope;
pub mod error;
pub mod reader;
pub mod registry;
pub mod session;
