//! A client library for consuming messages from a single `nsqd` instance.
//!
//! The crate decodes the broker's length-prefixed binary frames, parses
//! message frames, dispatches each message to a caller-supplied handler, and
//! encodes the handler's reply in the broker's text-line wire format.

pub mod buffer;
pub mod codec;
pub mod config;
pub mod consumer;
pub mod errors;
pub mod message;
pub mod wire;
