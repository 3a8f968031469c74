//! Authenticated, framed IPC between a manager process and a worker process,
//! with the decisions of process supervision and leak protection.
//!
//! The library decides; the caller performs the I/O. A [`channel::Channel`]
//! turns messages into frames to write and bytes read into messages, and
//! runs the secret-based handshake of [`handshake`] before any message of
//! the peer is trusted.

pub mod channel;
pub mod codec;
pub mod frame;
pub mod handshake;
pub mod messages;
pub mod scenario;
pub mod supervisor;
