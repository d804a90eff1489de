//! Core of a minimal one-shot message-queue server.
//!
//! Clients connect over a stream transport, send a single text command,
//! and receive a single text response. The verified core consists of:
//!
//! - [`queue::MessageQueue`]: a FIFO queue of text messages, shared by
//!   all connection handlers under mutual exclusion.
//! - [`parser`]: the command parser, a pure function from request text
//!   to a [`parser::Command`] or a [`parser::ParseError`].
//! - [`handler`]: the per-connection dispatch, which turns one request
//!   and the current queue state into one response and the next queue
//!   state.
//! - [`model`]: a mathematical model of serialized queue histories, with
//!   proofs of the FIFO and exactly-once delivery laws.
//!
//! Listening, connection I/O, the per-connection timeout and the mutual
//! exclusion around the queue live outside this crate: they hand the
//! request text in and carry the response text out.

pub mod handler;
pub mod model;
pub mod parser;
pub mod queue;
