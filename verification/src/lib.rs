//! Core of a lazy-activation reverse proxy: the variable-length integer codec
//! and message framing used by the wire protocol, the response cache consulted
//! before any backend involvement, the reference-counted debounced lifecycle
//! tracker for the singleton backend process, readiness detection over its
//! console output, and shell-style tokenization of its launch command.
//!
//! Everything that touches a socket, a child process or the clock lives
//! outside this crate; it hands plain values in and takes plain values back.

pub mod cache;
pub mod command;
pub mod frame;
pub mod readiness;
pub mod registry;
pub mod varint;
