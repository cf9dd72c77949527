//! Core of a selective forwarding unit (SFU) for WebRTC conferencing.
//!
//! The crate models the session coordinator of the SFU: a single-owner state
//! machine that holds the peer table, decides how every signaling command
//! mutates it, and emits the engine actions (create a connection, attach an
//! outbound track, spawn a forwarding worker, send a signaling message) that a
//! runtime executes. All mutation of the peer table goes through the
//! coordinator; the surrounding tasks only enqueue commands.

pub mod callbacks;
pub mod command;
pub mod coordinator;
pub mod fanout;
pub mod join;
pub mod laws;
pub mod leave;
pub mod engine;
pub mod forward;
pub mod peer;
pub mod signal;
pub mod state;
