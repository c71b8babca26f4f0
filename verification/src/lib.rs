//! Streaming chat-session orchestrator.
//!
//! The crate owns the state of a set of independent chat sessions, turns user
//! actions into outbound completion requests, assembles streamed response
//! chunks back into session history, schedules concurrently open streams
//! fairly, and coordinates a one-shot shutdown signal.  Terminal rendering,
//! raw input capture and durable storage are left to callers.

pub mod ids;
pub mod msg;
pub mod assemble;
pub mod dispatch;
pub mod laws;
pub mod multiplex;
pub mod orchestrate;
pub mod registry;
pub mod session;
pub mod shutdown;
