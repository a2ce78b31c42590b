//! otter: a BEAM-like JavaScript runtime.
//!
//! Many isolated script processes share a few workers. Each process has a
//! mailbox and runs one job per scheduling slice; it suspends itself by waiting
//! for a message, for a deadline, or for its next turn.
//!
//! This library is the part of the runtime that decides: the process table, the
//! mailboxes, the run queue, the timers, the sandboxes, and the control
//! protocol. Executing scripts, reading clocks and moving bytes is left to the
//! program around it.

pub mod engine;
pub mod host;
pub mod json;
pub mod laws;
pub mod model;
pub mod process;
pub mod queue;
pub mod rpc;
pub mod runtime;
pub mod scheduler;
pub mod script;
pub mod text;
pub mod trace;
pub mod world;
