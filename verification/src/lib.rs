//! Core logic of a console backend that supervises one long-lived game
//! server process and fans its output out to streaming subscribers.
//!
//! The crate verifies the parts with real state and failure handling:
//! the process supervisor's lifecycle state machine, the byte-stream
//! line splitter, the broadcast hub with its subscriber table, and the
//! per-connection session state machine with its heartbeat.  The
//! asynchronous plumbing around them (spawning the process, reading its
//! streams, running timers) lives outside the library and drives these
//! types through their contracts.

pub mod hub;
pub mod lines;
pub mod session;
pub mod state;
pub mod supervisor;
