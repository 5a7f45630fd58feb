//! The runtime: processes, their state, and the signals between them.
pub mod dict;
pub mod flags;
pub mod message;
pub mod process;
pub mod queue;
pub mod registry;
pub mod runtime;
pub mod signal;
pub mod spawn;
pub mod state;
pub mod table;
