//! Errai: an Erlang-style process runtime.
//!
//! The library holds the runtime's data model and its decision logic:
//! interned atoms, process identifiers and references, exit reasons,
//! the process table, per-process state, and the handling of signals.
pub mod error;
pub mod erts;
pub mod types;
