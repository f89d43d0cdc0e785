//! Core of a terminal typing trainer.
//!
//! The library holds the verified logic: per-line typing sessions with
//! per-character match state, rendering of a styled feedback line, selection
//! of eligible practice lines, and aggregation of per-line statistics.
//! Terminal input/output, argument handling and file access live outside and
//! exchange plain values with the library.

pub mod driver;
pub mod render;
pub mod session;
pub mod stats;
pub mod text;
