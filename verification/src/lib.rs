//! A small, verified core for a single-user command-line task manager.
//!
//! The library owns the task collection with its identifier policy, the
//! JSON persistence format with a proved round-trip, and the pure filter
//! and search predicates. Presentation and file access live outside.

pub mod chars;
pub mod types;
pub mod collection;
pub mod query;
pub mod codec;
pub mod roundtrip;
pub mod writer;
pub mod reader;
pub mod store;
pub mod laws;
pub mod render;
pub mod dispatch;
pub mod clock;
