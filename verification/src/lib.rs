//! A library for a transparent wrapper around a version-control tool:
//! it locates the tool's metadata directory, waits for a transient lock
//! file to clear, and then hands control off to the wrapped tool.
//!
//! The decision logic lives here, fully verified; the surrounding
//! process (filesystem queries, change notifications, the final exec)
//! feeds it plain values and acts on its answers.
pub mod invoke;
pub mod locate;
pub mod timeout;
pub mod wait;
