//! Reusable observability for Landlock: the verified core of its event
//! collector.
//!
//! BPF programs report Landlock events through a ring buffer. A worker polls the
//! ring buffer and puts what it finds into a bounded queue, from which one
//! consumer receives. This crate holds what the worker and the consumer share,
//! and every decision that either of them takes:
//!
//! - [`collector`]: starting, delivering, receiving, and shutting down.
//! - [`delivery`]: the queue that omits what it has no room for, and says so.
//! - [`channel`]: the bounded first-in, first-out channel beneath.
//! - [`worker`]: the stages that the worker goes through.
//! - [`error`]: what can fail, and how failures are shown.
//! - [`effects`]: what each operation is for, and what it may not touch.
//! - [`laws`]: what holds over any run of a collector.
//!
//! The type of the events and that of the underlying errors are parameters, as
//! neither is ever looked into.

pub mod channel;
pub mod collector;
pub mod delivery;
pub mod effects;
pub mod error;
pub mod laws;
pub mod worker;
