//! Front end of a concurrency model checker.
//!
//! A model runs the tested code with mocks of the standard synchronization types, under a
//! runtime that explores its executions. This crate is what stands between the tested code
//! and that runtime: what an operation asks the runtime for, and what is told of it.
//!
//! - [`sync::atomic`] and [`cell`] are the operations of the tested code.
//! - [`downgrade`] weakens the memory orderings of the operations, or collects them.
//! - [`trace`] writes the operations into a readable file.
//! - [`order`], [`rt`] and [`text`] are what they share.
//!
//! The operations alternate with the runtime, and the crate performs no input or output: a
//! function takes what was read, and returns what is to be performed or written.

pub mod cell;
pub mod downgrade;
pub mod order;
pub mod rt;
pub mod sync;
pub mod text;
pub mod trace;
