//! A dynamic operation-fusion engine for tensor computation.
//!
//! The engine sits between a tensor frontend and a concrete numeric backend.
//! It records a stream of tensor operations, lets pluggable builders detect
//! runs of operations that can be combined into a single fused unit, and
//! executes the fused form instead of the naive sequence, without changing
//! the observable results.

pub mod backend;
pub mod client;
pub mod elementwise;
pub mod locator;
pub mod stream;
