//! A tick-driven scheduler for periodic real-time tasks whose scheduling
//! decision comes from a fixed-point feedforward network.
//!
//! - [`task`]: the lifecycle of one periodic task's jobs.
//! - [`policy`]: the network's weights and its integer inference.
//! - [`scheduler`]: the tick loop and its run statistics.

pub mod policy;
pub mod scheduler;
pub mod task;
