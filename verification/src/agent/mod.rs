//! The agentic loop: its errors, events and messages, the context that
//! carries a run's state, and the decisions the runner makes between
//! provider calls and tool calls.

pub mod context;
pub mod runner;
pub mod types;
