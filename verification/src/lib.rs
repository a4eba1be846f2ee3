//! Verified core of an agent orchestration library: hierarchical message
//! memory, agent state machines, provider message types and the decisions
//! of the agentic loop.

pub mod keyed;
pub mod text;
pub mod clock;
pub mod agent;
pub mod providers;
pub mod orchestrator;
pub mod collider;
pub mod genus13;
pub mod memory;
