//! Agent orchestration: hierarchical memory, the agent state machine and
//! nested analect scopes.

pub mod agent;
pub mod analect;
pub mod memory;
pub mod memory_laws;
pub mod message_order;
pub mod ordered;
pub mod types;
