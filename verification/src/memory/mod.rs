//! Memory system identifiers, errors, configuration and counters, with the
//! kinds of episodes, concepts and associations.

pub mod consolidation;
pub mod coupling;
pub mod episodic;
pub mod episodic_laws;
pub mod ids;
pub mod integration;
pub mod keywords;
pub mod semantic;

pub use ids::{ConceptId, EventId, MemoryConfig, MemoryError, MemoryResult, MemoryStats};
