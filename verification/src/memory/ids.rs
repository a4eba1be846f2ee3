//! Unique identifiers of episodes and concepts, the memory system's errors,
//! its configuration and its counters.

use vstd::prelude::*;
use crate::clock::{random_u32, unix_nanos};
use crate::text::{decimal_text, hex_text, push_decimal, push_hex, push_signed_decimal, push_str, signed_decimal_text};

verus! {

/// The text of a generated id: the prefix, `-`, the clock in nanoseconds
/// (zero if unreadable), `-`, and a random number as eight hexadecimal digits.
pub open spec fn generated_id_text(prefix: Seq<char>, nanos: Option<i64>, random: u32) -> Seq<char> {
    prefix + "-"@ + signed_decimal_text(
        match nanos {
            Some(n) => n as int,
            None => 0,
        },
    ) + "-"@ + hex_text(random as nat, 8)
}

/// Formats a generated id from its prefix, a clock reading and a random number.
pub fn format_generated_id(prefix: &str, nanos: Option<i64>, random: u32) -> (s: String)
    ensures
        s@ == generated_id_text(prefix@, nanos, random),
{
    let mut s = String::new();
    push_str(&mut s, prefix);
    push_str(&mut s, "-");
    let n: i64 = match nanos {
        Some(n) => n,
        None => 0,
    };
    push_signed_decimal(&mut s, n);
    push_str(&mut s, "-");
    push_hex(&mut s, random as u64, 8);
    assert(s@ =~= generated_id_text(prefix@, nanos, random));
    s
}

/// Unique identifier for an episode.
#[derive(Debug, Clone, PartialEq, Eq, Hash)]
pub struct EventId(pub String);

impl EventId {
    /// Create an event ID from its text.
    pub fn new(id: &str) -> (r: Self)
        ensures
            r.0@ == id@,
    {
        EventId(id.to_owned())
    }

    /// Generate a new event ID from the clock and a random number.
    pub fn generate() -> (r: Self)
        ensures
            exists|n: Option<i64>, x: u32| r.0@ == generated_id_text("evt"@, n, x),
    {
        let nanos = unix_nanos();
        let random = random_u32();
        EventId(format_generated_id("evt", nanos, random))
    }

    /// The ID's text.
    pub fn to_display_string(&self) -> (s: String)
        ensures
            s@ == self.0@,
    {
        self.0.clone()
    }
}

/// Unique identifier for a concept.
#[derive(Debug, Clone, PartialEq, Eq, Hash)]
pub struct ConceptId(pub String);

impl ConceptId {
    /// Create a concept ID from its text.
    pub fn new(id: &str) -> (r: Self)
        ensures
            r.0@ == id@,
    {
        ConceptId(id.to_owned())
    }

    /// Generate a new concept ID from the clock and a random number.
    pub fn generate() -> (r: Self)
        ensures
            exists|n: Option<i64>, x: u32| r.0@ == generated_id_text("cpt"@, n, x),
    {
        let nanos = unix_nanos();
        let random = random_u32();
        ConceptId(format_generated_id("cpt", nanos, random))
    }

    /// The ID's text.
    pub fn to_display_string(&self) -> (s: String)
        ensures
            s@ == self.0@,
    {
        self.0.clone()
    }
}

/// Errors that can occur in the memory system.
#[derive(Debug)]
pub enum MemoryError {
    /// Episode not found
    EpisodeNotFound(EventId),
    /// Concept not found
    ConceptNotFound(ConceptId),
    /// Storage error
    Storage(String),
    /// Invalid query
    InvalidQuery(String),
    /// Embedding dimension mismatch
    DimensionMismatch { expected: usize, got: usize },
    /// Consolidation error
    Consolidation(String),
    /// Database error (for a database backend)
    Database(String),
}

/// Result type for memory operations.
pub type MemoryResult<T> = Result<T, MemoryError>;

/// The display text of a memory error.
pub open spec fn memory_error_text(e: MemoryError) -> Seq<char> {
    match e {
        MemoryError::EpisodeNotFound(id) => "Episode not found: "@ + id.0@,
        MemoryError::ConceptNotFound(id) => "Concept not found: "@ + id.0@,
        MemoryError::Storage(m) => "Storage error: "@ + m@,
        MemoryError::InvalidQuery(m) => "Invalid query: "@ + m@,
        MemoryError::DimensionMismatch { expected, got } => "Embedding dimension mismatch: expected "@
            + decimal_text(expected as nat) + ", got "@ + decimal_text(got as nat),
        MemoryError::Consolidation(m) => "Consolidation error: "@ + m@,
        MemoryError::Database(m) => "Database error: "@ + m@,
    }
}

impl MemoryError {
    /// The display text of this error.
    pub fn to_display_string(&self) -> (s: String)
        ensures
            s@ == memory_error_text(*self),
    {
        let mut s = String::new();
        match self {
            MemoryError::EpisodeNotFound(id) => {
                push_str(&mut s, "Episode not found: ");
                push_str(&mut s, id.0.as_str());
            },
            MemoryError::ConceptNotFound(id) => {
                push_str(&mut s, "Concept not found: ");
                push_str(&mut s, id.0.as_str());
            },
            MemoryError::Storage(m) => {
                push_str(&mut s, "Storage error: ");
                push_str(&mut s, m.as_str());
            },
            MemoryError::InvalidQuery(m) => {
                push_str(&mut s, "Invalid query: ");
                push_str(&mut s, m.as_str());
            },
            MemoryError::DimensionMismatch { expected, got } => {
                push_str(&mut s, "Embedding dimension mismatch: expected ");
                push_decimal(&mut s, *expected as u64);
                push_str(&mut s, ", got ");
                push_decimal(&mut s, *got as u64);
            },
            MemoryError::Consolidation(m) => {
                push_str(&mut s, "Consolidation error: ");
                push_str(&mut s, m.as_str());
            },
            MemoryError::Database(m) => {
                push_str(&mut s, "Database error: ");
                push_str(&mut s, m.as_str());
            },
        }
        assert(s@ =~= memory_error_text(*self));
        s
    }
}

/// Configuration for the memory system.
#[derive(Debug, Clone, Copy, PartialEq, Eq, Structural)]
pub struct MemoryConfig {
    /// Embedding dimension for semantic memory
    pub embedding_dim: usize,
    /// Maximum number of episodes to store
    pub max_episodes: usize,
    /// Maximum number of concepts to store
    pub max_concepts: usize,
    /// Enable automatic consolidation
    pub auto_consolidate: bool,
    /// Consolidation threshold (number of episodes before triggering)
    pub consolidation_threshold: usize,
}

impl Default for MemoryConfig {
    fn default() -> (c: Self)
        ensures
            c == (MemoryConfig {
                embedding_dim: 384,
                max_episodes: 10000,
                max_concepts: 5000,
                auto_consolidate: true,
                consolidation_threshold: 1000,
            }),
    {
        MemoryConfig {
            embedding_dim: 384,
            max_episodes: 10000,
            max_concepts: 5000,
            auto_consolidate: true,
            consolidation_threshold: 1000,
        }
    }
}

/// Statistics for the memory system.
#[derive(Debug, Clone, Copy, PartialEq, Eq, Structural)]
pub struct MemoryStats {
    /// Total episodes recorded
    pub episodes_recorded: usize,
    /// Total concepts stored
    pub concepts_stored: usize,
    /// Total associations created
    pub associations_created: usize,
    /// Total queries performed
    pub queries_performed: usize,
    /// Total consolidations run
    pub consolidations_run: usize,
}

impl Default for MemoryStats {
    fn default() -> (s: Self)
        ensures
            s == (MemoryStats {
                episodes_recorded: 0,
                concepts_stored: 0,
                associations_created: 0,
                queries_performed: 0,
                consolidations_run: 0,
            }),
    {
        MemoryStats {
            episodes_recorded: 0,
            concepts_stored: 0,
            associations_created: 0,
            queries_performed: 0,
            consolidations_run: 0,
        }
    }
}

} // verus!
