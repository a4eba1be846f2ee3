//! Error types used across orchestrator components.

use vstd::prelude::*;
use vstd::std_specs::convert::FromSpecImpl;
use crate::providers::types::{provider_error_text, ProviderError};
use crate::text::{decimal_text, push_decimal, push_str};

verus! {

/// Errors that can occur in the orchestrator.
#[derive(Debug)]
pub enum OrchestratorError {
    /// Memory operation failed
    MemoryError(String),
    /// Agent state transition error
    StateTransitionError { from: String, to: String, reason: String },
    /// Provider communication failed
    ProviderError(String),
    /// Tool execution failed
    ToolError { tool_name: String, message: String },
    /// Safety validation failed
    SafetyViolation { action: String, reason: String },
    /// Configuration error
    ConfigError(String),
    /// Context limit exceeded
    ContextLimitExceeded { current: usize, limit: usize },
    /// Timeout during operation
    Timeout { operation: String, duration_ms: u64 },
    /// Session not found or expired
    SessionError(String),
    /// Internal orchestrator error
    Internal(String),
}

/// The display text of an orchestrator error.
pub open spec fn orchestrator_error_text(e: OrchestratorError) -> Seq<char> {
    match e {
        OrchestratorError::MemoryError(m) => "Memory error: "@ + m@,
        OrchestratorError::StateTransitionError { from, to, reason } => "Invalid state transition "@
            + from@ + " -> "@ + to@ + ": "@ + reason@,
        OrchestratorError::ProviderError(m) => "Provider error: "@ + m@,
        OrchestratorError::ToolError { tool_name, message } => "Tool '"@ + tool_name@ + "' failed: "@
            + message@,
        OrchestratorError::SafetyViolation { action, reason } => "Safety violation for '"@ + action@
            + "': "@ + reason@,
        OrchestratorError::ConfigError(m) => "Configuration error: "@ + m@,
        OrchestratorError::ContextLimitExceeded { current, limit } => "Context limit exceeded: "@
            + decimal_text(current as nat) + " tokens (limit: "@ + decimal_text(limit as nat) + ")"@,
        OrchestratorError::Timeout { operation, duration_ms } => "Timeout during "@ + operation@
            + ": "@ + decimal_text(duration_ms as nat) + "ms"@,
        OrchestratorError::SessionError(m) => "Session error: "@ + m@,
        OrchestratorError::Internal(m) => "Internal error: "@ + m@,
    }
}

impl OrchestratorError {
    /// The display text of this error.
    pub fn to_display_string(&self) -> (s: String)
        ensures
            s@ == orchestrator_error_text(*self),
    {
        let mut s = String::new();
        match self {
            OrchestratorError::MemoryError(m) => {
                push_str(&mut s, "Memory error: ");
                push_str(&mut s, m.as_str());
            },
            OrchestratorError::StateTransitionError { from, to, reason } => {
                push_str(&mut s, "Invalid state transition ");
                push_str(&mut s, from.as_str());
                push_str(&mut s, " -> ");
                push_str(&mut s, to.as_str());
                push_str(&mut s, ": ");
                push_str(&mut s, reason.as_str());
            },
            OrchestratorError::ProviderError(m) => {
                push_str(&mut s, "Provider error: ");
                push_str(&mut s, m.as_str());
            },
            OrchestratorError::ToolError { tool_name, message } => {
                push_str(&mut s, "Tool '");
                push_str(&mut s, tool_name.as_str());
                push_str(&mut s, "' failed: ");
                push_str(&mut s, message.as_str());
            },
            OrchestratorError::SafetyViolation { action, reason } => {
                push_str(&mut s, "Safety violation for '");
                push_str(&mut s, action.as_str());
                push_str(&mut s, "': ");
                push_str(&mut s, reason.as_str());
            },
            OrchestratorError::ConfigError(m) => {
                push_str(&mut s, "Configuration error: ");
                push_str(&mut s, m.as_str());
            },
            OrchestratorError::ContextLimitExceeded { current, limit } => {
                push_str(&mut s, "Context limit exceeded: ");
                push_decimal(&mut s, *current as u64);
                push_str(&mut s, " tokens (limit: ");
                push_decimal(&mut s, *limit as u64);
                push_str(&mut s, ")");
            },
            OrchestratorError::Timeout { operation, duration_ms } => {
                push_str(&mut s, "Timeout during ");
                push_str(&mut s, operation.as_str());
                push_str(&mut s, ": ");
                push_decimal(&mut s, *duration_ms);
                push_str(&mut s, "ms");
            },
            OrchestratorError::SessionError(m) => {
                push_str(&mut s, "Session error: ");
                push_str(&mut s, m.as_str());
            },
            OrchestratorError::Internal(m) => {
                push_str(&mut s, "Internal error: ");
                push_str(&mut s, m.as_str());
            },
        }
        assert(s@ =~= orchestrator_error_text(*self));
        s
    }

    /// The orchestrator error for a provider error: its display text.
    pub fn from_provider_error(err: &ProviderError) -> (r: Self)
        ensures
            r matches OrchestratorError::ProviderError(m) && m@ == provider_error_text(*err),
    {
        OrchestratorError::ProviderError(err.to_display_string())
    }
}

impl From<ProviderError> for OrchestratorError {
    fn from(err: ProviderError) -> (r: Self)
        ensures
            r matches OrchestratorError::ProviderError(m) && m@ == provider_error_text(err),
    {
        OrchestratorError::from_provider_error(&err)
    }
}

impl FromSpecImpl<ProviderError> for OrchestratorError {
    open spec fn obeys_from_spec() -> bool {
        false
    }

    open spec fn from_spec(v: ProviderError) -> OrchestratorError {
        arbitrary()
    }
}

} // verus!
