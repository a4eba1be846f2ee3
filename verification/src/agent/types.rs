//! Errors, events, messages and responses of the agentic loop.

use vstd::prelude::*;
use crate::keyed::KeyedMap;
use crate::providers::types::{
    clone_opt_tool_calls, clone_string_map, debug_list, debug_list_text, opt_calls_view,
    provider_error_text, string_map_view, Message, ProviderError, Role, ToolCall, Usage,
};
use crate::text::{clone_opt, decimal_text, opt_view, push_decimal, push_str, strings_view};

verus! {

// =============================================================================
// ERRORS
// =============================================================================

/// Errors that can occur during agent execution.
#[derive(Debug)]
pub enum AgentError {
    /// LLM provider error
    Provider(ProviderError),
    /// Tool execution error (its message)
    Tool(String),
    /// Safety/ethics violation
    SafetyViolation {
        /// Kind of violation (its name)
        violation_type: String,
        /// Description
        message: String,
        /// Suggestions for resolution
        suggestions: Vec<String>,
    },
    /// Maximum iterations exceeded
    MaxIterationsExceeded {
        /// Number of iterations reached
        iterations: usize,
        /// Configured limit
        limit: usize,
    },
    /// Maximum tokens exceeded
    MaxTokensExceeded {
        /// Tokens used
        tokens: usize,
        /// Configured limit
        limit: usize,
    },
    /// Context window exceeded
    ContextOverflow {
        /// Current context size
        current: usize,
        /// Maximum allowed
        max: usize,
    },
    /// Invalid tool call from LLM
    InvalidToolCall {
        /// Tool name
        tool_name: String,
        /// Error message
        message: String,
    },
    /// Configuration error
    Configuration(String),
    /// Cancelled by user/hook
    Cancelled(String),
    /// Timeout
    Timeout {
        /// Operation that timed out
        operation: String,
        /// Duration
        duration: std::time::Duration,
    },
    /// Internal error
    Internal(String),
}

/// Result type for agent operations.
pub type AgentResult<T> = Result<T, AgentError>;

/// The text that `Debug` formatting gives a duration (such as `1.5s` or
/// `250ms`); it depends on the duration alone.
pub uninterp spec fn duration_debug_text(d: std::time::Duration) -> Seq<char>;

/// Formats a duration with `{:?}` (std's `Debug` for `Duration`). The
/// contract names the text; how std writes it is not stated.
#[verifier::external_body]
fn debug_duration(d: &std::time::Duration) -> (s: String)
    ensures
        s@ == duration_debug_text(*d),
{
    format!("{:?}", d)
}

/// The display text of an agent error.
pub open spec fn agent_error_text(e: AgentError) -> Seq<char> {
    match e {
        AgentError::Provider(p) => "Provider error: "@ + provider_error_text(p),
        AgentError::Tool(m) => "Tool error: "@ + m@,
        AgentError::SafetyViolation { violation_type, message, suggestions } => "Safety violation ["@
            + violation_type@ + "]: "@ + message@ + ". Suggestions: "@ + debug_list_text(
            strings_view(suggestions@),
        ),
        AgentError::MaxIterationsExceeded { iterations, limit } => "Max iterations exceeded: "@
            + decimal_text(iterations as nat) + " (limit: "@ + decimal_text(limit as nat) + ")"@,
        AgentError::MaxTokensExceeded { tokens, limit } => "Max tokens exceeded: "@ + decimal_text(
            tokens as nat,
        ) + " (limit: "@ + decimal_text(limit as nat) + ")"@,
        AgentError::ContextOverflow { current, max } => "Context window overflow: "@ + decimal_text(
            current as nat,
        ) + " tokens (max: "@ + decimal_text(max as nat) + ")"@,
        AgentError::InvalidToolCall { tool_name, message } => "Invalid tool call '"@ + tool_name@
            + "': "@ + message@,
        AgentError::Configuration(m) => "Configuration error: "@ + m@,
        AgentError::Cancelled(m) => "Cancelled: "@ + m@,
        AgentError::Timeout { operation, duration } => "Timeout on '"@ + operation@ + "' after "@
            + duration_debug_text(duration),
        AgentError::Internal(m) => "Internal error: "@ + m@,
    }
}

impl AgentError {
    /// The display text of this error.
    pub fn to_display_string(&self) -> (s: String)
        ensures
            s@ == agent_error_text(*self),
    {
        let mut s = String::new();
        match self {
            AgentError::Provider(p) => {
                push_str(&mut s, "Provider error: ");
                let t = p.to_display_string();
                push_str(&mut s, t.as_str());
            },
            AgentError::Tool(m) => {
                push_str(&mut s, "Tool error: ");
                push_str(&mut s, m.as_str());
            },
            AgentError::SafetyViolation { violation_type, message, suggestions } => {
                push_str(&mut s, "Safety violation [");
                push_str(&mut s, violation_type.as_str());
                push_str(&mut s, "]: ");
                push_str(&mut s, message.as_str());
                push_str(&mut s, ". Suggestions: ");
                let t = debug_list(suggestions);
                push_str(&mut s, t.as_str());
            },
            AgentError::MaxIterationsExceeded { iterations, limit } => {
                push_str(&mut s, "Max iterations exceeded: ");
                push_decimal(&mut s, *iterations as u64);
                push_str(&mut s, " (limit: ");
                push_decimal(&mut s, *limit as u64);
                push_str(&mut s, ")");
            },
            AgentError::MaxTokensExceeded { tokens, limit } => {
                push_str(&mut s, "Max tokens exceeded: ");
                push_decimal(&mut s, *tokens as u64);
                push_str(&mut s, " (limit: ");
                push_decimal(&mut s, *limit as u64);
                push_str(&mut s, ")");
            },
            AgentError::ContextOverflow { current, max } => {
                push_str(&mut s, "Context window overflow: ");
                push_decimal(&mut s, *current as u64);
                push_str(&mut s, " tokens (max: ");
                push_decimal(&mut s, *max as u64);
                push_str(&mut s, ")");
            },
            AgentError::InvalidToolCall { tool_name, message } => {
                push_str(&mut s, "Invalid tool call '");
                push_str(&mut s, tool_name.as_str());
                push_str(&mut s, "': ");
                push_str(&mut s, message.as_str());
            },
            AgentError::Configuration(m) => {
                push_str(&mut s, "Configuration error: ");
                push_str(&mut s, m.as_str());
            },
            AgentError::Cancelled(m) => {
                push_str(&mut s, "Cancelled: ");
                push_str(&mut s, m.as_str());
            },
            AgentError::Timeout { operation, duration } => {
                push_str(&mut s, "Timeout on '");
                push_str(&mut s, operation.as_str());
                push_str(&mut s, "' after ");
                let t = debug_duration(duration);
                push_str(&mut s, t.as_str());
            },
            AgentError::Internal(m) => {
                push_str(&mut s, "Internal error: ");
                push_str(&mut s, m.as_str());
            },
        }
        assert(s@ =~= agent_error_text(*self));
        s
    }

    /// The agent error wrapping a provider error.
    pub fn from_provider_error(err: ProviderError) -> (r: Self)
        ensures
            r == AgentError::Provider(err),
    {
        AgentError::Provider(err)
    }
}

impl From<ProviderError> for AgentError {
    fn from(err: ProviderError) -> (r: Self)
        ensures
            r == AgentError::Provider(err),
    {
        AgentError::Provider(err)
    }
}

impl vstd::std_specs::convert::FromSpecImpl<ProviderError> for AgentError {
    open spec fn obeys_from_spec() -> bool {
        true
    }

    open spec fn from_spec(v: ProviderError) -> AgentError {
        AgentError::Provider(v)
    }
}

// =============================================================================
// EVENTS
// =============================================================================

/// Simplified tool call info for events.
#[derive(Debug)]
pub struct ToolCallInfo {
    /// Tool call ID
    pub id: String,
    /// Tool name
    pub name: String,
    /// Arguments (as JSON string)
    pub arguments: String,
}

impl Clone for ToolCallInfo {
    fn clone(&self) -> (r: Self)
        ensures
            r == *self,
    {
        ToolCallInfo { id: self.id.clone(), name: self.name.clone(), arguments: self.arguments.clone() }
    }
}

impl ToolCallInfo {
    /// The info of a tool call: its id, name and arguments.
    pub fn from_call(call: &ToolCall) -> (r: Self)
        ensures
            r.id == call.id,
            r.name == call.name,
            r.arguments == call.arguments,
    {
        ToolCallInfo { id: call.id.clone(), name: call.name.clone(), arguments: call.arguments.clone() }
    }
}

impl<'a> vstd::std_specs::convert::FromSpecImpl<&'a ToolCall> for ToolCallInfo {
    open spec fn obeys_from_spec() -> bool {
        true
    }

    open spec fn from_spec(v: &'a ToolCall) -> ToolCallInfo {
        ToolCallInfo { id: v.id, name: v.name, arguments: v.arguments }
    }
}

impl<'a> From<&'a ToolCall> for ToolCallInfo {
    fn from(call: &'a ToolCall) -> (r: Self)
        ensures
            r.id == call.id,
            r.name == call.name,
            r.arguments == call.arguments,
    {
        ToolCallInfo::from_call(call)
    }
}

/// Events emitted during agent execution.
#[derive(Debug)]
pub enum AgentEvent {
    /// Agent started processing
    Started {
        /// Unique run ID
        run_id: String,
        /// Input message
        input: String,
        /// Timestamp (millis since epoch)
        timestamp_ms: u64,
    },
    /// LLM completion received
    LLMResponse {
        /// Run ID
        run_id: String,
        /// Content (may be partial)
        content: String,
        /// Whether tool calls were made
        has_tool_calls: bool,
        /// Token usage
        usage: Usage,
        /// Iteration number
        iteration: usize,
    },
    /// Tool call started
    ToolCallStarted {
        /// Run ID
        run_id: String,
        /// Tool call details
        tool_call: ToolCallInfo,
        /// Iteration number
        iteration: usize,
    },
    /// Tool call completed
    ToolCallCompleted {
        /// Run ID
        run_id: String,
        /// Tool call ID
        tool_call_id: String,
        /// Whether successful
        success: bool,
        /// Output (truncated if long)
        output: String,
        /// Execution time
        duration_ms: u64,
    },
    /// Safety check performed
    SafetyCheck {
        /// Run ID
        run_id: String,
        /// Action checked
        action: String,
        /// Whether allowed
        allowed: bool,
        /// Reason if blocked
        reason: Option<String>,
    },
    /// Thinking/chain-of-thought
    Thinking {
        /// Run ID
        run_id: String,
        /// Thought content
        thought: String,
        /// Iteration number
        iteration: usize,
    },
    /// Agent completed
    Completed {
        /// Run ID
        run_id: String,
        /// Final response
        response: String,
        /// Total iterations
        iterations: usize,
        /// Total token usage
        total_usage: Usage,
        /// Total duration
        duration_ms: u64,
    },
    /// Agent errored
    Error {
        /// Run ID
        run_id: String,
        /// Error message
        error: String,
        /// Iteration where error occurred
        iteration: usize,
    },
}

impl Clone for AgentEvent {
    fn clone(&self) -> (r: Self)
        ensures
            r == *self,
    {
        match self {
            AgentEvent::Started { run_id, input, timestamp_ms } => AgentEvent::Started {
                run_id: run_id.clone(),
                input: input.clone(),
                timestamp_ms: *timestamp_ms,
            },
            AgentEvent::LLMResponse { run_id, content, has_tool_calls, usage, iteration } => {
                AgentEvent::LLMResponse {
                    run_id: run_id.clone(),
                    content: content.clone(),
                    has_tool_calls: *has_tool_calls,
                    usage: *usage,
                    iteration: *iteration,
                }
            },
            AgentEvent::ToolCallStarted { run_id, tool_call, iteration } => {
                AgentEvent::ToolCallStarted {
                    run_id: run_id.clone(),
                    tool_call: tool_call.clone(),
                    iteration: *iteration,
                }
            },
            AgentEvent::ToolCallCompleted { run_id, tool_call_id, success, output, duration_ms } => {
                AgentEvent::ToolCallCompleted {
                    run_id: run_id.clone(),
                    tool_call_id: tool_call_id.clone(),
                    success: *success,
                    output: output.clone(),
                    duration_ms: *duration_ms,
                }
            },
            AgentEvent::SafetyCheck { run_id, action, allowed, reason } => AgentEvent::SafetyCheck {
                run_id: run_id.clone(),
                action: action.clone(),
                allowed: *allowed,
                reason: clone_opt(reason),
            },
            AgentEvent::Thinking { run_id, thought, iteration } => AgentEvent::Thinking {
                run_id: run_id.clone(),
                thought: thought.clone(),
                iteration: *iteration,
            },
            AgentEvent::Completed { run_id, response, iterations, total_usage, duration_ms } => {
                AgentEvent::Completed {
                    run_id: run_id.clone(),
                    response: response.clone(),
                    iterations: *iterations,
                    total_usage: *total_usage,
                    duration_ms: *duration_ms,
                }
            },
            AgentEvent::Error { run_id, error, iteration } => AgentEvent::Error {
                run_id: run_id.clone(),
                error: error.clone(),
                iteration: *iteration,
            },
        }
    }
}

/// The run id an event carries.
pub open spec fn event_run_id(e: AgentEvent) -> String {
    match e {
        AgentEvent::Started { run_id, .. } => run_id,
        AgentEvent::LLMResponse { run_id, .. } => run_id,
        AgentEvent::ToolCallStarted { run_id, .. } => run_id,
        AgentEvent::ToolCallCompleted { run_id, .. } => run_id,
        AgentEvent::SafetyCheck { run_id, .. } => run_id,
        AgentEvent::Thinking { run_id, .. } => run_id,
        AgentEvent::Completed { run_id, .. } => run_id,
        AgentEvent::Error { run_id, .. } => run_id,
    }
}

impl AgentEvent {
    /// Get the run ID for this event.
    pub fn run_id(&self) -> (s: &str)
        ensures
            s@ == event_run_id(*self)@,
    {
        match self {
            AgentEvent::Started { run_id, .. } => run_id.as_str(),
            AgentEvent::LLMResponse { run_id, .. } => run_id.as_str(),
            AgentEvent::ToolCallStarted { run_id, .. } => run_id.as_str(),
            AgentEvent::ToolCallCompleted { run_id, .. } => run_id.as_str(),
            AgentEvent::SafetyCheck { run_id, .. } => run_id.as_str(),
            AgentEvent::Thinking { run_id, .. } => run_id.as_str(),
            AgentEvent::Completed { run_id, .. } => run_id.as_str(),
            AgentEvent::Error { run_id, .. } => run_id.as_str(),
        }
    }

    /// Check if this is a terminal event (completed or errored).
    pub fn is_terminal(&self) -> (b: bool)
        ensures
            b == (*self is Completed || *self is Error),
    {
        match self {
            AgentEvent::Completed { .. } => true,
            AgentEvent::Error { .. } => true,
            _ => false,
        }
    }
}

// =============================================================================
// MESSAGES
// =============================================================================

/// The abstract content of an agent message.
pub struct AgentMessageRecord {
    pub role: Role,
    pub content: Seq<char>,
    pub tool_calls: Option<Seq<ToolCall>>,
    pub tool_call_id: Option<Seq<char>>,
    pub iteration: usize,
    pub timestamp_ms: u64,
    pub metadata: Map<Seq<char>, Seq<char>>,
}

/// An agent message (for internal tracking, extends the provider message).
#[derive(Debug)]
pub struct AgentMessage {
    /// Message role
    pub role: Role,
    /// Content
    pub content: String,
    /// Tool calls (if assistant with tool calls)
    pub tool_calls: Option<Vec<ToolCall>>,
    /// Tool call ID (if tool result)
    pub tool_call_id: Option<String>,
    /// Iteration when this message was created
    pub iteration: usize,
    /// Timestamp (millis since epoch)
    pub timestamp_ms: u64,
    /// Metadata
    pub metadata: KeyedMap<String>,
}

impl View for AgentMessage {
    type V = AgentMessageRecord;

    open spec fn view(&self) -> AgentMessageRecord {
        AgentMessageRecord {
            role: self.role,
            content: self.content@,
            tool_calls: opt_calls_view(self.tool_calls),
            tool_call_id: opt_view(self.tool_call_id),
            iteration: self.iteration,
            timestamp_ms: self.timestamp_ms,
            metadata: string_map_view(self.metadata.view()),
        }
    }
}

/// The records of a sequence of agent messages.
pub open spec fn message_records(v: Seq<AgentMessage>) -> Seq<AgentMessageRecord> {
    v.map_values(|m: AgentMessage| m@)
}

/// Every message's metadata has unique keys.
pub open spec fn all_messages_wf(v: Seq<AgentMessage>) -> bool {
    forall|i: int| 0 <= i < v.len() ==> (#[trigger] v[i]).wf()
}

impl AgentMessage {
    /// Metadata keys are unique.
    pub open spec fn wf(&self) -> bool {
        self.metadata.wf()
    }

    /// Create a new agent message stamped with the current time.
    pub fn new(role: Role, content: &str, iteration: usize) -> (m: Self)
        ensures
            m.wf(),
            m@.role == role,
            m@.content == content@,
            m@.tool_calls.is_none(),
            m@.tool_call_id.is_none(),
            m@.iteration == iteration,
            m@.metadata.dom().len() == 0,
    {
        let m = AgentMessage {
            role,
            content: content.to_owned(),
            tool_calls: None,
            tool_call_id: None,
            iteration,
            timestamp_ms: crate::clock::now_ms(),
            metadata: KeyedMap::new(),
        };
        assert(m@.metadata =~= Map::empty());
        m
    }

    /// Create a user message.
    pub fn user(content: &str, iteration: usize) -> (m: Self)
        ensures
            m.wf(),
            m@.role == Role::User,
            m@.content == content@,
            m@.tool_calls.is_none(),
            m@.tool_call_id.is_none(),
            m@.iteration == iteration,
            m@.metadata.dom().len() == 0,
    {
        Self::new(Role::User, content, iteration)
    }

    /// Create an assistant message.
    pub fn assistant(content: &str, iteration: usize) -> (m: Self)
        ensures
            m.wf(),
            m@.role == Role::Assistant,
            m@.content == content@,
            m@.tool_calls.is_none(),
            m@.tool_call_id.is_none(),
            m@.iteration == iteration,
            m@.metadata.dom().len() == 0,
    {
        Self::new(Role::Assistant, content, iteration)
    }

    /// Create an assistant message with tool calls.
    pub fn assistant_with_tools(content: &str, tool_calls: Vec<ToolCall>, iteration: usize) -> (m:
        Self)
        ensures
            m.wf(),
            m@.role == Role::Assistant,
            m@.content == content@,
            m@.tool_calls == Some(tool_calls@),
            m@.tool_call_id.is_none(),
            m@.iteration == iteration,
            m@.metadata.dom().len() == 0,
    {
        let mut m = Self::new(Role::Assistant, content, iteration);
        m.tool_calls = Some(tool_calls);
        m
    }

    /// Create a tool result message.
    pub fn tool_result(tool_call_id: &str, content: &str, iteration: usize) -> (m: Self)
        ensures
            m.wf(),
            m@.role == Role::Tool,
            m@.content == content@,
            m@.tool_calls.is_none(),
            m@.tool_call_id == Some(tool_call_id@),
            m@.iteration == iteration,
            m@.metadata.dom().len() == 0,
    {
        let mut m = Self::new(Role::Tool, content, iteration);
        m.tool_call_id = Some(tool_call_id.to_owned());
        m
    }

    /// Create a system message (iteration zero).
    pub fn system(content: &str) -> (m: Self)
        ensures
            m.wf(),
            m@.role == Role::System,
            m@.content == content@,
            m@.tool_calls.is_none(),
            m@.tool_call_id.is_none(),
            m@.iteration == 0,
            m@.metadata.dom().len() == 0,
    {
        Self::new(Role::System, content, 0)
    }

    /// Add metadata (replacing any value under the same key).
    pub fn with_metadata(self, key: &str, value: &str) -> (m: Self)
        requires
            self.wf(),
        ensures
            m.wf(),
            m@ == (AgentMessageRecord { metadata: self@.metadata.insert(key@, value@), ..self@ }),
    {
        let mut m = self;
        m.metadata.insert(key.to_owned(), value.to_owned());
        assert(m@.metadata =~= self@.metadata.insert(key@, value@));
        m
    }

    /// Convert to a provider message: same role, content, tool calls, tool
    /// call id and metadata; no name.
    pub fn to_provider_message(&self) -> (msg: Message)
        requires
            self.wf(),
        ensures
            msg.wf(),
            msg.role == self.role,
            msg.content@ == self.content@,
            msg.name.is_none(),
            opt_calls_view(msg.tool_calls) == opt_calls_view(self.tool_calls),
            opt_view(msg.tool_call_id) == opt_view(self.tool_call_id),
            msg.metadata_view() == string_map_view(self.metadata.view()),
    {
        let mut msg = Message::new(self.role, self.content.as_str());
        msg.tool_calls = clone_opt_tool_calls(&self.tool_calls);
        msg.tool_call_id = clone_opt(&self.tool_call_id);
        msg.metadata = clone_string_map(&self.metadata);
        msg
    }

    /// A copy of this message.
    pub fn duplicate(&self) -> (r: Self)
        requires
            self.wf(),
        ensures
            r.wf(),
            r@ == self@,
    {
        AgentMessage {
            role: self.role,
            content: self.content.clone(),
            tool_calls: clone_opt_tool_calls(&self.tool_calls),
            tool_call_id: clone_opt(&self.tool_call_id),
            iteration: self.iteration,
            timestamp_ms: self.timestamp_ms,
            metadata: clone_string_map(&self.metadata),
        }
    }
}

/// A copy of a list of agent messages.
pub fn duplicate_messages(v: &Vec<AgentMessage>) -> (r: Vec<AgentMessage>)
    requires
        all_messages_wf(v@),
    ensures
        all_messages_wf(r@),
        message_records(r@) == message_records(v@),
{
    let mut r: Vec<AgentMessage> = Vec::new();
    let mut i: usize = 0;
    while i < v.len()
        invariant
            i <= v@.len(),
            all_messages_wf(v@),
            all_messages_wf(r@),
            r@.len() == i,
            message_records(r@) == message_records(v@.subrange(0, i as int)),
        decreases v@.len() - i,
    {
        let m = v[i].duplicate();
        let ghost prev = r@;
        r.push(m);
        proof {
            assert(r@ == prev.push(m));
            assert(m@ == v@[i as int]@);
            assert(message_records(r@).len() == i + 1);
            assert(message_records(r@) =~= message_records(v@.subrange(0, i + 1))) by {
                assert forall|j: int| 0 <= j < r@.len() implies #[trigger] message_records(r@)[j]
                    == message_records(v@.subrange(0, i + 1))[j] by {
                    if j < prev.len() {
                        assert(message_records(prev)[j] == message_records(v@.subrange(0, i as int))[j]);
                    } else {
                        assert(r@[j] == m);
                    }
                }
            }
        }
        i = i + 1;
    }
    assert(v@.subrange(0, v@.len() as int) =~= v@);
    r
}

// =============================================================================
// RESPONSES
// =============================================================================

/// Record of a tool call made during execution.
#[derive(Debug)]
pub struct ToolCallRecord {
    /// Tool call ID
    pub id: String,
    /// Tool name
    pub name: String,
    /// Arguments
    pub arguments: String,
    /// Whether successful
    pub success: bool,
    /// Output (may be truncated)
    pub output: String,
    /// Execution time
    pub duration_ms: u64,
    /// Iteration when called
    pub iteration: usize,
}

impl Clone for ToolCallRecord {
    fn clone(&self) -> (r: Self)
        ensures
            r == *self,
    {
        ToolCallRecord {
            id: self.id.clone(),
            name: self.name.clone(),
            arguments: self.arguments.clone(),
            success: self.success,
            output: self.output.clone(),
            duration_ms: self.duration_ms,
            iteration: self.iteration,
        }
    }
}

impl ToolCallRecord {
    /// Create from a tool call and its result.
    pub fn new(call: &ToolCall, success: bool, output: String, duration_ms: u64, iteration: usize) -> (r:
        Self)
        ensures
            r.id == call.id,
            r.name == call.name,
            r.arguments == call.arguments,
            r.success == success,
            r.output == output,
            r.duration_ms == duration_ms,
            r.iteration == iteration,
    {
        ToolCallRecord {
            id: call.id.clone(),
            name: call.name.clone(),
            arguments: call.arguments.clone(),
            success,
            output,
            duration_ms,
            iteration,
        }
    }
}

/// A copy of a list of tool call records.
pub fn clone_records(v: &Vec<ToolCallRecord>) -> (r: Vec<ToolCallRecord>)
    ensures
        r@ == v@,
{
    let mut r: Vec<ToolCallRecord> = Vec::new();
    let mut i: usize = 0;
    while i < v.len()
        invariant
            i <= v@.len(),
            r@ == v@.subrange(0, i as int),
        decreases v@.len() - i,
    {
        r.push(v[i].clone());
        i = i + 1;
        assert(r@ =~= v@.subrange(0, i as int));
    }
    assert(v@.subrange(0, v@.len() as int) =~= v@);
    r
}

/// Final response from an agent run.
#[derive(Debug)]
pub struct AgentResponse {
    /// Run ID
    pub run_id: String,
    /// Final text response
    pub content: String,
    /// All messages in the conversation
    pub messages: Vec<AgentMessage>,
    /// Total iterations
    pub iterations: usize,
    /// Total token usage
    pub usage: Usage,
    /// Total duration
    pub duration_ms: u64,
    /// Tool calls made
    pub tool_calls_made: Vec<ToolCallRecord>,
    /// Whether safety checks were applied
    pub safety_applied: bool,
    /// Metadata
    pub metadata: KeyedMap<serde_json::Value>,
}

impl AgentResponse {
    /// Create a new agent response: no tool calls, no safety, no metadata.
    pub fn new(
        run_id: String,
        content: String,
        messages: Vec<AgentMessage>,
        iterations: usize,
        usage: Usage,
        duration_ms: u64,
    ) -> (r: Self)
        ensures
            r.run_id == run_id,
            r.content == content,
            r.messages == messages,
            r.iterations == iterations,
            r.usage == usage,
            r.duration_ms == duration_ms,
            r.tool_calls_made@.len() == 0,
            !r.safety_applied,
            r.metadata.wf(),
            r.metadata.view().dom().len() == 0,
    {
        let r = AgentResponse {
            run_id,
            content,
            messages,
            iterations,
            usage,
            duration_ms,
            tool_calls_made: Vec::new(),
            safety_applied: false,
            metadata: KeyedMap::new(),
        };
        r
    }
}

} // verus!
