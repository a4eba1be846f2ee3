//! Core types shared by every LLM provider: messages, tool calls,
//! completions, token usage and provider errors.

use vstd::prelude::*;
use crate::keyed::KeyedMap;
use crate::text::{debug_str_text, decimal_text, opt_view, push_decimal, push_str, strings_view};

verus! {

/// JSON values are carried through unchanged.
#[verifier::external_type_specification]
#[verifier::external_body]
pub struct ExJsonValue(serde_json::Value);

// =============================================================================
// ERRORS
// =============================================================================

/// Errors that can occur when using LLM providers.
#[derive(Debug)]
pub enum ProviderError {
    /// API authentication failed
    AuthenticationError(String),
    /// Rate limit exceeded
    RateLimitError { retry_after_secs: Option<u64>, message: String },
    /// Invalid request parameters
    InvalidRequest(String),
    /// Model not found or not accessible
    ModelNotFound(String),
    /// Network/connection error
    NetworkError(String),
    /// Response parsing error
    ParseError(String),
    /// Timeout
    Timeout(String),
    /// Content blocked by safety filters
    ContentBlocked { reason: String, categories: Vec<String> },
    /// Token limit exceeded
    TokenLimitExceeded { limit: usize, requested: usize },
    /// Provider-specific error
    ProviderSpecific { code: String, message: String },
    /// Internal error
    Internal(String),
}

/// The `Debug` texts of strings, separated by ", ".
pub open spec fn debug_items(items: Seq<Seq<char>>) -> Seq<char>
    decreases items.len(),
{
    if items.len() == 0 {
        Seq::empty()
    } else if items.len() == 1 {
        debug_str_text(items[0])
    } else {
        debug_items(items.drop_last()) + ", "@ + debug_str_text(items.last())
    }
}

/// The text that `Debug` formatting gives a list of strings: the items'
/// `Debug` texts (quoted and escaped), separated by ", ", in brackets.
pub open spec fn debug_list_text(items: Seq<Seq<char>>) -> Seq<char> {
    "["@ + debug_items(items) + "]"@
}

/// Formats a list of strings with `{:?}` (std's `Debug` for `Vec<String>`).
#[verifier::external_body]
pub(crate) fn debug_list(items: &Vec<String>) -> (s: String)
    ensures
        s@ == debug_list_text(strings_view(items@)),
{
    format!("{:?}", items)
}

/// The display text of a provider error.
pub open spec fn provider_error_text(e: ProviderError) -> Seq<char> {
    match e {
        ProviderError::AuthenticationError(m) => "Authentication error: "@ + m@,
        ProviderError::RateLimitError { retry_after_secs, message } => match retry_after_secs {
            Some(secs) => "Rate limit exceeded: "@ + message@ + " (retry after "@ + decimal_text(
                secs as nat,
            ) + "s)"@,
            None => "Rate limit exceeded: "@ + message@,
        },
        ProviderError::InvalidRequest(m) => "Invalid request: "@ + m@,
        ProviderError::ModelNotFound(m) => "Model not found: "@ + m@,
        ProviderError::NetworkError(m) => "Network error: "@ + m@,
        ProviderError::ParseError(m) => "Parse error: "@ + m@,
        ProviderError::Timeout(m) => "Timeout: "@ + m@,
        ProviderError::ContentBlocked { reason, categories } => "Content blocked: "@ + reason@
            + " (categories: "@ + debug_list_text(strings_view(categories@)) + ")"@,
        ProviderError::TokenLimitExceeded { limit, requested } => "Token limit exceeded: requested "@
            + decimal_text(requested as nat) + " but limit is "@ + decimal_text(limit as nat),
        ProviderError::ProviderSpecific { code, message } => "Provider error ["@ + code@ + "]: "@
            + message@,
        ProviderError::Internal(m) => "Internal error: "@ + m@,
    }
}

impl ProviderError {
    /// The display text of this error.
    pub fn to_display_string(&self) -> (s: String)
        ensures
            s@ == provider_error_text(*self),
    {
        let mut s = String::new();
        match self {
            ProviderError::AuthenticationError(m) => {
                push_str(&mut s, "Authentication error: ");
                push_str(&mut s, m.as_str());
            },
            ProviderError::RateLimitError { retry_after_secs, message } => {
                push_str(&mut s, "Rate limit exceeded: ");
                push_str(&mut s, message.as_str());
                match retry_after_secs {
                    Some(secs) => {
                        push_str(&mut s, " (retry after ");
                        push_decimal(&mut s, *secs);
                        push_str(&mut s, "s)");
                    },
                    None => {},
                }
            },
            ProviderError::InvalidRequest(m) => {
                push_str(&mut s, "Invalid request: ");
                push_str(&mut s, m.as_str());
            },
            ProviderError::ModelNotFound(m) => {
                push_str(&mut s, "Model not found: ");
                push_str(&mut s, m.as_str());
            },
            ProviderError::NetworkError(m) => {
                push_str(&mut s, "Network error: ");
                push_str(&mut s, m.as_str());
            },
            ProviderError::ParseError(m) => {
                push_str(&mut s, "Parse error: ");
                push_str(&mut s, m.as_str());
            },
            ProviderError::Timeout(m) => {
                push_str(&mut s, "Timeout: ");
                push_str(&mut s, m.as_str());
            },
            ProviderError::ContentBlocked { reason, categories } => {
                push_str(&mut s, "Content blocked: ");
                push_str(&mut s, reason.as_str());
                push_str(&mut s, " (categories: ");
                let cats = debug_list(categories);
                push_str(&mut s, cats.as_str());
                push_str(&mut s, ")");
            },
            ProviderError::TokenLimitExceeded { limit, requested } => {
                push_str(&mut s, "Token limit exceeded: requested ");
                push_decimal(&mut s, *requested as u64);
                push_str(&mut s, " but limit is ");
                push_decimal(&mut s, *limit as u64);
            },
            ProviderError::ProviderSpecific { code, message } => {
                push_str(&mut s, "Provider error [");
                push_str(&mut s, code.as_str());
                push_str(&mut s, "]: ");
                push_str(&mut s, message.as_str());
            },
            ProviderError::Internal(m) => {
                push_str(&mut s, "Internal error: ");
                push_str(&mut s, m.as_str());
            },
        }
        assert(s@ =~= provider_error_text(*self));
        s
    }

    /// A copy of this error.
    pub fn duplicate(&self) -> (r: ProviderError)
        ensures
            provider_error_text(r) == provider_error_text(*self),
            r.variant_index() == self.variant_index(),
    {
        match self {
            ProviderError::AuthenticationError(m) => ProviderError::AuthenticationError(m.clone()),
            ProviderError::RateLimitError { retry_after_secs, message } => {
                ProviderError::RateLimitError {
                    retry_after_secs: *retry_after_secs,
                    message: message.clone(),
                }
            },
            ProviderError::InvalidRequest(m) => ProviderError::InvalidRequest(m.clone()),
            ProviderError::ModelNotFound(m) => ProviderError::ModelNotFound(m.clone()),
            ProviderError::NetworkError(m) => ProviderError::NetworkError(m.clone()),
            ProviderError::ParseError(m) => ProviderError::ParseError(m.clone()),
            ProviderError::Timeout(m) => ProviderError::Timeout(m.clone()),
            ProviderError::ContentBlocked { reason, categories } => {
                let cats = crate::text::clone_strings(categories);
                assert(strings_view(cats@) == strings_view(categories@));
                ProviderError::ContentBlocked { reason: reason.clone(), categories: cats }
            },
            ProviderError::TokenLimitExceeded { limit, requested } => {
                ProviderError::TokenLimitExceeded { limit: *limit, requested: *requested }
            },
            ProviderError::ProviderSpecific { code, message } => {
                ProviderError::ProviderSpecific { code: code.clone(), message: message.clone() }
            },
            ProviderError::Internal(m) => ProviderError::Internal(m.clone()),
        }
    }

    /// Which variant this is, counted from zero in declaration order.
    pub open spec fn variant_index(&self) -> nat {
        match self {
            ProviderError::AuthenticationError(_) => 0,
            ProviderError::RateLimitError { .. } => 1,
            ProviderError::InvalidRequest(_) => 2,
            ProviderError::ModelNotFound(_) => 3,
            ProviderError::NetworkError(_) => 4,
            ProviderError::ParseError(_) => 5,
            ProviderError::Timeout(_) => 6,
            ProviderError::ContentBlocked { .. } => 7,
            ProviderError::TokenLimitExceeded { .. } => 8,
            ProviderError::ProviderSpecific { .. } => 9,
            ProviderError::Internal(_) => 10,
        }
    }
}

// =============================================================================
// ROLES AND MESSAGES
// =============================================================================

/// Role of a message in a conversation.
#[derive(Debug, Clone, Copy, PartialEq, Eq, Hash, Structural)]
pub enum Role {
    /// System message (instructions)
    System,
    /// User message
    User,
    /// Assistant (AI) message
    Assistant,
    /// Tool/function result
    Tool,
}

/// The lower-case name of a role.
pub open spec fn role_text(r: Role) -> Seq<char> {
    match r {
        Role::System => "system"@,
        Role::User => "user"@,
        Role::Assistant => "assistant"@,
        Role::Tool => "tool"@,
    }
}

impl Role {
    /// The lower-case name of the role ("system", "user", "assistant", "tool").
    pub fn as_str(&self) -> (s: &'static str)
        ensures
            s@ == role_text(*self),
    {
        match self {
            Role::System => "system",
            Role::User => "user",
            Role::Assistant => "assistant",
            Role::Tool => "tool",
        }
    }
}

/// A tool call made by the assistant.
#[derive(Debug)]
pub struct ToolCall {
    /// Unique ID for this tool call
    pub id: String,
    /// Name of the tool/function
    pub name: String,
    /// Arguments as JSON string
    pub arguments: String,
}

impl Clone for ToolCall {
    fn clone(&self) -> (r: Self)
        ensures
            r == *self,
    {
        ToolCall { id: self.id.clone(), name: self.name.clone(), arguments: self.arguments.clone() }
    }
}

/// A copy of a list of tool calls.
pub fn clone_tool_calls(v: &Vec<ToolCall>) -> (r: Vec<ToolCall>)
    ensures
        r@ == v@,
{
    let mut r: Vec<ToolCall> = Vec::new();
    let mut i: usize = 0;
    while i < v.len()
        invariant
            i <= v@.len(),
            r@ == v@.subrange(0, i as int),
        decreases v@.len() - i,
    {
        r.push(v[i].clone());
        i = i + 1;
        assert(r@ =~= v@.subrange(0, i as int));
    }
    assert(v@.subrange(0, v@.len() as int) =~= v@);
    r
}

/// A copy of an optional list of tool calls.
pub fn clone_opt_tool_calls(v: &Option<Vec<ToolCall>>) -> (r: Option<Vec<ToolCall>>)
    ensures
        opt_calls_view(r) == opt_calls_view(*v),
{
    match v {
        Some(calls) => Some(clone_tool_calls(calls)),
        None => None,
    }
}

/// The tool calls of an optional list, as a sequence.
pub open spec fn opt_calls_view(v: Option<Vec<ToolCall>>) -> Option<Seq<ToolCall>> {
    match v {
        Some(calls) => Some(calls@),
        None => None,
    }
}

/// The characters of every value of a string-valued map.
pub open spec fn string_map_view(m: Map<Seq<char>, String>) -> Map<Seq<char>, Seq<char>> {
    m.map_values(|s: String| s@)
}

/// A copy of a string-valued map.
pub fn clone_string_map(m: &KeyedMap<String>) -> (r: KeyedMap<String>)
    requires
        m.wf(),
    ensures
        r.wf(),
        r.view() == m.view(),
{
    let mut r: KeyedMap<String> = KeyedMap::new();
    let n = m.entry_count();
    let mut i: usize = 0;
    proof {
        m.lemma_view_is_entries();
        m.lemma_wf_is_unique();
    }
    while i < n
        invariant
            n == m.entry_seq().len(),
            i <= n,
            m.wf(),
            r.wf(),
            r.view() == crate::keyed::entries_map(m.entry_seq().subrange(0, i as int)),
        decreases n - i,
    {
        let (k, v) = m.entry_at(i);
        r.insert(k.clone(), v.clone());
        proof {
            assert(m.entry_seq().subrange(0, i + 1).drop_last() =~= m.entry_seq().subrange(
                0,
                i as int,
            ));
        }
        i = i + 1;
    }
    assert(m.entry_seq().subrange(0, n as int) =~= m.entry_seq());
    proof {
        m.lemma_view_is_entries();
    }
    r
}

/// A message in a conversation.
#[derive(Debug)]
pub struct Message {
    /// Role of the message author
    pub role: Role,
    /// Text content of the message
    pub content: String,
    /// Optional name (for multi-user scenarios)
    pub name: Option<String>,
    /// Tool call ID (for tool responses)
    pub tool_call_id: Option<String>,
    /// Tool calls made in this message
    pub tool_calls: Option<Vec<ToolCall>>,
    /// Additional metadata
    pub metadata: KeyedMap<String>,
}

impl Message {
    /// The metadata with each value taken by its characters.
    pub open spec fn metadata_view(&self) -> Map<Seq<char>, Seq<char>> {
        string_map_view(self.metadata.view())
    }

    /// Well-formed: metadata keys are unique.
    pub open spec fn wf(&self) -> bool {
        self.metadata.wf()
    }

    /// Create a new message.
    pub fn new(role: Role, content: &str) -> (m: Self)
        ensures
            m.wf(),
            m.role == role,
            m.content@ == content@,
            m.name.is_none(),
            m.tool_call_id.is_none(),
            m.tool_calls.is_none(),
            m.metadata.view().dom().len() == 0,
    {
        Message {
            role,
            content: content.to_owned(),
            name: None,
            tool_call_id: None,
            tool_calls: None,
            metadata: KeyedMap::new(),
        }
    }

    /// Create a system message.
    pub fn system(content: &str) -> (m: Self)
        ensures
            m.wf(),
            m.role == Role::System,
            m.content@ == content@,
            m.name.is_none(),
            m.tool_call_id.is_none(),
            m.tool_calls.is_none(),
            m.metadata.view().dom().len() == 0,
    {
        Self::new(Role::System, content)
    }

    /// Create a user message.
    pub fn user(content: &str) -> (m: Self)
        ensures
            m.wf(),
            m.role == Role::User,
            m.content@ == content@,
            m.name.is_none(),
            m.tool_call_id.is_none(),
            m.tool_calls.is_none(),
            m.metadata.view().dom().len() == 0,
    {
        Self::new(Role::User, content)
    }

    /// Create an assistant message.
    pub fn assistant(content: &str) -> (m: Self)
        ensures
            m.wf(),
            m.role == Role::Assistant,
            m.content@ == content@,
            m.name.is_none(),
            m.tool_call_id.is_none(),
            m.tool_calls.is_none(),
            m.metadata.view().dom().len() == 0,
    {
        Self::new(Role::Assistant, content)
    }

    /// Create a tool response message.
    pub fn tool(tool_call_id: &str, content: &str) -> (m: Self)
        ensures
            m.wf(),
            m.role == Role::Tool,
            m.content@ == content@,
            m.name.is_none(),
            opt_view(m.tool_call_id) == Some(tool_call_id@),
            m.tool_calls.is_none(),
            m.metadata.view().dom().len() == 0,
    {
        Message {
            role: Role::Tool,
            content: content.to_owned(),
            name: None,
            tool_call_id: Some(tool_call_id.to_owned()),
            tool_calls: None,
            metadata: KeyedMap::new(),
        }
    }

    /// Add a name to the message.
    pub fn with_name(self, name: &str) -> (m: Self)
        ensures
            m.role == self.role,
            m.content == self.content,
            opt_view(m.name) == Some(name@),
            m.tool_call_id == self.tool_call_id,
            m.tool_calls == self.tool_calls,
            m.metadata == self.metadata,
    {
        let mut m = self;
        m.name = Some(name.to_owned());
        m
    }

    /// Add metadata (replacing any value under the same key).
    pub fn with_metadata(self, key: &str, value: &str) -> (m: Self)
        requires
            self.wf(),
        ensures
            m.wf(),
            m.role == self.role,
            m.content == self.content,
            m.name == self.name,
            m.tool_call_id == self.tool_call_id,
            m.tool_calls == self.tool_calls,
            m.metadata_view() == self.metadata_view().insert(key@, value@),
    {
        let mut m = self;
        let v = value.to_owned();
        m.metadata.insert(key.to_owned(), v);
        assert(m.metadata_view() =~= self.metadata_view().insert(key@, value@));
        m
    }
}

/// Total length in bytes of the contents of a list of messages.
pub open spec fn messages_bytes(s: Seq<Message>) -> nat
    decreases s.len(),
{
    if s.len() == 0 {
        0
    } else {
        messages_bytes(s.drop_last()) + crate::text::byte_len(s.last().content@)
    }
}

/// Rough token count of a list of messages: a quarter of their bytes (the
/// estimate a provider gives when it has no tokenizer of its own).
pub fn estimate_tokens(messages: &[Message]) -> (n: usize)
    requires
        messages_bytes(messages@) <= usize::MAX,
    ensures
        n == messages_bytes(messages@) / 4,
{
    let mut total: usize = 0;
    let mut i: usize = 0;
    while i < messages.len()
        invariant
            i <= messages@.len(),
            total == messages_bytes(messages@.subrange(0, i as int)),
            messages_bytes(messages@) <= usize::MAX,
        decreases messages@.len() - i,
    {
        proof {
            lemma_messages_bytes_prefix(messages@, i as int + 1);
            assert(messages@.subrange(0, i + 1).drop_last() =~= messages@.subrange(0, i as int));
        }
        total = total + crate::text::str_byte_len(messages[i].content.as_str());
        i = i + 1;
    }
    assert(messages@.subrange(0, messages@.len() as int) =~= messages@);
    total / 4
}

/// The token estimate of a list of messages, or `None` when their total
/// size does not fit in a `usize`.
pub fn try_estimate_tokens(messages: &[Message]) -> (r: Option<usize>)
    ensures
        messages_bytes(messages@) <= usize::MAX ==> r == Some((messages_bytes(messages@) / 4) as usize),
        messages_bytes(messages@) > usize::MAX ==> r is None,
{
    let mut total: usize = 0;
    let mut i: usize = 0;
    while i < messages.len()
        invariant
            i <= messages@.len(),
            total == messages_bytes(messages@.subrange(0, i as int)),
        decreases messages@.len() - i,
    {
        proof {
            assert(messages@.subrange(0, i + 1).drop_last() =~= messages@.subrange(0, i as int));
        }
        let n = crate::text::str_byte_len(messages[i].content.as_str());
        match total.checked_add(n) {
            Some(t) => total = t,
            None => {
                proof {
                    lemma_messages_bytes_prefix(messages@, i as int + 1);
                }
                return None;
            },
        }
        i = i + 1;
    }
    assert(messages@.subrange(0, messages@.len() as int) =~= messages@);
    Some(total / 4)
}

proof fn lemma_messages_bytes_prefix(s: Seq<Message>, n: int)
    requires
        0 <= n <= s.len(),
    ensures
        messages_bytes(s.subrange(0, n)) <= messages_bytes(s),
    decreases s.len() - n,
{
    if n < s.len() {
        lemma_messages_bytes_prefix(s, n + 1);
        assert(s.subrange(0, n + 1).drop_last() =~= s.subrange(0, n));
    } else {
        assert(s.subrange(0, n) =~= s);
    }
}

// =============================================================================
// COMPLETIONS
// =============================================================================

/// Definition of a tool that can be called.
#[derive(Debug)]
pub struct ToolDefinition {
    /// Tool name
    pub name: String,
    /// Description of what the tool does
    pub description: String,
    /// JSON schema for the tool's parameters
    pub parameters: serde_json::Value,
}

impl ToolDefinition {
    /// Create a new tool definition.
    pub fn new(name: &str, description: &str, parameters: serde_json::Value) -> (t: Self)
        ensures
            t.name@ == name@,
            t.description@ == description@,
            t.parameters == parameters,
    {
        ToolDefinition { name: name.to_owned(), description: description.to_owned(), parameters }
    }
}

/// Reason why generation stopped.
#[derive(Debug, Clone, Copy, PartialEq, Eq, Hash, Structural)]
pub enum FinishReason {
    /// Natural end of response
    Stop,
    /// Hit max tokens limit
    Length,
    /// Hit a stop sequence
    StopSequence,
    /// Tool call was made
    ToolCalls,
    /// Content was filtered
    ContentFilter,
    /// Other/unknown reason
    Other,
}

/// Token usage statistics.
#[derive(Debug, Clone, Copy, PartialEq, Eq, Structural)]
pub struct Usage {
    /// Input/prompt tokens
    pub prompt_tokens: usize,
    /// Output/completion tokens
    pub completion_tokens: usize,
    /// Total tokens
    pub total_tokens: usize,
    /// Cached tokens (if applicable)
    pub cached_tokens: Option<usize>,
}

impl Usage {
    /// Create usage from counts; the total is their sum.
    pub fn new(prompt_tokens: usize, completion_tokens: usize) -> (u: Self)
        requires
            prompt_tokens + completion_tokens <= usize::MAX,
        ensures
            u.prompt_tokens == prompt_tokens,
            u.completion_tokens == completion_tokens,
            u.total_tokens == prompt_tokens + completion_tokens,
            u.cached_tokens.is_none(),
    {
        Usage {
            prompt_tokens,
            completion_tokens,
            total_tokens: prompt_tokens + completion_tokens,
            cached_tokens: None,
        }
    }

    /// All counts zero, no cached count.
    pub fn zero() -> (u: Self)
        ensures
            u.prompt_tokens == 0,
            u.completion_tokens == 0,
            u.total_tokens == 0,
            u.cached_tokens.is_none(),
    {
        Usage { prompt_tokens: 0, completion_tokens: 0, total_tokens: 0, cached_tokens: None }
    }
}

impl Default for Usage {
    fn default() -> (u: Self)
        ensures
            u.prompt_tokens == 0,
            u.completion_tokens == 0,
            u.total_tokens == 0,
            u.cached_tokens.is_none(),
    {
        Usage::zero()
    }
}

/// A chat completion response.
#[derive(Debug)]
pub struct ChatCompletion {
    /// Unique ID for this completion
    pub id: String,
    /// Model used
    pub model: String,
    /// Generated message
    pub message: Message,
    /// Reason for stopping
    pub finish_reason: FinishReason,
    /// Token usage
    pub usage: Usage,
    /// Provider-specific metadata
    pub metadata: KeyedMap<serde_json::Value>,
}

impl ChatCompletion {
    /// Get the text content.
    pub fn content(&self) -> (s: &str)
        ensures
            s@ == self.message.content@,
    {
        self.message.content.as_str()
    }

    /// Check if the response was truncated.
    pub fn is_truncated(&self) -> (b: bool)
        ensures
            b == (self.finish_reason == FinishReason::Length),
    {
        self.finish_reason == FinishReason::Length
    }

    /// Check if tool calls were made.
    pub fn has_tool_calls(&self) -> (b: bool)
        ensures
            b == self.message.tool_calls.is_some(),
    {
        self.message.tool_calls.is_some()
    }

    /// Get tool calls if any.
    pub fn tool_calls(&self) -> (r: Option<&Vec<ToolCall>>)
        ensures
            match r {
                Some(v) => self.message.tool_calls == Some(*v),
                None => self.message.tool_calls.is_none(),
            },
    {
        match &self.message.tool_calls {
            Some(v) => Some(v),
            None => None,
        }
    }
}

/// A chunk from a streaming response.
#[derive(Debug)]
pub struct StreamChunk {
    /// Chunk ID
    pub id: String,
    /// Delta content (new text)
    pub delta: String,
    /// Whether this is the final chunk
    pub is_final: bool,
    /// Finish reason (only on final chunk)
    pub finish_reason: Option<FinishReason>,
    /// Usage (only on final chunk)
    pub usage: Option<Usage>,
}

// =============================================================================
// HTTP OUTCOMES
// =============================================================================

/// Copies a JSON value (`serde_json::Value`'s `Clone`, a deep copy): the
/// copy is the same value.
#[verifier::external_body]
pub(crate) fn clone_json(v: &serde_json::Value) -> (r: serde_json::Value)
    ensures
        r == *v,
{
    v.clone()
}

/// The provider error for an unsuccessful HTTP status: 401 is an
/// authentication error, 429 a rate limit (no retry hint), 400 an invalid
/// request, 404 an unknown model; any other status is provider-specific,
/// with the status line as its code.
pub fn status_error(status: u16, status_text: String, body: String, model: &str) -> (e: ProviderError)
    ensures
        status == 401 ==> e == ProviderError::AuthenticationError(body),
        status == 429 ==> e == (ProviderError::RateLimitError { retry_after_secs: None, message: body }),
        status == 400 ==> e == ProviderError::InvalidRequest(body),
        status == 404 ==> (e matches ProviderError::ModelNotFound(m) && m@ == model@),
        status != 401 && status != 429 && status != 400 && status != 404 ==> e == (
        ProviderError::ProviderSpecific { code: status_text, message: body }),
{
    if status == 401 {
        ProviderError::AuthenticationError(body)
    } else if status == 429 {
        ProviderError::RateLimitError { retry_after_secs: None, message: body }
    } else if status == 400 {
        ProviderError::InvalidRequest(body)
    } else if status == 404 {
        ProviderError::ModelNotFound(model.to_owned())
    } else {
        ProviderError::ProviderSpecific { code: status_text, message: body }
    }
}

/// The provider error for a request that failed in transport: a timeout,
/// or otherwise a network error, carrying the transport's message.
pub fn transport_error(is_timeout: bool, message: String) -> (e: ProviderError)
    ensures
        is_timeout ==> e == ProviderError::Timeout(message),
        !is_timeout ==> e == ProviderError::NetworkError(message),
{
    if is_timeout {
        ProviderError::Timeout(message)
    } else {
        ProviderError::NetworkError(message)
    }
}

/// The provider error for a response body that could not be decoded.
pub fn decode_error(detail: &str) -> (e: ProviderError)
    ensures
        e matches ProviderError::ParseError(m) && m@ == "Failed to parse response: "@ + detail@,
{
    let mut m = String::new();
    push_str(&mut m, "Failed to parse response: ");
    push_str(&mut m, detail);
    ProviderError::ParseError(m)
}

} // verus!
