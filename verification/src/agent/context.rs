//! The state of one agent run: conversation history, tool call records,
//! token usage, chain-of-thought entries and metadata.

use vstd::prelude::*;
use crate::clock::{now_ms, system_low_bits, system_low_bits_of, system_millis, system_time_since_epoch};
use crate::keyed::KeyedMap;
use crate::providers::types::{opt_calls_view, string_map_view, Message, Role, ToolCall, Usage};
use crate::text::{
    byte_len, byte_prefix, byte_prefix_of, decimal_text, hex_text, on_char_boundary, opt_view,
    push_decimal, push_hex, push_str, str_byte_len,
};
use super::types::{all_messages_wf, AgentMessage, ToolCallRecord};

verus! {

broadcast use vstd::seq_lib::group_seq_properties;

// =============================================================================
// CONFIGURATION
// =============================================================================

/// Configuration for context management.
#[derive(Debug, Clone, Copy, PartialEq, Eq, Structural)]
pub struct ContextConfig {
    /// Maximum messages to keep in history
    pub max_messages: usize,
    /// Maximum tokens to accumulate before warning
    pub max_tokens: usize,
    /// Maximum context window size (for overflow prevention)
    pub max_context_window: usize,
    /// Whether to include system message in context
    pub include_system: bool,
    /// Maximum tool output length (in bytes) before truncation
    pub max_tool_output_length: usize,
    /// Whether to track chain-of-thought separately
    pub track_thinking: bool,
}

impl Default for ContextConfig {
    fn default() -> (c: Self)
        ensures
            c == (ContextConfig {
                max_messages: 100,
                max_tokens: 100_000,
                max_context_window: 128_000,
                include_system: true,
                max_tool_output_length: 10_000,
                track_thinking: true,
            }),
    {
        ContextConfig {
            max_messages: 100,
            max_tokens: 100_000,
            max_context_window: 128_000,
            include_system: true,
            max_tool_output_length: 10_000,
            track_thinking: true,
        }
    }
}

impl ContextConfig {
    /// A small configuration (for testing).
    pub fn minimal() -> (c: Self)
        ensures
            c == (ContextConfig {
                max_messages: 10,
                max_tokens: 10_000,
                max_context_window: 16_000,
                include_system: true,
                max_tool_output_length: 1_000,
                track_thinking: false,
            }),
    {
        ContextConfig {
            max_messages: 10,
            max_tokens: 10_000,
            max_context_window: 16_000,
            include_system: true,
            max_tool_output_length: 1_000,
            track_thinking: false,
        }
    }

    /// A large configuration.
    pub fn large() -> (c: Self)
        ensures
            c == (ContextConfig {
                max_messages: 500,
                max_tokens: 500_000,
                max_context_window: 200_000,
                include_system: true,
                max_tool_output_length: 50_000,
                track_thinking: true,
            }),
    {
        ContextConfig {
            max_messages: 500,
            max_tokens: 500_000,
            max_context_window: 200_000,
            include_system: true,
            max_tool_output_length: 50_000,
            track_thinking: true,
        }
    }
}

// =============================================================================
// HISTORY TRIMMING
// =============================================================================

/// Removes the first `k` messages that are not system messages.
pub open spec fn drop_non_system(s: Seq<AgentMessage>, k: nat) -> Seq<AgentMessage>
    decreases s.len(),
{
    if s.len() == 0 || k == 0 {
        s
    } else if s[0].role == Role::System {
        seq![s[0]] + drop_non_system(s.drop_first(), k)
    } else {
        drop_non_system(s.drop_first(), (k - 1) as nat)
    }
}

/// The history cut down to `max` messages by dropping the oldest
/// non-system messages; system messages are never dropped.
pub open spec fn trimmed(s: Seq<AgentMessage>, max: nat) -> Seq<AgentMessage> {
    if s.len() <= max {
        s
    } else {
        drop_non_system(s, (s.len() - max) as nat)
    }
}

/// Number of system messages.
pub open spec fn system_count(s: Seq<AgentMessage>) -> nat
    decreases s.len(),
{
    if s.len() == 0 {
        0
    } else {
        (if s[0].role == Role::System {
            1nat
        } else {
            0nat
        }) + system_count(s.drop_first())
    }
}

proof fn lemma_drop_non_system(s: Seq<AgentMessage>, k: nat)
    ensures
        drop_non_system(s, k).len() == s.len() - vstd::math::min(
            k as int,
            s.len() - system_count(s),
        ),
        system_count(drop_non_system(s, k)) == system_count(s),
        system_count(s) <= s.len(),
        forall|i: int|
            0 <= i < drop_non_system(s, k).len() ==> s.contains(
                #[trigger] drop_non_system(s, k)[i],
            ),
    decreases s.len(),
{
    if s.len() == 0 || k == 0 {
        if s.len() > 0 {
            lemma_drop_non_system(s.drop_first(), k);
        }
    } else if s[0].role == Role::System {
        lemma_drop_non_system(s.drop_first(), k);
        let rest = drop_non_system(s.drop_first(), k);
        let r = seq![s[0]] + rest;
        assert(r.drop_first() =~= rest);
        assert(forall|i: int| 0 <= i < r.len() ==> s.contains(#[trigger] r[i])) by {
            assert forall|i: int| 0 <= i < r.len() implies s.contains(#[trigger] r[i]) by {
                if i == 0 {
                    assert(s[0] == r[0]);
                } else {
                    assert(r[i] == rest[i - 1]);
                    let j = choose|j: int| 0 <= j < s.drop_first().len() && s.drop_first()[j] == rest[i - 1];
                    assert(s[j + 1] == r[i]);
                }
            }
        }
    } else {
        lemma_drop_non_system(s.drop_first(), (k - 1) as nat);
        let rest = drop_non_system(s.drop_first(), (k - 1) as nat);
        assert forall|i: int| 0 <= i < rest.len() implies s.contains(#[trigger] rest[i]) by {
            let j = choose|j: int| 0 <= j < s.drop_first().len() && s.drop_first()[j] == rest[i];
            assert(s[j + 1] == rest[i]);
        }
    }
}

/// Trimming the history never drops a system message, and drops exactly as
/// many other messages as it takes to reach the limit (all of them if
/// there are not enough).
pub proof fn law_trim_keeps_system_messages(s: Seq<AgentMessage>, max: nat)
    ensures
        system_count(trimmed(s, max)) == system_count(s),
        trimmed(s, max).len() == if s.len() <= max {
            s.len() as int
        } else {
            vstd::math::max(max as int, system_count(s) as int)
        },
        trimmed(s, max).len() <= vstd::math::max(max as int, system_count(s) as int) || s.len()
            <= max,
{
    if s.len() > max {
        lemma_drop_non_system(s, (s.len() - max) as nat);
    }
}

/// Every message of a history is well formed.
proof fn lemma_trim_wf(s: Seq<AgentMessage>, max: nat)
    requires
        all_messages_wf(s),
    ensures
        all_messages_wf(trimmed(s, max)),
{
    if s.len() > max {
        let k = (s.len() - max) as nat;
        lemma_drop_non_system(s, k);
        assert forall|i: int| 0 <= i < drop_non_system(s, k).len() implies (#[trigger] drop_non_system(
            s,
            k,
        )[i]).wf() by {
            let m = drop_non_system(s, k)[i];
            assert(s.contains(m));
            let j = choose|j: int| 0 <= j < s.len() && s[j] == m;
            assert(s[j].wf());
        }
    }
}

// =============================================================================
// AGENT CONTEXT
// =============================================================================

/// A thinking/chain-of-thought entry.
#[derive(Debug)]
pub struct ThinkingEntry {
    /// Iteration when thought occurred
    pub iteration: usize,
    /// The thought content
    pub content: String,
    /// Timestamp
    pub timestamp_ms: u64,
}

impl Clone for ThinkingEntry {
    fn clone(&self) -> (r: Self)
        ensures
            r == *self,
    {
        ThinkingEntry {
            iteration: self.iteration,
            content: self.content.clone(),
            timestamp_ms: self.timestamp_ms,
        }
    }
}

/// Summary of context state.
#[derive(Debug)]
pub struct ContextSummary {
    /// Run ID
    pub run_id: String,
    /// Number of iterations
    pub iterations: usize,
    /// Number of messages
    pub message_count: usize,
    /// Number of tool calls
    pub tool_call_count: usize,
    /// Total tokens used
    pub total_tokens: usize,
    /// Elapsed time
    pub elapsed_ms: u64,
    /// Whether system prompt is set
    pub has_system_prompt: bool,
    /// Number of thinking entries
    pub thinking_count: usize,
}

/// Context for an agent run, tracking conversation and tool state.
#[derive(Debug)]
pub struct AgentContext {
    /// Unique run ID
    pub run_id: String,
    /// System prompt (if any)
    pub system_prompt: Option<String>,
    /// Conversation history
    pub messages: Vec<AgentMessage>,
    /// Tool call records
    pub tool_calls: Vec<ToolCallRecord>,
    /// Current iteration (0-based)
    pub iteration: usize,
    /// Accumulated token usage
    pub total_usage: Usage,
    /// Configuration
    pub config: ContextConfig,
    /// Chain-of-thought entries (if tracking)
    pub thinking: Vec<ThinkingEntry>,
    /// Custom metadata
    pub metadata: KeyedMap<serde_json::Value>,
    /// Start timestamp
    pub started_at_ms: u64,
}

/// A message freshly made for the history: the given fields, no metadata,
/// and a timestamp taken from the clock.
pub open spec fn is_new_message(
    m: AgentMessage,
    role: Role,
    content: Seq<char>,
    tool_calls: Option<Seq<ToolCall>>,
    tool_call_id: Option<Seq<char>>,
    iteration: usize,
) -> bool {
    &&& m.wf()
    &&& m@.role == role
    &&& m@.content == content
    &&& m@.tool_calls == tool_calls
    &&& m@.tool_call_id == tool_call_id
    &&& m@.iteration == iteration
    &&& m@.metadata.dom().len() == 0
}

/// The text stored for a tool's output: the output itself, or its first
/// `max` bytes followed by a note giving its full length in bytes.
pub open spec fn tool_output_text(output: Seq<char>, max: usize) -> Seq<char> {
    if byte_len(output) > max {
        byte_prefix(output, max as int) + "...[truncated, "@ + decimal_text(byte_len(output))
            + " chars total]"@
    } else {
        output
    }
}

/// Total length in bytes of the contents of a history.
pub open spec fn content_bytes(s: Seq<AgentMessage>) -> nat
    decreases s.len(),
{
    if s.len() == 0 {
        0
    } else {
        content_bytes(s.drop_last()) + byte_len(s.last().content@)
    }
}

/// The entries made in a given iteration, in order.
pub open spec fn entries_of_iteration(s: Seq<ThinkingEntry>, iteration: usize) -> Seq<ThinkingEntry>
    decreases s.len(),
{
    if s.len() == 0 {
        s
    } else {
        let init = entries_of_iteration(s.drop_last(), iteration);
        if s.last().iteration == iteration {
            init.push(s.last())
        } else {
            init
        }
    }
}

/// The provider form of a history message: same role, content, tool calls,
/// tool call id and metadata, and no name.
pub open spec fn provider_form(msg: Message, m: AgentMessage) -> bool {
    &&& msg.wf()
    &&& msg.role == m.role
    &&& msg.content@ == m.content@
    &&& msg.name.is_none()
    &&& opt_calls_view(msg.tool_calls) == opt_calls_view(m.tool_calls)
    &&& opt_view(msg.tool_call_id) == opt_view(m.tool_call_id)
    &&& msg.metadata_view() == string_map_view(m.metadata.view())
}

/// A simple xorshift step on 32 bits (not cryptographic).
pub open spec fn xorshift32(x: u32) -> u32 {
    let a = x ^ (x << 13u32);
    let b = a ^ (a >> 17u32);
    b ^ (b << 5u32)
}

/// One xorshift step.
pub fn xorshift_step(x: u32) -> (r: u32)
    ensures
        r == xorshift32(x),
{
    let mut y = x;
    y = y ^ (y << 13u32);
    y = y ^ (y >> 17u32);
    y = y ^ (y << 5u32);
    y
}

/// Simple pseudo-random number (not cryptographic): an xorshift step on the
/// low 32 bits of the system clock in nanoseconds.
pub fn rand_simple() -> (r: u32)
    ensures
        exists|n: Option<(u64, u32)>| r == xorshift32(system_low_bits(n)),
{
    let t = system_time_since_epoch();
    let seed = system_low_bits_of(t);
    xorshift_step(seed)
}

/// The text of a run id: `run-`, the timestamp in decimal, `-`, and the
/// random part as eight hexadecimal digits.
pub open spec fn run_id_text(timestamp: u64, random: u32) -> Seq<char> {
    "run-"@ + decimal_text(timestamp as nat) + "-"@ + hex_text(random as nat, 8)
}

/// Formats a run id from a timestamp and a random number.
pub fn format_run_id(timestamp: u64, random: u32) -> (s: String)
    ensures
        s@ == run_id_text(timestamp, random),
{
    let mut s = String::new();
    push_str(&mut s, "run-");
    push_decimal(&mut s, timestamp);
    push_str(&mut s, "-");
    push_hex(&mut s, random as u64, 8);
    assert(s@ =~= run_id_text(timestamp, random));
    s
}

impl AgentContext {
    /// Metadata keys are unique and every history message is well formed.
    pub open spec fn wf(&self) -> bool {
        &&& self.metadata.wf()
        &&& all_messages_wf(self.messages@)
    }

    /// Everything but the history is as in `other`.
    pub open spec fn same_but_messages(&self, other: &AgentContext) -> bool {
        &&& self.run_id == other.run_id
        &&& self.system_prompt == other.system_prompt
        &&& self.tool_calls == other.tool_calls
        &&& self.iteration == other.iteration
        &&& self.total_usage == other.total_usage
        &&& self.config == other.config
        &&& self.thinking == other.thinking
        &&& self.metadata == other.metadata
        &&& self.started_at_ms == other.started_at_ms
    }

    /// Create a new context: default configuration, empty history, iteration
    /// zero, started now.
    pub fn new(run_id: &str) -> (c: Self)
        ensures
            c.wf(),
            c.run_id@ == run_id@,
            c.system_prompt.is_none(),
            c.messages@.len() == 0,
            c.tool_calls@.len() == 0,
            c.iteration == 0,
            c.total_usage.prompt_tokens == 0,
            c.total_usage.completion_tokens == 0,
            c.total_usage.total_tokens == 0,
            c.total_usage.cached_tokens.is_none(),
            c.config == (ContextConfig {
                max_messages: 100,
                max_tokens: 100_000,
                max_context_window: 128_000,
                include_system: true,
                max_tool_output_length: 10_000,
                track_thinking: true,
            }),
            c.thinking@.len() == 0,
            c.metadata.view().dom().len() == 0,
            exists|n: Option<(u64, u32)>| c.started_at_ms == system_millis(n),
    {
        AgentContext {
            run_id: run_id.to_owned(),
            system_prompt: None,
            messages: Vec::new(),
            tool_calls: Vec::new(),
            iteration: 0,
            total_usage: Usage::zero(),
            config: ContextConfig::default(),
            thinking: Vec::new(),
            metadata: KeyedMap::new(),
            started_at_ms: now_ms(),
        }
    }

    /// Set the system prompt.
    pub fn with_system_prompt(self, prompt: &str) -> (c: Self)
        ensures
            opt_view(c.system_prompt) == Some(prompt@),
            c.run_id == self.run_id,
            c.messages == self.messages,
            c.tool_calls == self.tool_calls,
            c.iteration == self.iteration,
            c.total_usage == self.total_usage,
            c.config == self.config,
            c.thinking == self.thinking,
            c.metadata == self.metadata,
            c.started_at_ms == self.started_at_ms,
    {
        let mut c = self;
        c.system_prompt = Some(prompt.to_owned());
        c
    }

    /// Set the configuration.
    pub fn with_config(self, config: ContextConfig) -> (c: Self)
        ensures
            c.config == config,
            c.run_id == self.run_id,
            c.system_prompt == self.system_prompt,
            c.messages == self.messages,
            c.tool_calls == self.tool_calls,
            c.iteration == self.iteration,
            c.total_usage == self.total_usage,
            c.thinking == self.thinking,
            c.metadata == self.metadata,
            c.started_at_ms == self.started_at_ms,
    {
        let mut c = self;
        c.config = config;
        c
    }

    /// Generate a run id from the clock and a pseudo-random number.
    pub fn generate_run_id() -> (s: String)
        ensures
            exists|t: Option<(u64, u32)>, n: Option<(u64, u32)>|
                s@ == run_id_text(system_millis(t), xorshift32(system_low_bits(n))),
    {
        let timestamp = now_ms();
        let random = rand_simple();
        format_run_id(timestamp, random)
    }

    // =========================================================================
    // MESSAGE MANAGEMENT
    // =========================================================================

    /// Drops the oldest non-system messages while the history is longer than
    /// the configured maximum.
    fn maybe_trim_messages(&mut self)
        requires
            all_messages_wf(old(self).messages@),
        ensures
            all_messages_wf(final(self).messages@),
            final(self).messages@ == trimmed(old(self).messages@, old(self).config.max_messages as nat),
            final(self).same_but_messages(old(self)),
    {
        proof {
            lemma_trim_wf(self.messages@, self.config.max_messages as nat);
        }
        if self.messages.len() > self.config.max_messages {
            let to_remove = self.messages.len() - self.config.max_messages;
            let mut rest: Vec<AgentMessage> = Vec::new();
            std::mem::swap(&mut rest, &mut self.messages);
            let ghost orig = rest@;
            let mut kept: Vec<AgentMessage> = Vec::new();
            let mut k: usize = to_remove;
            while rest.len() > 0
                invariant
                    kept@ + drop_non_system(rest@, k as nat) == drop_non_system(
                        orig,
                        to_remove as nat,
                    ),
                decreases rest@.len(),
            {
                let ghost before = rest@;
                let m = rest.remove(0);
                proof {
                    assert(before[0] == m);
                    assert(rest@ =~= before.drop_first());
                }
                if k == 0 {
                    let ghost kept_before = kept@;
                    kept.push(m);
                    assert(kept@ + rest@ =~= kept_before + before);
                } else if m.role == Role::System {
                    let ghost kept_before = kept@;
                    kept.push(m);
                    assert(kept@ + drop_non_system(rest@, k as nat) =~= kept_before + (seq![m]
                        + drop_non_system(rest@, k as nat)));
                } else {
                    k = k - 1;
                }
            }
            assert(kept@ =~= drop_non_system(orig, to_remove as nat));
            self.messages = kept;
        }
    }

    /// Appends a message to the history and trims it.
    fn push_message(&mut self, m: AgentMessage)
        requires
            old(self).wf(),
            m.wf(),
        ensures
            final(self).wf(),
            final(self).messages@ == trimmed(
                old(self).messages@.push(m),
                old(self).config.max_messages as nat,
            ),
            final(self).same_but_messages(old(self)),
    {
        self.messages.push(m);
        self.maybe_trim_messages();
    }

    /// Add a user message.
    pub fn add_user_message(&mut self, content: &str)
        requires
            old(self).wf(),
        ensures
            final(self).wf(),
            final(self).same_but_messages(old(self)),
            exists|m: AgentMessage|
                #[trigger] is_new_message(m, Role::User, content@, None, None, old(self).iteration)
                    && final(self).messages@ == trimmed(
                    old(self).messages@.push(m),
                    old(self).config.max_messages as nat,
                ),
    {
        let m = AgentMessage::user(content, self.iteration);
        proof {
            assert(is_new_message(m, Role::User, content@, None, None, self.iteration));
        }
        self.push_message(m);
    }

    /// Add an assistant message.
    pub fn add_assistant_message(&mut self, content: &str)
        requires
            old(self).wf(),
        ensures
            final(self).wf(),
            final(self).same_but_messages(old(self)),
            exists|m: AgentMessage|
                #[trigger] is_new_message(
                    m,
                    Role::Assistant,
                    content@,
                    None,
                    None,
                    old(self).iteration,
                ) && final(self).messages@ == trimmed(
                    old(self).messages@.push(m),
                    old(self).config.max_messages as nat,
                ),
    {
        let m = AgentMessage::assistant(content, self.iteration);
        proof {
            assert(is_new_message(m, Role::Assistant, content@, None, None, self.iteration));
        }
        self.push_message(m);
    }

    /// Add an assistant message with tool calls.
    pub fn add_assistant_with_tools(&mut self, content: &str, tool_calls: Vec<ToolCall>)
        requires
            old(self).wf(),
        ensures
            final(self).wf(),
            final(self).same_but_messages(old(self)),
            exists|m: AgentMessage|
                #[trigger] is_new_message(
                    m,
                    Role::Assistant,
                    content@,
                    Some(tool_calls@),
                    None,
                    old(self).iteration,
                ) && final(self).messages@ == trimmed(
                    old(self).messages@.push(m),
                    old(self).config.max_messages as nat,
                ),
    {
        let ghost calls = tool_calls@;
        let m = AgentMessage::assistant_with_tools(content, tool_calls, self.iteration);
        proof {
            assert(is_new_message(m, Role::Assistant, content@, Some(calls), None, self.iteration));
        }
        self.push_message(m);
    }

    /// Add a tool result message; an output longer than the configured
    /// maximum (in bytes) is cut there and followed by a note of its length.
    pub fn add_tool_result(&mut self, tool_call_id: &str, content: &str)
        requires
            old(self).wf(),
            byte_len(content@) > old(self).config.max_tool_output_length ==> on_char_boundary(
                content@,
                old(self).config.max_tool_output_length as int,
            ),
        ensures
            final(self).wf(),
            final(self).same_but_messages(old(self)),
            exists|m: AgentMessage|
                #[trigger] is_new_message(
                    m,
                    Role::Tool,
                    tool_output_text(content@, old(self).config.max_tool_output_length),
                    None,
                    Some(tool_call_id@),
                    old(self).iteration,
                ) && final(self).messages@ == trimmed(
                    old(self).messages@.push(m),
                    old(self).config.max_messages as nat,
                ),
    {
        let max = self.config.max_tool_output_length;
        let len = str_byte_len(content);
        let mut text = String::new();
        if len > max {
            let head = byte_prefix_of(content, max);
            push_str(&mut text, head);
            push_str(&mut text, "...[truncated, ");
            push_decimal(&mut text, len as u64);
            push_str(&mut text, " chars total]");
        } else {
            push_str(&mut text, content);
        }
        assert(text@ =~= tool_output_text(content@, max));
        let m = AgentMessage::tool_result(tool_call_id, text.as_str(), self.iteration);
        proof {
            assert(is_new_message(
                m,
                Role::Tool,
                tool_output_text(content@, max),
                None,
                Some(tool_call_id@),
                self.iteration,
            ));
        }
        self.push_message(m);
    }

    /// Add a tool call record.
    pub fn add_tool_call_record(&mut self, record: ToolCallRecord)
        ensures
            final(self).tool_calls@ == old(self).tool_calls@.push(record),
            final(self).run_id == old(self).run_id,
            final(self).system_prompt == old(self).system_prompt,
            final(self).messages == old(self).messages,
            final(self).iteration == old(self).iteration,
            final(self).total_usage == old(self).total_usage,
            final(self).config == old(self).config,
            final(self).thinking == old(self).thinking,
            final(self).metadata == old(self).metadata,
            final(self).started_at_ms == old(self).started_at_ms,
    {
        self.tool_calls.push(record);
    }

    /// Whether the system prompt goes first in the messages for the LLM.
    pub open spec fn sends_system(&self) -> bool {
        self.config.include_system && self.system_prompt.is_some()
    }

    /// Position of the first history message among the messages for the LLM.
    pub open spec fn system_offset(&self) -> int {
        if self.sends_system() {
            1
        } else {
            0
        }
    }

    /// Messages for the LLM: the system prompt first (if configured and
    /// set), then the history in order.
    pub fn get_messages_for_llm(&self) -> (r: Vec<Message>)
        requires
            self.wf(),
        ensures
            r@.len() == self.messages@.len() + self.system_offset(),
            self.sends_system() ==> {
                &&& r@[0].wf()
                &&& r@[0].role == Role::System
                &&& r@[0].content@ == self.system_prompt.unwrap()@
                &&& r@[0].name.is_none()
                &&& r@[0].tool_calls.is_none()
                &&& r@[0].tool_call_id.is_none()
                &&& r@[0].metadata.view().dom().len() == 0
            },
            forall|i: int|
                0 <= i < self.messages@.len() ==> provider_form(
                    r@[i + self.system_offset()],
                    #[trigger] self.messages@[i],
                ),
    {
        let mut r: Vec<Message> = Vec::new();
        let offset: usize = if self.config.include_system && self.system_prompt.is_some() {
            1
        } else {
            0
        };
        if self.config.include_system {
            match &self.system_prompt {
                Some(system) => {
                    let m = Message::system(system.as_str());
                    r.push(m);
                },
                None => {},
            }
        }
        let mut i: usize = 0;
        while i < self.messages.len()
            invariant
                self.wf(),
                i <= self.messages@.len(),
                offset == self.system_offset(),
                r@.len() == offset + i,
                self.sends_system() ==> {
                    &&& r@[0].wf()
                    &&& r@[0].role == Role::System
                    &&& r@[0].content@ == self.system_prompt.unwrap()@
                    &&& r@[0].name.is_none()
                    &&& r@[0].tool_calls.is_none()
                    &&& r@[0].tool_call_id.is_none()
                    &&& r@[0].metadata.view().dom().len() == 0
                },
                forall|j: int|
                    0 <= j < i ==> provider_form(r@[j + offset], #[trigger] self.messages@[j]),
            decreases self.messages@.len() - i,
        {
            assert(self.messages@[i as int].wf());
            let msg = self.messages[i].to_provider_message();
            r.push(msg);
            i = i + 1;
        }
        r
    }

    // =========================================================================
    // ITERATIONS AND USAGE
    // =========================================================================

    /// Increment the iteration counter.
    pub fn next_iteration(&mut self)
        requires
            old(self).iteration < usize::MAX,
        ensures
            final(self).iteration == old(self).iteration + 1,
            final(self).run_id == old(self).run_id,
            final(self).system_prompt == old(self).system_prompt,
            final(self).messages == old(self).messages,
            final(self).tool_calls == old(self).tool_calls,
            final(self).total_usage == old(self).total_usage,
            final(self).config == old(self).config,
            final(self).thinking == old(self).thinking,
            final(self).metadata == old(self).metadata,
            final(self).started_at_ms == old(self).started_at_ms,
    {
        self.iteration = self.iteration + 1;
    }

    /// Add token usage from a completion (the cached count is left as is).
    pub fn add_usage(&mut self, usage: Usage)
        requires
            old(self).total_usage.prompt_tokens + usage.prompt_tokens <= usize::MAX,
            old(self).total_usage.completion_tokens + usage.completion_tokens <= usize::MAX,
            old(self).total_usage.total_tokens + usage.total_tokens <= usize::MAX,
        ensures
            final(self).total_usage.prompt_tokens == old(self).total_usage.prompt_tokens
                + usage.prompt_tokens,
            final(self).total_usage.completion_tokens == old(self).total_usage.completion_tokens
                + usage.completion_tokens,
            final(self).total_usage.total_tokens == old(self).total_usage.total_tokens
                + usage.total_tokens,
            final(self).total_usage.cached_tokens == old(self).total_usage.cached_tokens,
            final(self).run_id == old(self).run_id,
            final(self).system_prompt == old(self).system_prompt,
            final(self).messages == old(self).messages,
            final(self).tool_calls == old(self).tool_calls,
            final(self).iteration == old(self).iteration,
            final(self).config == old(self).config,
            final(self).thinking == old(self).thinking,
            final(self).metadata == old(self).metadata,
            final(self).started_at_ms == old(self).started_at_ms,
    {
        self.total_usage.prompt_tokens = self.total_usage.prompt_tokens + usage.prompt_tokens;
        self.total_usage.completion_tokens = self.total_usage.completion_tokens
            + usage.completion_tokens;
        self.total_usage.total_tokens = self.total_usage.total_tokens + usage.total_tokens;
    }

    /// Whether the accumulated tokens exceed the configured maximum.
    pub fn is_over_token_limit(&self) -> (b: bool)
        ensures
            b == (self.total_usage.total_tokens > self.config.max_tokens),
    {
        self.total_usage.total_tokens > self.config.max_tokens
    }

    /// Length in bytes of the system prompt, zero when there is none.
    pub open spec fn system_bytes(&self) -> nat {
        match self.system_prompt {
            Some(p) => byte_len(p@),
            None => 0,
        }
    }

    /// Rough size of the context in tokens: a quarter of the bytes of the
    /// history and the system prompt.
    pub open spec fn spec_estimated_context_size(&self) -> nat {
        (content_bytes(self.messages@) + self.system_bytes()) / 4
    }

    /// Estimate the current context size (four bytes per token).
    pub fn estimated_context_size(&self) -> (n: usize)
        requires
            content_bytes(self.messages@) + self.system_bytes() <= usize::MAX,
        ensures
            n == self.spec_estimated_context_size(),
    {
        let mut total: usize = 0;
        let mut i: usize = 0;
        while i < self.messages.len()
            invariant
                i <= self.messages@.len(),
                total == content_bytes(self.messages@.subrange(0, i as int)),
                content_bytes(self.messages@) + self.system_bytes() <= usize::MAX,
            decreases self.messages@.len() - i,
        {
            proof {
                lemma_content_bytes_prefix(self.messages@, i as int + 1);
                assert(self.messages@.subrange(0, i + 1).drop_last() =~= self.messages@.subrange(
                    0,
                    i as int,
                ));
            }
            let n = str_byte_len(self.messages[i].content.as_str());
            total = total + n;
            i = i + 1;
        }
        assert(self.messages@.subrange(0, self.messages@.len() as int) =~= self.messages@);
        match &self.system_prompt {
            Some(p) => (total + str_byte_len(p.as_str())) / 4,
            None => total / 4,
        }
    }

    /// Whether the estimated context size exceeds 80% of the window.
    pub fn is_near_context_limit(&self) -> (b: bool)
        requires
            content_bytes(self.messages@) + self.system_bytes() <= usize::MAX,
            self.config.max_context_window * 80 <= usize::MAX,
        ensures
            b == (self.spec_estimated_context_size() > self.config.max_context_window * 80 / 100),
    {
        self.estimated_context_size() > self.config.max_context_window * 80 / 100
    }

    // =========================================================================
    // THINKING
    // =========================================================================

    /// Add a thinking entry for the current iteration (when tracking is on).
    pub fn add_thinking(&mut self, content: &str)
        ensures
            old(self).config.track_thinking ==> {
                &&& final(self).thinking@.len() == old(self).thinking@.len() + 1
                &&& final(self).thinking@.drop_last() == old(self).thinking@
                &&& final(self).thinking@.last().iteration == old(self).iteration
                &&& final(self).thinking@.last().content@ == content@
            },
            !old(self).config.track_thinking ==> final(self).thinking == old(self).thinking,
            final(self).run_id == old(self).run_id,
            final(self).system_prompt == old(self).system_prompt,
            final(self).messages == old(self).messages,
            final(self).tool_calls == old(self).tool_calls,
            final(self).iteration == old(self).iteration,
            final(self).total_usage == old(self).total_usage,
            final(self).config == old(self).config,
            final(self).metadata == old(self).metadata,
            final(self).started_at_ms == old(self).started_at_ms,
    {
        if self.config.track_thinking {
            let e = ThinkingEntry {
                iteration: self.iteration,
                content: content.to_owned(),
                timestamp_ms: now_ms(),
            };
            self.thinking.push(e);
        }
    }

    /// The thinking entries of the current iteration, in order.
    pub fn current_thinking(&self) -> (r: Vec<&ThinkingEntry>)
        ensures
            r@.len() == entries_of_iteration(self.thinking@, self.iteration).len(),
            forall|i: int|
                0 <= i < r@.len() ==> *r@[i] == #[trigger] entries_of_iteration(
                    self.thinking@,
                    self.iteration,
                )[i],
    {
        let mut r: Vec<&ThinkingEntry> = Vec::new();
        let mut i: usize = 0;
        while i < self.thinking.len()
            invariant
                i <= self.thinking@.len(),
                r@.len() == entries_of_iteration(self.thinking@.subrange(0, i as int), self.iteration).len(),
                forall|j: int|
                    0 <= j < r@.len() ==> *r@[j] == #[trigger] entries_of_iteration(
                        self.thinking@.subrange(0, i as int),
                        self.iteration,
                    )[j],
            decreases self.thinking@.len() - i,
        {
            proof {
                assert(self.thinking@.subrange(0, i + 1).drop_last() =~= self.thinking@.subrange(
                    0,
                    i as int,
                ));
            }
            let e = &self.thinking[i];
            if e.iteration == self.iteration {
                r.push(e);
            }
            i = i + 1;
        }
        assert(self.thinking@.subrange(0, self.thinking@.len() as int) =~= self.thinking@);
        r
    }

    // =========================================================================
    // METADATA
    // =========================================================================

    /// Set a metadata value (replacing any value under the same key).
    pub fn set_metadata(&mut self, key: &str, value: serde_json::Value)
        requires
            old(self).wf(),
        ensures
            final(self).wf(),
            final(self).metadata.view() == old(self).metadata.view().insert(key@, value),
            final(self).run_id == old(self).run_id,
            final(self).system_prompt == old(self).system_prompt,
            final(self).messages == old(self).messages,
            final(self).tool_calls == old(self).tool_calls,
            final(self).iteration == old(self).iteration,
            final(self).total_usage == old(self).total_usage,
            final(self).config == old(self).config,
            final(self).thinking == old(self).thinking,
            final(self).started_at_ms == old(self).started_at_ms,
    {
        self.metadata.insert(key.to_owned(), value);
    }

    /// Get a metadata value.
    pub fn get_metadata(&self, key: &str) -> (r: Option<&serde_json::Value>)
        requires
            self.wf(),
        ensures
            match r {
                Some(v) => self.metadata.view().dom().contains(key@) && self.metadata.view()[key@]
                    == *v,
                None => !self.metadata.view().dom().contains(key@),
            },
    {
        self.metadata.get(key)
    }

    /// Milliseconds elapsed since the start (zero if the clock reads earlier).
    pub fn elapsed_ms(&self) -> (ms: u64)
        ensures
            exists|n: Option<(u64, u32)>| ms == elapsed_since(system_millis(n), self.started_at_ms),
    {
        let now = now_ms();
        now.saturating_sub(self.started_at_ms)
    }

    // =========================================================================
    // SUMMARY
    // =========================================================================

    /// A summary of the context.
    pub fn summary(&self) -> (s: ContextSummary)
        ensures
            s.run_id == self.run_id,
            s.iterations == self.iteration,
            s.message_count == self.messages@.len(),
            s.tool_call_count == self.tool_calls@.len(),
            s.total_tokens == self.total_usage.total_tokens,
            exists|n: Option<(u64, u32)>| s.elapsed_ms == elapsed_since(system_millis(n), self.started_at_ms),
            s.has_system_prompt == self.system_prompt.is_some(),
            s.thinking_count == self.thinking@.len(),
    {
        ContextSummary {
            run_id: self.run_id.clone(),
            iterations: self.iteration,
            message_count: self.messages.len(),
            tool_call_count: self.tool_calls.len(),
            total_tokens: self.total_usage.total_tokens,
            elapsed_ms: self.elapsed_ms(),
            has_system_prompt: self.system_prompt.is_some(),
            thinking_count: self.thinking.len(),
        }
    }
}

/// Time from `start` to `now`, zero if `now` is earlier.
pub open spec fn elapsed_since(now: u64, start: u64) -> u64 {
    if now >= start {
        (now - start) as u64
    } else {
        0
    }
}

proof fn lemma_content_bytes_prefix(s: Seq<AgentMessage>, n: int)
    requires
        0 <= n <= s.len(),
    ensures
        content_bytes(s.subrange(0, n)) <= content_bytes(s),
    decreases s.len() - n,
{
    if n < s.len() {
        lemma_content_bytes_prefix(s, n + 1);
        assert(s.subrange(0, n + 1).drop_last() =~= s.subrange(0, n));
    } else {
        assert(s.subrange(0, n) =~= s);
    }
}

} // verus!
