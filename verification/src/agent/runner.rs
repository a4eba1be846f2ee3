//! The decisions of the agentic loop: input, completion, tool calls,
//! completion, ... output. The caller performs the provider and tool calls
//! and hands each result to these functions, which update the context and
//! say what to do next.

use vstd::prelude::*;
use crate::clock::system_millis;
use crate::providers::types::{
    clone_tool_calls, ChatCompletion, FinishReason, Role, ToolCall, Usage,
};
use crate::text::{
    byte_len, byte_prefix, byte_prefix_of, clone_opt, on_char_boundary, opt_view, push_str,
    str_byte_len,
};
use super::context::{is_new_message, tool_output_text, trimmed, AgentContext, ContextConfig};
use super::types::{
    clone_records, duplicate_messages, message_records, AgentError, AgentEvent, AgentMessage,
    AgentResponse, ToolCallInfo, ToolCallRecord,
};

verus! {

// =============================================================================
// CONFIGURATION
// =============================================================================

/// Configuration for the agent runner.
#[derive(Debug)]
pub struct AgentRunnerConfig {
    /// Maximum iterations before stopping
    pub max_iterations: usize,
    /// Maximum total tokens before stopping
    pub max_total_tokens: usize,
    /// Whether to enable safety checks
    pub enable_safety: bool,
    /// System prompt template
    pub system_prompt: Option<String>,
    /// Context configuration
    pub context_config: ContextConfig,
    /// Whether to emit events
    pub emit_events: bool,
    /// Stop on first tool error
    pub stop_on_tool_error: bool,
    /// Maximum tool calls per iteration
    pub max_tool_calls_per_iteration: usize,
}

impl Clone for AgentRunnerConfig {
    fn clone(&self) -> (r: Self)
        ensures
            r == *self,
    {
        AgentRunnerConfig {
            max_iterations: self.max_iterations,
            max_total_tokens: self.max_total_tokens,
            enable_safety: self.enable_safety,
            system_prompt: clone_opt(&self.system_prompt),
            context_config: self.context_config,
            emit_events: self.emit_events,
            stop_on_tool_error: self.stop_on_tool_error,
            max_tool_calls_per_iteration: self.max_tool_calls_per_iteration,
        }
    }
}

impl Default for AgentRunnerConfig {
    fn default() -> (c: Self)
        ensures
            c.max_iterations == 10,
            c.max_total_tokens == 100_000,
            c.enable_safety,
            c.system_prompt.is_none(),
            c.context_config == (ContextConfig {
                max_messages: 100,
                max_tokens: 100_000,
                max_context_window: 128_000,
                include_system: true,
                max_tool_output_length: 10_000,
                track_thinking: true,
            }),
            !c.emit_events,
            !c.stop_on_tool_error,
            c.max_tool_calls_per_iteration == 10,
    {
        AgentRunnerConfig {
            max_iterations: 10,
            max_total_tokens: 100_000,
            enable_safety: true,
            system_prompt: None,
            context_config: ContextConfig::default(),
            emit_events: false,
            stop_on_tool_error: false,
            max_tool_calls_per_iteration: 10,
        }
    }
}

impl AgentRunnerConfig {
    /// A small configuration for testing.
    pub fn minimal() -> (c: Self)
        ensures
            c.max_iterations == 3,
            c.max_total_tokens == 10_000,
            !c.enable_safety,
            c.system_prompt.is_none(),
            c.context_config == (ContextConfig {
                max_messages: 10,
                max_tokens: 10_000,
                max_context_window: 16_000,
                include_system: true,
                max_tool_output_length: 1_000,
                track_thinking: false,
            }),
            !c.emit_events,
            c.stop_on_tool_error,
            c.max_tool_calls_per_iteration == 5,
    {
        AgentRunnerConfig {
            max_iterations: 3,
            max_total_tokens: 10_000,
            enable_safety: false,
            system_prompt: None,
            context_config: ContextConfig::minimal(),
            emit_events: false,
            stop_on_tool_error: true,
            max_tool_calls_per_iteration: 5,
        }
    }

    /// Set the system prompt.
    pub fn with_system_prompt(self, prompt: &str) -> (c: Self)
        ensures
            opt_view(c.system_prompt) == Some(prompt@),
            c.max_iterations == self.max_iterations,
            c.max_total_tokens == self.max_total_tokens,
            c.enable_safety == self.enable_safety,
            c.context_config == self.context_config,
            c.emit_events == self.emit_events,
            c.stop_on_tool_error == self.stop_on_tool_error,
            c.max_tool_calls_per_iteration == self.max_tool_calls_per_iteration,
    {
        let mut c = self;
        c.system_prompt = Some(prompt.to_owned());
        c
    }

    /// Set the maximum number of iterations.
    pub fn with_max_iterations(self, max: usize) -> (c: Self)
        ensures
            c == (AgentRunnerConfig { max_iterations: max, ..self }),
    {
        let mut c = self;
        c.max_iterations = max;
        c
    }

    /// Enable or disable safety checks.
    pub fn with_safety(self, enabled: bool) -> (c: Self)
        ensures
            c == (AgentRunnerConfig { enable_safety: enabled, ..self }),
    {
        let mut c = self;
        c.enable_safety = enabled;
        c
    }
}

// =============================================================================
// EVENT COLLECTION
// =============================================================================

/// Event handler that ignores every event.
#[derive(Debug, Clone, Copy)]
pub struct NoOpEventHandler;

/// Event handler that stores every event it is handed.
#[derive(Debug)]
pub struct CollectingEventHandler {
    events: Vec<AgentEvent>,
}

impl CollectingEventHandler {
    /// The events handled so far, in order.
    pub closed spec fn spec_events(&self) -> Seq<AgentEvent> {
        self.events@
    }

    /// A handler with no events.
    pub fn new() -> (h: Self)
        ensures
            h.spec_events().len() == 0,
    {
        CollectingEventHandler { events: Vec::new() }
    }

    /// Store an event.
    pub fn record(&mut self, event: &AgentEvent)
        ensures
            final(self).spec_events() == old(self).spec_events().push(*event),
    {
        self.events.push(event.clone());
    }

    /// A copy of the events handled so far.
    pub fn events(&self) -> (r: Vec<AgentEvent>)
        ensures
            r@ == self.spec_events(),
    {
        let mut r: Vec<AgentEvent> = Vec::new();
        let mut i: usize = 0;
        while i < self.events.len()
            invariant
                i <= self.events@.len(),
                r@ == self.events@.subrange(0, i as int),
            decreases self.events@.len() - i,
        {
            r.push(self.events[i].clone());
            i = i + 1;
            assert(r@ =~= self.events@.subrange(0, i as int));
        }
        assert(self.events@.subrange(0, self.events@.len() as int) =~= self.events@);
        r
    }
}

/// The events a handler holds after recording `es` one by one, starting
/// from `start` (each `record` appends its event).
pub open spec fn after_records(start: Seq<AgentEvent>, es: Seq<AgentEvent>) -> Seq<AgentEvent>
    decreases es.len(),
{
    if es.len() == 0 {
        start
    } else {
        after_records(start, es.drop_last()).push(es.last())
    }
}

/// A handler keeps the events in call order: after recording `es` one by
/// one it holds what it held before followed by `es`; a new handler then
/// holds exactly `es`. Reading the events changes nothing.
pub proof fn law_events_in_call_order(start: Seq<AgentEvent>, es: Seq<AgentEvent>)
    ensures
        after_records(start, es) == start + es,
        after_records(Seq::empty(), es) == es,
    decreases es.len(),
{
    if es.len() > 0 {
        law_events_in_call_order(start, es.drop_last());
        assert((start + es.drop_last()).push(es.last()) =~= start + es);
        assert(es.drop_last().push(es.last()) =~= es);
    } else {
        assert(start + es =~= start);
    }
}

impl Default for CollectingEventHandler {
    fn default() -> (h: Self)
        ensures
            h.spec_events().len() == 0,
    {
        CollectingEventHandler::new()
    }
}

// =============================================================================
// HELPERS
// =============================================================================

/// Current timestamp in milliseconds since the Unix epoch.
pub fn now_ms() -> (ms: u64)
    ensures
        exists|n: Option<(u64, u32)>| ms == system_millis(n),
{
    crate::clock::now_ms()
}

/// The text logged for a long string: its first `max_len` bytes and a
/// truncation mark; a string that fits is kept whole.
pub open spec fn event_text(s: Seq<char>, max_len: usize) -> Seq<char> {
    if byte_len(s) <= max_len {
        s
    } else {
        byte_prefix(s, max_len as int) + "...[truncated]"@
    }
}

/// Truncate a string for event logging.
pub fn truncate_for_event(s: &str, max_len: usize) -> (r: String)
    requires
        byte_len(s@) > max_len ==> on_char_boundary(s@, max_len as int),
    ensures
        r@ == event_text(s@, max_len),
{
    let mut r = String::new();
    if str_byte_len(s) <= max_len {
        push_str(&mut r, s);
    } else {
        let head = byte_prefix_of(s, max_len);
        push_str(&mut r, head);
        push_str(&mut r, "...[truncated]");
    }
    assert(r@ =~= event_text(s@, max_len));
    r
}

// =============================================================================
// THE LOOP'S DECISIONS
// =============================================================================

/// A fresh context for a run: the given id, the runner's context
/// configuration and its system prompt.
pub fn prepare_context(config: &AgentRunnerConfig, run_id: &str) -> (c: AgentContext)
    ensures
        c.wf(),
        c.run_id@ == run_id@,
        c.config == config.context_config,
        c.system_prompt == config.system_prompt,
        c.messages@.len() == 0,
        c.tool_calls@.len() == 0,
        c.iteration == 0,
        c.total_usage.prompt_tokens == 0,
        c.total_usage.completion_tokens == 0,
        c.total_usage.total_tokens == 0,
        c.total_usage.cached_tokens.is_none(),
        c.thinking@.len() == 0,
        c.metadata.view().dom().len() == 0,
        exists|n: Option<(u64, u32)>| c.started_at_ms == system_millis(n),
{
    let mut c = AgentContext::new(run_id).with_config(config.context_config);
    c.system_prompt = clone_opt(&config.system_prompt);
    c
}

/// The error that stops the loop before the next provider call, if any:
/// first the iteration limit, then the token limit.
pub open spec fn limit_error(context: AgentContext, config: AgentRunnerConfig) -> Option<AgentError> {
    if context.iteration >= config.max_iterations {
        Some(
            AgentError::MaxIterationsExceeded {
                iterations: context.iteration,
                limit: config.max_iterations,
            },
        )
    } else if context.total_usage.total_tokens >= config.max_total_tokens {
        Some(
            AgentError::MaxTokensExceeded {
                tokens: context.total_usage.total_tokens,
                limit: config.max_total_tokens,
            },
        )
    } else {
        None
    }
}

/// Checks the iteration and token limits before a provider call.
pub fn check_limits(context: &AgentContext, config: &AgentRunnerConfig) -> (r: Result<(), AgentError>)
    ensures
        match limit_error(*context, *config) {
            Some(e) => r == Err::<(), AgentError>(e),
            None => r is Ok,
        },
{
    if context.iteration >= config.max_iterations {
        Err(
            AgentError::MaxIterationsExceeded {
                iterations: context.iteration,
                limit: config.max_iterations,
            },
        )
    } else if context.total_usage.total_tokens >= config.max_total_tokens {
        Err(
            AgentError::MaxTokensExceeded {
                tokens: context.total_usage.total_tokens,
                limit: config.max_total_tokens,
            },
        )
    } else {
        Ok(())
    }
}

/// What the loop does after a completion.
#[derive(Debug)]
pub enum CompletionStep {
    /// The run is done with this final content.
    Finished(String),
    /// Execute these tool calls, then go on to the next iteration.
    RunTools(Vec<ToolCall>),
    /// Go on to the next iteration.
    Continue,
}

/// The error for a completion the provider's safety filter blocked.
pub open spec fn content_filter_error(e: AgentError) -> bool {
    e matches AgentError::SafetyViolation { violation_type, message, suggestions } && violation_type@
        == "HarmToOther"@ && message@ == "Content was blocked by provider safety filter"@
        && suggestions@.len() == 1 && suggestions@[0]@ == "Rephrase the request"@
}

/// The tool calls of a completion (none if absent).
pub open spec fn completion_calls(c: ChatCompletion) -> Seq<ToolCall> {
    match c.message.tool_calls {
        Some(v) => v@,
        None => Seq::empty(),
    }
}

/// Whether a completion ends the run with its content.
pub open spec fn finishes(c: ChatCompletion) -> bool {
    c.finish_reason == FinishReason::Stop || c.finish_reason == FinishReason::StopSequence
        || c.finish_reason == FinishReason::Other || (c.finish_reason == FinishReason::ToolCalls
        && completion_calls(c).len() == 0)
}

/// The token usage of a context after a completion's usage was added.
pub open spec fn usage_added(before: Usage, after: Usage, u: Usage) -> bool {
    &&& after.prompt_tokens == before.prompt_tokens + u.prompt_tokens
    &&& after.completion_tokens == before.completion_tokens + u.completion_tokens
    &&& after.total_tokens == before.total_tokens + u.total_tokens
    &&& after.cached_tokens == before.cached_tokens
}

/// Handles a completion: adds its usage, records the assistant's reply and
/// says what comes next. A stop, a stop sequence, an unknown reason or a
/// tool-call reason without calls finish the run with the content; tool
/// calls are recorded and the first `max_tool_calls_per_iteration` of them
/// are to be run; a length cut is recorded and the loop goes on; a content
/// filter is a safety violation.
pub fn handle_completion(
    context: &mut AgentContext,
    completion: &ChatCompletion,
    config: &AgentRunnerConfig,
) -> (r: Result<CompletionStep, AgentError>)
    requires
        old(context).wf(),
        old(context).total_usage.prompt_tokens + completion.usage.prompt_tokens <= usize::MAX,
        old(context).total_usage.completion_tokens + completion.usage.completion_tokens
            <= usize::MAX,
        old(context).total_usage.total_tokens + completion.usage.total_tokens <= usize::MAX,
    ensures
        final(context).wf(),
        usage_added(old(context).total_usage, final(context).total_usage, completion.usage),
        final(context).iteration == old(context).iteration,
        final(context).config == old(context).config,
        final(context).tool_calls == old(context).tool_calls,
        final(context).run_id == old(context).run_id,
        final(context).system_prompt == old(context).system_prompt,
        completion.finish_reason == FinishReason::ContentFilter ==> {
            &&& r matches Err(e) && content_filter_error(e)
            &&& final(context).messages == old(context).messages
        },
        finishes(*completion) ==> {
            &&& r matches Ok(CompletionStep::Finished(s)) && s@ == completion.message.content@
            &&& exists|m: AgentMessage|
                #[trigger] is_new_message(
                    m,
                    Role::Assistant,
                    completion.message.content@,
                    None,
                    None,
                    old(context).iteration,
                ) && final(context).messages@ == trimmed(
                    old(context).messages@.push(m),
                    old(context).config.max_messages as nat,
                )
        },
        completion.finish_reason == FinishReason::Length ==> {
            &&& r matches Ok(CompletionStep::Continue)
            &&& exists|m: AgentMessage|
                #[trigger] is_new_message(
                    m,
                    Role::Assistant,
                    completion.message.content@,
                    None,
                    None,
                    old(context).iteration,
                ) && final(context).messages@ == trimmed(
                    old(context).messages@.push(m),
                    old(context).config.max_messages as nat,
                )
        },
        completion.finish_reason == FinishReason::ToolCalls && completion_calls(*completion).len()
            > 0 ==> {
            &&& r matches Ok(CompletionStep::RunTools(calls)) && calls@ == completion_calls(
                *completion,
            ).take(
                vstd::math::min(
                    config.max_tool_calls_per_iteration as int,
                    completion_calls(*completion).len() as int,
                ),
            )
            &&& exists|m: AgentMessage|
                #[trigger] is_new_message(
                    m,
                    Role::Assistant,
                    completion.message.content@,
                    Some(completion_calls(*completion)),
                    None,
                    old(context).iteration,
                ) && final(context).messages@ == trimmed(
                    old(context).messages@.push(m),
                    old(context).config.max_messages as nat,
                )
        },
{
    context.add_usage(completion.usage);
    let content = completion.message.content.as_str();
    match completion.finish_reason {
        FinishReason::ContentFilter => {
            let mut suggestions: Vec<String> = Vec::new();
            suggestions.push("Rephrase the request".to_owned());
            Err(
                AgentError::SafetyViolation {
                    violation_type: "HarmToOther".to_owned(),
                    message: "Content was blocked by provider safety filter".to_owned(),
                    suggestions,
                },
            )
        },
        FinishReason::Length => {
            context.add_assistant_message(content);
            Ok(CompletionStep::Continue)
        },
        FinishReason::ToolCalls => {
            let calls: Vec<ToolCall> = match &completion.message.tool_calls {
                Some(v) => clone_tool_calls(v),
                None => Vec::new(),
            };
            assert(calls@ == completion_calls(*completion));
            if calls.len() == 0 {
                context.add_assistant_message(content);
                Ok(CompletionStep::Finished(content.to_owned()))
            } else {
                let to_run = take_calls(&calls, config.max_tool_calls_per_iteration);
                context.add_assistant_with_tools(content, calls);
                Ok(CompletionStep::RunTools(to_run))
            }
        },
        _ => {
            context.add_assistant_message(content);
            Ok(CompletionStep::Finished(content.to_owned()))
        },
    }
}

/// The first `n` tool calls of a list (all of them if there are fewer).
pub fn take_calls(calls: &Vec<ToolCall>, n: usize) -> (r: Vec<ToolCall>)
    ensures
        r@ == calls@.take(vstd::math::min(n as int, calls@.len() as int)),
{
    let mut r: Vec<ToolCall> = Vec::new();
    let mut i: usize = 0;
    while i < calls.len() && i < n
        invariant
            i <= calls@.len(),
            i <= n,
            r@ == calls@.take(i as int),
        decreases calls@.len() - i,
    {
        r.push(calls[i].clone());
        i = i + 1;
        assert(r@ =~= calls@.take(i as int));
    }
    assert(i == vstd::math::min(n as int, calls@.len() as int));
    r
}

/// Records the outcome of one tool call: a record of it, then its output
/// as a tool result in the history.
pub fn record_tool_outcome(
    context: &mut AgentContext,
    call: &ToolCall,
    success: bool,
    output: &str,
    duration_ms: u64,
)
    requires
        old(context).wf(),
        byte_len(output@) > old(context).config.max_tool_output_length ==> on_char_boundary(
            output@,
            old(context).config.max_tool_output_length as int,
        ),
    ensures
        final(context).wf(),
        final(context).tool_calls@.len() == old(context).tool_calls@.len() + 1,
        final(context).tool_calls@.drop_last() == old(context).tool_calls@,
        ({
            let rec = final(context).tool_calls@.last();
            &&& rec.id == call.id
            &&& rec.name == call.name
            &&& rec.arguments == call.arguments
            &&& rec.success == success
            &&& rec.output@ == output@
            &&& rec.duration_ms == duration_ms
            &&& rec.iteration == old(context).iteration
        }),
        exists|m: AgentMessage|
            #[trigger] is_new_message(
                m,
                Role::Tool,
                tool_output_text(output@, old(context).config.max_tool_output_length),
                None,
                Some(call.id@),
                old(context).iteration,
            ) && final(context).messages@ == trimmed(
                old(context).messages@.push(m),
                old(context).config.max_messages as nat,
            ),
        final(context).iteration == old(context).iteration,
        final(context).config == old(context).config,
        final(context).total_usage == old(context).total_usage,
        final(context).run_id == old(context).run_id,
        final(context).system_prompt == old(context).system_prompt,
{
    let record = ToolCallRecord::new(call, success, output.to_owned(), duration_ms, context.iteration);
    context.add_tool_call_record(record);
    context.add_tool_result(call.id.as_str(), output);
    assert(context.tool_calls@.drop_last() =~= old(context).tool_calls@);
}

/// The error that stops the run after a failed tool call: only when the
/// runner stops on tool errors and the tool itself failed with an error.
pub fn tool_failure(success: bool, tool_error: Option<String>, stop_on_tool_error: bool) -> (r:
    Option<AgentError>)
    ensures
        match tool_error {
            Some(e) => if !success && stop_on_tool_error {
                r == Some(AgentError::Tool(e))
            } else {
                r is None
            },
            None => r is None,
        },
{
    if !success && stop_on_tool_error {
        match tool_error {
            Some(e) => Some(AgentError::Tool(e)),
            None => None,
        }
    } else {
        None
    }
}

/// The final response of a run: the context's history, usage and tool
/// calls; iterations counted from one.
pub fn build_response(
    context: &AgentContext,
    final_content: String,
    duration_ms: u64,
    safety_applied: bool,
) -> (r: AgentResponse)
    requires
        context.wf(),
        context.iteration < usize::MAX,
    ensures
        r.run_id == context.run_id,
        r.content == final_content,
        message_records(r.messages@) == message_records(context.messages@),
        r.iterations == context.iteration + 1,
        r.usage == context.total_usage,
        r.duration_ms == duration_ms,
        r.tool_calls_made@ == context.tool_calls@,
        r.safety_applied == safety_applied,
        r.metadata.wf(),
        r.metadata.view().dom().len() == 0,
{
    let mut r = AgentResponse::new(
        context.run_id.clone(),
        final_content,
        duplicate_messages(&context.messages),
        context.iteration + 1,
        context.total_usage,
        duration_ms,
    );
    r.tool_calls_made = clone_records(&context.tool_calls);
    r.safety_applied = safety_applied;
    r
}

// =============================================================================
// EVENTS OF THE LOOP
// =============================================================================

/// The event that opens a run.
pub fn started_event(context: &AgentContext, input: &str, timestamp_ms: u64) -> (e: AgentEvent)
    ensures
        e matches AgentEvent::Started { run_id, input: i, timestamp_ms: t } && run_id
            == context.run_id && i@ == input@ && t == timestamp_ms,
{
    AgentEvent::Started { run_id: context.run_id.clone(), input: input.to_owned(), timestamp_ms }
}

/// The event for a completion received in the current iteration.
pub fn llm_response_event(context: &AgentContext, completion: &ChatCompletion) -> (e: AgentEvent)
    ensures
        e matches AgentEvent::LLMResponse { run_id, content, has_tool_calls, usage, iteration }
            && run_id == context.run_id && content@ == completion.message.content@ && has_tool_calls
            == completion.message.tool_calls.is_some() && usage == completion.usage && iteration
            == context.iteration,
{
    AgentEvent::LLMResponse {
        run_id: context.run_id.clone(),
        content: completion.message.content.clone(),
        has_tool_calls: completion.has_tool_calls(),
        usage: completion.usage,
        iteration: context.iteration,
    }
}

/// The event for a tool call about to run.
pub fn tool_started_event(context: &AgentContext, call: &ToolCall) -> (e: AgentEvent)
    ensures
        e matches AgentEvent::ToolCallStarted { run_id, tool_call, iteration } && run_id
            == context.run_id && tool_call.id == call.id && tool_call.name == call.name
            && tool_call.arguments == call.arguments && iteration == context.iteration,
{
    AgentEvent::ToolCallStarted {
        run_id: context.run_id.clone(),
        tool_call: ToolCallInfo::from_call(call),
        iteration: context.iteration,
    }
}

/// The event for a finished tool call; the output is cut to 500 bytes.
pub fn tool_completed_event(
    context: &AgentContext,
    call: &ToolCall,
    success: bool,
    output: &str,
    duration_ms: u64,
) -> (e: AgentEvent)
    requires
        byte_len(output@) > 500 ==> on_char_boundary(output@, 500),
    ensures
        e matches AgentEvent::ToolCallCompleted {
            run_id,
            tool_call_id,
            success: s,
            output: o,
            duration_ms: d,
        } && run_id == context.run_id && tool_call_id == call.id && s == success && o@ == event_text(
            output@,
            500,
        ) && d == duration_ms,
{
    AgentEvent::ToolCallCompleted {
        run_id: context.run_id.clone(),
        tool_call_id: call.id.clone(),
        success,
        output: truncate_for_event(output, 500),
        duration_ms,
    }
}

/// The event that closes a successful run; the response is cut to 1000 bytes.
pub fn completed_event(context: &AgentContext, final_content: &str, duration_ms: u64) -> (e:
    AgentEvent)
    requires
        context.iteration < usize::MAX,
        byte_len(final_content@) > 1000 ==> on_char_boundary(final_content@, 1000),
    ensures
        e matches AgentEvent::Completed { run_id, response, iterations, total_usage, duration_ms: d }
            && run_id == context.run_id && response@ == event_text(final_content@, 1000)
            && iterations == context.iteration + 1 && total_usage == context.total_usage && d
            == duration_ms,
{
    AgentEvent::Completed {
        run_id: context.run_id.clone(),
        response: truncate_for_event(final_content, 1000),
        iterations: context.iteration + 1,
        total_usage: context.total_usage,
        duration_ms,
    }
}

// =============================================================================
// THE LOOP AS A STEP FUNCTION
// =============================================================================

/// Where a run stands between two steps.
#[derive(Debug)]
pub enum RunPhase {
    /// Waiting for the provider's completion.
    AwaitingCompletion,
    /// Running the tool calls of a completion; `next` is the one under way.
    RunningTools { calls: Vec<ToolCall>, next: usize },
    /// The run has finished or failed.
    Done,
}

/// What the caller of the loop does next.
#[derive(Debug)]
pub enum RunAction {
    /// Send the context's messages to the provider and hand back the completion.
    CallProvider,
    /// Run this tool call and hand back its outcome.
    RunTool(ToolCall),
    /// The run is done with this final content.
    Finish(String),
    /// The run stops with this error.
    Fail(AgentError),
}

/// What the caller hands back after an action.
#[derive(Debug)]
pub enum RunEvent {
    /// The provider's completion.
    Completion(ChatCompletion),
    /// The outcome of the tool call under way.
    ToolFinished { success: bool, output: String, error: Option<String>, duration_ms: u64 },
}

/// The phase and action after the loop goes round: the next iteration, then
/// a provider call unless a limit is reached.
pub open spec fn round_result(context: AgentContext, config: AgentRunnerConfig, r: (RunPhase, RunAction)) -> bool {
    match limit_error(context, config) {
        Some(e) => r.0 is Done && r.1 == RunAction::Fail(e),
        None => r.0 is AwaitingCompletion && r.1 is CallProvider,
    }
}

/// The tool calls the assistant's reply to a completion carries.
pub open spec fn reply_calls(c: ChatCompletion) -> Option<Seq<ToolCall>> {
    if c.finish_reason == FinishReason::ToolCalls && completion_calls(c).len() > 0 {
        Some(completion_calls(c))
    } else {
        None
    }
}

/// The tool calls of a completion that the runner runs in one iteration.
pub open spec fn calls_to_run(c: ChatCompletion, config: AgentRunnerConfig) -> Seq<ToolCall> {
    completion_calls(c).take(
        vstd::math::min(config.max_tool_calls_per_iteration as int, completion_calls(c).len() as int),
    )
}

/// Whether an event fits the phase it is handed to, within the limits of
/// the machine integers.
pub open spec fn event_fits(phase: RunPhase, context: AgentContext, event: RunEvent) -> bool {
    &&& context.wf()
    &&& context.iteration < usize::MAX
    &&& match (phase, event) {
        (RunPhase::AwaitingCompletion, RunEvent::Completion(c)) => {
            &&& context.total_usage.prompt_tokens + c.usage.prompt_tokens <= usize::MAX
            &&& context.total_usage.completion_tokens + c.usage.completion_tokens <= usize::MAX
            &&& context.total_usage.total_tokens + c.usage.total_tokens <= usize::MAX
        },
        (RunPhase::RunningTools { calls, next }, RunEvent::ToolFinished { output, .. }) => {
            &&& next < calls@.len()
            &&& byte_len(output@) > context.config.max_tool_output_length ==> on_char_boundary(
                output@,
                context.config.max_tool_output_length as int,
            )
        },
        _ => false,
    }
}

/// Goes round: the next iteration, then a provider call unless a limit is reached.
fn go_round(context: &mut AgentContext, config: &AgentRunnerConfig) -> (r: (RunPhase, RunAction))
    requires
        old(context).iteration < usize::MAX,
    ensures
        final(context).iteration == old(context).iteration + 1,
        final(context).messages == old(context).messages,
        final(context).tool_calls == old(context).tool_calls,
        final(context).total_usage == old(context).total_usage,
        final(context).config == old(context).config,
        final(context).run_id == old(context).run_id,
        final(context).system_prompt == old(context).system_prompt,
        final(context).wf() == old(context).wf(),
        round_result(*final(context), *config, r),
{
    context.next_iteration();
    match check_limits(context, config) {
        Ok(()) => (RunPhase::AwaitingCompletion, RunAction::CallProvider),
        Err(e) => (RunPhase::Done, RunAction::Fail(e)),
    }
}

/// Starts a run: the input is added as a user message, then a provider call
/// follows unless a limit is already reached.
pub fn begin_run(context: &mut AgentContext, config: &AgentRunnerConfig, input: &str) -> (r: (RunPhase, RunAction))
    requires
        old(context).wf(),
    ensures
        final(context).wf(),
        final(context).same_but_messages(old(context)),
        exists|m: AgentMessage|
            #[trigger] is_new_message(m, Role::User, input@, None, None, old(context).iteration)
                && final(context).messages@ == trimmed(
                old(context).messages@.push(m),
                old(context).config.max_messages as nat,
            ),
        match limit_error(*old(context), *config) {
            Some(e) => r.0 is Done && r.1 == RunAction::Fail(e),
            None => r.0 is AwaitingCompletion && r.1 is CallProvider,
        },
{
    context.add_user_message(input);
    match check_limits(context, config) {
        Ok(()) => (RunPhase::AwaitingCompletion, RunAction::CallProvider),
        Err(e) => (RunPhase::Done, RunAction::Fail(e)),
    }
}

/// One step of the loop: from the phase and the event the caller hands
/// back, the next phase and what the caller does next.
///
/// A completion adds its usage and is handled as `handle_completion` says:
/// a content filter fails the run, a finishing reason finishes it with the
/// content, tool calls to run are run one by one, and otherwise (a length
/// cut, or no call to run) the loop goes round. A tool outcome is recorded;
/// a failure with an error stops the run when the runner stops on tool
/// errors; otherwise the next call is run, or after the last one the loop
/// goes round. Going round counts the next iteration and calls the provider
/// again unless the iteration or token limit is reached.
pub fn run_step(
    phase: RunPhase,
    context: &mut AgentContext,
    config: &AgentRunnerConfig,
    event: RunEvent,
) -> (r: (RunPhase, RunAction))
    requires
        event_fits(phase, *old(context), event),
    ensures
        final(context).wf(),
        final(context).config == old(context).config,
        final(context).run_id == old(context).run_id,
        final(context).system_prompt == old(context).system_prompt,
        match event {
            RunEvent::Completion(c) => {
                &&& usage_added(old(context).total_usage, final(context).total_usage, c.usage)
                &&& final(context).tool_calls == old(context).tool_calls
                &&& c.finish_reason == FinishReason::ContentFilter ==> {
                    &&& r.0 is Done
                    &&& r.1 matches RunAction::Fail(e) && content_filter_error(e)
                    &&& final(context).messages == old(context).messages
                    &&& final(context).iteration == old(context).iteration
                }
                &&& c.finish_reason != FinishReason::ContentFilter ==> exists|m: AgentMessage|
                    #[trigger] is_new_message(
                        m,
                        Role::Assistant,
                        c.message.content@,
                        reply_calls(c),
                        None,
                        old(context).iteration,
                    ) && final(context).messages@ == trimmed(
                        old(context).messages@.push(m),
                        old(context).config.max_messages as nat,
                    )
                &&& finishes(c) ==> {
                    &&& r.0 is Done
                    &&& r.1 matches RunAction::Finish(s) && s@ == c.message.content@
                    &&& final(context).iteration == old(context).iteration
                }
                &&& (c.finish_reason == FinishReason::Length || (c.finish_reason == FinishReason::ToolCalls
                    && completion_calls(c).len() > 0 && calls_to_run(c, *config).len() == 0)) ==> {
                    &&& final(context).iteration == old(context).iteration + 1
                    &&& round_result(*final(context), *config, r)
                }
                &&& (c.finish_reason == FinishReason::ToolCalls && calls_to_run(c, *config).len() > 0)
                    ==> {
                    &&& r.0 matches RunPhase::RunningTools { calls, next } && calls@ == calls_to_run(
                        c,
                        *config,
                    ) && next == 0
                    &&& r.1 == RunAction::RunTool(calls_to_run(c, *config)[0])
                    &&& final(context).iteration == old(context).iteration
                }
            },
            RunEvent::ToolFinished { success, output, error, duration_ms } => {
                let calls = phase->calls;
                let next = phase->next;
                let call = calls@[next as int];
                &&& final(context).total_usage == old(context).total_usage
                &&& final(context).tool_calls@.len() == old(context).tool_calls@.len() + 1
                &&& final(context).tool_calls@.drop_last() == old(context).tool_calls@
                &&& final(context).tool_calls@.last().id == call.id
                &&& final(context).tool_calls@.last().name == call.name
                &&& final(context).tool_calls@.last().arguments == call.arguments
                &&& final(context).tool_calls@.last().success == success
                &&& final(context).tool_calls@.last().output@ == output@
                &&& final(context).tool_calls@.last().duration_ms == duration_ms
                &&& final(context).tool_calls@.last().iteration == old(context).iteration
                &&& exists|m: AgentMessage|
                    #[trigger] is_new_message(
                        m,
                        Role::Tool,
                        tool_output_text(output@, old(context).config.max_tool_output_length),
                        None,
                        Some(call.id@),
                        old(context).iteration,
                    ) && final(context).messages@ == trimmed(
                        old(context).messages@.push(m),
                        old(context).config.max_messages as nat,
                    )
                &&& (!success && config.stop_on_tool_error && error is Some) ==> {
                    &&& r.0 is Done
                    &&& r.1 == RunAction::Fail(AgentError::Tool(error->0))
                    &&& final(context).iteration == old(context).iteration
                }
                &&& !(!success && config.stop_on_tool_error && error is Some) && next + 1 < calls@.len()
                    ==> {
                    &&& r.0 matches RunPhase::RunningTools { calls: c2, next: n2 } && c2@ == calls@
                        && n2 == next + 1
                    &&& r.1 == RunAction::RunTool(calls@[next + 1])
                    &&& final(context).iteration == old(context).iteration
                }
                &&& !(!success && config.stop_on_tool_error && error is Some) && next + 1
                    >= calls@.len() ==> {
                    &&& final(context).iteration == old(context).iteration + 1
                    &&& round_result(*final(context), *config, r)
                }
            },
        },
{
    match event {
        RunEvent::Completion(c) => {
            let step = handle_completion(context, &c, config);
            match step {
                Err(e) => (RunPhase::Done, RunAction::Fail(e)),
                Ok(CompletionStep::Finished(s)) => (RunPhase::Done, RunAction::Finish(s)),
                Ok(CompletionStep::Continue) => go_round(context, config),
                Ok(CompletionStep::RunTools(calls)) => {
                    if calls.len() == 0 {
                        go_round(context, config)
                    } else {
                        let first = calls[0].clone();
                        (RunPhase::RunningTools { calls, next: 0 }, RunAction::RunTool(first))
                    }
                },
            }
        },
        RunEvent::ToolFinished { success, output, error, duration_ms } => {
            match phase {
                RunPhase::RunningTools { calls, next } => {
                    record_tool_outcome(context, &calls[next], success, output.as_str(), duration_ms);
                    match tool_failure(success, error, config.stop_on_tool_error) {
                        Some(e) => (RunPhase::Done, RunAction::Fail(e)),
                        None => {
                            if next < calls.len() - 1 {
                                let call = calls[next + 1].clone();
                                (RunPhase::RunningTools { calls, next: next + 1 }, RunAction::RunTool(call))
                            } else {
                                go_round(context, config)
                            }
                        },
                    }
                },
                _ => (RunPhase::Done, RunAction::CallProvider),
            }
        },
    }
}

} // verus!
