//! Agent state machine for turn-based execution.
//!
//! The agent moves between Idle, Thinking, Acting, WaitingForTool, Error and
//! Complete. The decisions of a turn stand here as steps: the caller runs
//! the provider and the safety guard between them and hands their results
//! back.

use vstd::prelude::*;
use crate::providers::types::{clone_tool_calls, Message, ToolCall};
use super::memory::{
    not_thoughts, is_provider_copy, HistoryVisibility, ManagerModel, MemoryManager, MemoryMessage,
    MemoryStore, MessageRecord, MessageType,
};
use super::ordered::insert_ordered;
use super::types::OrchestratorError;
use crate::text::push_str;

verus! {

// =============================================================================
// AGENT STATE
// =============================================================================

/// State of the agent in its execution cycle.
#[derive(Debug, Clone, Copy, PartialEq, Eq, Structural)]
pub enum AgentState {
    /// Agent is idle, waiting for input
    Idle,
    /// Agent is processing/thinking
    Thinking,
    /// Agent is executing an action
    Acting,
    /// Agent is waiting for tool results
    WaitingForTool,
    /// Agent encountered an error
    Error,
    /// Agent has completed its turn
    Complete,
}

/// The allowed transitions of the agent.
pub open spec fn transition_allowed(from: AgentState, to: AgentState) -> bool {
    match (from, to) {
        (AgentState::Idle, AgentState::Thinking) => true,
        (AgentState::Idle, AgentState::Error) => true,
        (AgentState::Thinking, AgentState::Acting) => true,
        (AgentState::Thinking, AgentState::Complete) => true,
        (AgentState::Thinking, AgentState::Error) => true,
        (AgentState::Acting, AgentState::WaitingForTool) => true,
        (AgentState::Acting, AgentState::Complete) => true,
        (AgentState::Acting, AgentState::Thinking) => true,
        (AgentState::Acting, AgentState::Error) => true,
        (AgentState::WaitingForTool, AgentState::Thinking) => true,
        (AgentState::WaitingForTool, AgentState::Acting) => true,
        (AgentState::WaitingForTool, AgentState::Complete) => true,
        (AgentState::WaitingForTool, AgentState::Error) => true,
        (AgentState::Error, AgentState::Idle) => true,
        (AgentState::Error, AgentState::Complete) => true,
        (AgentState::Complete, AgentState::Idle) => true,
        _ => false,
    }
}

/// The display name of a state.
pub open spec fn state_text(s: AgentState) -> Seq<char> {
    match s {
        AgentState::Idle => "Idle"@,
        AgentState::Thinking => "Thinking"@,
        AgentState::Acting => "Acting"@,
        AgentState::WaitingForTool => "WaitingForTool"@,
        AgentState::Error => "Error"@,
        AgentState::Complete => "Complete"@,
    }
}

impl AgentState {
    /// Check if transition to a new state is valid.
    pub fn can_transition_to(&self, target: AgentState) -> (b: bool)
        ensures
            b == transition_allowed(*self, target),
    {
        match (*self, target) {
            (AgentState::Idle, AgentState::Thinking) => true,
            (AgentState::Idle, AgentState::Error) => true,
            (AgentState::Thinking, AgentState::Acting) => true,
            (AgentState::Thinking, AgentState::Complete) => true,
            (AgentState::Thinking, AgentState::Error) => true,
            (AgentState::Acting, AgentState::WaitingForTool) => true,
            (AgentState::Acting, AgentState::Complete) => true,
            (AgentState::Acting, AgentState::Thinking) => true,
            (AgentState::Acting, AgentState::Error) => true,
            (AgentState::WaitingForTool, AgentState::Thinking) => true,
            (AgentState::WaitingForTool, AgentState::Acting) => true,
            (AgentState::WaitingForTool, AgentState::Complete) => true,
            (AgentState::WaitingForTool, AgentState::Error) => true,
            (AgentState::Error, AgentState::Idle) => true,
            (AgentState::Error, AgentState::Complete) => true,
            (AgentState::Complete, AgentState::Idle) => true,
            _ => false,
        }
    }

    /// The display name of the state.
    pub fn name(&self) -> (s: &'static str)
        ensures
            s@ == state_text(*self),
    {
        match self {
            AgentState::Idle => "Idle",
            AgentState::Thinking => "Thinking",
            AgentState::Acting => "Acting",
            AgentState::WaitingForTool => "WaitingForTool",
            AgentState::Error => "Error",
            AgentState::Complete => "Complete",
        }
    }
}

/// From every state some other state can be reached in one step, and the
/// states that end a turn (Complete, Error) lead back to Idle.
pub proof fn law_no_dead_state(s: AgentState)
    ensures
        exists|t: AgentState| transition_allowed(s, t),
        (s == AgentState::Complete || s == AgentState::Error) ==> transition_allowed(
            s,
            AgentState::Idle,
        ),
        !transition_allowed(s, s),
{
    match s {
        AgentState::Idle => assert(transition_allowed(s, AgentState::Thinking)),
        AgentState::Thinking => assert(transition_allowed(s, AgentState::Acting)),
        AgentState::Acting => assert(transition_allowed(s, AgentState::Complete)),
        AgentState::WaitingForTool => assert(transition_allowed(s, AgentState::Thinking)),
        AgentState::Error => assert(transition_allowed(s, AgentState::Idle)),
        AgentState::Complete => assert(transition_allowed(s, AgentState::Idle)),
    }
}

/// Only Idle and Error can be entered from Complete or left for Idle: a
/// completed turn must pass through Idle before thinking again.
pub proof fn law_complete_only_resets(t: AgentState)
    ensures
        transition_allowed(AgentState::Complete, t) <==> t == AgentState::Idle,
        transition_allowed(AgentState::Idle, t) <==> (t == AgentState::Thinking || t
            == AgentState::Error),
{
}

// =============================================================================
// CONFIG, STATISTICS, RESULTS
// =============================================================================

/// Configuration for the agent.
#[derive(Debug)]
pub struct AgentConfig {
    /// System prompt
    pub system_prompt: String,
    /// Maximum turns before forcing completion
    pub max_turns: usize,
    /// Maximum tool calls per turn
    pub max_tool_calls: usize,
    /// Timeout per LLM call (milliseconds)
    pub llm_timeout_ms: u64,
    /// Whether to enable chain-of-thought
    pub enable_cot: bool,
    /// Whether to validate actions with safety guard
    pub enforce_safety: bool,
}

impl Default for AgentConfig {
    fn default() -> (c: Self)
        ensures
            c.system_prompt@ == "You are a helpful AI assistant."@,
            c.max_turns == 10,
            c.max_tool_calls == 5,
            c.llm_timeout_ms == 60_000,
            c.enable_cot,
            c.enforce_safety,
    {
        AgentConfig {
            system_prompt: "You are a helpful AI assistant.".to_owned(),
            max_turns: 10,
            max_tool_calls: 5,
            llm_timeout_ms: 60_000,
            enable_cot: true,
            enforce_safety: true,
        }
    }
}

impl AgentConfig {
    /// Create a config with a custom system prompt.
    pub fn with_system_prompt(self, prompt: &str) -> (c: Self)
        ensures
            c.system_prompt@ == prompt@,
            c.max_turns == self.max_turns,
            c.max_tool_calls == self.max_tool_calls,
            c.llm_timeout_ms == self.llm_timeout_ms,
            c.enable_cot == self.enable_cot,
            c.enforce_safety == self.enforce_safety,
    {
        let mut c = self;
        c.system_prompt = prompt.to_owned();
        c
    }

    /// Enable or disable chain-of-thought.
    pub fn with_cot(self, enable: bool) -> (c: Self)
        ensures
            c == (AgentConfig { enable_cot: enable, ..self }),
    {
        let mut c = self;
        c.enable_cot = enable;
        c
    }

    /// Set maximum turns.
    pub fn with_max_turns(self, max: usize) -> (c: Self)
        ensures
            c == (AgentConfig { max_turns: max, ..self }),
    {
        let mut c = self;
        c.max_turns = max;
        c
    }

    /// Enable or disable safety enforcement.
    pub fn with_safety(self, enforce: bool) -> (c: Self)
        ensures
            c == (AgentConfig { enforce_safety: enforce, ..self }),
    {
        let mut c = self;
        c.enforce_safety = enforce;
        c
    }

    /// A copy of this configuration.
    pub fn duplicate(&self) -> (c: Self)
        ensures
            c == *self,
    {
        AgentConfig {
            system_prompt: self.system_prompt.clone(),
            max_turns: self.max_turns,
            max_tool_calls: self.max_tool_calls,
            llm_timeout_ms: self.llm_timeout_ms,
            enable_cot: self.enable_cot,
            enforce_safety: self.enforce_safety,
        }
    }
}

/// Statistics for the current agent session.
#[derive(Debug, Clone, Copy, PartialEq, Eq, Structural)]
pub struct AgentStats {
    /// Number of turns completed
    pub turns_completed: usize,
    /// Total tool calls made
    pub tool_calls_made: usize,
    /// Total tokens used (prompt + completion)
    pub total_tokens: usize,
    /// Actions blocked by safety
    pub actions_blocked: usize,
    /// Errors encountered
    pub errors: usize,
    /// Average response time (ms)
    pub avg_response_time_ms: u64,
    /// Total time in thinking state (ms)
    pub thinking_time_ms: u64,
}

impl AgentStats {
    /// All counters zero.
    pub open spec fn zeroed() -> AgentStats {
        AgentStats {
            turns_completed: 0,
            tool_calls_made: 0,
            total_tokens: 0,
            actions_blocked: 0,
            errors: 0,
            avg_response_time_ms: 0,
            thinking_time_ms: 0,
        }
    }
}

impl Default for AgentStats {
    fn default() -> (s: Self)
        ensures
            s == AgentStats::zeroed(),
    {
        AgentStats {
            turns_completed: 0,
            tool_calls_made: 0,
            total_tokens: 0,
            actions_blocked: 0,
            errors: 0,
            avg_response_time_ms: 0,
            thinking_time_ms: 0,
        }
    }
}

/// Reason why the turn finished.
#[derive(Debug, Clone, Copy, PartialEq, Eq, Structural)]
pub enum TurnFinishReason {
    /// Natural completion
    Complete,
    /// Tool calls need execution
    ToolCallsPending,
    /// Max turns reached
    MaxTurnsReached,
    /// Blocked by safety
    SafetyBlocked,
    /// Error occurred
    Error,
}

/// Result of a single agent turn.
#[derive(Debug)]
pub struct TurnResult {
    /// The agent's response
    pub response: String,
    /// Tool calls made (if any)
    pub tool_calls: Vec<ToolCall>,
    /// Whether the turn is complete
    pub is_complete: bool,
    /// Finish reason
    pub finish_reason: TurnFinishReason,
    /// Token usage
    pub tokens_used: usize,
    /// Time taken (ms)
    pub duration_ms: u64,
}

/// What a turn does after its start has been checked.
#[derive(Debug)]
pub enum TurnStart {
    /// The turn limit was reached: this is the turn's result.
    Finished(TurnResult),
    /// The turn goes on: ask the provider with these messages (the system
    /// prompt first, then the session history without thoughts).
    Ask(Vec<Message>),
}

// =============================================================================
// AGENT
// =============================================================================

/// The agent's state machine, memory and statistics.
#[derive(Debug)]
pub struct Agent {
    /// Current state
    state: AgentState,
    /// Configuration
    config: AgentConfig,
    /// Memory manager
    memory: MemoryManager,
    /// Statistics
    stats: AgentStats,
    /// Pending tool calls
    pending_tool_calls: Vec<ToolCall>,
    /// Current turn count
    turn_count: usize,
}

/// `msgs` is the system prompt followed by the provider forms of `hist`.
pub open spec fn is_prompt(msgs: Seq<Message>, system: Seq<char>, hist: Seq<MessageRecord>) -> bool {
    &&& msgs.len() == hist.len() + 1
    &&& msgs[0].role == crate::providers::types::Role::System
    &&& msgs[0].content@ == system
    &&& msgs[0].wf()
    &&& forall|i: int| 0 <= i < hist.len() ==> is_provider_copy(#[trigger] msgs[i + 1], hist[i])
}

impl Agent {
    /// The current state.
    pub closed spec fn spec_state(&self) -> AgentState {
        self.state
    }

    /// The configuration.
    pub closed spec fn spec_config(&self) -> AgentConfig {
        self.config
    }

    /// The handle on the agent's memory scope.
    pub closed spec fn spec_handle(&self) -> MemoryManager {
        self.memory
    }

    /// The memory's abstract state over the scopes of a store.
    pub open spec fn spec_memory(&self, store: Seq<Seq<MessageRecord>>) -> ManagerModel {
        self.spec_handle().model_in(store)
    }

    /// The statistics.
    pub closed spec fn spec_stats(&self) -> AgentStats {
        self.stats
    }

    /// The pending tool calls.
    pub closed spec fn spec_pending(&self) -> Seq<ToolCall> {
        self.pending_tool_calls@
    }

    /// Turns begun and answered.
    pub closed spec fn spec_turn_count(&self) -> usize {
        self.turn_count
    }

    /// The store is well formed and holds the agent's memory scopes.
    pub open spec fn wf_with(&self, store: MemoryStore) -> bool {
        store.wf() && self.spec_handle().wf_in(store@.len())
    }

    /// Create a new agent: idle, no turns, no pending calls, zero statistics.
    pub fn new(config: AgentConfig, memory: MemoryManager) -> (a: Self)
        ensures
            a.spec_handle() == memory,
            a.spec_state() == AgentState::Idle,
            a.spec_config() == config,
            a.spec_stats() == AgentStats::zeroed(),
            a.spec_pending().len() == 0,
            a.spec_turn_count() == 0,
    {
        Agent {
            state: AgentState::Idle,
            config,
            memory,
            stats: AgentStats::default(),
            pending_tool_calls: Vec::new(),
            turn_count: 0,
        }
    }

    /// Get current state.
    pub fn state(&self) -> (s: AgentState)
        ensures
            s == self.spec_state(),
    {
        self.state
    }

    /// Get statistics.
    pub fn stats(&self) -> (s: &AgentStats)
        ensures
            *s == self.spec_stats(),
    {
        &self.stats
    }

    /// Get pending tool calls.
    pub fn pending_tool_calls(&self) -> (p: &[ToolCall])
        ensures
            p@ == self.spec_pending(),
    {
        self.pending_tool_calls.as_slice()
    }

    /// The number of turns taken since the last reset.
    pub fn turn_count(&self) -> (n: usize)
        ensures
            n == self.spec_turn_count(),
    {
        self.turn_count
    }

    /// Get the configuration.
    pub fn config(&self) -> (c: &AgentConfig)
        ensures
            *c == self.spec_config(),
    {
        &self.config
    }

    /// Get memory reference.
    pub fn memory(&self) -> (m: &MemoryManager)
        ensures
            *m == self.spec_handle(),
    {
        &self.memory
    }

    /// Overwrite the state directly (for recovery and tests).
    pub fn set_state(&mut self, state: AgentState)
        ensures
            final(self).spec_state() == state,
            final(self).spec_handle() == old(self).spec_handle(),
            final(self).spec_stats() == old(self).spec_stats(),
            final(self).spec_pending() == old(self).spec_pending(),
            final(self).spec_turn_count() == old(self).spec_turn_count(),
            final(self).spec_config() == old(self).spec_config(),
    {
        self.state = state;
    }

    /// Transition to a new state, refusing transitions that are not allowed.
    pub fn transition(&mut self, target: AgentState) -> (r: Result<(), OrchestratorError>)
        ensures
            r is Ok <==> transition_allowed(old(self).spec_state(), target),
            r is Ok ==> final(self).spec_state() == target,
            r is Err ==> final(self).spec_state() == old(self).spec_state(),
            r matches Err(OrchestratorError::StateTransitionError { from, to, reason }) ==> from@
                == state_text(old(self).spec_state()) && to@ == state_text(target) && reason@
                == "Invalid state transition"@,
            r is Err ==> r matches Err(OrchestratorError::StateTransitionError { .. }),
            final(self).spec_handle() == old(self).spec_handle(),
            final(self).spec_stats() == old(self).spec_stats(),
            final(self).spec_pending() == old(self).spec_pending(),
            final(self).spec_turn_count() == old(self).spec_turn_count(),
            final(self).spec_config() == old(self).spec_config(),
    {
        if self.state.can_transition_to(target) {
            self.state = target;
            Ok(())
        } else {
            Err(OrchestratorError::StateTransitionError {
                from: self.state.name().to_owned(),
                to: target.name().to_owned(),
                reason: "Invalid state transition".to_owned(),
            })
        }
    }

    /// The messages for the provider: the system prompt, then the session
    /// history without internal thoughts.
    fn prompt_messages(&self, store: &MemoryStore) -> (msgs: Vec<Message>)
        requires
            self.wf_with(*store),
        ensures
            is_prompt(
                msgs@,
                self.config.system_prompt@,
                not_thoughts(self.memory.model_in(store@).visible(HistoryVisibility::Session)),
            ),
    {
        let mut msgs = vec![Message::system(self.config.system_prompt.as_str())];
        let mut history = self.memory.to_provider_messages(store, HistoryVisibility::Session);
        let ghost h = not_thoughts(self.memory.model_in(store@).visible(HistoryVisibility::Session));
        let ghost first = msgs@;
        let ghost hist = history@;
        msgs.append(&mut history);
        assert(msgs@ == first + hist);
        assert forall|i: int| 0 <= i < h.len() implies is_provider_copy(#[trigger] msgs@[i + 1], h[i]) by {
            assert(msgs@[i + 1] == hist[i]);
        }
        msgs
    }

    /// Start a turn: at the turn limit the turn ends at once with
    /// `MaxTurnsReached`; otherwise the agent moves to Thinking, records the
    /// user input in memory and returns the messages to send.
    pub fn begin_turn(&mut self, store: &mut MemoryStore, input: &str) -> (r: Result<TurnStart, OrchestratorError>)
        requires
            old(self).wf_with(*old(store)),
        ensures
            final(self).wf_with(*final(store)),
            final(self).spec_handle() == old(self).spec_handle(),
            final(store)@ == old(store)@.update(
                old(self).spec_handle().scope_id() as int,
                final(self).spec_memory(final(store)@).own,
            ),
            final(self).spec_stats() == old(self).spec_stats(),
            final(self).spec_turn_count() == old(self).spec_turn_count(),
            final(self).spec_pending() == old(self).spec_pending(),
            final(self).spec_config() == old(self).spec_config(),
            r is Err ==> r matches Err(OrchestratorError::StateTransitionError { .. }),
            r matches Err(OrchestratorError::StateTransitionError { from, to, reason }) ==> from@
                == state_text(old(self).spec_state()) && to@ == "Thinking"@ && reason@
                == "Invalid state transition"@,
            old(self).spec_turn_count() >= old(self).spec_config().max_turns ==> {
                &&& r matches Ok(TurnStart::Finished(t))
                &&& t.response@ == "Maximum turns reached."@
                &&& t.tool_calls@.len() == 0
                &&& t.is_complete
                &&& t.finish_reason == TurnFinishReason::MaxTurnsReached
                &&& t.tokens_used == 0
                &&& t.duration_ms == 0
                &&& final(self).spec_state() == old(self).spec_state()
                &&& final(self).spec_memory(final(store)@) == old(self).spec_memory(old(store)@)
            },
            old(self).spec_turn_count() < old(self).spec_config().max_turns ==> {
                &&& (r is Ok <==> transition_allowed(old(self).spec_state(), AgentState::Thinking))
                &&& r is Err ==> final(self).spec_state() == old(self).spec_state()
                    && final(self).spec_memory(final(store)@) == old(self).spec_memory(old(store)@)
                &&& r is Ok ==> final(self).spec_state() == AgentState::Thinking
                &&& r is Ok ==> exists|rec: MessageRecord|
                    #[trigger] fresh_record(rec, MessageType::User, input@)
                        && final(self).spec_memory(final(store)@) == (ManagerModel {
                        own: insert_ordered(
                            old(self).spec_memory(old(store)@).own,
                            old(self).spec_memory(old(store)@).enrich(rec),
                        ),
                        ..old(self).spec_memory(old(store)@)
                    })
                        && (rec.sequence_id >= old(self).spec_memory(old(store)@).top_id()
                        ==> final(self).spec_memory(final(store)@).session()
                        == old(self).spec_memory(old(store)@).session().push(old(self).spec_memory(old(store)@).enrich(rec)))
                &&& r matches Ok(TurnStart::Ask(msgs)) ==> is_prompt(
                    msgs@,
                    old(self).spec_config().system_prompt@,
                    not_thoughts(final(self).spec_memory(final(store)@).session()),
                )
                &&& !(r matches Ok(TurnStart::Finished(_)))
            },
    {
        proof {
            self.memory.lemma_own_is_scope(store@);
            self.memory.lemma_scope_in(store@.len());
            assert(store@.update(self.memory.scope_id() as int, store@[self.memory.scope_id() as int]) =~= store@);
        }
        if self.turn_count >= self.config.max_turns {
            return Ok(TurnStart::Finished(TurnResult {
                response: "Maximum turns reached.".to_owned(),
                tool_calls: Vec::new(),
                is_complete: true,
                finish_reason: TurnFinishReason::MaxTurnsReached,
                tokens_used: 0,
                duration_ms: 0,
            }));
        }
        let t = self.transition(AgentState::Thinking);
        match t {
            Err(e) => {
                return Err(e);
            },
            Ok(()) => {},
        }
        let msg = MemoryMessage::user(input);
        let ghost rec = msg@;
        assert(fresh_record(rec, MessageType::User, input@));
        self.memory.add_message(store, msg);
        proof {
            self.memory.lemma_own_is_scope(store@);
        }
        let msgs = self.prompt_messages(store);
        Ok(TurnStart::Ask(msgs))
    }

    /// End a turn that the safety guard refused: counts the block, moves to
    /// Complete and reports "Action blocked: <reason>".
    pub fn block_turn(&mut self, reason: &str, duration_ms: u64) -> (r: Result<
        TurnResult,
        OrchestratorError,
    >)
        requires
            old(self).spec_stats().actions_blocked < usize::MAX,
        ensures
            final(self).spec_handle() == old(self).spec_handle(),
            final(self).spec_pending() == old(self).spec_pending(),
            final(self).spec_turn_count() == old(self).spec_turn_count(),
            final(self).spec_config() == old(self).spec_config(),
            final(self).spec_stats() == (AgentStats {
                actions_blocked: (old(self).spec_stats().actions_blocked + 1) as usize,
                ..old(self).spec_stats()
            }),
            r is Ok <==> transition_allowed(old(self).spec_state(), AgentState::Complete),
            r is Ok ==> final(self).spec_state() == AgentState::Complete,
            r is Err ==> final(self).spec_state() == old(self).spec_state(),
            r matches Ok(t) ==> {
                &&& t.response@ == "Action blocked: "@ + reason@
                &&& t.tool_calls@.len() == 0
                &&& t.is_complete
                &&& t.finish_reason == TurnFinishReason::SafetyBlocked
                &&& t.tokens_used == 0
                &&& t.duration_ms == duration_ms
            },
    {
        self.stats.actions_blocked = self.stats.actions_blocked + 1;
        self.transition(AgentState::Complete)?;
        let mut response = String::new();
        push_str(&mut response, "Action blocked: ");
        push_str(&mut response, reason);
        Ok(TurnResult {
            response,
            tool_calls: Vec::new(),
            is_complete: true,
            finish_reason: TurnFinishReason::SafetyBlocked,
            tokens_used: 0,
            duration_ms,
        })
    }

    /// Record the provider's answer: moves to Acting, stores the assistant
    /// message, and then either keeps the tool calls pending (WaitingForTool)
    /// or completes (Complete). `new_turn` counts the answer as a new turn
    /// (a turn's first answer) and updates the running average response time.
    pub fn record_response(
        &mut self,
        store: &mut MemoryStore,
        response_text: &str,
        tool_calls: Vec<ToolCall>,
        tokens_used: usize,
        thinking_ms: u64,
        duration_ms: u64,
        new_turn: bool,
    ) -> (r: Result<TurnResult, OrchestratorError>)
        requires
            old(self).wf_with(*old(store)),
            response_fits(old(self).spec_stats(), old(self).spec_turn_count(), tool_calls@.len(), tokens_used, thinking_ms, duration_ms, new_turn),
        ensures
            final(self).wf_with(*final(store)),
            final(self).spec_handle() == old(self).spec_handle(),
            final(store)@ == old(store)@.update(
                old(self).spec_handle().scope_id() as int,
                final(self).spec_memory(final(store)@).own,
            ),
            final(self).spec_config() == old(self).spec_config(),
            r is Ok <==> transition_allowed(old(self).spec_state(), AgentState::Acting),
            r is Err ==> final(self).spec_state() == old(self).spec_state()
                && final(self).spec_memory(final(store)@) == old(self).spec_memory(old(store)@)
                && final(self).spec_pending() == old(self).spec_pending()
                && final(self).spec_turn_count() == old(self).spec_turn_count()
                && final(self).spec_stats() == (AgentStats {
                    thinking_time_ms: (old(self).spec_stats().thinking_time_ms + thinking_ms) as u64,
                    ..old(self).spec_stats()
                }),
            r matches Ok(t) ==> {
                &&& t.response@ == response_text@
                &&& t.tool_calls@ == tool_calls@
                &&& t.is_complete == (tool_calls@.len() == 0)
                &&& t.finish_reason == if tool_calls@.len() == 0 {
                    TurnFinishReason::Complete
                } else {
                    TurnFinishReason::ToolCallsPending
                }
                &&& t.tokens_used == tokens_used
                &&& t.duration_ms == duration_ms
                &&& final(self).spec_state() == if tool_calls@.len() == 0 {
                    AgentState::Complete
                } else {
                    AgentState::WaitingForTool
                }
                &&& final(self).spec_pending() == if tool_calls@.len() == 0 {
                    old(self).spec_pending()
                } else {
                    tool_calls@
                }
                &&& exists|rec: MessageRecord|
                    #[trigger] fresh_record(rec, MessageType::Assistant, response_text@)
                        && final(self).spec_memory(final(store)@) == (ManagerModel {
                        own: insert_ordered(
                            old(self).spec_memory(old(store)@).own,
                            old(self).spec_memory(old(store)@).enrich(rec),
                        ),
                        ..old(self).spec_memory(old(store)@)
                    })
                        && (rec.sequence_id >= old(self).spec_memory(old(store)@).top_id()
                        ==> final(self).spec_memory(final(store)@).session()
                        == old(self).spec_memory(old(store)@).session().push(old(self).spec_memory(old(store)@).enrich(rec)))
                &&& final(self).spec_turn_count() == old(self).spec_turn_count() + if new_turn {
                    1int
                } else {
                    0int
                }
                &&& final(self).spec_stats() == updated_stats(
                    old(self).spec_stats(),
                    tool_calls@.len(),
                    tokens_used,
                    thinking_ms,
                    duration_ms,
                    new_turn,
                )
            },
    {
        proof {
            self.memory.lemma_own_is_scope(store@);
            self.memory.lemma_scope_in(store@.len());
            assert(store@.update(self.memory.scope_id() as int, store@[self.memory.scope_id() as int]) =~= store@);
        }
        self.stats.thinking_time_ms = self.stats.thinking_time_ms + thinking_ms;
        self.transition(AgentState::Acting)?;
        let msg = MemoryMessage::assistant(response_text);
        let ghost rec = msg@;
        assert(fresh_record(rec, MessageType::Assistant, response_text@));
        self.memory.add_message(store, msg);
        proof {
            self.memory.lemma_own_is_scope(store@);
        }
        let n = tool_calls.len();
        let is_complete;
        let finish_reason;
        if n > 0 {
            self.pending_tool_calls = clone_tool_calls(&tool_calls);
            self.stats.tool_calls_made = self.stats.tool_calls_made + n;
            let t = self.transition(AgentState::WaitingForTool);
            assert(t is Ok);
            is_complete = false;
            finish_reason = TurnFinishReason::ToolCallsPending;
        } else {
            let t = self.transition(AgentState::Complete);
            assert(t is Ok);
            is_complete = true;
            finish_reason = TurnFinishReason::Complete;
        }
        if new_turn {
            self.turn_count = self.turn_count + 1;
        }
        self.stats.turns_completed = self.stats.turns_completed + 1;
        self.stats.total_tokens = self.stats.total_tokens + tokens_used;
        if new_turn {
            let done = self.stats.turns_completed as u64;
            self.stats.avg_response_time_ms = (self.stats.avg_response_time_ms * (done - 1)
                + duration_ms) / done;
        }
        Ok(TurnResult {
            response: response_text.to_owned(),
            tool_calls,
            is_complete,
            finish_reason,
            tokens_used,
            duration_ms,
        })
    }

    /// Accept tool results: only while waiting for tools. Each result is
    /// stored as a tool-result message, the pending calls are cleared, the
    /// agent moves to Thinking and the messages to send are returned.
    pub fn accept_tool_results(&mut self, store: &mut MemoryStore, results: &Vec<(String, String)>) -> (r: Result<
        Vec<Message>,
        OrchestratorError,
    >)
        requires
            old(self).wf_with(*old(store)),
        ensures
            final(self).wf_with(*final(store)),
            final(self).spec_handle() == old(self).spec_handle(),
            final(store)@ == old(store)@.update(
                old(self).spec_handle().scope_id() as int,
                final(self).spec_memory(final(store)@).own,
            ),
            final(self).spec_config() == old(self).spec_config(),
            final(self).spec_stats() == old(self).spec_stats(),
            final(self).spec_turn_count() == old(self).spec_turn_count(),
            r is Ok <==> old(self).spec_state() == AgentState::WaitingForTool,
            r matches Err(OrchestratorError::StateTransitionError { from, to, reason }) ==> from@
                == state_text(old(self).spec_state()) && to@ == "WaitingForTool"@ && reason@
                == "Not waiting for tool results"@,
            r is Err ==> r matches Err(OrchestratorError::StateTransitionError { .. }),
            r is Err ==> final(self).spec_state() == old(self).spec_state()
                && final(self).spec_memory(final(store)@) == old(self).spec_memory(old(store)@)
                && final(self).spec_pending() == old(self).spec_pending(),
            r is Ok ==> final(self).spec_state() == AgentState::Thinking
                && final(self).spec_pending().len() == 0
                && final(self).spec_memory(final(store)@).own.len() == old(self).spec_memory(old(store)@).own.len()
                + results@.len()
                && final(self).spec_memory(final(store)@).parent == old(self).spec_memory(old(store)@).parent,
            r matches Ok(msgs) ==> is_prompt(
                msgs@,
                old(self).spec_config().system_prompt@,
                not_thoughts(final(self).spec_memory(final(store)@).session()),
            ),
            r is Ok ==> exists|recs: Seq<MessageRecord>|
                #[trigger] stores_results(recs, results_view(results@))
                    && final(self).spec_memory(final(store)@).own.to_multiset()
                    == old(self).spec_memory(old(store)@).own.to_multiset().add(recs.to_multiset()),
    {
        proof {
            self.memory.lemma_own_is_scope(store@);
            self.memory.lemma_scope_in(store@.len());
            assert(store@.update(self.memory.scope_id() as int, store@[self.memory.scope_id() as int]) =~= store@);
        }
        if self.state != AgentState::WaitingForTool {
            return Err(OrchestratorError::StateTransitionError {
                from: self.state.name().to_owned(),
                to: "WaitingForTool".to_owned(),
                reason: "Not waiting for tool results".to_owned(),
            });
        }
        let ghost start = self.memory.model_in(store@);
        let ghost start_store = store@;
        let ghost rv = results_view(results@);
        let ghost mut recs: Seq<MessageRecord> = Seq::empty();
        proof {
            broadcast use vstd::seq_lib::group_to_multiset_ensures, vstd::multiset::group_multiset_axioms;
            assert(recs.to_multiset() =~= vstd::multiset::Multiset::empty());
            assert(start.own.to_multiset().add(recs.to_multiset()) =~= start.own.to_multiset());
        }
        let mut i: usize = 0;
        while i < results.len()
            invariant
                self.wf_with(*store),
                rv == results_view(results@),
                recs.len() == i,
                forall|k: int| 0 <= k < i ==> is_tool_result(#[trigger] recs[k], rv[k].0, rv[k].1),
                self.memory.model_in(store@).own.to_multiset() == start.own.to_multiset().add(
                    recs.to_multiset(),
                ),
                self.memory == old(self).memory,
                i <= results@.len(),
                store@.len() == start_store.len(),
                store@ == start_store.update(self.memory.scope_id() as int, self.memory.model_in(store@).own),
                self.memory.model_in(store@).own.len() == start.own.len() + i,
                self.memory.model_in(store@).parent == start.parent,
                self.memory.model_in(store@).entry_name == start.entry_name,
                self.memory.model_in(store@).runnable_name == start.runnable_name,
                self.memory.model_in(store@).path == start.path,
                self.memory.model_in(store@).config == start.config,
                self.state == AgentState::WaitingForTool,
                self.config == old(self).config,
                self.stats == old(self).stats,
                self.turn_count == old(self).turn_count,
            decreases results@.len() - i,
        {
            let (id, content) = &results[i];
            let msg = MemoryMessage::tool_result(id.as_str(), content.as_str());
            let ghost before_own = self.memory.model_in(store@).own;
            let ghost x = self.memory.model_in(store@).enrich(msg@);
            proof {
                crate::orchestrator::ordered::lemma_insert_ordered_len(before_own, x);
                self.memory.lemma_ordered_all(store);
                crate::orchestrator::ordered::lemma_insert_ordered(before_own, x);
                assert(rv[i as int] == (id@, content@));
            }
            self.memory.add_message(store, msg);
            proof {
                let old_recs = recs;
                recs = recs.push(x);
                vstd::seq_lib::to_multiset_build(old_recs, x);
                broadcast use vstd::multiset::group_multiset_axioms;
                assert(self.memory.model_in(store@).own.to_multiset() =~= start.own.to_multiset().add(
                    recs.to_multiset(),
                ));
                assert forall|k: int| 0 <= k < i + 1 implies is_tool_result(#[trigger] recs[k], rv[k].0, rv[k].1) by {
                    if k < i {
                        assert(recs[k] == old_recs[k]);
                    }
                }
                self.memory.lemma_own_is_scope(store@);
                self.memory.lemma_scope_in(store@.len());
                assert(store@ =~= start_store.update(self.memory.scope_id() as int, self.memory.model_in(store@).own));
            }
            i = i + 1;
        }
        assert(stores_results(recs, results_view(results@)));
        self.pending_tool_calls = Vec::new();
        let t = self.transition(AgentState::Thinking);
        assert(t is Ok);
        let msgs = self.prompt_messages(store);
        Ok(msgs)
    }

    /// Reset the agent to idle for a new conversation: no turns, no pending
    /// calls, and this scope's memory cleared.
    pub fn reset(&mut self, store: &mut MemoryStore)
        requires
            old(self).wf_with(*old(store)),
        ensures
            final(self).wf_with(*final(store)),
            final(self).spec_handle() == old(self).spec_handle(),
            final(store)@ == old(store)@.update(
                old(self).spec_handle().scope_id() as int,
                final(self).spec_memory(final(store)@).own,
            ),
            final(self).spec_state() == AgentState::Idle,
            final(self).spec_turn_count() == 0,
            final(self).spec_pending().len() == 0,
            final(self).spec_memory(final(store)@) == (ManagerModel { own: Seq::empty(), ..old(self).spec_memory(old(store)@) }),
            final(self).spec_stats() == old(self).spec_stats(),
            final(self).spec_config() == old(self).spec_config(),
    {
        proof {
            self.memory.lemma_own_is_scope(store@);
            self.memory.lemma_scope_in(store@.len());
            assert(store@.update(self.memory.scope_id() as int, store@[self.memory.scope_id() as int]) =~= store@);
        }
        self.state = AgentState::Idle;
        self.turn_count = 0;
        self.pending_tool_calls = Vec::new();
        self.memory.clear(store);
        proof {
            self.memory.lemma_own_is_scope(store@);
        }
    }
}

/// A record is the tool result `text` of the call `id`.
pub open spec fn is_tool_result(r: MessageRecord, id: Seq<char>, text: Seq<char>) -> bool {
    &&& r.msg_type == MessageType::ToolResult
    &&& r.content == text
    &&& r.tool_call_id == Some(id)
}

/// Tool results as (call id, output) pairs of characters.
pub open spec fn results_view(v: Seq<(String, String)>) -> Seq<(Seq<char>, Seq<char>)> {
    v.map_values(|p: (String, String)| (p.0@, p.1@))
}

/// The records hold one tool result per result, in order.
pub open spec fn stores_results(recs: Seq<MessageRecord>, results: Seq<(Seq<char>, Seq<char>)>) -> bool {
    &&& recs.len() == results.len()
    &&& forall|i: int| 0 <= i < recs.len() ==> is_tool_result(#[trigger] recs[i], results[i].0, results[i].1)
}

/// Some message of `s` is a tool result whose content is `text` and whose
/// call id is `id`.
pub open spec fn has_tool_result(s: Seq<MessageRecord>, id: Seq<char>, text: Seq<char>) -> bool {
    exists|r: MessageRecord|
        #[trigger] s.contains(r) && r.msg_type == MessageType::ToolResult && r.content == text
            && r.tool_call_id == Some(id)
}

/// Accepted tool results reach the session that is sent to the provider:
/// when a scope's messages gain one tool-result record per result (as
/// `accept_tool_results` states of its memory), then for every result the
/// provider messages of the session hold a tool result whose content is
/// the result's output and whose call id is the result's call id; and the
/// scope holds one message more per result.
pub proof fn law_tool_results_reach_the_session(
    before: ManagerModel,
    after: ManagerModel,
    recs: Seq<MessageRecord>,
    results: Seq<(Seq<char>, Seq<char>)>,
)
    requires
        after.ordered_all(),
        stores_results(recs, results),
        after.own.to_multiset() == before.own.to_multiset().add(recs.to_multiset()),
    ensures
        after.own.len() == before.own.len() + results.len(),
        forall|i: int|
            0 <= i < results.len() ==> has_tool_result(
                not_thoughts(after.session()),
                #[trigger] results[i].0,
                results[i].1,
            ),
{
    broadcast use vstd::seq_lib::group_to_multiset_ensures, vstd::multiset::group_multiset_axioms;
    super::memory_laws::law_session_ordered(after);
    super::memory_laws::law_provider_messages_exclude_thoughts(after.session());
    assert forall|i: int| 0 <= i < results.len() implies has_tool_result(
        not_thoughts(after.session()),
        #[trigger] results[i].0,
        results[i].1,
    ) by {
        let r = recs[i];
        assert(is_tool_result(r, results[i].0, results[i].1));
        assert(recs.contains(r));
        assert(recs.to_multiset().count(r) > 0);
        assert(after.own.to_multiset().count(r) > 0);
        assert(after.session().to_multiset().count(r) > 0);
        assert(after.session().contains(r));
        assert(not_thoughts(after.session()).contains(r));
    }
    assert(after.own.to_multiset().len() == after.own.len());
    assert(before.own.to_multiset().len() == before.own.len());
    assert(recs.to_multiset().len() == recs.len());
}

/// A record as `MemoryMessage::new` creates it: the given type and content,
/// no scope names, no path, no tool call id and no metadata (its sequence id
/// and time come from the clock).
pub open spec fn fresh_record(r: MessageRecord, t: super::memory::MessageType, content: Seq<char>) -> bool {
    &&& r.msg_type == t
    &&& r.content == content
    &&& r.entry_name.is_none()
    &&& r.runnable_name.is_none()
    &&& r.path.len() == 0
    &&& r.tool_call_id.is_none()
    &&& r.metadata.dom().len() == 0
}

/// The statistics after an answer is recorded.
pub open spec fn updated_stats(
    s: AgentStats,
    n_calls: nat,
    tokens: usize,
    thinking_ms: u64,
    duration_ms: u64,
    new_turn: bool,
) -> AgentStats {
    let done = (s.turns_completed + 1) as usize;
    AgentStats {
        turns_completed: done,
        tool_calls_made: (s.tool_calls_made + n_calls) as usize,
        total_tokens: (s.total_tokens + tokens) as usize,
        thinking_time_ms: (s.thinking_time_ms + thinking_ms) as u64,
        avg_response_time_ms: if new_turn {
            ((s.avg_response_time_ms * (done - 1) + duration_ms) / (done as int)) as u64
        } else {
            s.avg_response_time_ms
        },
        ..s
    }
}

/// The counters an answer adds to stay within their integer types.
pub open spec fn response_fits(
    s: AgentStats,
    turn_count: usize,
    n_calls: nat,
    tokens: usize,
    thinking_ms: u64,
    duration_ms: u64,
    new_turn: bool,
) -> bool {
    &&& s.thinking_time_ms + thinking_ms <= u64::MAX
    &&& s.turns_completed + 1 <= usize::MAX
    &&& s.turns_completed + 1 <= u64::MAX
    &&& s.tool_calls_made + n_calls <= usize::MAX
    &&& s.total_tokens + tokens <= usize::MAX
    &&& new_turn ==> turn_count + 1 <= usize::MAX
    &&& new_turn ==> s.avg_response_time_ms * s.turns_completed + duration_ms <= u64::MAX
}

} // verus!
