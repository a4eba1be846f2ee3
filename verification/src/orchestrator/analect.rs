//! Analect orchestration: nested contexts with depth limits, configuration,
//! statistics, and the decisions of the conversation loop.

use vstd::prelude::*;
use crate::providers::types::{ToolCall, ToolDefinition};
use crate::text::{clone_strings, push_str, strings_view};
use super::agent::{AgentConfig, TurnResult};
use super::memory::{ManagerModel, MemoryConfig, MemoryManager, MemoryStore, MessageRecord};
use super::types::OrchestratorError;

verus! {

/// Types of thought steps.
#[derive(Debug, Clone, Copy, PartialEq, Eq, Structural)]
pub enum ThoughtStepType {
    /// Observing the input/context
    Observe,
    /// Reasoning about the problem
    Reason,
    /// Planning the approach
    Plan,
    /// Taking action
    Act,
    /// Reflecting on results
    Reflect,
    /// Error recovery
    Recover,
}

// =============================================================================
// CONFIG
// =============================================================================

/// Configuration for an Analect.
#[derive(Debug)]
pub struct AnalectConfig {
    /// Unique name for this analect
    pub name: String,
    /// System prompt
    pub system_prompt: String,
    /// Agent configuration
    pub agent_config: AgentConfig,
    /// Memory configuration
    pub memory_config: MemoryConfig,
    /// Whether to enable chain-of-thought tracking
    pub enable_cot: bool,
    /// Maximum nested depth for child analects
    pub max_depth: usize,
    /// Available tools
    pub tools: Vec<ToolDefinition>,
}

impl Default for AnalectConfig {
    fn default() -> (c: Self)
        ensures
            c.name@ == "root"@,
            c.system_prompt@ == "You are a helpful AI assistant."@,
            c.agent_config.system_prompt@ == "You are a helpful AI assistant."@,
            c.agent_config.max_turns == 10,
            c.enable_cot,
            c.max_depth == 5,
            c.tools@.len() == 0,
    {
        AnalectConfig {
            name: "root".to_owned(),
            system_prompt: "You are a helpful AI assistant.".to_owned(),
            agent_config: AgentConfig::default(),
            memory_config: MemoryConfig::default(),
            enable_cot: true,
            max_depth: 5,
            tools: Vec::new(),
        }
    }
}

impl AnalectConfig {
    /// Set the name.
    pub fn with_name(self, name: &str) -> (c: Self)
        ensures
            c.name@ == name@,
            c.system_prompt == self.system_prompt,
            c.agent_config == self.agent_config,
            c.enable_cot == self.enable_cot,
            c.max_depth == self.max_depth,
            c.tools@ == self.tools@,
    {
        let mut c = self;
        c.name = name.to_owned();
        c
    }

    /// Set the system prompt, for the analect and its agent.
    pub fn with_system_prompt(self, prompt: &str) -> (c: Self)
        ensures
            c.name == self.name,
            c.system_prompt@ == prompt@,
            c.agent_config.system_prompt@ == prompt@,
            c.agent_config.max_turns == self.agent_config.max_turns,
            c.agent_config.max_tool_calls == self.agent_config.max_tool_calls,
            c.agent_config.enable_cot == self.agent_config.enable_cot,
            c.agent_config.enforce_safety == self.agent_config.enforce_safety,
            c.enable_cot == self.enable_cot,
            c.max_depth == self.max_depth,
            c.tools@ == self.tools@,
    {
        let mut c = self;
        c.system_prompt = prompt.to_owned();
        c.agent_config.system_prompt = c.system_prompt.clone();
        c
    }

    /// Add a tool.
    pub fn with_tool(self, tool: ToolDefinition) -> (c: Self)
        ensures
            c.name == self.name,
            c.system_prompt == self.system_prompt,
            c.enable_cot == self.enable_cot,
            c.max_depth == self.max_depth,
            c.tools@ == self.tools@.push(tool),
    {
        let mut c = self;
        c.tools.push(tool);
        c
    }

    /// Enable or disable chain-of-thought.
    pub fn with_cot(self, enable: bool) -> (c: Self)
        ensures
            c.name == self.name,
            c.system_prompt == self.system_prompt,
            c.enable_cot == enable,
            c.max_depth == self.max_depth,
            c.tools@ == self.tools@,
    {
        let mut c = self;
        c.enable_cot = enable;
        c
    }
}

// =============================================================================
// CONTEXT
// =============================================================================

/// The parts joined with "/".
pub open spec fn join_path(parts: Seq<Seq<char>>) -> Seq<char>
    decreases parts.len(),
{
    if parts.len() == 0 {
        Seq::empty()
    } else if parts.len() == 1 {
        parts[0]
    } else {
        join_path(parts.drop_last()) + "/"@ + parts.last()
    }
}

/// Runtime context for an Analect execution.
#[derive(Debug)]
pub struct AnalectContext {
    /// Session ID
    session_id: String,
    /// Memory manager
    memory: MemoryManager,
    /// Namespace path (for nested analects)
    namespace: Vec<String>,
    /// Parent context (for child analects)
    parent: Option<Box<AnalectContext>>,
    /// Current depth
    depth: usize,
}

impl AnalectContext {
    /// The nesting depth.
    pub closed spec fn spec_depth(&self) -> usize {
        self.depth
    }

    /// The session id's characters.
    pub closed spec fn spec_session(&self) -> Seq<char> {
        self.session_id@
    }

    /// The namespace parts' characters.
    pub closed spec fn spec_namespace(&self) -> Seq<Seq<char>> {
        strings_view(self.namespace@)
    }

    /// The handle on this context's memory scope.
    pub closed spec fn spec_handle(&self) -> MemoryManager {
        self.memory
    }

    /// The abstract memory over the scopes of a store.
    pub open spec fn spec_memory(&self, store: Seq<Seq<MessageRecord>>) -> ManagerModel {
        self.spec_handle().model_in(store)
    }

    /// Whether the context has a parent.
    pub closed spec fn spec_has_parent(&self) -> bool {
        self.parent.is_some()
    }

    /// The memory scopes of this context and its ancestors exist in a store
    /// of `n` scopes.
    pub closed spec fn wf_in(&self, n: nat) -> bool
        decreases self,
    {
        &&& self.memory.wf_in(n)
        &&& match &self.parent {
            Some(p) => p.wf_in(n),
            None => true,
        }
    }

    /// A store that grows keeps this context's scopes.
    proof fn lemma_wf_grow(&self, n: nat, m: nat)
        requires
            self.wf_in(n),
            n <= m,
        ensures
            self.wf_in(m),
        decreases self,
    {
        self.memory.lemma_wf_grow(n, m);
        match &self.parent {
            Some(p) => p.lemma_wf_grow(n, m),
            None => {},
        }
    }

    /// Create a new root context, with a new memory scope in the store.
    pub fn new(store: &mut MemoryStore, session_id: &str) -> (c: Self)
        requires
            old(store).wf(),
        ensures
            final(store).wf(),
            final(store)@ == old(store)@.push(Seq::empty()),
            c.wf_in(final(store)@.len()),
            c.spec_session() == session_id@,
            c.spec_depth() == 0,
            c.spec_namespace().len() == 0,
            !c.spec_has_parent(),
            c.spec_memory(final(store)@).own.len() == 0,
            c.spec_memory(final(store)@).parent.is_none(),
    {
        AnalectContext {
            session_id: session_id.to_owned(),
            memory: MemoryManager::with_defaults(store),
            namespace: Vec::new(),
            parent: None,
            depth: 0,
        }
    }

    /// A copy of this context and its ancestors, on the same memory scopes.
    fn duplicate(&self) -> (c: Self)
        ensures
            c.session_id == self.session_id,
            strings_view(c.namespace@) == strings_view(self.namespace@),
            c.depth == self.depth,
            forall|s: Seq<Seq<MessageRecord>>| #[trigger] c.memory.model_in(s) == self.memory.model_in(s),
            forall|n: nat| #[trigger] c.wf_in(n) == self.wf_in(n),
        decreases self,
    {
        let parent = match &self.parent {
            Some(p) => Some(Box::new(p.duplicate())),
            None => None,
        };
        let c = AnalectContext {
            session_id: self.session_id.clone(),
            memory: self.memory.duplicate(),
            namespace: clone_strings(&self.namespace),
            parent,
            depth: self.depth,
        };
        assert forall|n: nat| #[trigger] c.wf_in(n) == self.wf_in(n) by {
            assert(c.memory.wf_in(n) == self.memory.wf_in(n));
            match &self.parent {
                Some(p) => {
                    assert(c.parent.unwrap().wf_in(n) == p.wf_in(n));
                },
                None => {},
            }
        }
        c
    }

    /// Create a child context for a nested analect: one level deeper, the
    /// name appended to the namespace, a child memory scope named after it.
    /// Fails with a configuration error at the maximum depth.
    pub fn child(&self, store: &mut MemoryStore, name: &str, max_depth: usize) -> (r: Result<Self, OrchestratorError>)
        requires
            old(store).wf(),
            self.wf_in(old(store)@.len()),
        ensures
            final(store).wf(),
            self.spec_depth() >= max_depth <==> r is Err,
            r is Err ==> final(store)@ == old(store)@,
            r matches Err(e) ==> e matches OrchestratorError::ConfigError(m) && m@
                == "Maximum nesting depth ("@ + crate::text::decimal_text(max_depth as nat)
                + ") exceeded"@,
            r matches Ok(c) ==> {
                &&& final(store)@ == old(store)@.push(Seq::empty())
                &&& c.wf_in(final(store)@.len())
                &&& self.wf_in(final(store)@.len())
                &&& c.spec_session() == self.spec_session()
                &&& c.spec_namespace() == self.spec_namespace().push(name@)
                &&& c.spec_depth() == self.spec_depth() + 1
                &&& c.spec_has_parent()
                &&& c.spec_memory(final(store)@).own.len() == 0
                &&& forall|st: Seq<Seq<MessageRecord>>| #[trigger] c.spec_memory(st).parent == Some(
                    Box::new(self.spec_memory(st)),
                )
                &&& c.spec_memory(final(store)@).runnable_name == Some(name@)
            },
    {
        if self.depth >= max_depth {
            let mut m = String::new();
            push_str(&mut m, "Maximum nesting depth (");
            crate::text::push_decimal(&mut m, max_depth as u64);
            push_str(&mut m, ") exceeded");
            return Err(OrchestratorError::ConfigError(m));
        }
        let mut namespace = clone_strings(&self.namespace);
        let ghost ns0 = namespace@;
        namespace.push(name.to_owned());
        assert(strings_view(namespace@) =~= strings_view(ns0).push(name@));
        let ghost n0 = store@.len();
        let memory = self.memory.child(store, Some(name.to_owned()));
        proof {
            self.lemma_wf_grow(n0, store@.len());
        }
        let parent = self.duplicate();
        assert(parent.wf_in(store@.len()) == self.wf_in(store@.len()));
        let c = AnalectContext {
            session_id: self.session_id.clone(),
            memory,
            namespace,
            parent: Some(Box::new(parent)),
            depth: self.depth + 1,
        };
        assert(c.wf_in(store@.len()));
        Ok(c)
    }

    /// The session id.
    pub fn session_id(&self) -> (s: &String)
        ensures
            s@ == self.spec_session(),
    {
        &self.session_id
    }

    /// The namespace parts.
    pub fn namespace(&self) -> (n: &Vec<String>)
        ensures
            strings_view(n@) == self.spec_namespace(),
    {
        &self.namespace
    }

    /// The handle on this context's memory scope.
    pub fn memory(&self) -> (m: &MemoryManager)
        ensures
            *m == self.spec_handle(),
    {
        &self.memory
    }

    /// Get the current depth.
    pub fn depth(&self) -> (d: usize)
        ensures
            d == self.spec_depth(),
    {
        self.depth
    }

    /// Get the full namespace path, its parts joined with "/".
    pub fn path(&self) -> (p: String)
        ensures
            p@ == join_path(self.spec_namespace()),
    {
        let mut p = String::new();
        let mut i: usize = 0;
        while i < self.namespace.len()
            invariant
                i <= self.namespace@.len(),
                p@ == join_path(strings_view(self.namespace@.subrange(0, i as int))),
            decreases self.namespace@.len() - i,
        {
            let ghost before = strings_view(self.namespace@.subrange(0, i as int));
            if i > 0 {
                push_str(&mut p, "/");
            }
            push_str(&mut p, self.namespace[i].as_str());
            proof {
                let next = strings_view(self.namespace@.subrange(0, i + 1));
                assert(next.drop_last() =~= before);
                assert(next.last() == self.namespace@[i as int]@);
                if i == 0 {
                    assert(next.len() == 1);
                    assert(p@ =~= next[0]);
                }
            }
            i = i + 1;
        }
        assert(self.namespace@.subrange(0, self.namespace@.len() as int) =~= self.namespace@);
        p
    }
}

// =============================================================================
// STATISTICS AND LOOP DECISIONS
// =============================================================================

/// Statistics for an Analect execution.
#[derive(Debug, Clone, Copy, PartialEq, Eq, Structural)]
pub struct AnalectStats {
    /// Total turns executed
    pub total_turns: usize,
    /// Total tool calls
    pub total_tool_calls: usize,
    /// Total tokens used
    pub total_tokens: usize,
    /// Child analects invoked
    pub child_analects: usize,
    /// Errors encountered
    pub errors: usize,
    /// Total execution time (ms)
    pub total_time_ms: u64,
    /// Chain of thought steps
    pub cot_steps: usize,
}

impl Default for AnalectStats {
    fn default() -> (s: Self)
        ensures
            s.total_turns == 0,
            s.total_tool_calls == 0,
            s.total_tokens == 0,
            s.child_analects == 0,
            s.errors == 0,
            s.total_time_ms == 0,
            s.cot_steps == 0,
    {
        AnalectStats {
            total_turns: 0,
            total_tool_calls: 0,
            total_tokens: 0,
            child_analects: 0,
            errors: 0,
            total_time_ms: 0,
            cot_steps: 0,
        }
    }
}

impl AnalectStats {
    /// Account for one executed turn.
    pub fn record_turn(&mut self, result: &TurnResult, elapsed_ms: u64, cot_steps: usize)
        requires
            old(self).total_turns < usize::MAX,
            old(self).total_tokens + result.tokens_used <= usize::MAX,
            old(self).total_tool_calls + result.tool_calls@.len() <= usize::MAX,
            old(self).total_time_ms + elapsed_ms <= u64::MAX,
        ensures
            *final(self) == (AnalectStats {
                total_turns: (old(self).total_turns + 1) as usize,
                total_tokens: (old(self).total_tokens + result.tokens_used) as usize,
                total_tool_calls: (old(self).total_tool_calls + result.tool_calls@.len()) as usize,
                total_time_ms: (old(self).total_time_ms + elapsed_ms) as u64,
                cot_steps,
                ..*old(self)
            }),
    {
        self.total_turns = self.total_turns + 1;
        self.total_tokens = self.total_tokens + result.tokens_used;
        self.total_tool_calls = self.total_tool_calls + result.tool_calls.len();
        self.total_time_ms = self.total_time_ms + elapsed_ms;
        self.cot_steps = cot_steps;
    }

    /// Account for one invoked child analect.
    pub fn record_child(&mut self)
        requires
            old(self).child_analects < usize::MAX,
        ensures
            *final(self) == (AnalectStats {
                child_analects: (old(self).child_analects + 1) as usize,
                ..*old(self)
            }),
    {
        self.child_analects = self.child_analects + 1;
    }
}

/// What the conversation loop does after a turn.
#[derive(Debug, Clone, Copy, PartialEq, Eq, Structural)]
pub enum LoopStep {
    /// Stop with the turn's response.
    Stop,
    /// Run the pending tool calls, record their results and continue.
    RunTools,
    /// Ask again with the same input.
    Continue,
}

/// The decision of the conversation loop after a turn: stop when the turn
/// is complete; run the tool calls when there are some and an executor is
/// available; stop when there are calls but no executor; otherwise go on.
pub open spec fn loop_step(is_complete: bool, n_calls: nat, has_executor: bool) -> LoopStep {
    if is_complete {
        LoopStep::Stop
    } else if n_calls > 0 {
        if has_executor {
            LoopStep::RunTools
        } else {
            LoopStep::Stop
        }
    } else {
        LoopStep::Continue
    }
}

/// Decides what the conversation loop does after a turn.
pub fn next_loop_step(result: &TurnResult, has_executor: bool) -> (s: LoopStep)
    ensures
        s == loop_step(result.is_complete, result.tool_calls@.len(), has_executor),
{
    if result.is_complete {
        LoopStep::Stop
    } else if result.tool_calls.len() > 0 {
        if has_executor {
            LoopStep::RunTools
        } else {
            LoopStep::Stop
        }
    } else {
        LoopStep::Continue
    }
}

/// The input sent after tool results have been recorded.
pub fn continuation_input() -> (s: String)
    ensures
        s@ == "Tool results received. Continue with the task."@,
{
    "Tool results received. Continue with the task.".to_owned()
}

/// How the loop treats a turn: a complete turn always stops it; tools are
/// run only when the turn left calls and there is an executor to run them;
/// with calls but no executor the loop stops (the calls are returned
/// pending); and it asks again only when the turn is incomplete and left no
/// calls.
pub proof fn law_loop_decisions(is_complete: bool, n_calls: nat, has_executor: bool)
    ensures
        is_complete ==> loop_step(is_complete, n_calls, has_executor) == LoopStep::Stop,
        loop_step(is_complete, n_calls, has_executor) == LoopStep::RunTools <==> !is_complete
            && n_calls > 0 && has_executor,
        n_calls > 0 && !has_executor ==> loop_step(is_complete, n_calls, has_executor)
            == LoopStep::Stop,
        loop_step(is_complete, n_calls, has_executor) == LoopStep::Continue <==> !is_complete
            && n_calls == 0,
{
}

/// The tool error of a failed tool call: the tool's name and the message.
pub fn tool_failure(call: &ToolCall, message: &str) -> (e: OrchestratorError)
    ensures
        e matches OrchestratorError::ToolError { tool_name, message: m } && tool_name == call.name
            && m@ == message@,
{
    OrchestratorError::ToolError { tool_name: call.name.clone(), message: message.to_owned() }
}

/// A tool executor that runs nothing.
#[derive(Debug, Clone, Copy, Default)]
pub struct NoOpToolExecutor;

impl NoOpToolExecutor {
    /// The output it gives for a call: "Tool '<name>' executed (no-op)".
    pub fn output_for(&self, call: &ToolCall) -> (s: String)
        ensures
            s@ == "Tool '"@ + call.name@ + "' executed (no-op)"@,
    {
        let mut s = String::new();
        push_str(&mut s, "Tool '");
        push_str(&mut s, call.name.as_str());
        push_str(&mut s, "' executed (no-op)");
        s
    }
}

} // verus!
