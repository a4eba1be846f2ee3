use torus_agent::orchestrator::agent::{Agent, AgentConfig, AgentState, TurnFinishReason, TurnStart};
use torus_agent::orchestrator::analect::{
    continuation_input, next_loop_step, AnalectConfig, AnalectContext, LoopStep, NoOpToolExecutor,
    ThoughtStepType,
};
use torus_agent::orchestrator::memory::{
    HistoryVisibility, MemoryManager, MemoryMessage, MemoryScope, MemoryStore, MessageType,
};
use torus_agent::orchestrator::types::OrchestratorError;
use torus_agent::providers::types::{ProviderError, Role, ToolCall};

#[test]
fn test_memory_message_creation() {
    let msg = MemoryMessage::user("Hello");
    assert_eq!(msg.msg_type, MessageType::User);
    assert_eq!(msg.content, "Hello");
}

#[test]
fn test_memory_message_ordering() {
    let msg1 = MemoryMessage::user("First");
    let msg2 = MemoryMessage::user("Second");
    assert!(msg1 < msg2);
}

#[test]
fn test_memory_manager_add_retrieve() {
    let mut store = MemoryStore::new();
    let manager = MemoryManager::with_defaults(&mut store);

    manager.add_message(&mut store, MemoryMessage::system("You are helpful"));
    manager.add_message(&mut store, MemoryMessage::user("Hi"));
    manager.add_message(&mut store, MemoryMessage::assistant("Hello!"));

    let messages = manager.get_session_memory(&store);
    assert_eq!(messages.len(), 3);
    assert_eq!(messages[0].msg_type, MessageType::System);
    assert_eq!(messages[2].msg_type, MessageType::Assistant);
}

#[test]
fn test_memory_manager_child() {
    let mut store = MemoryStore::new();
    let parent = MemoryManager::with_defaults(&mut store).with_entry("main_task");

    parent.add_message(&mut store, MemoryMessage::system("Parent context"));

    let mut child = parent.child(&mut store, Some("subtask".to_string()));
    child.add_message(&mut store, MemoryMessage::user("Child message"));

    let child_messages = child.get_session_memory(&store);
    assert_eq!(child_messages.len(), 2);

    let parent_messages = parent.get_session_memory(&store);
    assert_eq!(parent_messages.len(), 1);
}

#[test]
fn test_memory_manager_consolidation() {
    let mut store = MemoryStore::new();
    let parent = MemoryManager::with_defaults(&mut store);
    let mut child = parent.child(&mut store, Some("child".to_string()));

    child.add_message(&mut store, MemoryMessage::user("User in child"));
    child.add_message(&mut store, MemoryMessage::thought("Internal thought"));
    child.add_message(&mut store, MemoryMessage::assistant("Response"));

    parent.consolidate(&mut store, &child);

    let parent_messages = parent.get_session_memory(&store);
    assert_eq!(parent_messages.len(), 2);
}

#[test]
fn test_memory_stats() {
    let mut store = MemoryStore::new();
    let manager = MemoryManager::with_defaults(&mut store);

    manager.add_message(&mut store, MemoryMessage::user("One"));
    manager.add_message(&mut store, MemoryMessage::user("Two"));
    manager.add_message(&mut store, MemoryMessage::assistant("Response"));

    let stats = manager.stats(&store);
    assert_eq!(stats.total_messages, 3);
    assert_eq!(*stats.by_type.get(&MessageType::User).unwrap(), 2);
    assert_eq!(*stats.by_type.get(&MessageType::Assistant).unwrap(), 1);
}

#[test]
fn test_to_provider_messages() {
    let mut store = MemoryStore::new();
    let manager = MemoryManager::with_defaults(&mut store);

    manager.add_message(&mut store, MemoryMessage::system("Be helpful"));
    manager.add_message(&mut store, MemoryMessage::user("Hello"));
    manager.add_message(&mut store, MemoryMessage::thought("Thinking..."));
    manager.add_message(&mut store, MemoryMessage::assistant("Hi there!"));

    let provider_messages = manager.to_provider_messages(&store, HistoryVisibility::Session);

    assert_eq!(provider_messages.len(), 3);
    assert_eq!(provider_messages[0].role, Role::System);
    assert_eq!(provider_messages[1].role, Role::User);
    assert_eq!(provider_messages[2].role, Role::Assistant);
}

#[test]
fn test_entry_filtering() {
    let mut store = MemoryStore::new();
    let manager = MemoryManager::with_defaults(&mut store);

    manager.add_message(&mut store, MemoryMessage::user("Global message"));
    manager.add_message(&mut store, MemoryMessage::user("Task A").with_entry("task_a"));
    manager.add_message(&mut store, MemoryMessage::user("Task B").with_entry("task_b"));

    let manager_a = manager.clone().with_entry("task_a");
    let entry_messages = manager_a.get_entry_memory(&store);

    assert_eq!(entry_messages.len(), 1);
    assert_eq!(entry_messages[0].content, "Task A");
}

#[test]
fn test_module_exports() {
    let _scope = MemoryScope::Conversation;
    let _state = AgentState::Idle;
    let _msg_type = MessageType::User;
}

#[test]
fn test_state_transitions() {
    assert!(AgentState::Idle.can_transition_to(AgentState::Thinking));
    assert!(AgentState::Thinking.can_transition_to(AgentState::Acting));
    assert!(AgentState::Acting.can_transition_to(AgentState::Complete));
    assert!(AgentState::Acting.can_transition_to(AgentState::WaitingForTool));
    assert!(AgentState::WaitingForTool.can_transition_to(AgentState::Thinking));

    assert!(!AgentState::Idle.can_transition_to(AgentState::Complete));
    assert!(!AgentState::Complete.can_transition_to(AgentState::Acting));
}

#[test]
fn test_agent_config_builder() {
    let config = AgentConfig::default()
        .with_system_prompt("Be helpful")
        .with_max_turns(5)
        .with_cot(false);

    assert_eq!(config.system_prompt, "Be helpful");
    assert_eq!(config.max_turns, 5);
    assert!(!config.enable_cot);
}

#[test]
fn test_agent_reset() {
    let mut store = MemoryStore::new();
    let memory = MemoryManager::with_defaults(&mut store);
    let config = AgentConfig::default();

    let mut agent = Agent::new(config, memory);
    for _ in 0..5 {
        let start = agent.begin_turn(&mut store, "hello").unwrap();
        assert!(matches!(start, TurnStart::Ask(_)));
        agent.record_response(&mut store, "ok", vec![], 0, 0, 0, true).unwrap();
        agent.set_state(AgentState::Idle);
    }
    agent.set_state(AgentState::Complete);
    assert_eq!(agent.turn_count(), 5);

    agent.reset(&mut store);

    assert_eq!(agent.state(), AgentState::Idle);
    assert_eq!(agent.turn_count(), 0);
}

#[test]
fn test_analect_config_builder() {
    let config = AnalectConfig::default()
        .with_name("test_analect")
        .with_system_prompt("Be helpful")
        .with_cot(true);

    assert_eq!(config.name, "test_analect");
    assert_eq!(config.system_prompt, "Be helpful");
    assert!(config.enable_cot);
}

#[test]
fn test_analect_context_creation() {
    let mut store = MemoryStore::new();
    let context = AnalectContext::new(&mut store, "session-123");

    assert_eq!(context.session_id(), "session-123");
    assert_eq!(context.depth(), 0);
    assert!(context.namespace().is_empty());
}

#[test]
fn test_analect_context_child() {
    let mut store = MemoryStore::new();
    let parent = AnalectContext::new(&mut store, "session-123");
    let child = parent.child(&mut store, "subtask", 5).unwrap();

    assert_eq!(child.depth(), 1);
    assert_eq!(*child.namespace(), vec!["subtask".to_string()]);
    assert_eq!(child.path(), "subtask");
}

#[test]
fn test_analect_context_max_depth() {
    let mut store = MemoryStore::new();
    let mut context = AnalectContext::new(&mut store, "session-123");

    for i in 0..2 {
        context = context.child(&mut store, &format!("level{}", i), 2).unwrap();
    }

    let result = context.child(&mut store, "level2", 2);
    assert!(result.is_err());
}

#[test]
fn test_noop_tool_executor() {
    let executor = NoOpToolExecutor;
    let tool_call = ToolCall {
        id: "call_123".to_string(),
        name: "test_tool".to_string(),
        arguments: "{}".to_string(),
    };
    let _ = &executor;
    let _ = tool_call;
}

#[test]
fn test_error_display() {
    let err = OrchestratorError::StateTransitionError {
        from: "Idle".to_string(),
        to: "Acting".to_string(),
        reason: "Must think first".to_string(),
    };
    let display = err.to_display_string();
    assert!(display.contains("Invalid state transition"));
    assert!(display.contains("Idle"));
}

#[test]
fn test_safety_violation_display() {
    let err = OrchestratorError::SafetyViolation {
        action: "harmful action".to_string(),
        reason: "Violates Prime Directive".to_string(),
    };
    let display = err.to_display_string();
    assert!(display.contains("Safety violation"));
    assert!(display.contains("Prime Directive"));
}

#[test]
fn max_turns_ends_the_turn_at_once() {
    let mut store = MemoryStore::new();
    let mut agent = Agent::new(AgentConfig::default().with_max_turns(1), MemoryManager::with_defaults(&mut store));
    let _ = agent.begin_turn(&mut store, "one").unwrap();
    agent.record_response(&mut store, "answer", vec![], 3, 0, 0, true).unwrap();
    agent.set_state(AgentState::Idle);
    match agent.begin_turn(&mut store, "two").unwrap() {
        TurnStart::Finished(result) => {
            assert_eq!(result.finish_reason, TurnFinishReason::MaxTurnsReached);
            assert!(result.is_complete);
        }
        TurnStart::Ask(_) => panic!("the turn limit was reached"),
    }
}

#[test]
fn invalid_transition_is_refused_with_names() {
    let mut store = MemoryStore::new();
    let mut agent = Agent::new(AgentConfig::default(), MemoryManager::with_defaults(&mut store));
    let err = agent.transition(AgentState::Complete).unwrap_err();
    assert_eq!(
        err.to_display_string(),
        "Invalid state transition Idle -> Complete: Invalid state transition"
    );
    assert_eq!(agent.state(), AgentState::Idle);
}

#[test]
fn tool_calls_keep_the_agent_waiting() {
    let mut store = MemoryStore::new();
    let mut agent = Agent::new(AgentConfig::default(), MemoryManager::with_defaults(&mut store));
    let _ = agent.begin_turn(&mut store, "use a tool").unwrap();
    let call = ToolCall {
        id: "c1".to_string(),
        name: "read".to_string(),
        arguments: "{}".to_string(),
    };
    let result = agent.record_response(&mut store, "calling", vec![call], 5, 1, 2, true).unwrap();
    assert_eq!(result.finish_reason, TurnFinishReason::ToolCallsPending);
    assert!(!result.is_complete);
    assert_eq!(agent.state(), AgentState::WaitingForTool);
    assert_eq!(agent.pending_tool_calls().len(), 1);
    assert_eq!(next_loop_step(&result, true), LoopStep::RunTools);
    assert_eq!(continuation_input(), "Tool results received. Continue with the task.");
}

#[test]
fn root_and_child_sessions() {
    let mut store = MemoryStore::new();
    let root = MemoryManager::with_defaults(&mut store);
    root.add_message(&mut store, MemoryMessage::user("a"));
    root.add_message(&mut store, MemoryMessage::assistant("b"));
    let mut child = root.child(&mut store, None);
    child.add_message(&mut store, MemoryMessage::user("c"));
    let contents: Vec<String> = child.get_session_memory(&store).into_iter().map(|m| m.content).collect();
    assert_eq!(contents, vec!["a".to_string(), "b".to_string(), "c".to_string()]);
    root.clear(&mut store);
    assert!(root.is_empty(&store));
    assert_eq!(child.get_analect_memory(&store).len(), 1);
}

#[test]
fn orchestrator_error_from_provider_error() {
    let e: OrchestratorError = ProviderError::ParseError("bad json".to_string()).into();
    assert_eq!(e.to_display_string(), "Provider error: Parse error: bad json");
    let d = OrchestratorError::Timeout { operation: "llm".to_string(), duration_ms: 250 };
    assert_eq!(d.to_display_string(), "Timeout during llm: 250ms");
    let _ = ThoughtStepType::Observe;
}

#[test]
fn a_turn_stores_user_then_assistant() {
    let mut store = MemoryStore::new();
    let mut agent = Agent::new(AgentConfig::default(), MemoryManager::with_defaults(&mut store));
    let _ = agent.begin_turn(&mut store, "Hi there").unwrap();
    agent.record_response(&mut store, "Hello! How can I help?", vec![], 30, 0, 0, true).unwrap();
    let session = agent.memory().get_session_memory(&store);
    assert_eq!(session.len(), 2);
    assert_eq!(session[0].msg_type, MessageType::User);
    assert_eq!(session[0].content, "Hi there");
    assert_eq!(session[1].msg_type, MessageType::Assistant);
    assert_eq!(session[1].content, "Hello! How can I help?");
    assert!(session[0].sequence_id <= session[1].sequence_id);
}

#[test]
fn a_refused_turn_names_the_transition() {
    let mut store = MemoryStore::new();
    let mut agent = Agent::new(AgentConfig::default(), MemoryManager::with_defaults(&mut store));
    agent.set_state(AgentState::Complete);
    match agent.begin_turn(&mut store, "again") {
        Err(OrchestratorError::StateTransitionError { from, to, reason }) => {
            assert_eq!(from, "Complete");
            assert_eq!(to, "Thinking");
            assert_eq!(reason, "Invalid state transition");
        }
        _ => panic!("the turn should be refused"),
    }
    assert_eq!(agent.state(), AgentState::Complete);
    assert!(agent.memory().get_session_memory(&store).is_empty());
}

#[test]
fn added_messages_are_placed_by_id() {
    let mut store = MemoryStore::new();
    let manager = MemoryManager::with_defaults(&mut store);
    let mut late = MemoryMessage::user("first added");
    late.sequence_id = 500;
    manager.add_message(&mut store, late);
    let mut early = MemoryMessage::assistant("second added");
    early.sequence_id = 7;
    manager.add_message(&mut store, early);
    let session = manager.get_session_memory(&store);
    assert_eq!(session[0].content, "second added");
    assert_eq!(session[0].sequence_id, 7);
    assert_eq!(session[1].content, "first added");
    assert_eq!(session[1].sequence_id, 500);
}

#[test]
fn managers_on_a_scope_share_its_messages() {
    let mut store = MemoryStore::new();
    let parent = MemoryManager::with_defaults(&mut store);
    parent.add_message(&mut store, MemoryMessage::user("before"));
    let child = parent.child(&mut store, None);
    parent.add_message(&mut store, MemoryMessage::user("after"));
    assert_eq!(child.get_session_memory(&store).len(), 2);
    let copy = parent.clone();
    parent.clear(&mut store);
    assert!(parent.is_empty(&store));
    assert!(copy.is_empty(&store));
    assert!(copy.get_session_memory(&store).is_empty());
    assert!(child.get_session_memory(&store).is_empty());
}
