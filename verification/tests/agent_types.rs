use torus_agent::agent::runner::{
    now_ms, truncate_for_event, AgentRunnerConfig, CollectingEventHandler,
};
use torus_agent::agent::context::ContextConfig;
use torus_agent::agent::types::{
    AgentError, AgentEvent, AgentMessage, AgentResponse, AgentResult, ToolCallInfo,
    ToolCallRecord,
};
use torus_agent::providers::types::{ProviderError, Role, ToolCall, Usage};

#[test]
fn test_truncate_for_event() {
    assert_eq!(truncate_for_event("short", 10), "short");
    assert_eq!(
        truncate_for_event("this is a long string", 10),
        "this is a ...[truncated]"
    );
}

#[test]
fn test_now_ms() {
    let ts = now_ms();
    assert!(ts > 0);
}

#[test]
fn test_agent_error_display() {
    let err = AgentError::MaxIterationsExceeded {
        iterations: 10,
        limit: 5,
    };
    assert!(err.to_display_string().contains("10"));
    assert!(err.to_display_string().contains("5"));
}

#[test]
fn test_agent_error_from_provider() {
    let provider_err = ProviderError::NetworkError("connection failed".to_string());
    let agent_err: AgentError = provider_err.into();
    assert!(matches!(agent_err, AgentError::Provider(_)));
}

#[test]
fn test_agent_event_run_id() {
    let event = AgentEvent::Started {
        run_id: "run-123".to_string(),
        input: "hello".to_string(),
        timestamp_ms: 0,
    };
    assert_eq!(event.run_id(), "run-123");
}

#[test]
fn test_agent_event_is_terminal() {
    let started = AgentEvent::Started {
        run_id: "run-123".to_string(),
        input: "hello".to_string(),
        timestamp_ms: 0,
    };
    assert!(!started.is_terminal());

    let completed = AgentEvent::Completed {
        run_id: "run-123".to_string(),
        response: "done".to_string(),
        iterations: 1,
        total_usage: Usage::default(),
        duration_ms: 100,
    };
    assert!(completed.is_terminal());
}

#[test]
fn test_agent_message_user() {
    let msg = AgentMessage::user("hello", 0);
    assert_eq!(msg.role, Role::User);
    assert_eq!(msg.content, "hello");
    assert_eq!(msg.iteration, 0);
}

#[test]
fn test_agent_message_tool_result() {
    let msg = AgentMessage::tool_result("call-123", "result data", 1);
    assert_eq!(msg.role, Role::Tool);
    assert_eq!(msg.tool_call_id, Some("call-123".to_string()));
}

#[test]
fn test_agent_message_to_provider() {
    let msg = AgentMessage::assistant("hello", 0);
    let provider_msg = msg.to_provider_message();
    assert_eq!(provider_msg.role, Role::Assistant);
    assert_eq!(provider_msg.content, "hello");
}

#[test]
fn test_tool_call_info_from() {
    let call = ToolCall {
        id: "call-1".to_string(),
        name: "read".to_string(),
        arguments: r#"{"path": "/tmp"}"#.to_string(),
    };
    let info = ToolCallInfo::from(&call);
    assert_eq!(info.id, "call-1");
    assert_eq!(info.name, "read");
}

#[test]
fn test_agent_response_new() {
    let response = AgentResponse::new(
        "run-1".to_string(),
        "done".to_string(),
        vec![],
        2,
        Usage::default(),
        100,
    );
    assert_eq!(response.run_id, "run-1");
    assert_eq!(response.iterations, 2);
}

#[test]
fn test_tool_call_record_new() {
    let call = ToolCall {
        id: "call-1".to_string(),
        name: "bash".to_string(),
        arguments: "{}".to_string(),
    };
    let record = ToolCallRecord::new(&call, true, "output".to_string(), 50, 1);
    assert_eq!(record.name, "bash");
    assert!(record.success);
}

#[test]
fn test_reexports_available() {
    let _ = AgentRunnerConfig::default();
    let _ = ContextConfig::default();
    let _: AgentResult<()> = Ok(());
}

#[test]
fn test_config_default() {
    let config = AgentRunnerConfig::default();
    assert_eq!(config.max_iterations, 10);
    assert!(config.enable_safety);
}

#[test]
fn test_config_minimal() {
    let config = AgentRunnerConfig::minimal();
    assert_eq!(config.max_iterations, 3);
    assert!(!config.enable_safety);
}

#[test]
fn test_config_with_system_prompt() {
    let config = AgentRunnerConfig::default().with_system_prompt("Be helpful");
    assert_eq!(config.system_prompt, Some("Be helpful".to_string()));
}

#[test]
fn agent_error_texts_are_exact() {
    let e = AgentError::MaxTokensExceeded { tokens: 1200, limit: 1000 };
    assert_eq!(e.to_display_string(), "Max tokens exceeded: 1200 (limit: 1000)");
    let e = AgentError::ContextOverflow { current: 7, max: 5 };
    assert_eq!(e.to_display_string(), "Context window overflow: 7 tokens (max: 5)");
    let e = AgentError::InvalidToolCall {
        tool_name: "grep".to_string(),
        message: "bad args".to_string(),
    };
    assert_eq!(e.to_display_string(), "Invalid tool call 'grep': bad args");
    let e = AgentError::Provider(ProviderError::Timeout("slow".to_string()));
    assert_eq!(e.to_display_string(), "Provider error: Timeout: slow");
    let e = AgentError::SafetyViolation {
        violation_type: "HarmToOther".to_string(),
        message: "blocked".to_string(),
        suggestions: vec!["Rephrase the request".to_string()],
    };
    assert_eq!(
        e.to_display_string(),
        "Safety violation [HarmToOther]: blocked. Suggestions: [\"Rephrase the request\"]"
    );
    let e = AgentError::Timeout {
        operation: "llm".to_string(),
        duration: std::time::Duration::from_millis(1500),
    };
    assert_eq!(e.to_display_string(), "Timeout on 'llm' after 1.5s");
    assert_eq!(AgentError::Cancelled("user".to_string()).to_display_string(), "Cancelled: user");
    assert_eq!(AgentError::Tool("not found".to_string()).to_display_string(), "Tool error: not found");
}

#[test]
fn event_truncation_cuts_on_bytes() {
    let long = "a".repeat(600);
    let cut = truncate_for_event(&long, 500);
    assert_eq!(cut.len(), 500 + "...[truncated]".len());
    assert!(cut.ends_with("...[truncated]"));
    assert_eq!(truncate_for_event("exactly10!", 10), "exactly10!");
}

#[test]
fn collecting_handler_keeps_events_in_order() {
    let mut handler = CollectingEventHandler::new();
    assert!(handler.events().is_empty());
    let first = AgentEvent::Thinking {
        run_id: "r".to_string(),
        thought: "t".to_string(),
        iteration: 0,
    };
    let second = AgentEvent::Error {
        run_id: "r".to_string(),
        error: "e".to_string(),
        iteration: 1,
    };
    handler.record(&first);
    handler.record(&second);
    let events = handler.events();
    assert_eq!(events.len(), 2);
    assert!(matches!(events[0], AgentEvent::Thinking { .. }));
    assert!(events[1].is_terminal());
}
