use torus_agent::agent::context::{rand_simple, AgentContext, ContextConfig};
use torus_agent::agent::runner::{
    begin_run, build_response, check_limits, handle_completion, record_tool_outcome, run_step,
    take_calls, tool_failure, AgentRunnerConfig, CompletionStep, RunAction, RunEvent, RunPhase,
};
use torus_agent::agent::types::{AgentError, AgentMessage};
use torus_agent::keyed::KeyedMap;
use torus_agent::providers::types::{ChatCompletion, FinishReason, Message, Role, ToolCall, Usage};

#[test]
fn test_context_new() {
    let ctx = AgentContext::new("run-123");
    assert_eq!(ctx.run_id, "run-123");
    assert_eq!(ctx.iteration, 0);
    assert!(ctx.messages.is_empty());
}

#[test]
fn test_context_with_system_prompt() {
    let ctx = AgentContext::new("run-1").with_system_prompt("You are helpful.");
    assert_eq!(ctx.system_prompt, Some("You are helpful.".to_string()));
}

#[test]
fn test_add_messages() {
    let mut ctx = AgentContext::new("run-1");
    ctx.add_user_message("Hello");
    ctx.add_assistant_message("Hi there!");
    assert_eq!(ctx.messages.len(), 2);
    assert_eq!(ctx.messages[0].role, Role::User);
    assert_eq!(ctx.messages[1].role, Role::Assistant);
}

#[test]
fn test_add_tool_result() {
    let mut ctx = AgentContext::new("run-1");
    ctx.add_tool_result("call-1", "tool output");
    assert_eq!(ctx.messages.len(), 1);
    assert_eq!(ctx.messages[0].role, Role::Tool);
    assert_eq!(ctx.messages[0].tool_call_id, Some("call-1".to_string()));
}

#[test]
fn test_tool_result_truncation() {
    let mut ctx = AgentContext::new("run-1").with_config(ContextConfig {
        max_tool_output_length: 10,
        ..ContextConfig::default()
    });
    ctx.add_tool_result(
        "call-1",
        "this is a very long output that should be truncated",
    );
    assert!(ctx.messages[0].content.contains("truncated"));
}

#[test]
fn test_get_messages_for_llm() {
    let mut ctx = AgentContext::new("run-1").with_system_prompt("System prompt");
    ctx.add_user_message("Hello");
    ctx.add_assistant_message("Hi!");

    let messages = ctx.get_messages_for_llm();
    assert_eq!(messages.len(), 3);
    assert_eq!(messages[0].role, Role::System);
}

#[test]
fn test_next_iteration() {
    let mut ctx = AgentContext::new("run-1");
    assert_eq!(ctx.iteration, 0);
    ctx.next_iteration();
    assert_eq!(ctx.iteration, 1);
    ctx.next_iteration();
    assert_eq!(ctx.iteration, 2);
}

#[test]
fn test_add_usage() {
    let mut ctx = AgentContext::new("run-1");
    ctx.add_usage(Usage::new(100, 50));
    ctx.add_usage(Usage::new(100, 50));
    assert_eq!(ctx.total_usage.prompt_tokens, 200);
    assert_eq!(ctx.total_usage.completion_tokens, 100);
    assert_eq!(ctx.total_usage.total_tokens, 300);
}

#[test]
fn test_is_over_token_limit() {
    let mut ctx = AgentContext::new("run-1").with_config(ContextConfig {
        max_tokens: 1000,
        ..ContextConfig::default()
    });
    assert!(!ctx.is_over_token_limit());
    ctx.add_usage(Usage::new(500, 600));
    assert!(ctx.is_over_token_limit());
}

#[test]
fn test_add_thinking() {
    let mut ctx = AgentContext::new("run-1");
    ctx.add_thinking("I should use the read tool");
    assert_eq!(ctx.thinking.len(), 1);
    assert_eq!(ctx.thinking[0].content, "I should use the read tool");
}

#[test]
fn test_thinking_disabled() {
    let mut ctx = AgentContext::new("run-1").with_config(ContextConfig {
        track_thinking: false,
        ..ContextConfig::default()
    });
    ctx.add_thinking("This should not be recorded");
    assert!(ctx.thinking.is_empty());
}

#[test]
fn test_context_summary() {
    let mut ctx = AgentContext::new("run-1").with_system_prompt("System");
    ctx.add_user_message("Hello");
    ctx.next_iteration();
    ctx.add_thinking("Thinking...");

    let summary = ctx.summary();
    assert_eq!(summary.run_id, "run-1");
    assert_eq!(summary.iterations, 1);
    assert_eq!(summary.message_count, 1);
    assert!(summary.has_system_prompt);
    assert_eq!(summary.thinking_count, 1);
}

#[test]
fn test_generate_run_id() {
    let id1 = AgentContext::generate_run_id();
    let id2 = AgentContext::generate_run_id();
    assert!(id1.starts_with("run-"));
    assert_ne!(id1, id2);
}

#[test]
fn test_metadata() {
    let mut ctx = AgentContext::new("run-1");
    ctx.set_metadata("key1", serde_json::Value::String("value1".to_string()));
    assert_eq!(
        ctx.get_metadata("key1"),
        Some(&serde_json::Value::String("value1".to_string()))
    );
    assert_eq!(ctx.get_metadata("nonexistent"), None);
}

#[test]
fn config_presets_are_exact() {
    let d = ContextConfig::default();
    assert_eq!((d.max_messages, d.max_tokens, d.max_context_window), (100, 100_000, 128_000));
    assert_eq!(d.max_tool_output_length, 10_000);
    let m = ContextConfig::minimal();
    assert_eq!((m.max_messages, m.max_tokens, m.max_context_window), (10, 10_000, 16_000));
    assert!(!m.track_thinking);
    let l = ContextConfig::large();
    assert_eq!((l.max_messages, l.max_tokens, l.max_context_window), (500, 500_000, 200_000));
    assert_eq!(l.max_tool_output_length, 50_000);
}

#[test]
fn truncated_tool_output_gives_prefix_and_total_length() {
    let mut ctx = AgentContext::new("run-1").with_config(ContextConfig {
        max_tool_output_length: 4,
        ..ContextConfig::default()
    });
    ctx.add_tool_result("c", "abcdefgh");
    assert_eq!(ctx.messages[0].content, "abcd...[truncated, 8 chars total]");
    ctx.add_tool_result("d", "abcd");
    assert_eq!(ctx.messages[1].content, "abcd");
}

#[test]
fn trimming_drops_oldest_non_system_messages() {
    let mut ctx = AgentContext::new("run-1").with_config(ContextConfig {
        max_messages: 3,
        ..ContextConfig::default()
    });
    ctx.messages.push(AgentMessage::system("rules"));
    ctx.add_user_message("one");
    ctx.add_assistant_message("two");
    ctx.add_user_message("three");
    ctx.add_assistant_message("four");
    let contents: Vec<&str> = ctx.messages.iter().map(|m| m.content.as_str()).collect();
    assert_eq!(contents, vec!["rules", "three", "four"]);
    assert_eq!(ctx.messages[0].role, Role::System);
}

#[test]
fn trimming_never_drops_system_messages() {
    let mut ctx = AgentContext::new("run-1").with_config(ContextConfig {
        max_messages: 1,
        ..ContextConfig::default()
    });
    ctx.messages.push(AgentMessage::system("a"));
    ctx.messages.push(AgentMessage::system("b"));
    ctx.add_user_message("c");
    assert_eq!(ctx.messages.len(), 2);
    assert!(ctx.messages.iter().all(|m| m.role == Role::System));
}

#[test]
fn context_size_estimate_and_limit() {
    let mut ctx = AgentContext::new("run-1").with_system_prompt("abcd");
    ctx.add_user_message("12345678");
    assert_eq!(ctx.estimated_context_size(), 3);
    assert!(!ctx.is_near_context_limit());
    let mut small = AgentContext::new("run-2").with_config(ContextConfig {
        max_context_window: 2,
        ..ContextConfig::default()
    });
    small.add_user_message("12345678");
    assert!(small.is_near_context_limit());
}

#[test]
fn current_thinking_filters_by_iteration() {
    let mut ctx = AgentContext::new("run-1");
    ctx.add_thinking("first");
    ctx.next_iteration();
    ctx.add_thinking("second");
    ctx.add_thinking("third");
    let now = ctx.current_thinking();
    assert_eq!(now.len(), 2);
    assert_eq!(now[0].content, "second");
    assert_eq!(now[1].content, "third");
}

#[test]
fn system_prompt_left_out_when_not_included() {
    let mut ctx = AgentContext::new("run-1")
        .with_system_prompt("System")
        .with_config(ContextConfig {
            include_system: false,
            ..ContextConfig::default()
        });
    ctx.add_user_message("Hello");
    let msgs = ctx.get_messages_for_llm();
    assert_eq!(msgs.len(), 1);
    assert_eq!(msgs[0].role, Role::User);
}

#[test]
fn random_numbers_vary() {
    let a = rand_simple();
    let b = rand_simple();
    let c = rand_simple();
    assert!(a != b || b != c);
}

fn completion(content: &str, reason: FinishReason, calls: Option<Vec<ToolCall>>) -> ChatCompletion {
    let mut message = Message::assistant(content);
    message.tool_calls = calls;
    ChatCompletion {
        id: "c".to_string(),
        model: "m".to_string(),
        message,
        finish_reason: reason,
        usage: Usage::new(10, 20),
        metadata: KeyedMap::new(),
    }
}

fn call(id: &str) -> ToolCall {
    ToolCall {
        id: id.to_string(),
        name: "read".to_string(),
        arguments: "{}".to_string(),
    }
}

#[test]
fn loop_limits_are_checked_in_order() {
    let config = AgentRunnerConfig::minimal().with_max_iterations(2);
    let mut ctx = AgentContext::new("r");
    assert!(check_limits(&ctx, &config).is_ok());
    ctx.next_iteration();
    ctx.next_iteration();
    assert!(matches!(
        check_limits(&ctx, &config),
        Err(AgentError::MaxIterationsExceeded { iterations: 2, limit: 2 })
    ));
    let mut ctx = AgentContext::new("r");
    ctx.add_usage(Usage::new(10_000, 0));
    assert!(matches!(
        check_limits(&ctx, &config),
        Err(AgentError::MaxTokensExceeded { tokens: 10_000, limit: 10_000 })
    ));
}

#[test]
fn completion_outcomes_follow_finish_reason() {
    let config = AgentRunnerConfig::minimal();
    let mut ctx = AgentContext::new("r");
    let step = handle_completion(&mut ctx, &completion("done", FinishReason::Stop, None), &config);
    assert!(matches!(step, Ok(CompletionStep::Finished(ref s)) if s == "done"));
    assert_eq!(ctx.total_usage.total_tokens, 30);
    assert_eq!(ctx.messages.len(), 1);

    let step = handle_completion(&mut ctx, &completion("cut", FinishReason::Length, None), &config);
    assert!(matches!(step, Ok(CompletionStep::Continue)));

    let step = handle_completion(&mut ctx, &completion("x", FinishReason::ContentFilter, None), &config);
    match step {
        Err(AgentError::SafetyViolation { violation_type, suggestions, .. }) => {
            assert_eq!(violation_type, "HarmToOther");
            assert_eq!(suggestions, vec!["Rephrase the request".to_string()]);
        }
        _ => panic!("expected a safety violation"),
    }

    let step = handle_completion(&mut ctx, &completion("none", FinishReason::ToolCalls, Some(vec![])), &config);
    assert!(matches!(step, Ok(CompletionStep::Finished(_))));

    let calls: Vec<ToolCall> = (0..7).map(|i| call(&format!("call-{}", i))).collect();
    let step = handle_completion(&mut ctx, &completion("use", FinishReason::ToolCalls, Some(calls)), &config);
    match step {
        Ok(CompletionStep::RunTools(run)) => {
            assert_eq!(run.len(), 5);
            assert_eq!(run[4].id, "call-4");
        }
        _ => panic!("expected tool calls"),
    }
    assert_eq!(ctx.messages.last().unwrap().tool_calls.as_ref().unwrap().len(), 7);
}

#[test]
fn tool_outcomes_are_recorded_and_may_stop_the_run() {
    let mut ctx = AgentContext::new("r");
    record_tool_outcome(&mut ctx, &call("call-1"), false, "Error: missing", 3);
    assert_eq!(ctx.tool_calls.len(), 1);
    assert!(!ctx.tool_calls[0].success);
    assert_eq!(ctx.messages[0].tool_call_id, Some("call-1".to_string()));
    assert!(matches!(
        tool_failure(false, Some("missing".to_string()), true),
        Some(AgentError::Tool(ref m)) if m == "missing"
    ));
    assert!(tool_failure(false, Some("missing".to_string()), false).is_none());
    assert!(tool_failure(false, None, true).is_none());
    assert!(tool_failure(true, Some("x".to_string()), true).is_none());

    let response = build_response(&ctx, "final".to_string(), 9, false);
    assert_eq!(response.iterations, 1);
    assert_eq!(response.tool_calls_made.len(), 1);
    assert_eq!(response.messages.len(), 1);
    assert_eq!(take_calls(&vec![call("a"), call("b")], 1).len(), 1);
}

#[test]
fn the_loop_steps_through_a_run() {
    let config = AgentRunnerConfig::minimal();
    let mut ctx = AgentContext::new("r");
    let (phase, action) = begin_run(&mut ctx, &config, "do it");
    assert!(matches!(action, RunAction::CallProvider));
    assert_eq!(ctx.messages.len(), 1);

    let calls = vec![call("a"), call("b")];
    let (phase, action) = run_step(
        phase,
        &mut ctx,
        &config,
        RunEvent::Completion(completion("use", FinishReason::ToolCalls, Some(calls))),
    );
    assert!(matches!(action, RunAction::RunTool(ref c) if c.id == "a"));
    assert!(matches!(phase, RunPhase::RunningTools { next: 0, .. }));
    assert_eq!(ctx.total_usage.total_tokens, 30);

    let (phase, action) = run_step(
        phase,
        &mut ctx,
        &config,
        RunEvent::ToolFinished { success: true, output: "one".to_string(), error: None, duration_ms: 1 },
    );
    assert!(matches!(action, RunAction::RunTool(ref c) if c.id == "b"));
    assert_eq!(ctx.iteration, 0);

    let (phase, action) = run_step(
        phase,
        &mut ctx,
        &config,
        RunEvent::ToolFinished { success: true, output: "two".to_string(), error: None, duration_ms: 2 },
    );
    assert!(matches!(action, RunAction::CallProvider));
    assert_eq!(ctx.iteration, 1);
    assert_eq!(ctx.tool_calls.len(), 2);

    let (phase, action) = run_step(
        phase,
        &mut ctx,
        &config,
        RunEvent::Completion(completion("done", FinishReason::Stop, None)),
    );
    assert!(matches!(action, RunAction::Finish(ref s) if s == "done"));
    assert!(matches!(phase, RunPhase::Done));
    assert_eq!(ctx.iteration, 1);
    assert_eq!(ctx.total_usage.total_tokens, 60);
}

#[test]
fn the_loop_stops_at_the_iteration_limit_and_on_tool_errors() {
    let config = AgentRunnerConfig::minimal().with_max_iterations(1);
    let mut ctx = AgentContext::new("r");
    let (phase, _) = begin_run(&mut ctx, &config, "go");
    let (_, action) = run_step(
        phase,
        &mut ctx,
        &config,
        RunEvent::Completion(completion("cut", FinishReason::Length, None)),
    );
    assert!(matches!(action, RunAction::Fail(AgentError::MaxIterationsExceeded { iterations: 1, limit: 1 })));

    let mut config = AgentRunnerConfig::minimal();
    config.stop_on_tool_error = true;
    let mut ctx = AgentContext::new("r");
    let (phase, _) = begin_run(&mut ctx, &config, "go");
    let (phase, _) = run_step(
        phase,
        &mut ctx,
        &config,
        RunEvent::Completion(completion("use", FinishReason::ToolCalls, Some(vec![call("a"), call("b")]))),
    );
    let (phase, action) = run_step(
        phase,
        &mut ctx,
        &config,
        RunEvent::ToolFinished {
            success: false,
            output: "Error: boom".to_string(),
            error: Some("boom".to_string()),
            duration_ms: 0,
        },
    );
    assert!(matches!(action, RunAction::Fail(AgentError::Tool(ref m)) if m == "boom"));
    assert!(matches!(phase, RunPhase::Done));
}
