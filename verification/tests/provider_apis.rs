use torus_agent::providers::anthropic::{
    anthropic_finish_reason, AnthropicApi, AnthropicResponse, AnthropicUsage, ContentBlock,
};
use torus_agent::providers::local::format_prompt;
use torus_agent::providers::openai::{
    openai_finish_reason, OpenAIApi, OpenAIChoice, OpenAIMessage, OpenAIResponse,
    OpenAIToolCall, OpenAIToolCallFunction, OpenAIUsage,
};
use torus_agent::providers::types::{FinishReason, Message, ProviderError, Role, ToolDefinition};

#[test]
fn anthropic_test_provider_creation() {
    let provider = AnthropicApi::new("test-key", "model-3-opus-20240229");
    assert_eq!(provider.name(), "anthropic");
    assert_eq!(provider.model(), "model-3-opus-20240229");
}

#[test]
fn anthropic_test_is_available() {
    let provider = AnthropicApi::new("test-key", "model-3-opus-20240229");
    assert!(provider.is_available());

    let empty_provider = AnthropicApi::new("", "model-3-opus-20240229");
    assert!(!empty_provider.is_available());
}

#[test]
fn anthropic_test_max_context_length() {
    let third = AnthropicApi::new("key", "model-3-opus-20240229");
    assert_eq!(third.max_context_length(), 200_000);

    let second = AnthropicApi::new("key", "model-2.1");
    assert_eq!(second.max_context_length(), 100_000);
}

#[test]
fn anthropic_test_build_request() {
    let provider = AnthropicApi::new("key", "model-3-opus-20240229");
    let messages = vec![Message::system("You are helpful"), Message::user("Hello!")];

    let request = AnthropicApi::build_messages(&messages);
    assert_eq!(provider.model(), "model-3-opus-20240229");
    assert_eq!(request.system, Some("You are helpful".to_string()));
    assert_eq!(request.messages.len(), 1); // Only user message, system is separate
    assert_eq!(request.messages[0].role, "user");
    assert_eq!(request.messages[0].content, "Hello!");
}

#[test]
fn anthropic_settings_and_endpoint() {
    let provider = AnthropicApi::new("k", "m")
        .with_base_url("http://localhost:9000")
        .with_api_version("2024-01-01");
    assert_eq!(provider.endpoint(), "http://localhost:9000/v1/messages");
    assert_eq!(provider.api_version, "2024-01-01");
    let default = AnthropicApi::new("k", "m");
    assert_eq!(default.endpoint(), "https://api.anthropic.com/v1/messages");
    assert_eq!(default.api_version, "2023-06-01");
}

#[test]
fn anthropic_only_first_system_prompt_is_kept() {
    let messages = vec![
        Message::system("first"),
        Message::assistant("hi"),
        Message::system("second"),
        Message::tool("call-1", "result"),
    ];
    let request = AnthropicApi::build_messages(&messages);
    assert_eq!(request.system, Some("first".to_string()));
    assert_eq!(request.messages.len(), 2);
    assert_eq!(request.messages[0].role, "assistant");
    assert_eq!(request.messages[1].role, "user");
    assert_eq!(request.messages[1].content, "result");

    let none = AnthropicApi::build_messages(&[Message::user("x")]);
    assert!(none.system.is_none());
}

#[test]
fn anthropic_tools_are_none_when_empty() {
    assert!(AnthropicApi::build_tools(&Vec::new()).is_none());
    let tools = vec![ToolDefinition::new("search", "Search the web", serde_json::Value::Null)];
    let built = AnthropicApi::build_tools(&tools).unwrap();
    assert_eq!(built.len(), 1);
    assert_eq!(built[0].name, "search");
    assert_eq!(built[0].description, "Search the web");
}

#[test]
fn anthropic_response_becomes_completion() {
    let response = AnthropicResponse {
        id: "msg_1".to_string(),
        model: "m".to_string(),
        content: vec![
            ContentBlock::Text { text: "Hello".to_string() },
            ContentBlock::ToolUse {
                id: "tu_1".to_string(),
                name: "search".to_string(),
                input: "{\"q\":\"x\"}".to_string(),
            },
            ContentBlock::Text { text: " world".to_string() },
        ],
        stop_reason: Some("tool_use".to_string()),
        usage: AnthropicUsage { input_tokens: 10, output_tokens: 5, cache_read_input_tokens: Some(3) },
    };
    let completion = AnthropicApi::parse_response(response).unwrap();
    assert_eq!(completion.id, "msg_1");
    assert_eq!(completion.content(), "Hello world");
    assert_eq!(completion.finish_reason, FinishReason::ToolCalls);
    assert_eq!(completion.message.role, Role::Assistant);
    let calls = completion.tool_calls().unwrap();
    assert_eq!(calls.len(), 1);
    assert_eq!(calls[0].id, "tu_1");
    assert_eq!(calls[0].arguments, "{\"q\":\"x\"}");
    assert_eq!(completion.usage.total_tokens, 15);
    assert_eq!(completion.usage.cached_tokens, Some(3));

    let plain = AnthropicResponse {
        id: "msg_2".to_string(),
        model: "m".to_string(),
        content: vec![ContentBlock::Text { text: "ok".to_string() }],
        stop_reason: None,
        usage: AnthropicUsage { input_tokens: 1, output_tokens: 1, cache_read_input_tokens: None },
    };
    let completion = AnthropicApi::parse_response(plain).unwrap();
    assert!(!completion.has_tool_calls());
    assert_eq!(completion.finish_reason, FinishReason::Other);
}

#[test]
fn anthropic_stop_reasons() {
    assert_eq!(anthropic_finish_reason(&Some("end_turn".to_string())), FinishReason::Stop);
    assert_eq!(anthropic_finish_reason(&Some("max_tokens".to_string())), FinishReason::Length);
    assert_eq!(
        anthropic_finish_reason(&Some("stop_sequence".to_string())),
        FinishReason::StopSequence
    );
    assert_eq!(anthropic_finish_reason(&Some("tool_use".to_string())), FinishReason::ToolCalls);
    assert_eq!(anthropic_finish_reason(&Some("other".to_string())), FinishReason::Other);
}

#[test]
fn openai_test_provider_creation() {
    let provider = OpenAIApi::new("test-key", "gpt-4");
    assert_eq!(provider.name(), "openai");
    assert_eq!(provider.model(), "gpt-4");
}

#[test]
fn openai_test_is_available() {
    let provider = OpenAIApi::new("test-key", "gpt-4");
    assert!(provider.is_available());

    let empty_provider = OpenAIApi::new("", "gpt-4");
    assert!(!empty_provider.is_available());
}

#[test]
fn openai_test_max_context_length() {
    let gpt4 = OpenAIApi::new("key", "gpt-4");
    assert_eq!(gpt4.max_context_length(), 8_192);

    let gpt4_turbo = OpenAIApi::new("key", "gpt-4-turbo");
    assert_eq!(gpt4_turbo.max_context_length(), 128_000);

    let gpt35 = OpenAIApi::new("key", "gpt-3.5-turbo");
    assert_eq!(gpt35.max_context_length(), 4_096);

    assert_eq!(OpenAIApi::new("key", "gpt-4o-mini").max_context_length(), 128_000);
    assert_eq!(OpenAIApi::new("key", "gpt-4-32k").max_context_length(), 32_768);
    assert_eq!(OpenAIApi::new("key", "gpt-3.5-turbo-16k").max_context_length(), 16_384);
}

#[test]
fn openai_test_build_request() {
    let provider = OpenAIApi::new("key", "gpt-4");
    let messages = vec![Message::system("You are helpful"), Message::user("Hello!")];

    let request = OpenAIApi::build_messages(&messages);
    assert_eq!(provider.model(), "gpt-4");
    assert_eq!(request.len(), 2);
    assert_eq!(request[0].role, "system");
    assert_eq!(request[1].role, "user");
    assert_eq!(request[1].content, Some("Hello!".to_string()));
}

#[test]
fn test_with_organization() {
    let provider = OpenAIApi::new("key", "gpt-4").with_organization("org-123");
    assert_eq!(provider.organization, Some("org-123".to_string()));
}

#[test]
fn openai_endpoint_and_tools() {
    let provider = OpenAIApi::new("k", "gpt-4");
    assert_eq!(provider.endpoint(), "https://api.openai.com/v1/chat/completions");
    let local = OpenAIApi::new("k", "gpt-4").with_base_url("http://localhost:8080");
    assert_eq!(local.endpoint(), "http://localhost:8080/v1/chat/completions");
    assert!(OpenAIApi::build_tools(&Vec::new()).is_none());
    let tools = vec![ToolDefinition::new("calc", "Calculator", serde_json::Value::Null)];
    let built = OpenAIApi::build_tools(&tools).unwrap();
    assert_eq!(built[0].tool_type, "function");
    assert_eq!(built[0].function.name, "calc");
}

#[test]
fn openai_response_becomes_completion() {
    let response = OpenAIResponse {
        id: "chatcmpl-1".to_string(),
        model: "gpt-4".to_string(),
        choices: vec![OpenAIChoice {
            message: OpenAIMessage {
                role: "assistant".to_string(),
                content: None,
                name: None,
                tool_call_id: None,
                tool_calls: Some(vec![OpenAIToolCall {
                    id: "call_1".to_string(),
                    tool_type: "function".to_string(),
                    function: OpenAIToolCallFunction {
                        name: "calc".to_string(),
                        arguments: "{}".to_string(),
                    },
                }]),
            },
            finish_reason: Some("tool_calls".to_string()),
        }],
        usage: OpenAIUsage { prompt_tokens: 7, completion_tokens: 2, total_tokens: 9 },
    };
    let completion = OpenAIApi::parse_response(response).unwrap();
    assert_eq!(completion.content(), "");
    assert_eq!(completion.finish_reason, FinishReason::ToolCalls);
    assert_eq!(completion.tool_calls().unwrap()[0].name, "calc");
    assert_eq!(completion.usage.total_tokens, 9);
    assert_eq!(completion.usage.prompt_tokens, 7);
}

#[test]
fn openai_response_without_choices_is_an_error() {
    let response = OpenAIResponse {
        id: "x".to_string(),
        model: "gpt-4".to_string(),
        choices: Vec::new(),
        usage: OpenAIUsage { prompt_tokens: 0, completion_tokens: 0, total_tokens: 0 },
    };
    match OpenAIApi::parse_response(response) {
        Err(ProviderError::ParseError(m)) => assert_eq!(m, "No choices in response"),
        other => panic!("unexpected: {:?}", other),
    }
}

#[test]
fn openai_finish_reasons() {
    assert_eq!(openai_finish_reason(&Some("stop".to_string())), FinishReason::Stop);
    assert_eq!(openai_finish_reason(&Some("length".to_string())), FinishReason::Length);
    assert_eq!(
        openai_finish_reason(&Some("content_filter".to_string())),
        FinishReason::ContentFilter
    );
    assert_eq!(openai_finish_reason(&None), FinishReason::Other);
}

#[test]
fn test_format_prompt() {
    let messages = vec![Message::system("You are helpful"), Message::user("Hello!")];
    let prompt = format_prompt(&messages);
    assert!(prompt.contains("<|system|>"));
    assert!(prompt.contains("<|user|>"));
    assert!(prompt.contains("<|assistant|>"));
    assert_eq!(
        prompt,
        "<|system|>\nYou are helpful\n<|end|>\n<|user|>\nHello!\n<|end|>\n<|assistant|>\n"
    );
}
