use torus_agent::keyed::KeyedMap;
use torus_agent::providers::types::{
    estimate_tokens, ChatCompletion, FinishReason, Message, ProviderError, Role, Usage,
};
use torus_agent::providers::{ProviderConfig, ProviderType};

#[test]
fn test_provider_config_defaults() {
    let config = ProviderConfig::default();
    assert_eq!(config.provider_type, ProviderType::Local);
    assert!(config.api_key.is_none());
}

#[test]
fn test_provider_config_anthropic() {
    let config = ProviderConfig::anthropic("test-key", "opus-3-model");
    assert_eq!(config.provider_type, ProviderType::Anthropic);
    assert_eq!(config.api_key, Some("test-key".to_string()));
    assert_eq!(config.model, "opus-3-model");
}

#[test]
fn test_provider_type_display() {
    assert_eq!(ProviderType::Anthropic.to_display_string(), "anthropic");
    assert_eq!(ProviderType::OpenAI.to_display_string(), "openai");
    assert_eq!(ProviderType::Local.to_display_string(), "local");
}

trait ProviderInfo {
    fn name(&self) -> &str;
    fn model(&self) -> &str;
    fn is_available(&self) -> bool;
    fn complete(&self, messages: &[Message]) -> ChatCompletion;
    fn count_tokens(&self, messages: &[Message]) -> usize {
        estimate_tokens(messages)
    }
}

struct MockProvider {
    name: String,
    model: String,
}

impl MockProvider {
    fn new() -> Self {
        Self {
            name: "mock".to_string(),
            model: "mock-model".to_string(),
        }
    }
}

impl ProviderInfo for MockProvider {
    fn name(&self) -> &str {
        &self.name
    }

    fn model(&self) -> &str {
        &self.model
    }

    fn is_available(&self) -> bool {
        true
    }

    fn complete(&self, _messages: &[Message]) -> ChatCompletion {
        ChatCompletion {
            id: "test-123".to_string(),
            model: self.model.clone(),
            message: Message::assistant("Hello! I'm a mock response."),
            finish_reason: FinishReason::Stop,
            usage: Usage::new(10, 20),
            metadata: KeyedMap::new(),
        }
    }
}

#[test]
fn test_mock_provider() {
    let provider = MockProvider::new();
    assert_eq!(provider.name(), "mock");
    assert!(provider.is_available());
    assert_eq!(provider.model(), "mock-model");
    assert_eq!(provider.complete(&[]).content(), "Hello! I'm a mock response.");
}

#[test]
fn test_token_count_estimate() {
    let provider = MockProvider::new();
    let messages = vec![
        Message::system("You are helpful"),
        Message::user("Hello there!"),
    ];
    let count = provider.count_tokens(&messages);
    assert!(count > 0);
    assert_eq!(count, 27 / 4);
}

#[test]
fn test_message_creation() {
    let msg = Message::user("Hello!");
    assert_eq!(msg.role, Role::User);
    assert_eq!(msg.content, "Hello!");
}

#[test]
fn test_message_builders() {
    let sys = Message::system("You are helpful");
    let user = Message::user("Hi").with_name("Alice");
    let tool = Message::tool("call_123", r#"{"result": 42}"#);

    assert_eq!(sys.role, Role::System);
    assert_eq!(user.name, Some("Alice".to_string()));
    assert_eq!(tool.tool_call_id, Some("call_123".to_string()));
}

#[test]
fn test_usage() {
    let usage = Usage::new(100, 50);
    assert_eq!(usage.total_tokens, 150);
}

#[test]
fn test_provider_error_display() {
    let err = ProviderError::RateLimitError {
        retry_after_secs: Some(60),
        message: "Too many requests".to_string(),
    };
    let display = err.to_display_string();
    assert!(display.contains("Rate limit"));
    assert!(display.contains("60"));
}

#[test]
fn provider_error_texts_are_exact() {
    let err = ProviderError::RateLimitError {
        retry_after_secs: Some(60),
        message: "Too many requests".to_string(),
    };
    assert_eq!(err.to_display_string(), "Rate limit exceeded: Too many requests (retry after 60s)");
    let err = ProviderError::TokenLimitExceeded { limit: 4096, requested: 5000 };
    assert_eq!(err.to_display_string(), "Token limit exceeded: requested 5000 but limit is 4096");
    let err = ProviderError::ContentBlocked {
        reason: "policy".to_string(),
        categories: vec!["violence".to_string(), "hate".to_string()],
    };
    assert_eq!(
        err.to_display_string(),
        "Content blocked: policy (categories: [\"violence\", \"hate\"])"
    );
}

#[test]
fn metadata_replaces_values_under_the_same_key() {
    let m = Message::user("x").with_metadata("k", "1").with_metadata("k", "2");
    assert_eq!(m.metadata.len(), 1);
    assert_eq!(m.metadata.get("k"), Some(&"2".to_string()));
    let c = ChatCompletion {
        id: "i".to_string(),
        model: "m".to_string(),
        message: Message::assistant("a"),
        finish_reason: FinishReason::Length,
        usage: Usage::zero(),
        metadata: KeyedMap::new(),
    };
    assert!(c.is_truncated());
    assert!(!c.has_tool_calls());
    assert!(c.tool_calls().is_none());
}
