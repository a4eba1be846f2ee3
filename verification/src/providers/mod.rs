//! Provider-independent types and configuration for LLM providers.

pub mod anthropic;
pub mod local;
pub mod openai;
pub mod types;

use vstd::prelude::*;
use crate::text::opt_view;

verus! {

/// Supported provider types.
#[derive(Debug, Clone, Copy, PartialEq, Eq, Hash, Structural)]
pub enum ProviderType {
    /// Local TorusLLM model
    Local,
    /// Anthropic API
    Anthropic,
    /// OpenAI GPT API
    OpenAI,
    /// AWS Bedrock
    Bedrock,
    /// Ollama (local)
    Ollama,
    /// Together AI
    Together,
    /// Custom/other
    Custom,
}

/// The lower-case display name of a provider type.
pub open spec fn provider_type_text(t: ProviderType) -> Seq<char> {
    match t {
        ProviderType::Local => "local"@,
        ProviderType::Anthropic => "anthropic"@,
        ProviderType::OpenAI => "openai"@,
        ProviderType::Bedrock => "bedrock"@,
        ProviderType::Ollama => "ollama"@,
        ProviderType::Together => "together"@,
        ProviderType::Custom => "custom"@,
    }
}

impl ProviderType {
    /// The display name of the provider type.
    pub fn as_str(&self) -> (s: &'static str)
        ensures
            s@ == provider_type_text(*self),
    {
        match self {
            ProviderType::Local => "local",
            ProviderType::Anthropic => "anthropic",
            ProviderType::OpenAI => "openai",
            ProviderType::Bedrock => "bedrock",
            ProviderType::Ollama => "ollama",
            ProviderType::Together => "together",
            ProviderType::Custom => "custom",
        }
    }

    /// The display name as an owned string.
    pub fn to_display_string(&self) -> (s: String)
        ensures
            s@ == provider_type_text(*self),
    {
        self.as_str().to_owned()
    }
}

/// Provider configuration.
#[derive(Debug)]
pub struct ProviderConfig {
    /// Provider type
    pub provider_type: ProviderType,
    /// API key (for remote providers)
    pub api_key: Option<String>,
    /// Base URL override
    pub base_url: Option<String>,
    /// Model name/ID
    pub model: String,
    /// Request timeout in seconds
    pub timeout_secs: u64,
    /// Maximum retries
    pub max_retries: u32,
}

impl Default for ProviderConfig {
    fn default() -> (c: Self)
        ensures
            c.provider_type == ProviderType::Local,
            c.api_key.is_none(),
            c.base_url.is_none(),
            c.model@ == "torus-small"@,
            c.timeout_secs == 120,
            c.max_retries == 3,
    {
        ProviderConfig {
            provider_type: ProviderType::Local,
            api_key: None,
            base_url: None,
            model: "torus-small".to_owned(),
            timeout_secs: 120,
            max_retries: 3,
        }
    }
}

impl ProviderConfig {
    /// Create config for the Anthropic API.
    pub fn anthropic(api_key: &str, model: &str) -> (c: Self)
        ensures
            c.provider_type == ProviderType::Anthropic,
            opt_view(c.api_key) == Some(api_key@),
            opt_view(c.base_url) == Some("https://api.anthropic.com"@),
            c.model@ == model@,
            c.timeout_secs == 120,
            c.max_retries == 3,
    {
        ProviderConfig {
            provider_type: ProviderType::Anthropic,
            api_key: Some(api_key.to_owned()),
            base_url: Some("https://api.anthropic.com".to_owned()),
            model: model.to_owned(),
            timeout_secs: 120,
            max_retries: 3,
        }
    }

    /// Create config for OpenAI.
    pub fn openai(api_key: &str, model: &str) -> (c: Self)
        ensures
            c.provider_type == ProviderType::OpenAI,
            opt_view(c.api_key) == Some(api_key@),
            opt_view(c.base_url) == Some("https://api.openai.com"@),
            c.model@ == model@,
            c.timeout_secs == 120,
            c.max_retries == 3,
    {
        ProviderConfig {
            provider_type: ProviderType::OpenAI,
            api_key: Some(api_key.to_owned()),
            base_url: Some("https://api.openai.com".to_owned()),
            model: model.to_owned(),
            timeout_secs: 120,
            max_retries: 3,
        }
    }

    /// Create config for a local model.
    pub fn local(model: &str) -> (c: Self)
        ensures
            c.provider_type == ProviderType::Local,
            c.api_key.is_none(),
            c.base_url.is_none(),
            c.model@ == model@,
            c.timeout_secs == 300,
            c.max_retries == 1,
    {
        ProviderConfig {
            provider_type: ProviderType::Local,
            api_key: None,
            base_url: None,
            model: model.to_owned(),
            timeout_secs: 300,
            max_retries: 1,
        }
    }
}

} // verus!
