//! The OpenAI chat completions API: how a conversation becomes a request
//! and how a response becomes a completion. The HTTP exchange itself is
//! made by the caller.

use vstd::prelude::*;
use crate::keyed::KeyedMap;
use crate::text::{clone_opt, has_substring, opt_view, push_str, str_contains};
use super::types::{
    clone_json, ChatCompletion, FinishReason, Message, ProviderError, Role, ToolCall,
    ToolDefinition, Usage,
};

verus! {

/// Connection settings of the OpenAI API.
#[derive(Debug)]
pub struct OpenAIApi {
    /// API key
    pub api_key: String,
    /// Model ID
    pub model: String,
    /// Base URL
    pub base_url: String,
    /// Organization ID (optional)
    pub organization: Option<String>,
}

/// The function of a tool call in the API's form.
#[derive(Debug)]
pub struct OpenAIToolCallFunction {
    pub name: String,
    pub arguments: String,
}

/// A tool call in the API's form.
#[derive(Debug)]
pub struct OpenAIToolCall {
    pub id: String,
    pub tool_type: String,
    pub function: OpenAIToolCallFunction,
}

/// A message in the API's form.
#[derive(Debug)]
pub struct OpenAIMessage {
    pub role: String,
    pub content: Option<String>,
    pub name: Option<String>,
    pub tool_call_id: Option<String>,
    pub tool_calls: Option<Vec<OpenAIToolCall>>,
}

/// The function description of a tool.
#[derive(Debug)]
pub struct OpenAIFunction {
    pub name: String,
    pub description: String,
    pub parameters: serde_json::Value,
}

/// A tool in the API's form.
#[derive(Debug)]
pub struct OpenAITool {
    pub tool_type: String,
    pub function: OpenAIFunction,
}

/// One choice of a response.
#[derive(Debug)]
pub struct OpenAIChoice {
    pub message: OpenAIMessage,
    pub finish_reason: Option<String>,
}

/// Token counts of a response.
#[derive(Debug)]
pub struct OpenAIUsage {
    pub prompt_tokens: usize,
    pub completion_tokens: usize,
    pub total_tokens: usize,
}

/// A response of the API.
#[derive(Debug)]
pub struct OpenAIResponse {
    pub id: String,
    pub model: String,
    pub choices: Vec<OpenAIChoice>,
    pub usage: OpenAIUsage,
}

/// The role name the API takes.
pub open spec fn openai_role(r: Role) -> Seq<char> {
    match r {
        Role::System => "system"@,
        Role::User => "user"@,
        Role::Assistant => "assistant"@,
        Role::Tool => "tool"@,
    }
}

/// The finish reason for a finish reason of the API.
pub open spec fn openai_finish(f: Option<String>) -> FinishReason {
    match f {
        Some(s) => if s@ == "stop"@ {
            FinishReason::Stop
        } else if s@ == "length"@ {
            FinishReason::Length
        } else if s@ == "tool_calls"@ {
            FinishReason::ToolCalls
        } else if s@ == "content_filter"@ {
            FinishReason::ContentFilter
        } else {
            FinishReason::Other
        },
        None => FinishReason::Other,
    }
}

/// The tool calls of a message in the API's form, as library tool calls.
pub open spec fn api_calls(v: Seq<OpenAIToolCall>) -> Seq<ToolCall> {
    v.map_values(
        |c: OpenAIToolCall| ToolCall { id: c.id, name: c.function.name, arguments: c.function.arguments },
    )
}

/// The context window of a model, by the family its name shows.
pub open spec fn openai_context(model: Seq<char>) -> usize {
    if has_substring(model, "gpt-4-turbo"@) || has_substring(model, "gpt-4o"@) {
        128_000
    } else if has_substring(model, "gpt-4-32k"@) {
        32_768
    } else if has_substring(model, "gpt-4"@) {
        8_192
    } else if has_substring(model, "gpt-3.5-turbo-16k"@) {
        16_384
    } else {
        4_096
    }
}

/// The finish reason for a finish reason of the API.
pub fn openai_finish_reason(f: &Option<String>) -> (r: FinishReason)
    ensures
        r == openai_finish(*f),
{
    match f {
        Some(s) => {
            let s = s.as_str();
            if crate::keyed::str_equal(s, "stop") {
                FinishReason::Stop
            } else if crate::keyed::str_equal(s, "length") {
                FinishReason::Length
            } else if crate::keyed::str_equal(s, "tool_calls") {
                FinishReason::ToolCalls
            } else if crate::keyed::str_equal(s, "content_filter") {
                FinishReason::ContentFilter
            } else {
                FinishReason::Other
            }
        },
        None => FinishReason::Other,
    }
}

impl OpenAIApi {
    /// Settings for a key and model, with the public endpoint and no organization.
    pub fn new(api_key: &str, model: &str) -> (a: Self)
        ensures
            a.api_key@ == api_key@,
            a.model@ == model@,
            a.base_url@ == "https://api.openai.com"@,
            a.organization.is_none(),
    {
        OpenAIApi {
            api_key: api_key.to_owned(),
            model: model.to_owned(),
            base_url: "https://api.openai.com".to_owned(),
            organization: None,
        }
    }

    /// Use another base URL (for Azure, proxies, or testing).
    pub fn with_base_url(self, base_url: &str) -> (a: Self)
        ensures
            a == (OpenAIApi { base_url: a.base_url, ..self }),
            a.base_url@ == base_url@,
    {
        let mut a = self;
        a.base_url = base_url.to_owned();
        a
    }

    /// Set the organization ID.
    pub fn with_organization(self, org: &str) -> (a: Self)
        ensures
            a == (OpenAIApi { organization: a.organization, ..self }),
            opt_view(a.organization) == Some(org@),
    {
        let mut a = self;
        a.organization = Some(org.to_owned());
        a
    }

    /// The provider name.
    pub fn name(&self) -> (s: &'static str)
        ensures
            s@ == "openai"@,
    {
        "openai"
    }

    /// The model in use.
    pub fn model(&self) -> (s: &str)
        ensures
            s@ == self.model@,
    {
        self.model.as_str()
    }

    /// Available when an API key is set.
    pub fn is_available(&self) -> (b: bool)
        ensures
            b == (self.api_key@.len() > 0),
    {
        !self.api_key.as_str().is_empty()
    }

    /// The context window of the model.
    pub fn max_context_length(&self) -> (n: usize)
        ensures
            n == openai_context(self.model@),
    {
        let m = self.model.as_str();
        if str_contains(m, "gpt-4-turbo") || str_contains(m, "gpt-4o") {
            128_000
        } else if str_contains(m, "gpt-4-32k") {
            32_768
        } else if str_contains(m, "gpt-4") {
            8_192
        } else if str_contains(m, "gpt-3.5-turbo-16k") {
            16_384
        } else {
            4_096
        }
    }

    /// The URL of the chat completions endpoint.
    pub fn endpoint(&self) -> (s: String)
        ensures
            s@ == self.base_url@ + "/v1/chat/completions"@,
    {
        let mut s = String::new();
        push_str(&mut s, self.base_url.as_str());
        push_str(&mut s, "/v1/chat/completions");
        s
    }

    /// The request's messages: every message with its API role, content,
    /// name and tool call id (tool calls are not sent back).
    pub fn build_messages(messages: &[Message]) -> (r: Vec<OpenAIMessage>)
        ensures
            r@.len() == messages@.len(),
            forall|i: int|
                0 <= i < r@.len() ==> {
                    &&& (#[trigger] r@[i]).role@ == openai_role(messages@[i].role)
                    &&& r@[i].content == Some(messages@[i].content)
                    &&& r@[i].name == messages@[i].name
                    &&& r@[i].tool_call_id == messages@[i].tool_call_id
                    &&& r@[i].tool_calls.is_none()
                },
    {
        let mut out: Vec<OpenAIMessage> = Vec::new();
        let mut i: usize = 0;
        while i < messages.len()
            invariant
                i <= messages@.len(),
                out@.len() == i,
                forall|k: int|
                    0 <= k < i ==> {
                        &&& (#[trigger] out@[k]).role@ == openai_role(messages@[k].role)
                        &&& out@[k].content == Some(messages@[k].content)
                        &&& out@[k].name == messages@[k].name
                        &&& out@[k].tool_call_id == messages@[k].tool_call_id
                        &&& out@[k].tool_calls.is_none()
                    },
            decreases messages@.len() - i,
        {
            let m = &messages[i];
            out.push(
                OpenAIMessage {
                    role: m.role.as_str().to_owned(),
                    content: Some(m.content.clone()),
                    name: clone_opt(&m.name),
                    tool_call_id: clone_opt(&m.tool_call_id),
                    tool_calls: None,
                },
            );
            i = i + 1;
        }
        out
    }

    /// The request's tools (as functions), or none when there are no tools.
    pub fn build_tools(tools: &Vec<ToolDefinition>) -> (r: Option<Vec<OpenAITool>>)
        ensures
            tools@.len() == 0 <==> r is None,
            r matches Some(v) ==> v@.len() == tools@.len() && forall|i: int|
                0 <= i < v@.len() ==> (#[trigger] v@[i]).tool_type@ == "function"@
                    && v@[i].function.name == tools@[i].name && v@[i].function.description
                    == tools@[i].description && v@[i].function.parameters == tools@[i].parameters,
    {
        if tools.len() == 0 {
            return None;
        }
        let mut v: Vec<OpenAITool> = Vec::new();
        let mut i: usize = 0;
        while i < tools.len()
            invariant
                i <= tools@.len(),
                v@.len() == i,
                forall|k: int|
                    0 <= k < i ==> (#[trigger] v@[k]).tool_type@ == "function"@
                        && v@[k].function.name == tools@[k].name && v@[k].function.description
                        == tools@[k].description && v@[k].function.parameters == tools@[k].parameters,
            decreases tools@.len() - i,
        {
            let t = &tools[i];
            v.push(
                OpenAITool {
                    tool_type: "function".to_owned(),
                    function: OpenAIFunction {
                        name: t.name.clone(),
                        description: t.description.clone(),
                        parameters: clone_json(&t.parameters),
                    },
                },
            );
            i = i + 1;
        }
        Some(v)
    }

    /// The completion of a response's first choice: its content (empty when
    /// absent), its tool calls, its finish reason and the usage. A response
    /// without choices is a parse error.
    pub fn parse_response(response: OpenAIResponse) -> (r: Result<ChatCompletion, ProviderError>)
        ensures
            response.choices@.len() == 0 <==> r is Err,
            r matches Err(e) ==> (e matches ProviderError::ParseError(m) && m@
                == "No choices in response"@),
            r matches Ok(c) ==> {
                let choice = response.choices@[0];
                &&& c.id == response.id
                &&& c.model == response.model
                &&& c.message.wf()
                &&& c.message.role == Role::Assistant
                &&& c.message.content@ == match choice.message.content {
                    Some(t) => t@,
                    None => Seq::empty(),
                }
                &&& c.message.name.is_none()
                &&& c.message.tool_call_id.is_none()
                &&& match choice.message.tool_calls {
                    Some(v) => c.message.tool_calls matches Some(w) && w@ == api_calls(v@),
                    None => c.message.tool_calls.is_none(),
                }
                &&& c.finish_reason == openai_finish(choice.finish_reason)
                &&& c.usage.prompt_tokens == response.usage.prompt_tokens
                &&& c.usage.completion_tokens == response.usage.completion_tokens
                &&& c.usage.total_tokens == response.usage.total_tokens
                &&& c.usage.cached_tokens.is_none()
                &&& c.metadata.wf()
                &&& c.metadata.view().dom().len() == 0
            },
    {
        if response.choices.len() == 0 {
            return Err(ProviderError::ParseError("No choices in response".to_owned()));
        }
        let ghost first = response.choices@[0];
        let mut choices = response.choices;
        let choice = choices.remove(0);
        assert(choice == first);
        let finish_reason = openai_finish_reason(&choice.finish_reason);
        let text = match &choice.message.content {
            Some(t) => t.clone(),
            None => String::new(),
        };
        let mut message = Message::assistant(text.as_str());
        match choice.message.tool_calls {
            Some(calls) => {
                let mut out: Vec<ToolCall> = Vec::new();
                let mut i: usize = 0;
                while i < calls.len()
                    invariant
                        i <= calls@.len(),
                        out@ == api_calls(calls@.subrange(0, i as int)),
                    decreases calls@.len() - i,
                {
                    let c = &calls[i];
                    out.push(
                        ToolCall {
                            id: c.id.clone(),
                            name: c.function.name.clone(),
                            arguments: c.function.arguments.clone(),
                        },
                    );
                    i = i + 1;
                    assert(out@ =~= api_calls(calls@.subrange(0, i as int)));
                }
                assert(calls@.subrange(0, calls@.len() as int) =~= calls@);
                message.tool_calls = Some(out);
            },
            None => {},
        }
        Ok(
            ChatCompletion {
                id: response.id,
                model: response.model,
                message,
                finish_reason,
                usage: Usage {
                    prompt_tokens: response.usage.prompt_tokens,
                    completion_tokens: response.usage.completion_tokens,
                    total_tokens: response.usage.total_tokens,
                    cached_tokens: None,
                },
                metadata: KeyedMap::new(),
            },
        )
    }
}

} // verus!
