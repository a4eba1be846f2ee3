//! The Anthropic messages API: how a conversation becomes a request and how
//! a response becomes a completion. The HTTP exchange itself is made by the
//! caller.

use vstd::prelude::*;
use crate::text::{has_substring, push_str, str_contains};
use super::types::{
    clone_json, ChatCompletion, FinishReason, Message, ProviderError, Role, ToolCall,
    ToolDefinition, Usage,
};
use crate::keyed::KeyedMap;

verus! {

broadcast use vstd::seq_lib::group_seq_properties;

/// Connection settings of the Anthropic API.
#[derive(Debug)]
pub struct AnthropicApi {
    /// API key
    pub api_key: String,
    /// Model ID
    pub model: String,
    /// Base URL
    pub base_url: String,
    /// API version
    pub api_version: String,
}

/// A message as the API takes it.
#[derive(Debug)]
pub struct AnthropicMessage {
    pub role: String,
    pub content: String,
}

/// A tool as the API takes it.
#[derive(Debug)]
pub struct AnthropicTool {
    pub name: String,
    pub description: String,
    pub input_schema: serde_json::Value,
}

/// One block of a response's content.
#[derive(Debug)]
pub enum ContentBlock {
    /// Text
    Text { text: String },
    /// A tool call; its input is the JSON text of the arguments
    ToolUse { id: String, name: String, input: String },
}

/// Token counts of a response.
#[derive(Debug)]
pub struct AnthropicUsage {
    pub input_tokens: usize,
    pub output_tokens: usize,
    pub cache_read_input_tokens: Option<usize>,
}

/// A response of the API.
#[derive(Debug)]
pub struct AnthropicResponse {
    pub id: String,
    pub model: String,
    pub content: Vec<ContentBlock>,
    pub stop_reason: Option<String>,
    pub usage: AnthropicUsage,
}

/// The role name the API takes (tool results go as user messages).
pub open spec fn anthropic_role(r: Role) -> Seq<char> {
    match r {
        Role::Assistant => "assistant"@,
        _ => "user"@,
    }
}

/// The content of the first system message, if any.
pub open spec fn first_system(s: Seq<Message>) -> Option<Seq<char>>
    decreases s.len(),
{
    if s.len() == 0 {
        None
    } else if s[0].role == Role::System {
        Some(s[0].content@)
    } else {
        first_system(s.drop_first())
    }
}

/// The messages that are not system messages, in order.
pub open spec fn non_system(s: Seq<Message>) -> Seq<Message>
    decreases s.len(),
{
    if s.len() == 0 {
        s
    } else if s.last().role == Role::System {
        non_system(s.drop_last())
    } else {
        non_system(s.drop_last()).push(s.last())
    }
}

/// The concatenated text blocks of a response.
pub open spec fn blocks_text(b: Seq<ContentBlock>) -> Seq<char>
    decreases b.len(),
{
    if b.len() == 0 {
        Seq::empty()
    } else {
        blocks_text(b.drop_last()) + match b.last() {
            ContentBlock::Text { text } => text@,
            ContentBlock::ToolUse { .. } => Seq::empty(),
        }
    }
}

/// The tool calls of a response's blocks, in order.
pub open spec fn blocks_calls(b: Seq<ContentBlock>) -> Seq<ToolCall>
    decreases b.len(),
{
    if b.len() == 0 {
        Seq::empty()
    } else {
        match b.last() {
            ContentBlock::Text { .. } => blocks_calls(b.drop_last()),
            ContentBlock::ToolUse { id, name, input } => blocks_calls(b.drop_last()).push(
                ToolCall { id, name, arguments: input },
            ),
        }
    }
}

/// The finish reason for a stop reason of the API.
pub open spec fn anthropic_finish(stop: Option<String>) -> FinishReason {
    match stop {
        Some(s) => if s@ == "end_turn"@ {
            FinishReason::Stop
        } else if s@ == "max_tokens"@ {
            FinishReason::Length
        } else if s@ == "stop_sequence"@ {
            FinishReason::StopSequence
        } else if s@ == "tool_use"@ {
            FinishReason::ToolCalls
        } else {
            FinishReason::Other
        },
        None => FinishReason::Other,
    }
}

/// The system prompt and the other messages of a request.
#[derive(Debug)]
pub struct AnthropicMessages {
    pub system: Option<String>,
    pub messages: Vec<AnthropicMessage>,
}

/// The finish reason for a stop reason of the API.
pub fn anthropic_finish_reason(stop: &Option<String>) -> (f: FinishReason)
    ensures
        f == anthropic_finish(*stop),
{
    match stop {
        Some(s) => {
            let s = s.as_str();
            if crate::keyed::str_equal(s, "end_turn") {
                FinishReason::Stop
            } else if crate::keyed::str_equal(s, "max_tokens") {
                FinishReason::Length
            } else if crate::keyed::str_equal(s, "stop_sequence") {
                FinishReason::StopSequence
            } else if crate::keyed::str_equal(s, "tool_use") {
                FinishReason::ToolCalls
            } else {
                FinishReason::Other
            }
        },
        None => FinishReason::Other,
    }
}

impl AnthropicApi {
    /// Settings for a key and model, with the public endpoint and API version 2023-06-01.
    pub fn new(api_key: &str, model: &str) -> (a: Self)
        ensures
            a.api_key@ == api_key@,
            a.model@ == model@,
            a.base_url@ == "https://api.anthropic.com"@,
            a.api_version@ == "2023-06-01"@,
    {
        AnthropicApi {
            api_key: api_key.to_owned(),
            model: model.to_owned(),
            base_url: "https://api.anthropic.com".to_owned(),
            api_version: "2023-06-01".to_owned(),
        }
    }

    /// Use another base URL (for proxies or testing).
    pub fn with_base_url(self, base_url: &str) -> (a: Self)
        ensures
            a == (AnthropicApi { base_url: a.base_url, ..self }),
            a.base_url@ == base_url@,
    {
        let mut a = self;
        a.base_url = base_url.to_owned();
        a
    }

    /// Use another API version.
    pub fn with_api_version(self, version: &str) -> (a: Self)
        ensures
            a == (AnthropicApi { api_version: a.api_version, ..self }),
            a.api_version@ == version@,
    {
        let mut a = self;
        a.api_version = version.to_owned();
        a
    }

    /// The provider name.
    pub fn name(&self) -> (s: &'static str)
        ensures
            s@ == "anthropic"@,
    {
        "anthropic"
    }

    /// The model in use.
    pub fn model(&self) -> (s: &str)
        ensures
            s@ == self.model@,
    {
        self.model.as_str()
    }

    /// Available when an API key is set.
    pub fn is_available(&self) -> (b: bool)
        ensures
            b == (self.api_key@.len() > 0),
    {
        !self.api_key.as_str().is_empty()
    }

    /// The context window: 200,000 tokens for third-generation models
    /// (whose name holds `-3`), 100,000 otherwise.
    pub fn max_context_length(&self) -> (n: usize)
        ensures
            n == if has_substring(self.model@, "-3"@) {
                200_000usize
            } else {
                100_000usize
            },
    {
        if str_contains(self.model.as_str(), "-3") {
            200_000
        } else {
            100_000
        }
    }

    /// The URL of the messages endpoint.
    pub fn endpoint(&self) -> (s: String)
        ensures
            s@ == self.base_url@ + "/v1/messages"@,
    {
        let mut s = String::new();
        push_str(&mut s, self.base_url.as_str());
        push_str(&mut s, "/v1/messages");
        s
    }

    /// The request's messages: the first system message becomes the system
    /// prompt; every other message is sent with its API role.
    pub fn build_messages(messages: &[Message]) -> (r: AnthropicMessages)
        ensures
            match r.system {
                Some(s) => first_system(messages@) == Some(s@),
                None => first_system(messages@).is_none(),
            },
            r.messages@.len() == non_system(messages@).len(),
            forall|i: int|
                0 <= i < r.messages@.len() ==> (#[trigger] r.messages@[i]).role@ == anthropic_role(
                    non_system(messages@)[i].role,
                ) && r.messages@[i].content@ == non_system(messages@)[i].content@,
    {
        let mut system: Option<String> = None;
        let mut out: Vec<AnthropicMessage> = Vec::new();
        let mut i: usize = 0;
        while i < messages.len()
            invariant
                i <= messages@.len(),
                match system {
                    Some(s) => first_system(messages@.subrange(0, i as int)) == Some(s@),
                    None => first_system(messages@.subrange(0, i as int)).is_none(),
                },
                out@.len() == non_system(messages@.subrange(0, i as int)).len(),
                forall|k: int|
                    0 <= k < out@.len() ==> (#[trigger] out@[k]).role@ == anthropic_role(
                        non_system(messages@.subrange(0, i as int))[k].role,
                    ) && out@[k].content@ == non_system(messages@.subrange(0, i as int))[k].content@,
            decreases messages@.len() - i,
        {
            let m = &messages[i];
            proof {
                assert(messages@.subrange(0, i + 1).drop_last() =~= messages@.subrange(0, i as int));
                lemma_first_system_push(messages@.subrange(0, i as int), messages@[i as int]);
                assert(messages@.subrange(0, i as int).push(messages@[i as int]) =~= messages@.subrange(0, i + 1));
            }
            if m.role == Role::System {
                if system.is_none() {
                    system = Some(m.content.clone());
                }
            } else {
                let role = match m.role {
                    Role::Assistant => "assistant",
                    _ => "user",
                };
                out.push(AnthropicMessage { role: role.to_owned(), content: m.content.clone() });
            }
            i = i + 1;
        }
        assert(messages@.subrange(0, messages@.len() as int) =~= messages@);
        AnthropicMessages { system, messages: out }
    }

    /// The request's tools, or none when there are no tools.
    pub fn build_tools(tools: &Vec<ToolDefinition>) -> (r: Option<Vec<AnthropicTool>>)
        ensures
            tools@.len() == 0 <==> r is None,
            r matches Some(v) ==> v@.len() == tools@.len() && forall|i: int|
                0 <= i < v@.len() ==> (#[trigger] v@[i]).name == tools@[i].name
                    && v@[i].description == tools@[i].description && v@[i].input_schema
                    == tools@[i].parameters,
    {
        if tools.len() == 0 {
            return None;
        }
        let mut v: Vec<AnthropicTool> = Vec::new();
        let mut i: usize = 0;
        while i < tools.len()
            invariant
                i <= tools@.len(),
                v@.len() == i,
                forall|k: int|
                    0 <= k < i ==> (#[trigger] v@[k]).name == tools@[k].name && v@[k].description
                        == tools@[k].description && v@[k].input_schema == tools@[k].parameters,
            decreases tools@.len() - i,
        {
            let t = &tools[i];
            v.push(
                AnthropicTool {
                    name: t.name.clone(),
                    description: t.description.clone(),
                    input_schema: clone_json(&t.parameters),
                },
            );
            i = i + 1;
        }
        Some(v)
    }

    /// The completion of a response: its text blocks joined, its tool calls
    /// in order (none when there are none), its stop reason and usage.
    pub fn parse_response(response: AnthropicResponse) -> (r: Result<ChatCompletion, ProviderError>)
        requires
            response.usage.input_tokens + response.usage.output_tokens <= usize::MAX,
        ensures
            r matches Ok(c) && {
                &&& c.id == response.id
                &&& c.model == response.model
                &&& c.message.wf()
                &&& c.message.role == Role::Assistant
                &&& c.message.content@ == blocks_text(response.content@)
                &&& c.message.name.is_none()
                &&& c.message.tool_call_id.is_none()
                &&& (blocks_calls(response.content@).len() == 0 ==> c.message.tool_calls.is_none())
                &&& (blocks_calls(response.content@).len() > 0 ==> (c.message.tool_calls matches Some(
                    v,
                ) && v@ == blocks_calls(response.content@)))
                &&& c.finish_reason == anthropic_finish(response.stop_reason)
                &&& c.usage.prompt_tokens == response.usage.input_tokens
                &&& c.usage.completion_tokens == response.usage.output_tokens
                &&& c.usage.total_tokens == response.usage.input_tokens
                    + response.usage.output_tokens
                &&& c.usage.cached_tokens == response.usage.cache_read_input_tokens
                &&& c.metadata.wf()
                &&& c.metadata.view().dom().len() == 0
            },
    {
        let mut content = String::new();
        let mut calls: Vec<ToolCall> = Vec::new();
        let mut i: usize = 0;
        while i < response.content.len()
            invariant
                i <= response.content@.len(),
                content@ == blocks_text(response.content@.subrange(0, i as int)),
                calls@ == blocks_calls(response.content@.subrange(0, i as int)),
            decreases response.content@.len() - i,
        {
            proof {
                assert(response.content@.subrange(0, i + 1).drop_last() =~= response.content@.subrange(
                    0,
                    i as int,
                ));
            }
            match &response.content[i] {
                ContentBlock::Text { text } => {
                    push_str(&mut content, text.as_str());
                },
                ContentBlock::ToolUse { id, name, input } => {
                    calls.push(
                        ToolCall { id: id.clone(), name: name.clone(), arguments: input.clone() },
                    );
                },
            }
            i = i + 1;
        }
        assert(response.content@.subrange(0, response.content@.len() as int) =~= response.content@);
        let finish_reason = anthropic_finish_reason(&response.stop_reason);
        let mut message = Message::assistant(content.as_str());
        if calls.len() > 0 {
            message.tool_calls = Some(calls);
        }
        Ok(
            ChatCompletion {
                id: response.id,
                model: response.model,
                message,
                finish_reason,
                usage: Usage {
                    prompt_tokens: response.usage.input_tokens,
                    completion_tokens: response.usage.output_tokens,
                    total_tokens: response.usage.input_tokens + response.usage.output_tokens,
                    cached_tokens: response.usage.cache_read_input_tokens,
                },
                metadata: KeyedMap::new(),
            },
        )
    }
}

proof fn lemma_first_system_push(s: Seq<Message>, m: Message)
    ensures
        first_system(s.push(m)) == match first_system(s) {
            Some(c) => Some(c),
            None => if m.role == Role::System {
                Some(m.content@)
            } else {
                None
            },
        },
        non_system(s.push(m)) == if m.role == Role::System {
            non_system(s)
        } else {
            non_system(s).push(m)
        },
    decreases s.len(),
{
    assert(s.push(m).drop_last() =~= s);
    if s.len() > 0 {
        assert(s.push(m).drop_first() =~= s.drop_first().push(m));
        lemma_first_system_push(s.drop_first(), m);
    } else {
        assert(s.push(m).drop_first() =~= Seq::<Message>::empty());
    }
}

} // verus!
