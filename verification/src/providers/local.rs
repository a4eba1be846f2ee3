//! The chat format of the local model: each message framed by role
//! markers, then an opening for the assistant's reply.

use vstd::prelude::*;
use crate::text::push_str;
use super::types::{Message, Role};

verus! {

/// The opening marker of a role.
pub open spec fn role_marker(r: Role) -> Seq<char> {
    match r {
        Role::System => "<|system|>\n"@,
        Role::User => "<|user|>\n"@,
        Role::Assistant => "<|assistant|>\n"@,
        Role::Tool => "<|tool|>\n"@,
    }
}

/// The framed messages, in order.
pub open spec fn framed(s: Seq<Message>) -> Seq<char>
    decreases s.len(),
{
    if s.len() == 0 {
        Seq::empty()
    } else {
        framed(s.drop_last()) + role_marker(s.last().role) + s.last().content@ + "\n<|end|>\n"@
    }
}

/// The prompt for a conversation: the framed messages, then the opening
/// of the assistant's reply.
pub open spec fn prompt_text(s: Seq<Message>) -> Seq<char> {
    framed(s) + "<|assistant|>\n"@
}

/// Formats messages into the local model's prompt.
pub fn format_prompt(messages: &[Message]) -> (p: String)
    ensures
        p@ == prompt_text(messages@),
{
    let mut prompt = String::new();
    let mut i: usize = 0;
    while i < messages.len()
        invariant
            i <= messages@.len(),
            prompt@ == framed(messages@.subrange(0, i as int)),
        decreases messages@.len() - i,
    {
        let msg = &messages[i];
        let marker = match msg.role {
            Role::System => "<|system|>\n",
            Role::User => "<|user|>\n",
            Role::Assistant => "<|assistant|>\n",
            Role::Tool => "<|tool|>\n",
        };
        push_str(&mut prompt, marker);
        push_str(&mut prompt, msg.content.as_str());
        push_str(&mut prompt, "\n<|end|>\n");
        proof {
            assert(messages@.subrange(0, i + 1).drop_last() =~= messages@.subrange(0, i as int));
        }
        i = i + 1;
        assert(prompt@ =~= framed(messages@.subrange(0, i as int)));
    }
    assert(messages@.subrange(0, messages@.len() as int) =~= messages@);
    push_str(&mut prompt, "<|assistant|>\n");
    prompt
}

/// Each message is framed by the marker of its own role: appending a
/// message to a conversation appends to the framed text `<|system|>`,
/// `<|user|>`, `<|assistant|>` or `<|tool|>` (by the message's role) on a
/// line of its own, then the content and an end marker; and the prompt is
/// the framed conversation followed by the opening of the assistant's reply.
pub proof fn law_messages_framed_by_role(s: Seq<Message>, m: Message)
    ensures
        m.role == Role::System ==> framed(s.push(m)) == framed(s) + "<|system|>\n"@ + m.content@
            + "\n<|end|>\n"@,
        m.role == Role::User ==> framed(s.push(m)) == framed(s) + "<|user|>\n"@ + m.content@
            + "\n<|end|>\n"@,
        m.role == Role::Assistant ==> framed(s.push(m)) == framed(s) + "<|assistant|>\n"@
            + m.content@ + "\n<|end|>\n"@,
        m.role == Role::Tool ==> framed(s.push(m)) == framed(s) + "<|tool|>\n"@ + m.content@
            + "\n<|end|>\n"@,
        framed(Seq::<Message>::empty()) == Seq::<char>::empty(),
        prompt_text(s) == framed(s) + "<|assistant|>\n"@,
{
    assert(s.push(m).drop_last() =~= s);
}

} // verus!
