//! Chat types that a backend adapter translates to an OpenAI-style API.
use vstd::prelude::*;

verus! {

/// Author of a chat message.
pub enum ChatRole {
    System,
    User,
    Assistant,
}

impl ChatRole {
    /// The role's name in an OpenAI-style request.
    pub fn as_str(&self) -> (r: &'static str)
        ensures
            r@ == match *self {
                ChatRole::System => "system"@,
                ChatRole::User => "user"@,
                ChatRole::Assistant => "assistant"@,
            },
    {
        match self {
            ChatRole::System => "system",
            ChatRole::User => "user",
            ChatRole::Assistant => "assistant",
        }
    }
}

/// One message of a conversation.
pub struct ChatMessage {
    pub role: ChatRole,
    pub content: String,
}

/// A backend's answer.
pub struct ChatResponse {
    pub content: String,
}

/// `s` without its trailing slashes.
pub open spec fn trim_trailing_slashes(s: Seq<char>) -> Seq<char>
    decreases s.len(),
{
    if s.len() > 0 && s.last() == '/' {
        trim_trailing_slashes(s.drop_last())
    } else {
        s
    }
}

/// The chat-completions URL of a backend at `base_url`.
pub fn chat_completions_url(base_url: &str) -> (r: String)
    ensures
        r@ == trim_trailing_slashes(base_url@) + "/v1/chat/completions"@,
{
    let mut end = base_url.unicode_len();
    proof {
        assert(base_url@.subrange(0, base_url@.len() as int) =~= base_url@);
    }
    while end > 0 && base_url.get_char(end - 1) == '/'
        invariant
            end <= base_url@.len(),
            trim_trailing_slashes(base_url@.subrange(0, end as int)) == trim_trailing_slashes(
                base_url@,
            ),
        decreases end,
    {
        proof {
            let s = base_url@.subrange(0, end as int);
            assert(s.drop_last() =~= base_url@.subrange(0, end - 1));
        }
        end = end - 1;
    }
    let mut url = String::from_str(base_url.substring_char(0, end));
    url.append("/v1/chat/completions");
    url
}

} // verus!
