//! LLM client for Ollama.
//!
//! Keeps the conversation that a chat API is sent, and picks the reply.

use crate::gabby::config::{F32Bits, LlmConfig};
use vstd::prelude::*;

verus! {

/// A message of a conversation.
#[derive(Debug)]
pub struct Message {
    pub role: String,
    pub content: String,
}

/// What a message says.
#[verifier::ext_equal]
pub struct MessageView {
    pub role: Seq<char>,
    pub content: Seq<char>,
}

impl View for Message {
    type V = MessageView;

    open spec fn view(&self) -> MessageView {
        MessageView { role: self.role@, content: self.content@ }
    }
}

impl Clone for Message {
    fn clone(&self) -> (r: Self)
        ensures
            r@ == self@,
    {
        Message { role: self.role.clone(), content: self.content.clone() }
    }
}

/// What messages say.
pub open spec fn message_views(messages: Seq<Message>) -> Seq<MessageView> {
    messages.map_values(|m: Message| m@)
}

/// A request to the chat API.
#[derive(Debug, Clone)]
pub struct ChatRequest {
    pub model: String,
    pub messages: Vec<Message>,
    pub stream: bool,
    pub temperature: F32Bits,
    pub num_predict: u32,
}

/// What came of a request to the chat API.
#[derive(Debug, Clone)]
pub enum ChatReply {
    /// The server answered with this text.
    Text(String),
    /// The server answered with a failure.
    Refused,
    /// The answer could not be read.
    Unreadable,
    /// The request could not be sent.
    Unreachable,
}

impl ChatReply {
    /// What is said to the user.
    pub open spec fn spoken(self) -> Seq<char> {
        match self {
            ChatReply::Text(text) => text@,
            ChatReply::Refused => "I'm having trouble thinking right now."@,
            ChatReply::Unreadable => "I'm having trouble understanding the response."@,
            ChatReply::Unreachable => "I'm having trouble connecting right now."@,
        }
    }

    /// Whether what is said becomes part of the conversation.
    pub open spec fn remembered(self) -> bool {
        !(self is Refused) && self.spoken().len() > 0
    }
}

/// Ollama chat client.
#[derive(Debug, Clone)]
pub struct OllamaClient {
    pub endpoint: String,
    pub model: String,
    pub system_prompt: String,
    pub temperature: F32Bits,
    pub max_tokens: u32,
    pub history: Vec<Message>,
    pub max_history: usize,
}

/// How many of the oldest messages go, of `n`, where `max` may stay: as many as are too many, and
/// one more where that makes the number even, so that question and answer go together.
pub open spec fn surplus(n: nat, max: nat) -> nat {
    if n <= max {
        0
    } else {
        let excess = (n - max) as nat;
        if excess % 2 == 1 && excess < n {
            excess + 1
        } else {
            excess
        }
    }
}

/// A conversation of which at most `max` messages have stayed.
pub open spec fn trimmed_history(history: Seq<MessageView>, max: nat) -> Seq<MessageView> {
    history.skip(surplus(history.len(), max) as int)
}

/// A conversation to which a message has been added.
pub open spec fn with_message(
    history: Seq<MessageView>,
    max: nat,
    role: Seq<char>,
    content: Seq<char>,
) -> Seq<MessageView> {
    trimmed_history(history.push(MessageView { role, content }), max)
}

impl OllamaClient {
    /// What the client is set up with.
    pub open spec fn same_setup(self, other: OllamaClient) -> bool {
        self == (OllamaClient { history: self.history, ..other })
    }

    /// Create a new Ollama client from configuration.
    pub fn new(config: &LlmConfig) -> (r: Self)
        ensures
            r.endpoint@ == config.endpoint@,
            r.model@ == config.model@,
            r.system_prompt@ == config.system_prompt@,
            r.temperature == config.temperature,
            r.max_tokens == config.max_tokens,
            r.history@.len() == 0,
            r.max_history == config.max_history_messages,
    {
        OllamaClient {
            endpoint: config.endpoint.clone(),
            model: config.model.clone(),
            system_prompt: config.system_prompt.clone(),
            temperature: config.temperature,
            max_tokens: config.max_tokens,
            history: Vec::new(),
            max_history: config.max_history_messages,
        }
    }

    /// Adds a message to the conversation and trims it.
    fn remember(&mut self, role: &str, content: &str)
        ensures
            final(self).same_setup(*old(self)),
            message_views(final(self).history@) == with_message(
                message_views(old(self).history@),
                old(self).max_history as nat,
                role@,
                content@,
            ),
    {
        let message = Message { role: role.to_owned(), content: content.to_owned() };
        self.history.push(message);
        assert(message_views(self.history@) =~= message_views(old(self).history@).push(
            message@,
        ));
        self.trim_history();
    }

    /// Adds what the user said to the conversation. Returns the request to send.
    pub fn ask(&mut self, user_input: &str) -> (r: ChatRequest)
        ensures
            final(self).same_setup(*old(self)),
            message_views(final(self).history@) == with_message(
                message_views(old(self).history@),
                old(self).max_history as nat,
                "user"@,
                user_input@,
            ),
            r.model@ == old(self).model@,
            message_views(r.messages@) == seq![
                MessageView { role: "system"@, content: old(self).system_prompt@ },
            ] + message_views(final(self).history@),
            !r.stream,
            r.temperature == old(self).temperature,
            r.num_predict == old(self).max_tokens,
    {
        self.remember("user", user_input);
        let mut messages: Vec<Message> = Vec::new();
        messages.push(
            Message { role: "system".to_owned(), content: self.system_prompt.clone() },
        );
        let mut i: usize = 0;
        while i < self.history.len()
            invariant
                i <= self.history@.len(),
                messages@.len() == i + 1,
                messages@[0]@ == (MessageView {
                    role: "system"@,
                    content: self.system_prompt@,
                }),
                forall|k: int| 0 <= k < i ==> #[trigger] messages@[k + 1]@ == self.history@[k]@,
            decreases self.history@.len() - i,
        {
            messages.push(self.history[i].clone());
            i = i + 1;
        }
        assert forall|k: int| 0 <= k < messages@.len() implies #[trigger] message_views(
            messages@,
        )[k] == (seq![MessageView { role: "system"@, content: self.system_prompt@ }]
            + message_views(self.history@))[k] by {
            if k > 0 {
                assert(messages@[(k - 1) + 1]@ == self.history@[k - 1]@);
            }
        }
        assert(message_views(messages@) =~= seq![
            MessageView { role: "system"@, content: self.system_prompt@ },
        ] + message_views(self.history@));
        ChatRequest {
            model: self.model.clone(),
            messages,
            stream: false,
            temperature: self.temperature,
            num_predict: self.max_tokens,
        }
    }

    /// Adds a reply to the conversation. Returns what is said to the user.
    pub fn on_reply(&mut self, reply: ChatReply) -> (r: String)
        ensures
            final(self).same_setup(*old(self)),
            r@ == reply.spoken(),
            message_views(final(self).history@) == if reply.remembered() {
                with_message(
                    message_views(old(self).history@),
                    old(self).max_history as nat,
                    "assistant"@,
                    reply.spoken(),
                )
            } else {
                message_views(old(self).history@)
            },
    {
        let response: String = match reply {
            ChatReply::Text(text) => text,
            ChatReply::Refused => {
                return "I'm having trouble thinking right now.".to_owned();
            },
            ChatReply::Unreadable => "I'm having trouble understanding the response.".to_owned(),
            ChatReply::Unreachable => "I'm having trouble connecting right now.".to_owned(),
        };
        if !response.as_str().is_empty() {
            self.remember("assistant", response.as_str());
        }
        response
    }

    /// Trim conversation history to stay within limits.
    pub fn trim_history(&mut self)
        ensures
            final(self).same_setup(*old(self)),
            message_views(final(self).history@) == trimmed_history(
                message_views(old(self).history@),
                old(self).max_history as nat,
            ),
    {
        let n: usize = self.history.len();
        assert(message_views(self.history@).skip(0) =~= message_views(self.history@));
        if n > self.max_history {
            // Remove oldest messages, keeping pairs (user + assistant)
            let excess: usize = n - self.max_history;
            let to_remove: usize = if excess % 2 == 1 && excess < n {
                excess + 1
            } else {
                excess
            };
            let rest: Vec<Message> = self.history.split_off(to_remove);
            self.history = rest;
            assert(message_views(self.history@) =~= message_views(old(self).history@).skip(
                to_remove as int,
            ));
        }
    }

    /// Add an assistant response to history.
    pub fn add_assistant_response(&mut self, response: &str)
        ensures
            final(self).same_setup(*old(self)),
            message_views(final(self).history@) == with_message(
                message_views(old(self).history@),
                old(self).max_history as nat,
                "assistant"@,
                response@,
            ),
    {
        self.remember("assistant", response);
    }

    /// Clear conversation history.
    pub fn clear_history(&mut self)
        ensures
            final(self).same_setup(*old(self)),
            final(self).history@.len() == 0,
    {
        self.history.clear();
    }
}

/// Whatever is added, the conversation stays within its limit, what is kept is its latest part,
/// and from a limit above zero on messages go in pairs.
pub proof fn lemma_history_bounded(history: Seq<MessageView>, max: nat)
    ensures
        trimmed_history(history, max).len() <= max,
        trimmed_history(history, max).is_suffix_of(history),
        max > 0 ==> surplus(history.len(), max) % 2 == 0,
        history.len() <= max ==> trimmed_history(history, max) == history,
{
    assert(history.skip(0) =~= history);
}

} // verus!
