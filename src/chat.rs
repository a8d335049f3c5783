//! The boundary with the language-model client: the transcript handed over
//! as the client's message history.

use vstd::prelude::*;

use crate::conversation::{transcript_of, Conversation};
use crate::event::ChatRole;
use crate::payloads::ConversationMessagePayload;
use chatgpt::converse::Conversation as ChatConversation;

verus! {

#[verifier::external_type_specification]
pub struct ExRole(chatgpt::types::Role);

#[verifier::external_type_specification]
pub struct ExChatMessage(chatgpt::types::ChatMessage);

#[verifier::external_type_specification]
#[verifier::external_body]
pub struct ExChatGPT(chatgpt::client::ChatGPT);

#[verifier::external_type_specification]
#[verifier::external_body]
pub struct ExChatConversation(ChatConversation);

/// The message history that a client conversation holds.
pub uninterp spec fn chat_history(c: ChatConversation) -> Seq<chatgpt::types::ChatMessage>;

/// Relies on `chatgpt::converse::Conversation::new_with_history`: a
/// conversation on `client` whose history is `history`, as given.
#[verifier::external_body]
fn conversation_with_history(client: chatgpt::client::ChatGPT, history: Vec<chatgpt::types::ChatMessage>) -> (r:
    ChatConversation)
    ensures
        chat_history(r) == history@,
{
    ChatConversation::new_with_history(client, history)
}

/// The client's role for each author.
pub open spec fn role_of(a: ChatRole) -> chatgpt::types::Role {
    match a {
        ChatRole::System => chatgpt::types::Role::System,
        ChatRole::Assistant => chatgpt::types::Role::Assistant,
        ChatRole::User => chatgpt::types::Role::User,
    }
}

/// The author for each of the client's roles.
pub open spec fn author_of(r: chatgpt::types::Role) -> ChatRole {
    match r {
        chatgpt::types::Role::System => ChatRole::System,
        chatgpt::types::Role::Assistant => ChatRole::Assistant,
        chatgpt::types::Role::User => ChatRole::User,
    }
}

impl From<chatgpt::types::Role> for ChatRole {
    fn from(role: chatgpt::types::Role) -> (r: Self) {
        match role {
            chatgpt::types::Role::System => ChatRole::System,
            chatgpt::types::Role::Assistant => ChatRole::Assistant,
            chatgpt::types::Role::User => ChatRole::User,
        }
    }
}

impl vstd::std_specs::convert::FromSpecImpl<chatgpt::types::Role> for ChatRole {
    open spec fn obeys_from_spec() -> bool {
        true
    }

    open spec fn from_spec(v: chatgpt::types::Role) -> Self {
        author_of(v)
    }
}

impl From<ChatRole> for chatgpt::types::Role {
    fn from(chat_role: ChatRole) -> (r: Self) {
        match chat_role {
            ChatRole::System => chatgpt::types::Role::System,
            ChatRole::Assistant => chatgpt::types::Role::Assistant,
            ChatRole::User => chatgpt::types::Role::User,
        }
    }
}

impl vstd::std_specs::convert::FromSpecImpl<ChatRole> for chatgpt::types::Role {
    open spec fn obeys_from_spec() -> bool {
        true
    }

    open spec fn from_spec(v: ChatRole) -> Self {
        role_of(v)
    }
}

/// `m` is the client's form of the chat turn `p`.
pub open spec fn is_chat_message(m: chatgpt::types::ChatMessage, p: ConversationMessagePayload) -> bool {
    m.role == role_of(p.author) && m.content == p.content
}

/// The client's form of each chat turn, in order.
pub fn chat_messages(turns: &Vec<ConversationMessagePayload>) -> (r: Vec<chatgpt::types::ChatMessage>)
    ensures
        r@.len() == turns@.len(),
        forall|i: int| 0 <= i < turns@.len() ==> is_chat_message(#[trigger] r@[i], turns@[i]),
{
    let mut out: Vec<chatgpt::types::ChatMessage> = Vec::new();
    for i in 0..turns.len()
        invariant
            out@.len() == i,
            forall|j: int| 0 <= j < i ==> is_chat_message(#[trigger] out@[j], turns@[j]),
    {
        let turn = &turns[i];
        out.push(chatgpt::types::ChatMessage { role: chatgpt::types::Role::from(turn.author), content: turn.content.clone() });
    }
    out
}

/// A client conversation on `client` whose history is the given turns.
pub fn chat_conversation(client: chatgpt::client::ChatGPT, turns: &Vec<ConversationMessagePayload>) -> (r:
    ChatConversation)
    ensures
        chat_history(r).len() == turns@.len(),
        forall|i: int| 0 <= i < turns@.len() ==> is_chat_message(#[trigger] chat_history(r)[i], turns@[i]),
{
    conversation_with_history(client, chat_messages(turns))
}

impl Conversation {
    /// A client conversation on `chatgpt` whose history is this
    /// conversation's transcript.
    pub fn into_chatgpt_conversation(&self, chatgpt: chatgpt::client::ChatGPT) -> (r: ChatConversation)
        ensures
            chat_history(r).len() == transcript_of(self@.history).len(),
            forall|i: int| 0 <= i < transcript_of(self@.history).len() ==> is_chat_message(
                #[trigger] chat_history(r)[i],
                transcript_of(self@.history)[i],
            ),
    {
        let turns = self.transcript();
        chat_conversation(chatgpt, &turns)
    }
}

} // verus!
