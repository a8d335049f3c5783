//! What the store hands to the user interface.

use vstd::prelude::*;

use crate::error::MyError;
use crate::event::ChatRole;

verus! {

/// A chat turn as the transcript shows it.
#[derive(Debug)]
pub struct ConversationMessagePayload {
    pub author: ChatRole,
    pub content: String,
}

/// Notice that a conversation was renamed.
#[derive(Debug)]
pub struct ConversationTitleChangedEventPayload {
    pub conversation_id: u128,
    pub new_title: String,
}

/// Notice that a chat turn was added to a conversation.
#[derive(Debug)]
pub struct ConversationMessageAddedEventPayload {
    pub conversation_id: u128,
    pub author: ChatRole,
    pub content: String,
}

/// Notice that a conversation was created.
#[derive(Debug)]
pub struct ConversationAddedEvent {
    pub conversation_id: u128,
    pub title: String,
}

/// Every notice payload, so that the interface layer can name their types.
#[derive(Debug)]
pub enum WrapType {
    Nothing,
    ConversationTitleChangedEventPayload(ConversationTitleChangedEventPayload),
    ConversationMessagePayload(ConversationMessagePayload),
}

/// Accepts any notice payload and does nothing; it exists so that the
/// interface layer sees the payload types in a command signature.
pub fn wrap_event_payloads(_bruh: WrapType) -> (r: Result<(), MyError>)
    ensures
        r is Ok,
{
    Ok(())
}

impl Clone for ConversationMessagePayload {
    fn clone(&self) -> (r: Self)
        ensures
            r == *self,
    {
        ConversationMessagePayload { author: self.author, content: self.content.clone() }
    }
}

} // verus!
