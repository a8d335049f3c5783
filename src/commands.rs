//! The operations that the user interface invokes, on a store that the caller
//! has locked: shared access for the queries, exclusive access for the
//! changes. The caller persists the store after each change that succeeded
//! and delivers the returned notice.

use vstd::prelude::*;
use std::collections::HashMap;

use crate::conversation::{appended, title_of, transcript_of, Conversation};
use crate::error::MyError;
use crate::event::{ChatRole, ConversationEvent, ConversationMessageAddedEvent, ConversationTitleChangedEvent};
use crate::ids::{parse_id, trim_text, trimmed, uuid_parse};
use crate::payloads::{
    ConversationMessageAddedEventPayload, ConversationMessagePayload, ConversationTitleChangedEventPayload,
};
use crate::store::{ConversationManager, StoreView};

verus! {

/// What a conversation reference leads to in a store: the id it spells when
/// that id is registered; `UUIDParseFail` when the text is not an id;
/// `FindByIDFail` when the id is registered nowhere.
pub open spec fn resolution(m: StoreView, conversation_id: Seq<char>) -> Result<u128, MyError> {
    match uuid_parse(conversation_id) {
        None => Err(MyError::UUIDParseFail),
        Some(id) => if m.contains_key(id) {
            Ok(id)
        } else {
            Err(MyError::FindByIDFail)
        },
    }
}

/// The registered id that `conversation_id` spells (see [`resolution`]).
pub fn resolve_conversation_id(mgr: &ConversationManager, conversation_id: &str) -> (r: Result<u128, MyError>)
    ensures
        r == resolution(mgr@, conversation_id@),
{
    match parse_id(conversation_id) {
        None => Err(MyError::UUIDParseFail),
        Some(id) => match mgr.get(id) {
            Some(_) => Ok(id),
            None => Err(MyError::FindByIDFail),
        },
    }
}

/// Every conversation's title, under its id.
pub fn list_conversation_titles(mgr: &ConversationManager) -> (r: HashMap<u128, String>)
    ensures
        r@.dom() == mgr@.dom(),
        forall|k: u128| #[trigger] r@.contains_key(k) ==> r@[k]@ == title_of(mgr@[k].history),
{
    mgr.title_index()
}

/// A copy of the conversation that `conversation_id` names.
pub fn get_conversation(mgr: &ConversationManager, conversation_id: &str) -> (r: Result<Conversation, MyError>)
    ensures
        match resolution(mgr@, conversation_id@) {
            Ok(id) => r is Ok && r->Ok_0@ == mgr@[id] && r->Ok_0@.id == id,
            Err(e) => r == Err::<Conversation, MyError>(e),
        },
{
    let id = resolve_conversation_id(mgr, conversation_id)?;
    match mgr.get(id) {
        Some(c) => Ok(c.clone()),
        None => Err(MyError::FindByIDFail),
    }
}

/// The title of the conversation that `conversation_id` names.
pub fn get_conversation_title(mgr: &ConversationManager, conversation_id: &str) -> (r: Result<String, MyError>)
    ensures
        match resolution(mgr@, conversation_id@) {
            Ok(id) => r is Ok && r->Ok_0@ == title_of(mgr@[id].history),
            Err(e) => r == Err::<String, MyError>(e),
        },
{
    let id = resolve_conversation_id(mgr, conversation_id)?;
    match mgr.get(id) {
        Some(c) => Ok(c.get_title()),
        None => Err(MyError::FindByIDFail),
    }
}

/// The transcript of the conversation that `conversation_id` names.
pub fn get_conversation_messages(mgr: &ConversationManager, conversation_id: &str) -> (r: Result<
    Vec<ConversationMessagePayload>,
    MyError,
>)
    ensures
        match resolution(mgr@, conversation_id@) {
            Ok(id) => r is Ok && r->Ok_0@ == transcript_of(mgr@[id].history),
            Err(e) => r == Err::<Vec<ConversationMessagePayload>, MyError>(e),
        },
{
    let id = resolve_conversation_id(mgr, conversation_id)?;
    match mgr.get(id) {
        Some(c) => Ok(c.transcript()),
        None => Err(MyError::FindByIDFail),
    }
}

/// Creates and registers an empty conversation under a new id; returns a
/// copy of it.
pub fn new_conversation(mgr: &mut ConversationManager) -> (r: Conversation)
    ensures
        !old(mgr)@.contains_key(r@.id),
        r@.history.len() == 0,
        final(mgr)@ == old(mgr)@.insert(r@.id, r@),
{
    mgr.create_conversation()
}

/// Renames the conversation that `conversation_id` names to `new_title`
/// with surrounding white space removed (see
/// [`ConversationManager::set_title`]). Returns the notice to deliver, or
/// `None` when the title was already that and nothing changed.
pub fn set_conversation_title(mgr: &mut ConversationManager, conversation_id: &str, new_title: &str) -> (r: Result<
    Option<ConversationTitleChangedEventPayload>,
    MyError,
>)
    ensures
        match resolution(old(mgr)@, conversation_id@) {
            Err(e) => r == Err::<Option<ConversationTitleChangedEventPayload>, MyError>(e) && final(mgr)@ == old(mgr)@,
            Ok(id) => r is Ok && if trimmed(new_title@) == title_of(old(mgr)@[id].history) {
                r->Ok_0 is None && final(mgr)@ == old(mgr)@
            } else {
                &&& r->Ok_0 is Some
                &&& r->Ok_0->Some_0.conversation_id == id
                &&& r->Ok_0->Some_0.new_title@ == trimmed(new_title@)
                &&& final(mgr)@ == old(mgr)@.insert(id, final(mgr)@[id])
                &&& appended(
                    old(mgr)@[id],
                    final(mgr)@[id],
                    ConversationEvent::TitleChange(ConversationTitleChangedEvent { new_title: r->Ok_0->Some_0.new_title }),
                )
            },
        },
{
    let id = resolve_conversation_id(mgr, conversation_id)?;
    let title = trim_text(new_title);
    let notice_title = title.clone();
    match mgr.set_title(id, title) {
        Ok(true) => Ok(Some(ConversationTitleChangedEventPayload { conversation_id: id, new_title: notice_title })),
        Ok(false) => Ok(None),
        Err(e) => Err(e),
    }
}

/// Appends a user message with `content` to the conversation that
/// `conversation_id` names; returns the notice to deliver.
pub fn new_conversation_user_message(mgr: &mut ConversationManager, conversation_id: &str, content: &str) -> (r: Result<
    ConversationMessageAddedEventPayload,
    MyError,
>)
    ensures
        match resolution(old(mgr)@, conversation_id@) {
            Err(e) => r == Err::<ConversationMessageAddedEventPayload, MyError>(e) && final(mgr)@ == old(mgr)@,
            Ok(id) => r is Ok && {
                let n = r->Ok_0;
                &&& n.conversation_id == id
                &&& n.author == ChatRole::User
                &&& n.content@ == content@
                &&& final(mgr)@ == old(mgr)@.insert(id, final(mgr)@[id])
                &&& appended(
                    old(mgr)@[id],
                    final(mgr)@[id],
                    ConversationEvent::MessageAdded(ConversationMessageAddedEvent { author: ChatRole::User, content: n.content }),
                )
            },
        },
{
    let id = resolve_conversation_id(mgr, conversation_id)?;
    add_message(mgr, id, ChatRole::User, content.to_owned())
}

/// What a reply to the conversation that `conversation_id` names is asked
/// with (see [`Conversation::reply_prompt`]): its id, the context and the prompt.
pub fn assistant_message_request(mgr: &ConversationManager, conversation_id: &str, require_user_turn: bool) -> (r: Result<
    (u128, Vec<ConversationMessagePayload>, String),
    MyError,
>)
    ensures
        match resolution(mgr@, conversation_id@) {
            Err(e) => r == Err::<(u128, Vec<ConversationMessagePayload>, String), MyError>(e),
            Ok(id) => {
                let t = transcript_of(mgr@[id].history);
                &&& t.len() == 0 ==> r == Err::<(u128, Vec<ConversationMessagePayload>, String), MyError>(
                    MyError::ConversationEmptyFail,
                )
                &&& t.len() > 0 && require_user_turn && t.last().author != ChatRole::User ==> r == Err::<
                    (u128, Vec<ConversationMessagePayload>, String),
                    MyError,
                >(MyError::UserNotLatestAuthorInConversationFail)
                &&& t.len() > 0 && !(require_user_turn && t.last().author != ChatRole::User) ==> r is Ok
                    && r->Ok_0.0 == id && r->Ok_0.1@ == t.drop_last() && r->Ok_0.2@ == t.last().content@
            },
        },
{
    let id = resolve_conversation_id(mgr, conversation_id)?;
    match mgr.get(id) {
        Some(c) => {
            let (context, prompt) = c.reply_prompt(require_user_turn)?;
            Ok((id, context, prompt))
        },
        None => Err(MyError::FindByIDFail),
    }
}

/// Appends the language model's `reply` to the conversation with the given
/// id as an assistant message; returns the notice to deliver. Fails with
/// `FindByIDFail`, changing nothing, when no conversation has that id.
pub fn new_conversation_assistant_message(mgr: &mut ConversationManager, conversation_id: u128, reply: String) -> (r: Result<
    ConversationMessageAddedEventPayload,
    MyError,
>)
    ensures
        !old(mgr)@.contains_key(conversation_id) ==> r == Err::<ConversationMessageAddedEventPayload, MyError>(
            MyError::FindByIDFail,
        ) && final(mgr)@ == old(mgr)@,
        old(mgr)@.contains_key(conversation_id) ==> r is Ok && {
            let n = r->Ok_0;
            &&& n.conversation_id == conversation_id
            &&& n.author == ChatRole::Assistant
            &&& n.content == reply
            &&& final(mgr)@ == old(mgr)@.insert(conversation_id, final(mgr)@[conversation_id])
            &&& appended(
                old(mgr)@[conversation_id],
                final(mgr)@[conversation_id],
                ConversationEvent::MessageAdded(ConversationMessageAddedEvent { author: ChatRole::Assistant, content: reply }),
            )
        },
{
    add_message(mgr, conversation_id, ChatRole::Assistant, reply)
}

fn add_message(mgr: &mut ConversationManager, id: u128, author: ChatRole, content: String) -> (r: Result<
    ConversationMessageAddedEventPayload,
    MyError,
>)
    ensures
        !old(mgr)@.contains_key(id) ==> r == Err::<ConversationMessageAddedEventPayload, MyError>(MyError::FindByIDFail)
            && final(mgr)@ == old(mgr)@,
        old(mgr)@.contains_key(id) ==> r is Ok && {
            let n = r->Ok_0;
            &&& n.conversation_id == id
            &&& n.author == author
            &&& n.content == content
            &&& final(mgr)@ == old(mgr)@.insert(id, final(mgr)@[id])
            &&& appended(
                old(mgr)@[id],
                final(mgr)@[id],
                ConversationEvent::MessageAdded(ConversationMessageAddedEvent { author, content }),
            )
        },
{
    let notice_content = content.clone();
    let event = ConversationEvent::MessageAdded(ConversationMessageAddedEvent { author, content });
    match mgr.append_event(id, event) {
        Ok(_) => Ok(ConversationMessageAddedEventPayload { conversation_id: id, author, content: notice_content }),
        Err(e) => Err(e),
    }
}

} // verus!
