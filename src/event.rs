use vstd::prelude::*;

verus! {

/// Author of a chat message.
#[derive(Debug, Clone, Copy, PartialEq, Eq, Structural, PartialOrd, Ord, Hash)]
pub enum ChatRole {
    System,
    Assistant,
    User,
}

/// A chat turn added to a conversation.
#[derive(Debug)]
pub struct ConversationMessageAddedEvent {
    pub author: ChatRole,
    pub content: String,
}

/// A rename of a conversation.
#[derive(Debug)]
pub struct ConversationTitleChangedEvent {
    pub new_title: String,
}

/// Everything that can happen to a conversation.
#[derive(Debug)]
pub enum ConversationEvent {
    MessageAdded(ConversationMessageAddedEvent),
    TitleChange(ConversationTitleChangedEvent),
}

/// The variant tag of a [`ConversationEvent`].
#[derive(Debug, Clone, Copy, PartialEq, Eq, Structural)]
pub enum EventKind {
    MessageAdded,
    TitleChange,
}

impl Clone for ConversationMessageAddedEvent {
    fn clone(&self) -> (r: Self)
        ensures
            r == *self,
    {
        ConversationMessageAddedEvent { author: self.author, content: self.content.clone() }
    }
}

impl Clone for ConversationTitleChangedEvent {
    fn clone(&self) -> (r: Self)
        ensures
            r == *self,
    {
        ConversationTitleChangedEvent { new_title: self.new_title.clone() }
    }
}

impl Clone for ConversationEvent {
    fn clone(&self) -> (r: Self)
        ensures
            r == *self,
    {
        match self {
            ConversationEvent::MessageAdded(m) => ConversationEvent::MessageAdded(m.clone()),
            ConversationEvent::TitleChange(t) => ConversationEvent::TitleChange(t.clone()),
        }
    }
}

impl ConversationEvent {
    pub open spec fn kind_spec(&self) -> EventKind {
        match self {
            ConversationEvent::MessageAdded(_) => EventKind::MessageAdded,
            ConversationEvent::TitleChange(_) => EventKind::TitleChange,
        }
    }

    /// The variant tag of this event.
    pub fn kind(&self) -> (k: EventKind)
        ensures
            k == self.kind_spec(),
    {
        match self {
            ConversationEvent::MessageAdded(_) => EventKind::MessageAdded,
            ConversationEvent::TitleChange(_) => EventKind::TitleChange,
        }
    }
}

impl From<ConversationMessageAddedEvent> for ConversationEvent {
    fn from(event: ConversationMessageAddedEvent) -> (r: Self) {
        ConversationEvent::MessageAdded(event)
    }
}

impl vstd::std_specs::convert::FromSpecImpl<ConversationMessageAddedEvent> for ConversationEvent {
    open spec fn obeys_from_spec() -> bool {
        true
    }

    open spec fn from_spec(v: ConversationMessageAddedEvent) -> Self {
        ConversationEvent::MessageAdded(v)
    }
}

impl From<ConversationTitleChangedEvent> for ConversationEvent {
    fn from(event: ConversationTitleChangedEvent) -> (r: Self) {
        ConversationEvent::TitleChange(event)
    }
}

impl vstd::std_specs::convert::FromSpecImpl<ConversationTitleChangedEvent> for ConversationEvent {
    open spec fn obeys_from_spec() -> bool {
        true
    }

    open spec fn from_spec(v: ConversationTitleChangedEvent) -> Self {
        ConversationEvent::TitleChange(v)
    }
}

/// An event type that can be looked up in a conversation's history.
pub trait EventType {
    spec fn kind_spec() -> EventKind;

    fn kind() -> (k: EventKind)
        ensures
            k == Self::kind_spec(),
    ;
}

impl EventType for ConversationMessageAddedEvent {
    open spec fn kind_spec() -> EventKind {
        EventKind::MessageAdded
    }

    fn kind() -> (k: EventKind) {
        EventKind::MessageAdded
    }
}

impl EventType for ConversationTitleChangedEvent {
    open spec fn kind_spec() -> EventKind {
        EventKind::TitleChange
    }

    fn kind() -> (k: EventKind) {
        EventKind::TitleChange
    }
}

/// One entry of a conversation's log. Immutable once appended.
#[derive(Debug)]
pub struct ConversationEventRecord {
    pub id: u128,
    pub conversation_id: u128,
    /// Milliseconds since the Unix epoch.
    pub timestamp: i64,
    pub event: ConversationEvent,
}

impl Clone for ConversationEventRecord {
    fn clone(&self) -> (r: Self)
        ensures
            r == *self,
    {
        ConversationEventRecord {
            id: self.id,
            conversation_id: self.conversation_id,
            timestamp: self.timestamp,
            event: self.event.clone(),
        }
    }
}

} // verus!
