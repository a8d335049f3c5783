use chatgpt::types::Role;
use ehyaioess::chat::{chat_conversation, chat_messages};
use ehyaioess::conversation::Conversation;
use ehyaioess::event::{ChatRole, ConversationEvent, ConversationMessageAddedEvent, ConversationTitleChangedEvent};
use ehyaioess::payloads::ConversationMessagePayload;

#[test]
fn roles_convert_both_ways() {
    for (ours, theirs) in [
        (ChatRole::System, Role::System),
        (ChatRole::Assistant, Role::Assistant),
        (ChatRole::User, Role::User),
    ] {
        assert_eq!(Role::from(ours), theirs);
        assert_eq!(ChatRole::from(theirs), ours);
    }
}

#[test]
fn chat_messages_keep_order_roles_and_text() {
    let turns = vec![
        ConversationMessagePayload { author: ChatRole::System, content: "be brief".to_string() },
        ConversationMessagePayload { author: ChatRole::User, content: "hi".to_string() },
    ];
    let messages = chat_messages(&turns);
    assert_eq!(messages.len(), 2);
    assert_eq!(messages[0].role, Role::System);
    assert_eq!(messages[0].content, "be brief");
    assert_eq!(messages[1].role, Role::User);
    assert_eq!(messages[1].content, "hi");
}

#[test]
fn client_conversation_holds_the_transcript() {
    let client = chatgpt::client::ChatGPT::new("test-key").unwrap();
    let mut conv = Conversation::new();
    conv.add_event(ConversationEvent::MessageAdded(ConversationMessageAddedEvent {
        author: ChatRole::User,
        content: "hi".to_string(),
    }));
    conv.add_event(ConversationTitleChangedEvent { new_title: "X".to_string() });
    conv.add_event(ConversationMessageAddedEvent { author: ChatRole::Assistant, content: "hello".to_string() });
    let session = conv.into_chatgpt_conversation(client.clone());
    assert_eq!(session.history.len(), 2);
    assert_eq!(session.history[0].role, Role::User);
    assert_eq!(session.history[0].content, "hi");
    assert_eq!(session.history[1].role, Role::Assistant);
    assert_eq!(session.history[1].content, "hello");
    let empty = chat_conversation(client, &Vec::new());
    assert!(empty.history.is_empty());
}
