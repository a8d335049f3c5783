use ehyaioess::conversation::{Conversation, DEFAULT_CONVERSATION_TITLE};
use ehyaioess::error::MyError;
use ehyaioess::event::{
    ChatRole, ConversationEvent, ConversationEventRecord, ConversationMessageAddedEvent,
    ConversationTitleChangedEvent, EventKind,
};

fn message(author: ChatRole, content: &str) -> ConversationEvent {
    ConversationEvent::MessageAdded(ConversationMessageAddedEvent { author, content: content.to_string() })
}

fn rename(title: &str) -> ConversationEvent {
    ConversationEvent::TitleChange(ConversationTitleChangedEvent { new_title: title.to_string() })
}

fn same_record(a: &ConversationEventRecord, b: &ConversationEventRecord) -> bool {
    let same_event = match (&a.event, &b.event) {
        (ConversationEvent::MessageAdded(x), ConversationEvent::MessageAdded(y)) => {
            x.author == y.author && x.content == y.content
        }
        (ConversationEvent::TitleChange(x), ConversationEvent::TitleChange(y)) => x.new_title == y.new_title,
        _ => false,
    };
    a.id == b.id && a.conversation_id == b.conversation_id && a.timestamp == b.timestamp && same_event
}

#[test]
fn test_get_title() {
    let mut conv = Conversation::new();
    assert_eq!(conv.get_title(), DEFAULT_CONVERSATION_TITLE);
    let latest = conv
        .add_event(ConversationTitleChangedEvent { new_title: "New Title".to_string() })
        .id;
    assert_eq!(conv.get_latest_event::<ConversationTitleChangedEvent>().unwrap().id, latest);
    assert_eq!(conv.get_title(), "New Title");
    conv.add_event(ConversationTitleChangedEvent { new_title: "Newer Title".to_string() });
    assert_eq!(conv.get_title(), "Newer Title");
}

#[test]
fn fresh_conversation_is_untitled_and_empty() {
    let conv = Conversation::new();
    assert_eq!(conv.get_title(), "Untitled Conversation");
    assert!(conv.history().is_empty());
    assert!(conv.transcript().is_empty());
    assert!(conv.get_latest_event::<ConversationMessageAddedEvent>().is_none());
}

#[test]
fn new_conversation_ids_are_version_four() {
    let id = Conversation::new().id();
    assert_eq!((id >> 76) & 0xf, 4);
    assert_eq!((id >> 62) & 0x3, 2);
}

#[test]
fn append_only_keeps_earlier_records() {
    let mut conv = Conversation::new();
    let mut seen: Vec<ConversationEventRecord> = Vec::new();
    for i in 0..6 {
        let record = if i % 2 == 0 {
            conv.add_event(message(ChatRole::User, &format!("turn {}", i)))
        } else {
            conv.add_event(rename(&format!("title {}", i)))
        };
        assert_eq!(record.conversation_id, conv.id());
        seen.push(record);
        assert_eq!(conv.history().len(), i + 1);
        for (a, b) in seen.iter().zip(conv.history().iter()) {
            assert!(same_record(a, b));
        }
    }
    for i in 0..seen.len() {
        for j in 0..seen.len() {
            if i != j {
                assert_ne!(seen[i].id, seen[j].id);
            }
        }
        if i > 0 {
            assert!(seen[i - 1].timestamp <= seen[i].timestamp);
        }
    }
}

#[test]
fn add_event_accepts_both_event_types() {
    let mut conv = Conversation::new();
    conv.add_event(ConversationMessageAddedEvent { author: ChatRole::System, content: "be brief".to_string() });
    conv.add_event(rename("Brief"));
    assert_eq!(conv.history().len(), 2);
    assert_eq!(conv.history()[0].event.kind(), EventKind::MessageAdded);
    assert_eq!(conv.history()[1].event.kind(), EventKind::TitleChange);
    assert!(conv.history()[0].timestamp > 1_600_000_000_000);
}

#[test]
fn title_follows_latest_rename() {
    let mut conv = Conversation::with_id(7);
    conv.append_with(1, 10, rename("Foo"));
    assert_eq!(conv.get_title(), "Foo");
    conv.append_with(2, 20, rename("Bar"));
    assert_eq!(conv.get_title(), "Bar");
}

#[test]
fn transcript_leaves_out_renames() {
    let mut conv = Conversation::new();
    conv.add_event(message(ChatRole::User, "hi"));
    conv.add_event(rename("X"));
    conv.add_event(message(ChatRole::Assistant, "hello"));
    let t = conv.transcript();
    assert_eq!(t.len(), 2);
    assert_eq!(t[0].author, ChatRole::User);
    assert_eq!(t[0].content, "hi");
    assert_eq!(t[1].author, ChatRole::Assistant);
    assert_eq!(t[1].content, "hello");
    assert_eq!(conv.get_title(), "X");
}

#[test]
fn taken_record_id_moves_to_next_free_value() {
    let mut conv = Conversation::with_id(1);
    assert_eq!(conv.append_with(5, 0, message(ChatRole::User, "a")).id, 5);
    assert_eq!(conv.append_with(5, 0, message(ChatRole::User, "b")).id, 6);
    assert_eq!(conv.append_with(5, 0, message(ChatRole::User, "c")).id, 7);
    assert_eq!(conv.append_with(u128::MAX, 0, message(ChatRole::User, "d")).id, u128::MAX);
    assert_eq!(conv.append_with(u128::MAX, 0, message(ChatRole::User, "e")).id, 0);
}

#[test]
fn timestamps_never_run_backwards() {
    let mut conv = Conversation::with_id(1);
    assert_eq!(conv.append_with(1, 100, rename("First")).timestamp, 100);
    let second = conv.append_with(2, 50, rename("Second"));
    assert_eq!(second.timestamp, 100);
    assert_eq!(conv.get_title(), "Second");
    assert_eq!(conv.append_with(3, 150, message(ChatRole::User, "x")).timestamp, 150);
    assert_eq!(conv.append_with(4, i64::MIN, message(ChatRole::User, "y")).timestamp, 150);
}

#[test]
fn latest_event_prefers_greater_timestamp_then_later_record() {
    let records = vec![
        ConversationEventRecord { id: 1, conversation_id: 9, timestamp: 30, event: rename("A") },
        ConversationEventRecord { id: 2, conversation_id: 9, timestamp: 10, event: rename("B") },
        ConversationEventRecord { id: 3, conversation_id: 9, timestamp: 30, event: rename("C") },
        ConversationEventRecord { id: 4, conversation_id: 9, timestamp: 40, event: message(ChatRole::User, "m") },
    ];
    let conv = Conversation::from_parts(9, records).unwrap();
    assert_eq!(conv.latest_event_of_kind(EventKind::TitleChange).unwrap().id, 3);
    assert_eq!(conv.get_title(), "C");
    assert_eq!(conv.latest_event_of_kind(EventKind::MessageAdded).unwrap().id, 4);

    let records = vec![
        ConversationEventRecord { id: 1, conversation_id: 9, timestamp: 50, event: rename("Old but late") },
        ConversationEventRecord { id: 2, conversation_id: 9, timestamp: 20, event: rename("New but early") },
    ];
    let conv = Conversation::from_parts(9, records).unwrap();
    assert_eq!(conv.get_title(), "Old but late");
}

#[test]
fn from_parts_rejects_inconsistent_logs() {
    let foreign = vec![ConversationEventRecord { id: 1, conversation_id: 8, timestamp: 0, event: rename("A") }];
    assert!(Conversation::from_parts(9, foreign).is_none());
    let twice = vec![
        ConversationEventRecord { id: 1, conversation_id: 9, timestamp: 0, event: rename("A") },
        ConversationEventRecord { id: 1, conversation_id: 9, timestamp: 1, event: rename("B") },
    ];
    assert!(Conversation::from_parts(9, twice).is_none());
    assert_eq!(Conversation::from_parts(9, Vec::new()).unwrap().id(), 9);
}

#[test]
fn reply_prompt_splits_last_turn() {
    let mut conv = Conversation::with_id(3);
    assert_eq!(conv.reply_prompt(false).unwrap_err(), MyError::ConversationEmptyFail);
    conv.append_with(1, 0, rename("Only a title"));
    assert_eq!(conv.reply_prompt(true).unwrap_err(), MyError::ConversationEmptyFail);
    conv.append_with(2, 0, message(ChatRole::System, "be kind"));
    conv.append_with(3, 0, message(ChatRole::User, "hello?"));
    let (context, prompt) = conv.reply_prompt(true).unwrap();
    assert_eq!(prompt, "hello?");
    assert_eq!(context.len(), 1);
    assert_eq!(context[0].author, ChatRole::System);
    assert_eq!(context[0].content, "be kind");
    conv.append_with(4, 0, message(ChatRole::Assistant, "hi"));
    assert_eq!(
        conv.reply_prompt(true).unwrap_err(),
        MyError::UserNotLatestAuthorInConversationFail
    );
    let (context, prompt) = conv.reply_prompt(false).unwrap();
    assert_eq!(prompt, "hi");
    assert_eq!(context.len(), 2);
}

#[test]
fn clone_keeps_the_log() {
    let mut conv = Conversation::new();
    conv.add_event(message(ChatRole::User, "a"));
    let copy = conv.clone();
    assert_eq!(copy.id(), conv.id());
    assert_eq!(copy.history().len(), 1);
    assert!(same_record(&copy.history()[0], &conv.history()[0]));
}

#[test]
fn event_conversions() {
    let e: ConversationEvent = ConversationTitleChangedEvent { new_title: "T".to_string() }.into();
    assert_eq!(e.kind(), EventKind::TitleChange);
    let e: ConversationEvent =
        ConversationMessageAddedEvent { author: ChatRole::User, content: "c".to_string() }.into();
    assert_eq!(e.kind(), EventKind::MessageAdded);
}
