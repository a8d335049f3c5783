use ehyaioess::commands::{
    assistant_message_request, get_conversation, get_conversation_messages, get_conversation_title,
    list_conversation_titles, new_conversation, new_conversation_assistant_message,
    new_conversation_user_message, resolve_conversation_id, set_conversation_title,
};
use ehyaioess::config::Config;
use ehyaioess::conversation::Conversation;
use ehyaioess::error::MyError;
use ehyaioess::event::{ChatRole, ConversationEvent, ConversationEventRecord, ConversationTitleChangedEvent};
use ehyaioess::payloads::{wrap_event_payloads, WrapType};
use ehyaioess::store::ConversationManager;
use ehyaioess::timestamp::{deserialize_timestamp, serialize_timestamp};

fn id_text(id: u128) -> String {
    let h = format!("{:032x}", id);
    format!("{}-{}-{}-{}-{}", &h[0..8], &h[8..12], &h[12..16], &h[16..20], &h[20..32])
}

#[test]
fn malformed_and_unknown_ids_are_told_apart() {
    let mut mgr = ConversationManager::new();
    let conv = new_conversation(&mut mgr);
    assert_eq!(get_conversation(&mgr, "not-a-uuid").unwrap_err(), MyError::UUIDParseFail);
    assert_eq!(get_conversation(&mgr, "").unwrap_err(), MyError::UUIDParseFail);
    let unknown = "67e55044-10b1-426f-9247-bb680e5fe0c8";
    assert_eq!(get_conversation(&mgr, unknown).unwrap_err(), MyError::FindByIDFail);
    assert_eq!(get_conversation_title(&mgr, unknown).unwrap_err(), MyError::FindByIDFail);
    assert_eq!(get_conversation_messages(&mgr, "xyz").unwrap_err(), MyError::UUIDParseFail);
    let found = get_conversation(&mgr, &id_text(conv.id())).unwrap();
    assert_eq!(found.id(), conv.id());
    let simple = format!("{:032x}", conv.id());
    assert_eq!(resolve_conversation_id(&mgr, &simple).unwrap(), conv.id());
    let upper = id_text(conv.id()).to_uppercase();
    assert_eq!(resolve_conversation_id(&mgr, &upper).unwrap(), conv.id());
    assert!(mgr.get(conv.id()).is_some());
    assert!(mgr.get(conv.id().wrapping_add(1)).is_none());
}

#[test]
fn user_messages_reach_the_transcript() {
    let mut mgr = ConversationManager::new();
    let conv = new_conversation(&mut mgr);
    let id = id_text(conv.id());
    let notice = new_conversation_user_message(&mut mgr, &id, "hi").unwrap();
    assert_eq!(notice.conversation_id, conv.id());
    assert_eq!(notice.author, ChatRole::User);
    assert_eq!(notice.content, "hi");
    let messages = get_conversation_messages(&mgr, &id).unwrap();
    assert_eq!(messages.len(), 1);
    assert_eq!(messages[0].content, "hi");
    let unknown = "67e55044-10b1-426f-9247-bb680e5fe0c8";
    assert_eq!(new_conversation_user_message(&mut mgr, unknown, "x").unwrap_err(), MyError::FindByIDFail);
    assert_eq!(new_conversation_user_message(&mut mgr, "bad", "x").unwrap_err(), MyError::UUIDParseFail);
}

#[test]
fn assistant_reply_round() {
    let mut mgr = ConversationManager::new();
    let conv = new_conversation(&mut mgr);
    let id = id_text(conv.id());
    assert_eq!(assistant_message_request(&mgr, &id, true).unwrap_err(), MyError::ConversationEmptyFail);
    new_conversation_user_message(&mut mgr, &id, "What is 2+2?").unwrap();
    let (cid, context, prompt) = assistant_message_request(&mgr, &id, true).unwrap();
    assert_eq!(cid, conv.id());
    assert!(context.is_empty());
    assert_eq!(prompt, "What is 2+2?");
    let notice = new_conversation_assistant_message(&mut mgr, cid, "4".to_string()).unwrap();
    assert_eq!(notice.author, ChatRole::Assistant);
    assert_eq!(notice.content, "4");
    assert_eq!(
        assistant_message_request(&mgr, &id, true).unwrap_err(),
        MyError::UserNotLatestAuthorInConversationFail
    );
    let messages = get_conversation_messages(&mgr, &id).unwrap();
    assert_eq!(messages.len(), 2);
    assert_eq!(messages[1].author, ChatRole::Assistant);
    assert_eq!(
        new_conversation_assistant_message(&mut mgr, conv.id().wrapping_add(1), "x".to_string()).unwrap_err(),
        MyError::FindByIDFail
    );
}

#[test]
fn renaming_to_the_current_title_appends_nothing() {
    let mut mgr = ConversationManager::new();
    let conv = new_conversation(&mut mgr);
    let id = id_text(conv.id());
    assert!(set_conversation_title(&mut mgr, &id, "Untitled Conversation").unwrap().is_none());
    assert_eq!(mgr.get(conv.id()).unwrap().history().len(), 0);
    let notice = set_conversation_title(&mut mgr, &id, "  Foo \n").unwrap().unwrap();
    assert_eq!(notice.new_title, "Foo");
    assert_eq!(notice.conversation_id, conv.id());
    assert_eq!(get_conversation_title(&mgr, &id).unwrap(), "Foo");
    assert_eq!(mgr.get(conv.id()).unwrap().history().len(), 1);
    assert!(set_conversation_title(&mut mgr, &id, "Foo").unwrap().is_none());
    assert!(set_conversation_title(&mut mgr, &id, "\tFoo ").unwrap().is_none());
    assert_eq!(mgr.get(conv.id()).unwrap().history().len(), 1);
    assert_eq!(set_conversation_title(&mut mgr, "nope", "Foo").unwrap_err(), MyError::UUIDParseFail);
}

#[test]
fn set_title_reports_change() {
    let mut mgr = ConversationManager::new();
    let id = mgr.create_conversation().id();
    assert_eq!(mgr.set_title(id, "A".to_string()), Ok(true));
    assert_eq!(mgr.set_title(id, "A".to_string()), Ok(false));
    assert_eq!(mgr.set_title(id.wrapping_add(1), "A".to_string()), Err(MyError::FindByIDFail));
}

#[test]
fn title_index_lists_every_conversation() {
    let mut mgr = ConversationManager::new();
    assert!(list_conversation_titles(&mgr).is_empty());
    let a = new_conversation(&mut mgr).id();
    let b = new_conversation(&mut mgr).id();
    assert_ne!(a, b);
    mgr.append_event(b, ConversationEvent::TitleChange(ConversationTitleChangedEvent { new_title: "B".to_string() }))
        .unwrap();
    let titles = list_conversation_titles(&mgr);
    assert_eq!(titles.len(), 2);
    assert_eq!(titles[&a], "Untitled Conversation");
    assert_eq!(titles[&b], "B");
    assert_eq!(mgr.title_index().len(), 2);
}

#[test]
fn append_event_on_unknown_id_fails() {
    let mut mgr = ConversationManager::new();
    let event = ConversationEvent::TitleChange(ConversationTitleChangedEvent { new_title: "B".to_string() });
    assert_eq!(mgr.append_event(42, event).unwrap_err(), MyError::FindByIDFail);
}

#[test]
fn snapshot_restores_the_same_store() {
    let mut mgr = ConversationManager::new();
    let empty = ConversationManager::from_entries(mgr.snapshot()).unwrap();
    assert!(empty.snapshot().is_empty());
    let a = new_conversation(&mut mgr).id();
    let b = new_conversation(&mut mgr).id();
    new_conversation_user_message(&mut mgr, &id_text(a), "hi").unwrap();
    set_conversation_title(&mut mgr, &id_text(a), "Greeting").unwrap();
    new_conversation_assistant_message(&mut mgr, a, "hello".to_string()).unwrap();
    let restored = ConversationManager::from_entries(mgr.snapshot()).unwrap();
    assert_eq!(restored.snapshot().len(), 2);
    for id in [a, b] {
        let before = mgr.get(id).unwrap();
        let after = restored.get(id).unwrap();
        assert_eq!(before.history().len(), after.history().len());
        for (x, y) in before.history().iter().zip(after.history().iter()) {
            assert_eq!(x.id, y.id);
            assert_eq!(x.timestamp, y.timestamp);
            assert_eq!(x.conversation_id, y.conversation_id);
        }
        assert_eq!(before.get_title(), after.get_title());
        assert_eq!(before.transcript().len(), after.transcript().len());
    }
    assert_eq!(restored.get(a).unwrap().get_title(), "Greeting");
}

#[test]
fn from_entries_rejects_mislabelled_or_repeated_entries() {
    let c = Conversation::with_id(5);
    assert!(ConversationManager::from_entries(vec![(6, c.clone())]).is_none());
    assert!(ConversationManager::from_entries(vec![(5, c.clone()), (5, c.clone())]).is_none());
    let ok = ConversationManager::from_entries(vec![(5, c), (7, Conversation::with_id(7))]).unwrap();
    assert!(ok.get(5).is_some() && ok.get(7).is_some());
}

#[test]
fn from_entries_rejects_a_record_id_used_by_two_conversations() {
    let record = |id: u128, conversation_id: u128| ConversationEventRecord {
        id,
        conversation_id,
        timestamp: 0,
        event: ConversationEvent::TitleChange(ConversationTitleChangedEvent { new_title: "t".to_string() }),
    };
    let a = Conversation::from_parts(1, vec![record(10, 1), record(11, 1)]).unwrap();
    let b = Conversation::from_parts(2, vec![record(11, 2)]).unwrap();
    let c = Conversation::from_parts(3, vec![record(12, 3)]).unwrap();
    assert!(ConversationManager::from_entries(vec![(1, a.clone()), (2, b)]).is_none());
    let ok = ConversationManager::from_entries(vec![(1, a), (3, c)]).unwrap();
    assert_eq!(ok.snapshot().len(), 2);
}

#[test]
fn record_ids_differ_across_conversations() {
    let mut mgr = ConversationManager::new();
    let a = mgr.create_conversation().id();
    let b = mgr.create_conversation().id();
    let event = || ConversationEvent::TitleChange(ConversationTitleChangedEvent { new_title: "t".to_string() });
    let mut ids = Vec::new();
    for _ in 0..5 {
        ids.push(mgr.append_event(a, event()).unwrap().id);
        ids.push(mgr.append_event(b, event()).unwrap().id);
    }
    for i in 0..ids.len() {
        for j in (i + 1)..ids.len() {
            assert_ne!(ids[i], ids[j]);
        }
    }
}

#[test]
fn timestamps_as_text() {
    assert_eq!(serialize_timestamp(1_700_000_000_123), "1700000000123");
    assert_eq!(serialize_timestamp(-42), "-42");
    assert_eq!(serialize_timestamp(0), "0");
    assert_eq!(deserialize_timestamp("1700000000123"), Some(1_700_000_000_123));
    assert_eq!(deserialize_timestamp("+17"), Some(17));
    assert_eq!(deserialize_timestamp("-0"), Some(0));
    assert_eq!(deserialize_timestamp(""), None);
    assert_eq!(deserialize_timestamp("-"), None);
    assert_eq!(deserialize_timestamp("12a"), None);
    assert_eq!(deserialize_timestamp(" 12"), None);
    assert_eq!(deserialize_timestamp("9223372036854775808"), None);
    assert_eq!(deserialize_timestamp("-9223372036854775808"), Some(i64::MIN));
    for t in [i64::MIN, -1, 0, 1, 999, i64::MAX] {
        assert_eq!(deserialize_timestamp(&serialize_timestamp(t)), Some(t));
    }
}

#[test]
fn record_timestamps_survive_text_form() {
    let record = ConversationEventRecord {
        id: 1,
        conversation_id: 2,
        timestamp: 1_690_000_000_000,
        event: ConversationEvent::TitleChange(ConversationTitleChangedEvent { new_title: "t".to_string() }),
    };
    assert_eq!(deserialize_timestamp(&serialize_timestamp(record.timestamp)), Some(record.timestamp));
}

#[test]
fn error_messages() {
    assert_eq!(MyError::UUIDParseFail.message(), "Failed to parse UUID");
    assert_eq!(MyError::FindByIDFail.message(), "Failed to find by ID");
    assert_eq!(MyError::ConversationEmptyFail.message(), "Conversation is empty");
    assert_eq!(MyError::DirListFail.message(), "Failed to list directory");
}

#[test]
fn config_from_first_run_answers() {
    let c = Config::from_answers("  sk-key \n", " \n", "/home/u/conversations.json".to_string());
    assert_eq!(c.openai_api_key(), "sk-key");
    assert_eq!(c.conversation_history_save_path, "/home/u/conversations.json");
    let c = Config::from_answers("k", " /tmp/c.json\n", "/default".to_string());
    assert_eq!(c.conversation_history_save_path, "/tmp/c.json");
    let c = Config::new("key".to_string(), "p".to_string());
    assert_eq!(c.openai_api_key(), "key");
}

#[test]
fn wrap_event_payloads_accepts_anything() {
    assert!(wrap_event_payloads(WrapType::Nothing).is_ok());
}
