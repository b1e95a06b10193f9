use chat_core::{
    AppError, Chat, ChatMessage, ChatMessageRole, ChatMessageState, ChatSummary, DatabaseError, Db,
    JsonValue, SerializationFailure, StorageFailure, Timestamp, User,
};

fn at(micros: i64) -> Timestamp {
    Timestamp { micros }
}

fn member<'a>(doc: &'a JsonValue, key: &str) -> &'a JsonValue {
    match doc {
        JsonValue::Object(members) => {
            &members.iter().find(|(k, _)| k == key).expect("member present").1
        }
        _ => panic!("not an object"),
    }
}

fn text(v: &JsonValue) -> &str {
    match v {
        JsonValue::Text(t) => t,
        _ => panic!("not text"),
    }
}

fn store_with_chat() -> (Db, User, Chat) {
    let mut db = Db::new();
    let user = db.insert_user("alice").unwrap();
    let chat = db.insert_chat("First").unwrap();
    db.link_user_to_chat(user.id, chat.id).unwrap();
    (db, user, chat)
}

#[test]
fn authored_message_is_users_and_ready() {
    let mut db = Db::new();
    for k in 1..=7 {
        db.insert_user(&format!("user{k}")).unwrap();
    }
    let chat = db.insert_chat("c").unwrap();
    let m = chat.create_chat_message(&mut db, "hi", Some(7), None).unwrap();
    assert_eq!(m.role, ChatMessageRole::User);
    assert_eq!(m.role.to_string(), "User");
    assert_eq!(m.user_id, Some(7));
    assert_eq!(m.state, ChatMessageState::Ready);
    assert_eq!(m.state.to_string(), "Ready");
    assert_eq!(m.content.as_deref(), Some("hi"));
    assert_eq!(m.chat_id, chat.id);
    assert_eq!(m.title, None);
}

#[test]
fn unauthored_message_is_assistants_and_ready() {
    let (mut db, _, chat) = store_with_chat();
    let m = chat.create_chat_message(&mut db, "hi", None, None).unwrap();
    assert_eq!(m.role, ChatMessageRole::Assistant);
    assert_eq!(m.role.to_string(), "Assistant");
    assert_eq!(m.user_id, None);
    assert_eq!(m.state, ChatMessageState::Ready);
}

#[test]
fn state_override_wins_over_default() {
    let (mut db, _, chat) = store_with_chat();
    let m = chat
        .create_chat_message(&mut db, "hi", None, Some(ChatMessageState::Pending))
        .unwrap();
    assert_eq!(m.state, ChatMessageState::Pending);
    assert_eq!(m.state.to_string(), "Pending");
    assert_eq!(m.role, ChatMessageRole::Assistant);
}

#[test]
fn chat_by_uuid_is_scoped_to_the_user() {
    let mut db = Db::new();
    let a = db.insert_user("a").unwrap();
    let b = db.insert_user("b").unwrap();
    let chat_a = db.insert_chat("A").unwrap();
    let chat_b = db.insert_chat("B").unwrap();
    db.link_user_to_chat(a.id, chat_a.id).unwrap();
    db.link_user_to_chat(b.id, chat_b.id).unwrap();
    assert_eq!(a.get_chat_by_uuid(&db, &chat_b.uuid).unwrap_err(), DatabaseError::ChatNotFound);
    assert_eq!(Chat::get_by_uuid(&db, &chat_b.uuid).unwrap().id, chat_b.id);
    assert_eq!(a.get_chat_by_uuid(&db, &chat_a.uuid).unwrap().id, chat_a.id);
    assert_eq!(b.get_chat_by_uuid(&db, &chat_b.uuid).unwrap().title, "B");
}

#[test]
fn chat_document_round_trips() {
    let (mut db, user, chat) = store_with_chat();
    chat.create_chat_message(&mut db, "one", Some(user.id), None).unwrap();
    chat.create_chat_message(&mut db, "two", None, Some(ChatMessageState::Loading)).unwrap();
    let doc = chat.to_json(&db).unwrap();
    let summary = ChatSummary::from_json(&doc).unwrap();
    assert_eq!(summary.id, chat.id as i64);
    assert_eq!(summary.uuid, chat.uuid);
    assert_eq!(summary.title, "First");
    assert_eq!(summary.message_count, chat.get_messages(&db).len());
    assert_eq!(summary.message_count, 2);
}

#[test]
fn deleting_messages_twice_removes_nothing_the_second_time() {
    let (mut db, _, chat) = store_with_chat();
    chat.create_chat_message(&mut db, "a", None, None).unwrap();
    chat.create_chat_message(&mut db, "b", None, None).unwrap();
    assert_eq!(chat.delete_all_messages(&mut db), 2);
    assert_eq!(chat.delete_all_messages(&mut db), 0);
    assert_eq!(chat.get_messages(&db).len(), 0);
}

#[test]
fn deleting_messages_of_a_chat_without_any() {
    let (mut db, _, chat) = store_with_chat();
    assert_eq!(chat.delete_all_messages(&mut db), 0);
}

#[test]
fn deleting_messages_keeps_other_chats() {
    let (mut db, _, chat) = store_with_chat();
    let other = db.insert_chat("Other").unwrap();
    chat.create_chat_message(&mut db, "a", None, None).unwrap();
    other.create_chat_message(&mut db, "b", None, None).unwrap();
    assert_eq!(chat.delete_all_messages(&mut db), 1);
    assert_eq!(other.get_messages(&db).len(), 1);
}

#[test]
fn identifiers_are_fresh_and_distinct() {
    let (mut db, user, chat) = store_with_chat();
    let m = chat.create_chat_message(&mut db, "x", None, None).unwrap();
    for u in [&user.uuid, &chat.uuid, &m.uuid] {
        assert_eq!(u.len(), 36);
    }
    assert_ne!(user.uuid, chat.uuid);
    assert_ne!(chat.uuid, m.uuid);
    assert_ne!(user.uuid, m.uuid);
}

#[test]
fn state_change_keeps_identifier_and_creation() {
    let (mut db, _, chat) = store_with_chat();
    let m = chat
        .create_chat_message_with(&mut db, "x", None, Some(ChatMessageState::Pending), "m-1".to_string(), at(1_000))
        .unwrap();
    assert_eq!(m.created_at, m.updated_at);
    let l = db.set_message_state_with(m.id, ChatMessageState::Loading, at(5_000)).unwrap();
    assert_eq!(l.uuid, "m-1");
    assert_eq!(l.created_at, at(1_000));
    assert_eq!(l.updated_at, at(5_000));
    assert!(l.updated_at.micros > l.created_at.micros);
    let r = db.set_message_state_with(m.id, ChatMessageState::Ready, at(500)).unwrap();
    assert_eq!(r.updated_at, at(1_000));
    assert_eq!(r.created_at, at(1_000));
    assert_eq!(chat.get_messages(&db)[0].state, ChatMessageState::Ready);
}

#[test]
fn fresh_rows_have_equal_timestamps() {
    let (mut db, user, chat) = store_with_chat();
    let m = chat.create_chat_message(&mut db, "x", None, None).unwrap();
    assert_eq!(user.created_at, user.updated_at);
    assert_eq!(chat.created_at, chat.updated_at);
    assert_eq!(m.created_at, m.updated_at);
    // 2020-01-01 in microseconds: the clock is read, not left at zero.
    assert!(user.created_at.micros > 1_577_836_800_000_000);
}

#[test]
fn lifecycle_moves_forward_only() {
    let (mut db, _, chat) = store_with_chat();
    let m = chat
        .create_chat_message(&mut db, "x", None, Some(ChatMessageState::Pending))
        .unwrap();
    assert_eq!(
        db.set_message_state(m.id, ChatMessageState::Ready).unwrap_err(),
        DatabaseError::Database(StorageFailure::InvalidTransition)
    );
    db.set_message_state(m.id, ChatMessageState::Loading).unwrap();
    db.set_message_state(m.id, ChatMessageState::Error).unwrap();
    assert_eq!(
        db.set_message_state(m.id, ChatMessageState::Loading).unwrap_err(),
        DatabaseError::Database(StorageFailure::InvalidTransition)
    );
    assert_eq!(
        db.set_message_state(999, ChatMessageState::Loading).unwrap_err(),
        DatabaseError::Database(StorageFailure::MissingMessage)
    );
    assert!(ChatMessageState::Ready.is_final());
    assert!(!ChatMessageState::Pending.is_final());
    assert!(ChatMessageState::Loading.can_transition_to(ChatMessageState::Error));
    assert!(!ChatMessageState::Pending.can_transition_to(ChatMessageState::Pending));
}

#[test]
fn deleting_a_chat_cascades() {
    let (mut db, user, chat) = store_with_chat();
    let keep = db.insert_chat("Keep").unwrap();
    db.link_user_to_chat(user.id, keep.id).unwrap();
    for k in 0..3 {
        chat.create_chat_message(&mut db, &format!("m{k}"), None, None).unwrap();
    }
    keep.create_chat_message(&mut db, "stay", None, None).unwrap();
    assert_eq!(db.delete_chat(chat.id), Ok(3));
    assert!(Chat::find(&db, chat.id).is_none());
    assert!(Chat::find_by_uuid(&db, &chat.uuid).is_none());
    assert_eq!(Chat::get(&db, chat.id).unwrap_err(), DatabaseError::ChatNotFound);
    assert!(!db.is_related(user.id, chat.id));
    assert!(db.is_related(user.id, keep.id));
    assert_eq!(keep.get_messages(&db).len(), 1);
    assert_eq!(db.delete_chat(chat.id), Err(DatabaseError::ChatNotFound));
}

#[test]
fn deleting_a_user_cascades() {
    let (mut db, user, chat) = store_with_chat();
    let other = db.insert_user("bob").unwrap();
    db.link_user_to_chat(other.id, chat.id).unwrap();
    chat.create_chat_message(&mut db, "mine", Some(user.id), None).unwrap();
    chat.create_chat_message(&mut db, "reply", None, None).unwrap();
    chat.create_chat_message(&mut db, "bob's", Some(other.id), None).unwrap();
    assert_eq!(db.delete_user(user.id), Ok(1));
    assert!(!db.is_related(user.id, chat.id));
    assert!(db.is_related(other.id, chat.id));
    assert!(User::find(&db, user.id).is_none());
    let left = chat.get_messages(&db);
    assert_eq!(left.len(), 2);
    assert!(left.iter().all(|m: &ChatMessage| m.user_id != Some(user.id)));
    assert_eq!(db.delete_user(user.id), Err(DatabaseError::UserNotFound));
}

#[test]
fn first_user_has_smallest_key() {
    let mut db = Db::new();
    assert_eq!(User::find_first(&db).unwrap_err(), DatabaseError::UserNotFound);
    let a = db.insert_user("a").unwrap();
    db.insert_user("b").unwrap();
    assert_eq!(User::find_first(&db).unwrap().id, a.id);
    assert_eq!(User::get(&db, a.id).unwrap().username, "a");
    assert_eq!(User::get(&db, 42).unwrap_err(), DatabaseError::UserNotFound);
}

#[test]
fn default_chat_is_the_earliest_created() {
    let mut db = Db::new();
    let u = db.insert_user_with("u", "u-1".to_string(), at(10)).unwrap();
    assert_eq!(u.get_default_chat(&db).unwrap_err(), DatabaseError::ChatNotFound);
    let late = db.insert_chat_with("late", "c-1".to_string(), at(300)).unwrap();
    let early = db.insert_chat_with("early", "c-2".to_string(), at(100)).unwrap();
    let unrelated = db.insert_chat_with("other", "c-3".to_string(), at(50)).unwrap();
    db.link_user_to_chat(u.id, late.id).unwrap();
    db.link_user_to_chat(u.id, early.id).unwrap();
    assert_eq!(u.get_default_chat(&db).unwrap().id, early.id);
    assert_ne!(u.get_default_chat(&db).unwrap().id, unrelated.id);
}

#[test]
fn store_refusals() {
    let mut db = Db::new();
    let u = db.insert_user_with("u", "same".to_string(), at(0)).unwrap();
    assert_eq!(
        db.insert_user_with("v", String::new(), at(0)).unwrap_err(),
        DatabaseError::Database(StorageFailure::EmptyUuid)
    );
    assert_eq!(
        db.insert_chat_with("c", "same".to_string(), at(0)).unwrap_err(),
        DatabaseError::Database(StorageFailure::DuplicateUuid)
    );
    assert_eq!(
        db.insert_user_with("u", "other".to_string(), at(0)).unwrap_err(),
        DatabaseError::Database(StorageFailure::DuplicateUsername)
    );
    assert_eq!(db.insert_user("u").unwrap_err(), DatabaseError::Database(StorageFailure::DuplicateUsername));
    let c = db.insert_chat_with("c", "chat".to_string(), at(0)).unwrap();
    assert_eq!(
        db.link_user_to_chat(u.id, 99).unwrap_err(),
        DatabaseError::Database(StorageFailure::MissingChat)
    );
    assert_eq!(
        db.link_user_to_chat(99, c.id).unwrap_err(),
        DatabaseError::Database(StorageFailure::MissingUser)
    );
    db.link_user_to_chat(u.id, c.id).unwrap();
    assert_eq!(
        db.link_user_to_chat(u.id, c.id).unwrap_err(),
        DatabaseError::Database(StorageFailure::DuplicateLink)
    );
    assert_eq!(
        c.create_chat_message(&mut db, "x", Some(99), None).unwrap_err(),
        DatabaseError::Database(StorageFailure::MissingUser)
    );
    let gone = Chat { id: 77, ..c.clone() };
    assert_eq!(
        gone.create_chat_message(&mut db, "x", None, None).unwrap_err(),
        DatabaseError::Database(StorageFailure::MissingChat)
    );
    assert_eq!(
        c.create_chat_message_with(&mut db, "x", None, None, "chat".to_string(), at(0)).unwrap_err(),
        DatabaseError::Database(StorageFailure::DuplicateUuid)
    );
    assert!(db.uuid_in_use(&"same".to_string()));
    assert!(!db.uuid_in_use(&"fresh".to_string()));
    assert!(db.username_in_use(&"u".to_string()));
}

#[test]
fn message_document_members() {
    let (mut db, user, chat) = store_with_chat();
    let m = chat
        .create_chat_message_with(&mut db, "hello", Some(user.id), None, "m-9".to_string(), at(1_500_000))
        .unwrap();
    let doc = m.to_json().unwrap();
    match &doc {
        JsonValue::Object(members) => {
            let keys: Vec<&str> = members.iter().map(|(k, _)| k.as_str()).collect();
            assert_eq!(
                keys,
                ["id", "uuid", "title", "content", "role", "state", "chat_id", "user_id", "created_at", "updated_at"]
            );
        }
        _ => panic!("not an object"),
    }
    assert!(matches!(member(&doc, "id"), JsonValue::Number(n) if *n == m.id as i64));
    assert_eq!(text(member(&doc, "uuid")), "m-9");
    assert!(matches!(member(&doc, "title"), JsonValue::Null));
    assert_eq!(text(member(&doc, "content")), "hello");
    assert_eq!(text(member(&doc, "role")), "User");
    assert_eq!(text(member(&doc, "state")), "Ready");
    assert!(matches!(member(&doc, "user_id"), JsonValue::Number(n) if *n == user.id as i64));
    assert_eq!(text(member(&doc, "created_at")), "1970-01-01T00:00:01.500Z");
    assert_eq!(text(member(&doc, "updated_at")), "1970-01-01T00:00:01.500Z");
}

#[test]
fn chat_document_members() {
    let mut db = Db::new();
    let chat = db.insert_chat_with("Talk", "c-1".to_string(), at(0)).unwrap();
    chat.create_chat_message_with(&mut db, "a", None, None, "m-1".to_string(), at(0)).unwrap();
    let doc = chat.to_json(&db).unwrap();
    assert_eq!(text(member(&doc, "title")), "Talk");
    assert_eq!(text(member(&doc, "uuid")), "c-1");
    assert_eq!(text(member(&doc, "created_at")), "1970-01-01T00:00:00Z");
    match member(&doc, "chat_messages") {
        JsonValue::Array(items) => {
            assert_eq!(items.len(), 1);
            assert!(matches!(member(&items[0], "user_id"), JsonValue::Null));
            assert_eq!(text(member(&items[0], "role")), "Assistant");
        }
        _ => panic!("not an array"),
    }
}

#[test]
fn unrenderable_instant_is_a_serialization_error() {
    let mut db = Db::new();
    let chat = db.insert_chat_with("t", "c-1".to_string(), at(0)).unwrap();
    let m = chat
        .create_chat_message_with(&mut db, "x", None, None, "m-1".to_string(), at(i64::MAX))
        .unwrap();
    let expected = DatabaseError::Serialization(SerializationFailure::TimestampOutOfRange);
    assert_eq!(m.to_json().unwrap_err(), expected);
    assert_eq!(chat.to_json(&db).unwrap_err(), expected);
}

#[test]
fn summary_of_a_non_chat_document() {
    assert!(ChatSummary::from_json(&JsonValue::Null).is_none());
    assert!(ChatSummary::from_json(&JsonValue::Object(vec![("id".to_string(), JsonValue::Number(1))])).is_none());
}

#[test]
fn errors_map_to_web_responses() {
    let e = AppError::from_database_error(DatabaseError::ChatNotFound);
    assert_eq!((e.status, e.message.as_str()), (404, "Chat not found"));
    let e = AppError::from_database_error(DatabaseError::UserNotFound);
    assert_eq!((e.status, e.message.as_str()), (404, "User not found"));
    let e = AppError::from_database_error(DatabaseError::Database(StorageFailure::DuplicateUuid));
    assert_eq!((e.status, e.message.as_str()), (500, "Database error"));
    let e = AppError::from_database_error(DatabaseError::Serialization(SerializationFailure::TimestampOutOfRange));
    assert_eq!((e.status, e.message.as_str()), (500, "Serialization error"));
}

#[test]
fn labels_of_roles_and_states() {
    assert_eq!(ChatMessageRole::System.to_string(), "System");
    assert_eq!(ChatMessageState::Loading.to_string(), "Loading");
    assert_eq!(ChatMessageState::Error.to_string(), "Error");
}

#[test]
fn seed_ties_starting_user_to_starting_chat() {
    let mut db = Db::new();
    let (user, chat) = db.seed().unwrap();
    assert_eq!(user.username, "test_user");
    assert_eq!(chat.title, "test_chat");
    assert_eq!(User::find_first(&db).unwrap().id, user.id);
    assert_eq!(user.get_default_chat(&db).unwrap().uuid, chat.uuid);
    assert_eq!(db.seed().unwrap_err(), DatabaseError::Database(StorageFailure::DuplicateUsername));
}
