use vstd::prelude::*;

use crate::clock::{rfc3339_of, rfc3339_text, Timestamp};
use crate::entities::{role_label, state_label, Chat, ChatMessage};
use crate::errors::{DatabaseError, SerializationFailure};
use crate::store::Db;

verus! {

/// A JSON value. Objects keep their members in the order written.
#[derive(Debug)]
pub enum JsonValue {
    Null,
    Number(i64),
    Text(String),
    Array(Vec<JsonValue>),
    Object(Vec<(String, JsonValue)>),
}

pub open spec fn is_text(v: JsonValue, s: Seq<char>) -> bool {
    v matches JsonValue::Text(t) && t@ == s
}

pub open spec fn is_optional_text(v: JsonValue, o: Option<String>) -> bool {
    match o {
        Some(t) => is_text(v, t@),
        None => v == JsonValue::Null,
    }
}

/// The instant as the document writes it, where it can be written.
pub open spec fn is_instant(v: JsonValue, t: Timestamp) -> bool {
    rfc3339_of(t.micros) is Some && is_text(v, rfc3339_of(t.micros)->0)
}

pub open spec fn renderable(t: Timestamp) -> bool {
    rfc3339_of(t.micros) is Some
}

pub open spec fn message_renderable(m: ChatMessage) -> bool {
    renderable(m.created_at) && renderable(m.updated_at)
}

/// The members of a message's document: `id`, `uuid`, `title`, `content`,
/// `role`, `state`, `chat_id`, `user_id`, `created_at`, `updated_at`, with
/// absent values as null and the role and state as their labels.
pub open spec fn message_members(e: Seq<(String, JsonValue)>, m: ChatMessage) -> bool {
    &&& e.len() == 10
    &&& e[0].0@ == "id"@ && e[0].1 == JsonValue::Number(m.id as i64)
    &&& e[1].0@ == "uuid"@ && is_text(e[1].1, m.uuid@)
    &&& e[2].0@ == "title"@ && is_optional_text(e[2].1, m.title)
    &&& e[3].0@ == "content"@ && is_optional_text(e[3].1, m.content)
    &&& e[4].0@ == "role"@ && is_text(e[4].1, role_label(m.role))
    &&& e[5].0@ == "state"@ && is_text(e[5].1, state_label(m.state))
    &&& e[6].0@ == "chat_id"@ && e[6].1 == JsonValue::Number(m.chat_id as i64)
    &&& e[7].0@ == "user_id"@ && e[7].1 == match m.user_id {
        Some(u) => JsonValue::Number(u as i64),
        None => JsonValue::Null,
    }
    &&& e[8].0@ == "created_at"@ && is_instant(e[8].1, m.created_at)
    &&& e[9].0@ == "updated_at"@ && is_instant(e[9].1, m.updated_at)
}

pub open spec fn message_document(d: JsonValue, m: ChatMessage) -> bool {
    d matches JsonValue::Object(e) && message_members(e@, m)
}

/// Whether every instant of the chat and of its messages can be written.
pub open spec fn chat_renderable(c: Chat, msgs: Seq<ChatMessage>) -> bool {
    &&& renderable(c.created_at)
    &&& renderable(c.updated_at)
    &&& forall|k: int| 0 <= k < msgs.len() ==> message_renderable(#[trigger] msgs[k])
}

/// The members of a chat's document: `title`, `id`, `uuid`, `created_at`,
/// `updated_at`, and `chat_messages`, the documents of its messages in order.
pub open spec fn chat_members(e: Seq<(String, JsonValue)>, c: Chat, msgs: Seq<ChatMessage>) -> bool {
    &&& e.len() == 6
    &&& e[0].0@ == "title"@ && is_text(e[0].1, c.title@)
    &&& e[1].0@ == "id"@ && e[1].1 == JsonValue::Number(c.id as i64)
    &&& e[2].0@ == "uuid"@ && is_text(e[2].1, c.uuid@)
    &&& e[3].0@ == "created_at"@ && is_instant(e[3].1, c.created_at)
    &&& e[4].0@ == "updated_at"@ && is_instant(e[4].1, c.updated_at)
    &&& e[5].0@ == "chat_messages"@
    &&& e[5].1 matches JsonValue::Array(a) && a@.len() == msgs.len() && forall|k: int|
        0 <= k < msgs.len() ==> message_document(#[trigger] a@[k], msgs[k])
}

pub open spec fn chat_document(d: JsonValue, c: Chat, msgs: Seq<ChatMessage>) -> bool {
    d matches JsonValue::Object(e) && chat_members(e@, c, msgs)
}

/// The value of the first member under `key`.
pub open spec fn member(e: Seq<(String, JsonValue)>, key: Seq<char>) -> Option<JsonValue>
    decreases e.len(),
{
    if e.len() == 0 {
        None
    } else if e[0].0@ == key {
        Some(e[0].1)
    } else {
        member(e.drop_first(), key)
    }
}

/// What a reader of a chat document recovers: the key, the identifier, the
/// title, and the number of messages.
pub struct ChatSummary {
    pub id: i64,
    pub uuid: String,
    pub title: String,
    pub message_count: usize,
}

/// The summary a chat document yields, if it has the members of one.
pub open spec fn chat_summary_of(d: JsonValue) -> Option<(int, Seq<char>, Seq<char>, int)> {
    match d {
        JsonValue::Object(e) => match (
            member(e@, "id"@),
            member(e@, "uuid"@),
            member(e@, "title"@),
            member(e@, "chat_messages"@),
        ) {
            (
                Some(JsonValue::Number(id)),
                Some(JsonValue::Text(u)),
                Some(JsonValue::Text(t)),
                Some(JsonValue::Array(a)),
            ) => Some((id as int, u@, t@, a@.len() as int)),
            _ => None,
        },
        _ => None,
    }
}

/// The value of the first member under `key`, if any.
pub fn get_member<'a>(e: &'a Vec<(String, JsonValue)>, key: &str) -> (r: Option<&'a JsonValue>)
    ensures
        match r {
            Some(v) => member(e@, key@) == Some(*v),
            None => member(e@, key@) is None,
        },
{
    let k = String::from_str(key);
    let mut i: usize = 0;
    assert(e@.subrange(0, e@.len() as int) =~= e@);
    while i < e.len()
        invariant
            i <= e.len(),
            k@ == key@,
            member(e@, key@) == member(e@.subrange(i as int, e@.len() as int), key@),
        decreases e.len() - i,
    {
        let ghost rest = e@.subrange(i as int, e@.len() as int);
        assert(rest[0] == e@[i as int]);
        if e[i].0 == k {
            return Some(&e[i].1);
        }
        assert(rest.drop_first() =~= e@.subrange(i + 1, e@.len() as int));
        i = i + 1;
    }
    None
}

/// Relies on `rfc3339_text`; turns an instant that cannot be written into a
/// serialization error.
fn instant_value(t: Timestamp) -> (r: Result<JsonValue, DatabaseError>)
    ensures
        match r {
            Ok(v) => is_instant(v, t),
            Err(e) => !renderable(t) && e == DatabaseError::Serialization(
                SerializationFailure::TimestampOutOfRange,
            ),
        },
{
    match rfc3339_text(t) {
        Some(s) => Ok(JsonValue::Text(s)),
        None => Err(DatabaseError::Serialization(SerializationFailure::TimestampOutOfRange)),
    }
}

fn optional_text(o: &Option<String>) -> (r: JsonValue)
    ensures
        is_optional_text(r, *o),
{
    match o {
        Some(t) => JsonValue::Text(t.clone()),
        None => JsonValue::Null,
    }
}

impl ChatMessage {
    /// The message as a JSON object; fails only where an instant cannot be
    /// written.
    pub fn to_json(&self) -> (r: Result<JsonValue, DatabaseError>)
        ensures
            match r {
                Ok(d) => message_document(d, *self),
                Err(e) => !message_renderable(*self) && e == DatabaseError::Serialization(
                    SerializationFailure::TimestampOutOfRange,
                ),
            },
            message_renderable(*self) ==> r is Ok,
    {
        let created = match instant_value(self.created_at) {
            Ok(v) => v,
            Err(e) => {
                return Err(e);
            },
        };
        let updated = match instant_value(self.updated_at) {
            Ok(v) => v,
            Err(e) => {
                return Err(e);
            },
        };
        let mut e: Vec<(String, JsonValue)> = Vec::new();
        e.push((String::from_str("id"), JsonValue::Number(self.id as i64)));
        e.push((String::from_str("uuid"), JsonValue::Text(self.uuid.clone())));
        e.push((String::from_str("title"), optional_text(&self.title)));
        e.push((String::from_str("content"), optional_text(&self.content)));
        e.push((String::from_str("role"), JsonValue::Text(self.role.to_string())));
        e.push((String::from_str("state"), JsonValue::Text(self.state.to_string())));
        e.push((String::from_str("chat_id"), JsonValue::Number(self.chat_id as i64)));
        let user = match self.user_id {
            Some(u) => JsonValue::Number(u as i64),
            None => JsonValue::Null,
        };
        e.push((String::from_str("user_id"), user));
        e.push((String::from_str("created_at"), created));
        e.push((String::from_str("updated_at"), updated));
        Ok(JsonValue::Object(e))
    }
}

impl Chat {
    /// The chat as a JSON object, with the documents of its messages under
    /// `chat_messages`; fails where an instant of the chat or of one of its
    /// messages cannot be written.
    pub fn to_json(&self, db: &Db) -> (r: Result<JsonValue, DatabaseError>)
        ensures
            match r {
                Ok(d) => chat_document(d, *self, db@.messages_of(self.id)),
                Err(e) => !chat_renderable(*self, db@.messages_of(self.id)) && e
                    == DatabaseError::Serialization(SerializationFailure::TimestampOutOfRange),
            },
            chat_renderable(*self, db@.messages_of(self.id)) ==> r is Ok,
    {
        let messages = self.get_messages(db);
        let mut docs: Vec<JsonValue> = Vec::new();
        let mut i: usize = 0;
        while i < messages.len()
            invariant
                i <= messages.len(),
                messages@ == db@.messages_of(self.id),
                docs@.len() == i,
                forall|k: int| 0 <= k < i ==> message_document(#[trigger] docs@[k], messages@[k]),
            decreases messages.len() - i,
        {
            match messages[i].to_json() {
                Ok(d) => docs.push(d),
                Err(e) => {
                    return Err(e);
                },
            }
            i = i + 1;
        }
        let created = match instant_value(self.created_at) {
            Ok(v) => v,
            Err(e) => {
                return Err(e);
            },
        };
        let updated = match instant_value(self.updated_at) {
            Ok(v) => v,
            Err(e) => {
                return Err(e);
            },
        };
        let mut e: Vec<(String, JsonValue)> = Vec::new();
        e.push((String::from_str("title"), JsonValue::Text(self.title.clone())));
        e.push((String::from_str("id"), JsonValue::Number(self.id as i64)));
        e.push((String::from_str("uuid"), JsonValue::Text(self.uuid.clone())));
        e.push((String::from_str("created_at"), created));
        e.push((String::from_str("updated_at"), updated));
        e.push((String::from_str("chat_messages"), JsonValue::Array(docs)));
        Ok(JsonValue::Object(e))
    }
}

impl ChatSummary {
    /// Reads the key, identifier, title and message count back from a chat
    /// document; `None` if one of them is missing or of another kind.
    pub fn from_json(d: &JsonValue) -> (r: Option<ChatSummary>)
        ensures
            match r {
                Some(s) => chat_summary_of(*d) == Some(
                    (s.id as int, s.uuid@, s.title@, s.message_count as int),
                ),
                None => chat_summary_of(*d) is None,
            },
    {
        let e = match d {
            JsonValue::Object(e) => e,
            _ => {
                return None;
            },
        };
        let id = match get_member(e, "id") {
            Some(JsonValue::Number(n)) => *n,
            _ => {
                return None;
            },
        };
        let uuid = match get_member(e, "uuid") {
            Some(JsonValue::Text(t)) => t.clone(),
            _ => {
                return None;
            },
        };
        let title = match get_member(e, "title") {
            Some(JsonValue::Text(t)) => t.clone(),
            _ => {
                return None;
            },
        };
        let count = match get_member(e, "chat_messages") {
            Some(JsonValue::Array(a)) => a.len(),
            _ => {
                return None;
            },
        };
        Some(ChatSummary { id, uuid, title, message_count: count })
    }
}

} // verus!
