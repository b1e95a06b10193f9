use vstd::prelude::*;

use crate::clock::{now, Timestamp};
use crate::entities::{
    allowed_transition, Chat, ChatMessage, ChatMessageRole, ChatMessageState, ChatsUsers, User,
};
use crate::errors::{DatabaseError, StorageFailure};
use crate::identity::{new_uuid, stamps_on_insert, updated_at_on_update};
use crate::seq_facts::{
    lemma_filter_contains, lemma_filter_no_duplicates, lemma_filter_sorted, lemma_filter_split_len,
    lemma_push_contains,
};

verus! {

/// The tables of the store as mathematical sequences, in storage order, with
/// the next surrogate key of each table.
pub struct DbView {
    pub users: Seq<User>,
    pub chats: Seq<Chat>,
    pub links: Seq<ChatsUsers>,
    pub messages: Seq<ChatMessage>,
    pub next_user_id: int,
    pub next_chat_id: int,
    pub next_message_id: int,
}

impl DbView {
    pub open spec fn has_user(self, id: i32) -> bool {
        exists|u: User| #[trigger] self.users.contains(u) && u.id == id
    }

    pub open spec fn has_chat(self, id: i32) -> bool {
        exists|c: Chat| #[trigger] self.chats.contains(c) && c.id == id
    }

    /// Whether some row of any table carries the identifier.
    pub open spec fn uuid_used(self, uuid: Seq<char>) -> bool {
        (exists|u: User| #[trigger] self.users.contains(u) && u.uuid@ == uuid) || (exists|c: Chat|
            #[trigger] self.chats.contains(c) && c.uuid@ == uuid) || (exists|m: ChatMessage|
            #[trigger] self.messages.contains(m) && m.uuid@ == uuid)
    }

    pub open spec fn has_message(self, id: i32) -> bool {
        exists|m: ChatMessage| #[trigger] self.messages.contains(m) && m.id == id
    }

    /// Where the message with the key is stored.
    pub open spec fn message_index(self, id: i32) -> int {
        choose|i: int| 0 <= i < self.messages.len() && self.messages[i].id == id
    }

    /// The store with the message at `i` replaced.
    pub open spec fn put_message(self, i: int, m: ChatMessage) -> DbView {
        DbView { messages: self.messages.update(i, m), ..self }
    }

    /// The store after deleting the chat, with its messages and links.
    pub open spec fn without_chat(self, id: i32) -> DbView {
        DbView {
            chats: self.chats.filter(chat_other_than(id)),
            links: self.links.filter(link_outside_chat(id)),
            messages: self.messages.filter(msg_outside_chat(id)),
            ..self
        }
    }

    /// The store after deleting the user, with its links and the messages it
    /// wrote.
    pub open spec fn without_user(self, id: i32) -> DbView {
        DbView {
            users: self.users.filter(user_other_than(id)),
            links: self.links.filter(link_outside_user(id)),
            messages: self.messages.filter(msg_not_by(id)),
            ..self
        }
    }

    /// The store after deleting every message of the chat.
    pub open spec fn without_chat_messages(self, id: i32) -> DbView {
        DbView { messages: self.messages.filter(msg_outside_chat(id)), ..self }
    }

    /// The messages of the chat, in storage order.
    pub open spec fn messages_of(self, chat_id: i32) -> Seq<ChatMessage> {
        self.messages.filter(msg_in_chat(chat_id))
    }

    /// Whether the chat is stored and tied to the user.
    pub open spec fn chat_of_user(self, user_id: i32, c: Chat) -> bool {
        self.chats.contains(c) && self.related(user_id, c.id)
    }

    pub open spec fn username_taken(self, name: Seq<char>) -> bool {
        exists|u: User| #[trigger] self.users.contains(u) && u.username@ == name
    }

    /// Whether the link table ties the user to the chat.
    pub open spec fn related(self, user_id: i32, chat_id: i32) -> bool {
        self.links.contains(ChatsUsers { chat_id, user_id })
    }

    /// Surrogate keys are positive, below the table's next key, and
    /// increase in storage order.
    pub open spec fn keys_ordered(self) -> bool {
        &&& 0 < self.next_user_id <= i32::MAX
        &&& 0 < self.next_chat_id <= i32::MAX
        &&& 0 < self.next_message_id <= i32::MAX
        &&& forall|i: int, j: int|
            0 <= i < j < self.users.len() ==> self.users[i].id < self.users[j].id
        &&& forall|i: int, j: int|
            0 <= i < j < self.chats.len() ==> self.chats[i].id < self.chats[j].id
        &&& forall|i: int, j: int|
            0 <= i < j < self.messages.len() ==> self.messages[i].id < self.messages[j].id
        &&& forall|u: User| #[trigger]
            self.users.contains(u) ==> 0 < u.id < self.next_user_id
        &&& forall|c: Chat| #[trigger]
            self.chats.contains(c) ==> 0 < c.id < self.next_chat_id
        &&& forall|m: ChatMessage| #[trigger]
            self.messages.contains(m) ==> 0 < m.id < self.next_message_id
    }

    /// Every identifier is non-empty and held by one row of one table only.
    pub open spec fn uuids_distinct(self) -> bool {
        &&& forall|a: User, b: User|
            #[trigger] self.users.contains(a) && #[trigger] self.users.contains(b) && a.uuid@
                == b.uuid@ ==> a == b
        &&& forall|a: Chat, b: Chat|
            #[trigger] self.chats.contains(a) && #[trigger] self.chats.contains(b) && a.uuid@
                == b.uuid@ ==> a == b
        &&& forall|a: ChatMessage, b: ChatMessage|
            #[trigger] self.messages.contains(a) && #[trigger] self.messages.contains(b) && a.uuid@
                == b.uuid@ ==> a == b
        &&& forall|u: User, c: Chat|
            #[trigger] self.users.contains(u) && #[trigger] self.chats.contains(c) ==> u.uuid@
                != c.uuid@
        &&& forall|u: User, m: ChatMessage|
            #[trigger] self.users.contains(u) && #[trigger] self.messages.contains(m) ==> u.uuid@
                != m.uuid@
        &&& forall|c: Chat, m: ChatMessage|
            #[trigger] self.chats.contains(c) && #[trigger] self.messages.contains(m) ==> c.uuid@
                != m.uuid@
        &&& forall|u: User| #[trigger] self.users.contains(u) ==> u.uuid@.len() > 0
        &&& forall|c: Chat| #[trigger] self.chats.contains(c) ==> c.uuid@.len() > 0
        &&& forall|m: ChatMessage| #[trigger] self.messages.contains(m) ==> m.uuid@.len() > 0
    }

    pub open spec fn usernames_distinct(self) -> bool {
        forall|a: User, b: User|
            #[trigger] self.users.contains(a) && #[trigger] self.users.contains(b) && a.username@
                == b.username@ ==> a == b
    }

    /// No row was last updated before it was created.
    pub open spec fn timestamps_ordered(self) -> bool {
        &&& forall|u: User| #[trigger]
            self.users.contains(u) ==> u.created_at.micros <= u.updated_at.micros
        &&& forall|c: Chat| #[trigger]
            self.chats.contains(c) ==> c.created_at.micros <= c.updated_at.micros
        &&& forall|m: ChatMessage| #[trigger]
            self.messages.contains(m) ==> m.created_at.micros <= m.updated_at.micros
    }

    /// Links and messages refer to rows that exist; a link is stored once;
    /// only a message in the user role names an author.
    pub open spec fn references_hold(self) -> bool {
        &&& self.links.no_duplicates()
        &&& forall|l: ChatsUsers| #[trigger]
            self.links.contains(l) ==> self.has_chat(l.chat_id) && self.has_user(l.user_id)
        &&& forall|m: ChatMessage| #[trigger]
            self.messages.contains(m) ==> self.has_chat(m.chat_id) && (m.user_id is Some ==> (
            self.has_user(m.user_id->0) && m.role == ChatMessageRole::User))
    }

    pub open spec fn wf(self) -> bool {
        &&& self.keys_ordered()
        &&& self.uuids_distinct()
        &&& self.usernames_distinct()
        &&& self.timestamps_ordered()
        &&& self.references_hold()
    }

    pub open spec fn add_user(self, u: User) -> DbView {
        DbView { users: self.users.push(u), next_user_id: self.next_user_id + 1, ..self }
    }

    pub open spec fn add_chat(self, c: Chat) -> DbView {
        DbView { chats: self.chats.push(c), next_chat_id: self.next_chat_id + 1, ..self }
    }

    pub open spec fn add_link(self, l: ChatsUsers) -> DbView {
        DbView { links: self.links.push(l), ..self }
    }

    pub open spec fn add_message(self, m: ChatMessage) -> DbView {
        DbView {
            messages: self.messages.push(m),
            next_message_id: self.next_message_id + 1,
            ..self
        }
    }

    /// Why inserting a user would be refused, if it would.
    pub open spec fn insert_user_failure(self, username: Seq<char>, uuid: Seq<char>) -> Option<
        StorageFailure,
    > {
        if uuid.len() == 0 {
            Some(StorageFailure::EmptyUuid)
        } else if self.uuid_used(uuid) {
            Some(StorageFailure::DuplicateUuid)
        } else if self.username_taken(username) {
            Some(StorageFailure::DuplicateUsername)
        } else if self.next_user_id == i32::MAX {
            Some(StorageFailure::IdsExhausted)
        } else {
            None
        }
    }

    /// Why inserting a chat would be refused, if it would.
    pub open spec fn insert_chat_failure(self, uuid: Seq<char>) -> Option<StorageFailure> {
        if uuid.len() == 0 {
            Some(StorageFailure::EmptyUuid)
        } else if self.uuid_used(uuid) {
            Some(StorageFailure::DuplicateUuid)
        } else if self.next_chat_id == i32::MAX {
            Some(StorageFailure::IdsExhausted)
        } else {
            None
        }
    }

    /// Why linking a user to a chat would be refused, if it would.
    pub open spec fn link_failure(self, user_id: i32, chat_id: i32) -> Option<StorageFailure> {
        if !self.has_chat(chat_id) {
            Some(StorageFailure::MissingChat)
        } else if !self.has_user(user_id) {
            Some(StorageFailure::MissingUser)
        } else if self.related(user_id, chat_id) {
            Some(StorageFailure::DuplicateLink)
        } else {
            None
        }
    }

    /// Why inserting a message into the chat would be refused, if it would.
    pub open spec fn message_failure(self, chat_id: i32, user_id: Option<i32>, uuid: Seq<char>) -> Option<
        StorageFailure,
    > {
        if !self.has_chat(chat_id) {
            Some(StorageFailure::MissingChat)
        } else if user_id is Some && !self.has_user(user_id->0) {
            Some(StorageFailure::MissingUser)
        } else if uuid.len() == 0 {
            Some(StorageFailure::EmptyUuid)
        } else if self.uuid_used(uuid) {
            Some(StorageFailure::DuplicateUuid)
        } else if self.next_message_id == i32::MAX {
            Some(StorageFailure::IdsExhausted)
        } else {
            None
        }
    }
}

impl ChatMessage {
    /// The message as it would be with another state and update time.
    pub open spec fn with_state(self, state: ChatMessageState, updated_at: Timestamp) -> ChatMessage {
        ChatMessage { state, updated_at, ..self }
    }

    /// The contents, role, state and references of a message just created
    /// in a chat.
    pub open spec fn new_message_shape(
        self,
        chat_id: i32,
        content: Seq<char>,
        user_id: Option<i32>,
        state: Option<ChatMessageState>,
    ) -> bool {
        &&& self.title is None
        &&& self.content is Some
        &&& self.content->0@ == content
        &&& self.role == new_message_role(user_id)
        &&& self.state == new_message_state(state)
        &&& self.chat_id == chat_id
        &&& self.user_id == user_id
    }
}

pub open spec fn msg_in_chat(chat_id: i32) -> spec_fn(ChatMessage) -> bool {
    |m: ChatMessage| m.chat_id == chat_id
}

pub open spec fn msg_outside_chat(chat_id: i32) -> spec_fn(ChatMessage) -> bool {
    |m: ChatMessage| m.chat_id != chat_id
}

pub open spec fn msg_by(user_id: i32) -> spec_fn(ChatMessage) -> bool {
    |m: ChatMessage| m.user_id == Some(user_id)
}

pub open spec fn msg_not_by(user_id: i32) -> spec_fn(ChatMessage) -> bool {
    |m: ChatMessage| m.user_id != Some(user_id)
}

pub open spec fn link_outside_chat(chat_id: i32) -> spec_fn(ChatsUsers) -> bool {
    |l: ChatsUsers| l.chat_id != chat_id
}

pub open spec fn link_outside_user(user_id: i32) -> spec_fn(ChatsUsers) -> bool {
    |l: ChatsUsers| l.user_id != user_id
}

pub open spec fn chat_other_than(id: i32) -> spec_fn(Chat) -> bool {
    |c: Chat| c.id != id
}

pub open spec fn user_other_than(id: i32) -> spec_fn(User) -> bool {
    |u: User| u.id != id
}

/// The role of a new message: the user's when it has an author, the
/// assistant's otherwise.
pub open spec fn new_message_role(user_id: Option<i32>) -> ChatMessageRole {
    if user_id is Some {
        ChatMessageRole::User
    } else {
        ChatMessageRole::Assistant
    }
}

/// The state of a new message: the one asked for, else `Ready`.
pub open spec fn new_message_state(state: Option<ChatMessageState>) -> ChatMessageState {
    match state {
        Some(s) => s,
        None => ChatMessageState::Ready,
    }
}

/// Adding a fresh user under the next key keeps the store well formed.
proof fn lemma_add_user_wf(v: DbView, u: User)
    requires
        v.wf(),
        u.id == v.next_user_id,
        v.next_user_id < i32::MAX,
        u.uuid@.len() > 0,
        !v.uuid_used(u.uuid@),
        !v.username_taken(u.username@),
        u.created_at.micros <= u.updated_at.micros,
    ensures
        v.add_user(u).wf(),
{
    let w = v.add_user(u);
    lemma_push_contains(v.users, u);
    assert forall|i: int, j: int| 0 <= i < j < w.users.len() implies w.users[i].id < w.users[j].id by {
        if j == v.users.len() {
            assert(v.users.contains(v.users[i]));
        } else {
            assert(w.users[i] == v.users[i] && w.users[j] == v.users[j]);
        }
    }
    assert forall|l: ChatsUsers| #[trigger] w.links.contains(l) implies w.has_chat(l.chat_id)
        && w.has_user(l.user_id) by {
        assert(v.links.contains(l));
        let c = choose|c: Chat| #[trigger] v.chats.contains(c) && c.id == l.chat_id;
        assert(w.chats.contains(c));
        let x = choose|x: User| #[trigger] v.users.contains(x) && x.id == l.user_id;
        assert(w.users.contains(x));
    }
    assert forall|m: ChatMessage| #[trigger] w.messages.contains(m) implies w.has_chat(m.chat_id) && (
    m.user_id is Some ==> (w.has_user(m.user_id->0) && m.role == ChatMessageRole::User)) by {
        assert(v.messages.contains(m));
        let c = choose|c: Chat| #[trigger] v.chats.contains(c) && c.id == m.chat_id;
        assert(w.chats.contains(c));
        if m.user_id is Some {
            let x = choose|x: User| #[trigger] v.users.contains(x) && x.id == m.user_id->0;
            assert(w.users.contains(x));
        }
    }
}

/// Adding a fresh chat under the next key keeps the store well formed.
proof fn lemma_add_chat_wf(v: DbView, c: Chat)
    requires
        v.wf(),
        c.id == v.next_chat_id,
        v.next_chat_id < i32::MAX,
        c.uuid@.len() > 0,
        !v.uuid_used(c.uuid@),
        c.created_at.micros <= c.updated_at.micros,
    ensures
        v.add_chat(c).wf(),
{
    let w = v.add_chat(c);
    lemma_push_contains(v.chats, c);
    assert forall|i: int, j: int| 0 <= i < j < w.chats.len() implies w.chats[i].id < w.chats[j].id by {
        if j == v.chats.len() {
            assert(v.chats.contains(v.chats[i]));
        } else {
            assert(w.chats[i] == v.chats[i] && w.chats[j] == v.chats[j]);
        }
    }
    assert forall|l: ChatsUsers| #[trigger] w.links.contains(l) implies w.has_chat(l.chat_id)
        && w.has_user(l.user_id) by {
        assert(v.links.contains(l));
        let x = choose|x: Chat| #[trigger] v.chats.contains(x) && x.id == l.chat_id;
        assert(w.chats.contains(x));
        let y = choose|y: User| #[trigger] v.users.contains(y) && y.id == l.user_id;
        assert(w.users.contains(y));
    }
    assert forall|m: ChatMessage| #[trigger] w.messages.contains(m) implies w.has_chat(m.chat_id) && (
    m.user_id is Some ==> (w.has_user(m.user_id->0) && m.role == ChatMessageRole::User)) by {
        assert(v.messages.contains(m));
        let x = choose|x: Chat| #[trigger] v.chats.contains(x) && x.id == m.chat_id;
        assert(w.chats.contains(x));
        if m.user_id is Some {
            let y = choose|y: User| #[trigger] v.users.contains(y) && y.id == m.user_id->0;
            assert(w.users.contains(y));
        }
    }
}

/// Two views with the same users and chats agree on which of them exist.
proof fn lemma_same_parents(v: DbView, w: DbView)
    requires
        w.users == v.users,
        w.chats == v.chats,
    ensures
        forall|id: i32| #[trigger] w.has_chat(id) == v.has_chat(id),
        forall|id: i32| #[trigger] w.has_user(id) == v.has_user(id),
{
}

/// Adding a new link between existing rows keeps the store well formed.
proof fn lemma_add_link_wf(v: DbView, l: ChatsUsers)
    requires
        v.wf(),
        v.link_failure(l.user_id, l.chat_id) is None,
    ensures
        v.add_link(l).wf(),
{
    let w = v.add_link(l);
    lemma_push_contains(v.links, l);
    lemma_same_parents(v, w);
    assert forall|i: int, j: int| 0 <= i < w.links.len() && 0 <= j < w.links.len() && i != j implies w.links[i]
        != w.links[j] by {
        if i == v.links.len() {
            assert(v.links.contains(w.links[j]));
        } else if j == v.links.len() {
            assert(v.links.contains(w.links[i]));
        } else {
            assert(w.links[i] == v.links[i] && w.links[j] == v.links[j]);
        }
    }
    assert(w.links.no_duplicates());
    assert forall|k: ChatsUsers| #[trigger] w.links.contains(k) implies w.has_chat(k.chat_id)
        && w.has_user(k.user_id) by {
        if k != l {
            assert(v.links.contains(k));
        }
    }
    assert forall|m: ChatMessage| #[trigger] w.messages.contains(m) implies w.has_chat(m.chat_id) && (
    m.user_id is Some ==> (w.has_user(m.user_id->0) && m.role == ChatMessageRole::User)) by {
        assert(v.messages.contains(m));
    }
}

/// Adding a fresh message under the next key, in an existing chat and by an
/// existing author, keeps the store well formed.
proof fn lemma_add_message_wf(v: DbView, m: ChatMessage)
    requires
        v.wf(),
        m.id == v.next_message_id,
        v.message_failure(m.chat_id, m.user_id, m.uuid@) is None,
        m.user_id is Some ==> m.role == ChatMessageRole::User,
        m.created_at.micros <= m.updated_at.micros,
    ensures
        v.add_message(m).wf(),
{
    let w = v.add_message(m);
    lemma_push_contains(v.messages, m);
    lemma_same_parents(v, w);
    assert forall|i: int, j: int| 0 <= i < j < w.messages.len() implies w.messages[i].id
        < w.messages[j].id by {
        if j == v.messages.len() {
            assert(v.messages.contains(v.messages[i]));
        } else {
            assert(w.messages[i] == v.messages[i] && w.messages[j] == v.messages[j]);
        }
    }
    assert forall|k: ChatMessage| #[trigger] w.messages.contains(k) implies w.has_chat(k.chat_id) && (
    k.user_id is Some ==> (w.has_user(k.user_id->0) && k.role == ChatMessageRole::User)) by {
        if k != m {
            assert(v.messages.contains(k));
        }
    }
    assert forall|l: ChatsUsers| #[trigger] w.links.contains(l) implies w.has_chat(l.chat_id)
        && w.has_user(l.user_id) by {
        assert(v.links.contains(l));
    }
}

/// Keys are unique, so the stored position of a message is the one found.
proof fn lemma_message_index(v: DbView, id: i32, i: int)
    requires
        v.wf(),
        0 <= i < v.messages.len(),
        v.messages[i].id == id,
    ensures
        v.message_index(id) == i,
{
    let k = v.message_index(id);
    if k < i {
        assert(v.messages[k].id < v.messages[i].id);
    } else if k > i {
        assert(v.messages[i].id < v.messages[k].id);
    }
}

/// Replacing a message by one with the same key, identifier, chat, author
/// and role, and ordered timestamps, keeps the store well formed.
proof fn lemma_put_message_wf(v: DbView, i: int, m: ChatMessage)
    requires
        v.wf(),
        0 <= i < v.messages.len(),
        m.id == v.messages[i].id,
        m.uuid == v.messages[i].uuid,
        m.chat_id == v.messages[i].chat_id,
        m.user_id == v.messages[i].user_id,
        m.role == v.messages[i].role,
        m.created_at.micros <= m.updated_at.micros,
    ensures
        v.put_message(i, m).wf(),
{
    let w = v.put_message(i, m);
    let old_m = v.messages[i];
    assert(v.messages.contains(old_m));
    lemma_same_parents(v, w);
    assert forall|x: ChatMessage| #[trigger] w.messages.contains(x) implies (x == m || v.messages.contains(
        x,
    )) by {
        let k = choose|k: int| 0 <= k < w.messages.len() && w.messages[k] == x;
        if k != i {
            assert(v.messages[k] == x);
        }
    }
    assert(w.messages.contains(m)) by {
        assert(w.messages[i] == m);
    }
    assert forall|a: ChatMessage, b: ChatMessage|
        #[trigger] w.messages.contains(a) && #[trigger] w.messages.contains(b) && a.uuid@ == b.uuid@
        implies a == b by {
        if a == m && b != m {
            assert(v.messages.contains(b));
            assert(b == old_m);
            let k = choose|k: int| 0 <= k < w.messages.len() && w.messages[k] == b;
            if k != i {
                assert(v.messages[k] == b);
                assert(v.messages[k].id == v.messages[i].id);
                if k < i {
                    assert(v.messages[k].id < v.messages[i].id);
                } else {
                    assert(v.messages[i].id < v.messages[k].id);
                }
            }
        } else if b == m && a != m {
            assert(v.messages.contains(a));
            assert(a == old_m);
            let k = choose|k: int| 0 <= k < w.messages.len() && w.messages[k] == a;
            if k != i {
                assert(v.messages[k] == a);
                if k < i {
                    assert(v.messages[k].id < v.messages[i].id);
                } else {
                    assert(v.messages[i].id < v.messages[k].id);
                }
            }
        }
    }
    assert forall|x: ChatMessage| #[trigger] w.messages.contains(x) implies w.has_chat(x.chat_id) && (
    x.user_id is Some ==> (w.has_user(x.user_id->0) && x.role == ChatMessageRole::User)) by {
        if x == m {
            assert(v.messages.contains(old_m));
        }
    }
    assert forall|a: int, b: int| 0 <= a < b < w.messages.len() implies w.messages[a].id
        < w.messages[b].id by {
        assert(v.messages[a].id < v.messages[b].id);
    }
}

/// Deleting a chat with its messages and links keeps the store well formed.
proof fn lemma_without_chat_wf(v: DbView, id: i32)
    requires
        v.wf(),
    ensures
        v.without_chat(id).wf(),
{
    let w = v.without_chat(id);
    lemma_filter_contains(v.chats, chat_other_than(id));
    lemma_filter_contains(v.links, link_outside_chat(id));
    lemma_filter_contains(v.messages, msg_outside_chat(id));
    lemma_filter_sorted(v.chats, chat_other_than(id), |c: Chat| c.id as int);
    lemma_filter_sorted(v.messages, msg_outside_chat(id), |m: ChatMessage| m.id as int);
    lemma_filter_no_duplicates(v.links, link_outside_chat(id));
    assert forall|l: ChatsUsers| #[trigger] w.links.contains(l) implies w.has_chat(l.chat_id)
        && w.has_user(l.user_id) by {
        assert(v.links.contains(l));
        let c = choose|c: Chat| #[trigger] v.chats.contains(c) && c.id == l.chat_id;
        assert(w.chats.contains(c));
        let u = choose|u: User| #[trigger] v.users.contains(u) && u.id == l.user_id;
        assert(w.users.contains(u));
    }
    assert forall|m: ChatMessage| #[trigger] w.messages.contains(m) implies w.has_chat(m.chat_id) && (
    m.user_id is Some ==> (w.has_user(m.user_id->0) && m.role == ChatMessageRole::User)) by {
        assert(v.messages.contains(m));
        let c = choose|c: Chat| #[trigger] v.chats.contains(c) && c.id == m.chat_id;
        assert(w.chats.contains(c));
        if m.user_id is Some {
            let u = choose|u: User| #[trigger] v.users.contains(u) && u.id == m.user_id->0;
            assert(w.users.contains(u));
        }
    }
}

/// Deleting a user with its links and the messages it wrote keeps the store
/// well formed.
proof fn lemma_without_user_wf(v: DbView, id: i32)
    requires
        v.wf(),
    ensures
        v.without_user(id).wf(),
{
    let w = v.without_user(id);
    lemma_filter_contains(v.users, user_other_than(id));
    lemma_filter_contains(v.links, link_outside_user(id));
    lemma_filter_contains(v.messages, msg_not_by(id));
    lemma_filter_sorted(v.users, user_other_than(id), |u: User| u.id as int);
    lemma_filter_sorted(v.messages, msg_not_by(id), |m: ChatMessage| m.id as int);
    lemma_filter_no_duplicates(v.links, link_outside_user(id));
    assert forall|l: ChatsUsers| #[trigger] w.links.contains(l) implies w.has_chat(l.chat_id)
        && w.has_user(l.user_id) by {
        assert(v.links.contains(l));
        let c = choose|c: Chat| #[trigger] v.chats.contains(c) && c.id == l.chat_id;
        assert(w.chats.contains(c));
        let u = choose|u: User| #[trigger] v.users.contains(u) && u.id == l.user_id;
        assert(w.users.contains(u));
    }
    assert forall|m: ChatMessage| #[trigger] w.messages.contains(m) implies w.has_chat(m.chat_id) && (
    m.user_id is Some ==> (w.has_user(m.user_id->0) && m.role == ChatMessageRole::User)) by {
        assert(v.messages.contains(m));
        let c = choose|c: Chat| #[trigger] v.chats.contains(c) && c.id == m.chat_id;
        assert(w.chats.contains(c));
        if m.user_id is Some {
            let u = choose|u: User| #[trigger] v.users.contains(u) && u.id == m.user_id->0;
            assert(w.users.contains(u));
        }
    }
}

/// Deleting the messages of a chat keeps the store well formed.
proof fn lemma_without_chat_messages_wf(v: DbView, id: i32)
    requires
        v.wf(),
    ensures
        v.without_chat_messages(id).wf(),
{
    let w = v.without_chat_messages(id);
    lemma_filter_contains(v.messages, msg_outside_chat(id));
    lemma_filter_sorted(v.messages, msg_outside_chat(id), |m: ChatMessage| m.id as int);
    lemma_same_parents(v, w);
    assert forall|l: ChatsUsers| #[trigger] w.links.contains(l) implies w.has_chat(l.chat_id)
        && w.has_user(l.user_id) by {
        assert(v.links.contains(l));
    }
    assert forall|m: ChatMessage| #[trigger] w.messages.contains(m) implies w.has_chat(m.chat_id) && (
    m.user_id is Some ==> (w.has_user(m.user_id->0) && m.role == ChatMessageRole::User)) by {
        assert(v.messages.contains(m));
    }
}

/// The messages of the chat.
fn messages_in_chat(rows: &Vec<ChatMessage>, key: i32) -> (r: Vec<ChatMessage>)
    ensures
        r@ == rows@.filter(msg_in_chat(key)),
{
    let mut r: Vec<ChatMessage> = Vec::new();
    let mut i: usize = 0;
    while i < rows.len()
        invariant
            i <= rows.len(),
            r@ == rows@.subrange(0, i as int).filter(msg_in_chat(key)),
        decreases rows.len() - i,
    {
        let ghost s1 = rows@.subrange(0, i + 1);
        proof {
            assert(s1.drop_last() =~= rows@.subrange(0, i as int));
            assert(s1.last() == rows@[i as int]);
        }
        if rows[i].chat_id == key {
            r.push(rows[i].duplicate());
        }
        proof {
            reveal_with_fuel(Seq::filter, 1);
            assert(s1.filter(msg_in_chat(key)) == if msg_in_chat(key)(s1.last()) {
                s1.drop_last().filter(msg_in_chat(key)).push(s1.last())
            } else {
                s1.drop_last().filter(msg_in_chat(key))
            });
        }
        i = i + 1;
    }
    assert(rows@.subrange(0, rows@.len() as int) =~= rows@);
    r
}

/// The messages of other chats.
fn messages_outside_chat(rows: &Vec<ChatMessage>, key: i32) -> (r: Vec<ChatMessage>)
    ensures
        r@ == rows@.filter(msg_outside_chat(key)),
{
    let mut r: Vec<ChatMessage> = Vec::new();
    let mut i: usize = 0;
    while i < rows.len()
        invariant
            i <= rows.len(),
            r@ == rows@.subrange(0, i as int).filter(msg_outside_chat(key)),
        decreases rows.len() - i,
    {
        let ghost s1 = rows@.subrange(0, i + 1);
        proof {
            assert(s1.drop_last() =~= rows@.subrange(0, i as int));
            assert(s1.last() == rows@[i as int]);
        }
        if rows[i].chat_id != key {
            r.push(rows[i].duplicate());
        }
        proof {
            reveal_with_fuel(Seq::filter, 1);
            assert(s1.filter(msg_outside_chat(key)) == if msg_outside_chat(key)(s1.last()) {
                s1.drop_last().filter(msg_outside_chat(key)).push(s1.last())
            } else {
                s1.drop_last().filter(msg_outside_chat(key))
            });
        }
        i = i + 1;
    }
    assert(rows@.subrange(0, rows@.len() as int) =~= rows@);
    r
}

/// The messages not written by the user.
fn messages_not_by(rows: &Vec<ChatMessage>, key: i32) -> (r: Vec<ChatMessage>)
    ensures
        r@ == rows@.filter(msg_not_by(key)),
{
    let mut r: Vec<ChatMessage> = Vec::new();
    let mut i: usize = 0;
    while i < rows.len()
        invariant
            i <= rows.len(),
            r@ == rows@.subrange(0, i as int).filter(msg_not_by(key)),
        decreases rows.len() - i,
    {
        let ghost s1 = rows@.subrange(0, i + 1);
        proof {
            assert(s1.drop_last() =~= rows@.subrange(0, i as int));
            assert(s1.last() == rows@[i as int]);
        }
        if rows[i].user_id != Some(key) {
            r.push(rows[i].duplicate());
        }
        proof {
            reveal_with_fuel(Seq::filter, 1);
            assert(s1.filter(msg_not_by(key)) == if msg_not_by(key)(s1.last()) {
                s1.drop_last().filter(msg_not_by(key)).push(s1.last())
            } else {
                s1.drop_last().filter(msg_not_by(key))
            });
        }
        i = i + 1;
    }
    assert(rows@.subrange(0, rows@.len() as int) =~= rows@);
    r
}

/// The links of other chats.
fn links_outside_chat(rows: &Vec<ChatsUsers>, key: i32) -> (r: Vec<ChatsUsers>)
    ensures
        r@ == rows@.filter(link_outside_chat(key)),
{
    let mut r: Vec<ChatsUsers> = Vec::new();
    let mut i: usize = 0;
    while i < rows.len()
        invariant
            i <= rows.len(),
            r@ == rows@.subrange(0, i as int).filter(link_outside_chat(key)),
        decreases rows.len() - i,
    {
        let ghost s1 = rows@.subrange(0, i + 1);
        proof {
            assert(s1.drop_last() =~= rows@.subrange(0, i as int));
            assert(s1.last() == rows@[i as int]);
        }
        if rows[i].chat_id != key {
            r.push(rows[i]);
        }
        proof {
            reveal_with_fuel(Seq::filter, 1);
            assert(s1.filter(link_outside_chat(key)) == if link_outside_chat(key)(s1.last()) {
                s1.drop_last().filter(link_outside_chat(key)).push(s1.last())
            } else {
                s1.drop_last().filter(link_outside_chat(key))
            });
        }
        i = i + 1;
    }
    assert(rows@.subrange(0, rows@.len() as int) =~= rows@);
    r
}

/// The links of other users.
fn links_outside_user(rows: &Vec<ChatsUsers>, key: i32) -> (r: Vec<ChatsUsers>)
    ensures
        r@ == rows@.filter(link_outside_user(key)),
{
    let mut r: Vec<ChatsUsers> = Vec::new();
    let mut i: usize = 0;
    while i < rows.len()
        invariant
            i <= rows.len(),
            r@ == rows@.subrange(0, i as int).filter(link_outside_user(key)),
        decreases rows.len() - i,
    {
        let ghost s1 = rows@.subrange(0, i + 1);
        proof {
            assert(s1.drop_last() =~= rows@.subrange(0, i as int));
            assert(s1.last() == rows@[i as int]);
        }
        if rows[i].user_id != key {
            r.push(rows[i]);
        }
        proof {
            reveal_with_fuel(Seq::filter, 1);
            assert(s1.filter(link_outside_user(key)) == if link_outside_user(key)(s1.last()) {
                s1.drop_last().filter(link_outside_user(key)).push(s1.last())
            } else {
                s1.drop_last().filter(link_outside_user(key))
            });
        }
        i = i + 1;
    }
    assert(rows@.subrange(0, rows@.len() as int) =~= rows@);
    r
}

/// The chats under other keys.
fn chats_other_than(rows: &Vec<Chat>, key: i32) -> (r: Vec<Chat>)
    ensures
        r@ == rows@.filter(chat_other_than(key)),
{
    let mut r: Vec<Chat> = Vec::new();
    let mut i: usize = 0;
    while i < rows.len()
        invariant
            i <= rows.len(),
            r@ == rows@.subrange(0, i as int).filter(chat_other_than(key)),
        decreases rows.len() - i,
    {
        let ghost s1 = rows@.subrange(0, i + 1);
        proof {
            assert(s1.drop_last() =~= rows@.subrange(0, i as int));
            assert(s1.last() == rows@[i as int]);
        }
        if rows[i].id != key {
            r.push(rows[i].duplicate());
        }
        proof {
            reveal_with_fuel(Seq::filter, 1);
            assert(s1.filter(chat_other_than(key)) == if chat_other_than(key)(s1.last()) {
                s1.drop_last().filter(chat_other_than(key)).push(s1.last())
            } else {
                s1.drop_last().filter(chat_other_than(key))
            });
        }
        i = i + 1;
    }
    assert(rows@.subrange(0, rows@.len() as int) =~= rows@);
    r
}

/// The users under other keys.
fn users_other_than(rows: &Vec<User>, key: i32) -> (r: Vec<User>)
    ensures
        r@ == rows@.filter(user_other_than(key)),
{
    let mut r: Vec<User> = Vec::new();
    let mut i: usize = 0;
    while i < rows.len()
        invariant
            i <= rows.len(),
            r@ == rows@.subrange(0, i as int).filter(user_other_than(key)),
        decreases rows.len() - i,
    {
        let ghost s1 = rows@.subrange(0, i + 1);
        proof {
            assert(s1.drop_last() =~= rows@.subrange(0, i as int));
            assert(s1.last() == rows@[i as int]);
        }
        if rows[i].id != key {
            r.push(rows[i].duplicate());
        }
        proof {
            reveal_with_fuel(Seq::filter, 1);
            assert(s1.filter(user_other_than(key)) == if user_other_than(key)(s1.last()) {
                s1.drop_last().filter(user_other_than(key)).push(s1.last())
            } else {
                s1.drop_last().filter(user_other_than(key))
            });
        }
        i = i + 1;
    }
    assert(rows@.subrange(0, rows@.len() as int) =~= rows@);
    r
}

/// An in-memory relational store of users, chats, their links and messages.
///
/// The store itself keeps the rules that a schema would declare: unique
/// identifiers and usernames, references to existing rows, and cascading
/// deletion along every reference.
pub struct Db {
    users: Vec<User>,
    chats: Vec<Chat>,
    links: Vec<ChatsUsers>,
    messages: Vec<ChatMessage>,
    next_user_id: i32,
    next_chat_id: i32,
    next_message_id: i32,
}

impl View for Db {
    type V = DbView;

    closed spec fn view(&self) -> DbView {
        DbView {
            users: self.users@,
            chats: self.chats@,
            links: self.links@,
            messages: self.messages@,
            next_user_id: self.next_user_id as int,
            next_chat_id: self.next_chat_id as int,
            next_message_id: self.next_message_id as int,
        }
    }
}

impl Db {
    /// An empty store.
    pub fn new() -> (r: Db)
        ensures
            r@.wf(),
            r@.users.len() == 0,
            r@.chats.len() == 0,
            r@.links.len() == 0,
            r@.messages.len() == 0,
            r@.next_user_id == 1,
            r@.next_chat_id == 1,
            r@.next_message_id == 1,
    {
        Db {
            users: Vec::new(),
            chats: Vec::new(),
            links: Vec::new(),
            messages: Vec::new(),
            next_user_id: 1,
            next_chat_id: 1,
            next_message_id: 1,
        }
    }

    /// Whether some row of any table carries the identifier.
    pub fn uuid_in_use(&self, uuid: &String) -> (r: bool)
        ensures
            r == self@.uuid_used(uuid@),
    {
        let mut i: usize = 0;
        while i < self.users.len()
            invariant
                i <= self.users.len(),
                forall|k: int| 0 <= k < i ==> self.users@[k].uuid@ != uuid@,
            decreases self.users.len() - i,
        {
            if self.users[i].uuid == *uuid {
                assert(self.users@.contains(self.users@[i as int]));
                assert(self@.users == self.users@);
                return true;
            }
            i = i + 1;
        }
        let mut i: usize = 0;
        while i < self.chats.len()
            invariant
                i <= self.chats.len(),
                forall|k: int| 0 <= k < i ==> self.chats@[k].uuid@ != uuid@,
            decreases self.chats.len() - i,
        {
            if self.chats[i].uuid == *uuid {
                assert(self.chats@.contains(self.chats@[i as int]));
                assert(self@.chats == self.chats@);
                return true;
            }
            i = i + 1;
        }
        let mut i: usize = 0;
        while i < self.messages.len()
            invariant
                i <= self.messages.len(),
                forall|k: int| 0 <= k < i ==> self.messages@[k].uuid@ != uuid@,
            decreases self.messages.len() - i,
        {
            if self.messages[i].uuid == *uuid {
                assert(self.messages@.contains(self.messages@[i as int]));
                assert(self@.messages == self.messages@);
                return true;
            }
            i = i + 1;
        }
        false
    }

    /// Whether some user holds the name.
    pub fn username_in_use(&self, name: &String) -> (r: bool)
        ensures
            r == self@.username_taken(name@),
    {
        let mut i: usize = 0;
        while i < self.users.len()
            invariant
                i <= self.users.len(),
                forall|k: int| 0 <= k < i ==> self.users@[k].username@ != name@,
            decreases self.users.len() - i,
        {
            if self.users[i].username == *name {
                assert(self.users@.contains(self.users@[i as int]));
                assert(self@.users == self.users@);
                return true;
            }
            i = i + 1;
        }
        false
    }

    /// Where the user with the key is stored, if anywhere.
    fn user_position(&self, id: i32) -> (r: Option<usize>)
        ensures
            match r {
                Some(i) => i < self.users@.len() && self.users@[i as int].id == id,
                None => !self@.has_user(id),
            },
    {
        let mut i: usize = 0;
        while i < self.users.len()
            invariant
                i <= self.users.len(),
                forall|k: int| 0 <= k < i ==> self.users@[k].id != id,
            decreases self.users.len() - i,
        {
            if self.users[i].id == id {
                return Some(i);
            }
            i = i + 1;
        }
        None
    }

    /// Where the chat with the key is stored, if anywhere.
    fn chat_position(&self, id: i32) -> (r: Option<usize>)
        ensures
            match r {
                Some(i) => i < self.chats@.len() && self.chats@[i as int].id == id,
                None => !self@.has_chat(id),
            },
    {
        let mut i: usize = 0;
        while i < self.chats.len()
            invariant
                i <= self.chats.len(),
                forall|k: int| 0 <= k < i ==> self.chats@[k].id != id,
            decreases self.chats.len() - i,
        {
            if self.chats[i].id == id {
                return Some(i);
            }
            i = i + 1;
        }
        None
    }

    /// Whether the link table ties the user to the chat.
    pub fn is_related(&self, user_id: i32, chat_id: i32) -> (r: bool)
        ensures
            r == self@.related(user_id, chat_id),
    {
        let mut i: usize = 0;
        while i < self.links.len()
            invariant
                i <= self.links.len(),
                forall|k: int| 0 <= k < i ==> self.links@[k] != (ChatsUsers { chat_id, user_id }),
            decreases self.links.len() - i,
        {
            if self.links[i].chat_id == chat_id && self.links[i].user_id == user_id {
                assert(self.links@[i as int] == (ChatsUsers { chat_id, user_id }));
                return true;
            }
            i = i + 1;
        }
        false
    }

    /// Inserts a user with the given identifier, stamped as created at `now`.
    pub fn insert_user_with(&mut self, username: &str, uuid: String, now: Timestamp) -> (r: Result<
        User,
        DatabaseError,
    >)
        requires
            old(self)@.wf(),
        ensures
            final(self)@.wf(),
            match old(self)@.insert_user_failure(username@, uuid@) {
                Some(f) => r == Err::<User, DatabaseError>(DatabaseError::Database(f))
                    && final(self)@ == old(self)@,
                None => {
                    &&& r is Ok
                    &&& r->Ok_0.id == old(self)@.next_user_id
                    &&& r->Ok_0.uuid@ == uuid@
                    &&& r->Ok_0.username@ == username@
                    &&& r->Ok_0.created_at == now
                    &&& r->Ok_0.updated_at == now
                    &&& final(self)@ == old(self)@.add_user(r->Ok_0)
                },
            },
    {
        let name = String::from_str(username);
        if uuid.as_str().is_empty() {
            return Err(DatabaseError::Database(StorageFailure::EmptyUuid));
        }
        if self.uuid_in_use(&uuid) {
            return Err(DatabaseError::Database(StorageFailure::DuplicateUuid));
        }
        if self.username_in_use(&name) {
            return Err(DatabaseError::Database(StorageFailure::DuplicateUsername));
        }
        if self.next_user_id == i32::MAX {
            return Err(DatabaseError::Database(StorageFailure::IdsExhausted));
        }
        let stamps = stamps_on_insert(uuid, now);
        let user = User {
            id: self.next_user_id,
            uuid: stamps.uuid,
            username: name,
            created_at: stamps.created_at,
            updated_at: stamps.updated_at,
        };
        let ghost v0 = self@;
        self.users.push(user.duplicate());
        self.next_user_id = self.next_user_id + 1;
        proof {
            lemma_add_user_wf(v0, user);
        }
        Ok(user)
    }
    /// Inserts a user under a fresh identifier, stamped with the current time.
    pub fn insert_user(&mut self, username: &str) -> (r: Result<User, DatabaseError>)
        requires
            old(self)@.wf(),
        ensures
            final(self)@.wf(),
            match r {
                Ok(u) => {
                    &&& old(self)@.insert_user_failure(username@, u.uuid@) is None
                    &&& u.id == old(self)@.next_user_id
                    &&& u.uuid@.len() == 36
                    &&& u.username@ == username@
                    &&& u.created_at == u.updated_at
                    &&& final(self)@ == old(self)@.add_user(u)
                },
                Err(e) => e is Database && final(self)@ == old(self)@,
            },
            !old(self)@.username_taken(username@) && old(self)@.next_user_id < i32::MAX ==> (r is Ok
                || r == Err::<User, DatabaseError>(
                DatabaseError::Database(StorageFailure::DuplicateUuid),
            )),
    {
        let t = now();
        let uuid = new_uuid();
        self.insert_user_with(username, uuid, t)
    }

    /// Inserts a chat with the given identifier, stamped as created at `now`.
    pub fn insert_chat_with(&mut self, title: &str, uuid: String, now: Timestamp) -> (r: Result<
        Chat,
        DatabaseError,
    >)
        requires
            old(self)@.wf(),
        ensures
            final(self)@.wf(),
            match old(self)@.insert_chat_failure(uuid@) {
                Some(f) => r == Err::<Chat, DatabaseError>(DatabaseError::Database(f))
                    && final(self)@ == old(self)@,
                None => {
                    &&& r is Ok
                    &&& r->Ok_0.id == old(self)@.next_chat_id
                    &&& r->Ok_0.uuid@ == uuid@
                    &&& r->Ok_0.title@ == title@
                    &&& r->Ok_0.created_at == now
                    &&& r->Ok_0.updated_at == now
                    &&& final(self)@ == old(self)@.add_chat(r->Ok_0)
                },
            },
    {
        if uuid.as_str().is_empty() {
            return Err(DatabaseError::Database(StorageFailure::EmptyUuid));
        }
        if self.uuid_in_use(&uuid) {
            return Err(DatabaseError::Database(StorageFailure::DuplicateUuid));
        }
        if self.next_chat_id == i32::MAX {
            return Err(DatabaseError::Database(StorageFailure::IdsExhausted));
        }
        let stamps = stamps_on_insert(uuid, now);
        let chat = Chat {
            id: self.next_chat_id,
            uuid: stamps.uuid,
            title: String::from_str(title),
            created_at: stamps.created_at,
            updated_at: stamps.updated_at,
        };
        let ghost v0 = self@;
        self.chats.push(chat.duplicate());
        self.next_chat_id = self.next_chat_id + 1;
        proof {
            lemma_add_chat_wf(v0, chat);
        }
        Ok(chat)
    }

    /// Inserts a chat under a fresh identifier, stamped with the current time.
    pub fn insert_chat(&mut self, title: &str) -> (r: Result<Chat, DatabaseError>)
        requires
            old(self)@.wf(),
        ensures
            final(self)@.wf(),
            match r {
                Ok(c) => {
                    &&& old(self)@.insert_chat_failure(c.uuid@) is None
                    &&& c.id == old(self)@.next_chat_id
                    &&& c.uuid@.len() == 36
                    &&& c.title@ == title@
                    &&& c.created_at == c.updated_at
                    &&& final(self)@ == old(self)@.add_chat(c)
                },
                Err(e) => e is Database && final(self)@ == old(self)@,
            },
            old(self)@.next_chat_id < i32::MAX ==> (r is Ok || r == Err::<Chat, DatabaseError>(
                DatabaseError::Database(StorageFailure::DuplicateUuid),
            )),
    {
        let t = now();
        let uuid = new_uuid();
        self.insert_chat_with(title, uuid, t)
    }

    /// Ties a user to a chat in the link table.
    pub fn link_user_to_chat(&mut self, user_id: i32, chat_id: i32) -> (r: Result<
        (),
        DatabaseError,
    >)
        requires
            old(self)@.wf(),
        ensures
            final(self)@.wf(),
            match old(self)@.link_failure(user_id, chat_id) {
                Some(f) => r == Err::<(), DatabaseError>(DatabaseError::Database(f)) && final(self)@
                    == old(self)@,
                None => r is Ok && final(self)@ == old(self)@.add_link(
                    ChatsUsers { chat_id, user_id },
                ),
            },
    {
        match self.chat_position(chat_id) {
            None => {
                return Err(DatabaseError::Database(StorageFailure::MissingChat));
            },
            Some(i) => {
                assert(self@.chats.contains(self.chats@[i as int]));
            },
        }
        match self.user_position(user_id) {
            None => {
                return Err(DatabaseError::Database(StorageFailure::MissingUser));
            },
            Some(i) => {
                assert(self@.users.contains(self.users@[i as int]));
            },
        }
        if self.is_related(user_id, chat_id) {
            return Err(DatabaseError::Database(StorageFailure::DuplicateLink));
        }
        let ghost v0 = self@;
        self.links.push(ChatsUsers { chat_id, user_id });
        proof {
            lemma_add_link_wf(v0, ChatsUsers { chat_id, user_id });
        }
        Ok(())
    }

    /// Where the message with the key is stored, if anywhere.
    fn message_position(&self, id: i32) -> (r: Option<usize>)
        ensures
            match r {
                Some(i) => i < self.messages@.len() && self.messages@[i as int].id == id,
                None => !self@.has_message(id),
            },
    {
        let mut i: usize = 0;
        while i < self.messages.len()
            invariant
                i <= self.messages.len(),
                forall|k: int| 0 <= k < i ==> self.messages@[k].id != id,
            decreases self.messages.len() - i,
        {
            if self.messages[i].id == id {
                return Some(i);
            }
            i = i + 1;
        }
        None
    }

    /// Moves a message to a new lifecycle state, refreshing `updated_at`.
    /// Only the moves of the lifecycle are allowed.
    pub fn set_message_state_with(
        &mut self,
        message_id: i32,
        state: ChatMessageState,
        now: Timestamp,
    ) -> (r: Result<ChatMessage, DatabaseError>)
        requires
            old(self)@.wf(),
        ensures
            final(self)@.wf(),
            !old(self)@.has_message(message_id) ==> r == Err::<ChatMessage, DatabaseError>(
                DatabaseError::Database(StorageFailure::MissingMessage),
            ) && final(self)@ == old(self)@,
            old(self)@.has_message(message_id) ==> {
                let i = old(self)@.message_index(message_id);
                let m = old(self)@.messages[i];
                if !allowed_transition(m.state, state) {
                    r == Err::<ChatMessage, DatabaseError>(
                        DatabaseError::Database(StorageFailure::InvalidTransition),
                    ) && final(self)@ == old(self)@
                } else {
                    &&& r is Ok
                    &&& r->Ok_0 == m.with_state(state, r->Ok_0.updated_at)
                    &&& r->Ok_0.updated_at.micros == if now.micros < m.created_at.micros {
                        m.created_at.micros
                    } else {
                        now.micros
                    }
                    &&& final(self)@ == old(self)@.put_message(i, r->Ok_0)
                }
            },
    {
        let pos = match self.message_position(message_id) {
            None => {
                return Err(DatabaseError::Database(StorageFailure::MissingMessage));
            },
            Some(i) => i,
        };
        proof {
            assert(self@.messages.contains(self.messages@[pos as int]));
            lemma_message_index(self@, message_id, pos as int);
        }
        if !self.messages[pos].state.can_transition_to(state) {
            return Err(DatabaseError::Database(StorageFailure::InvalidTransition));
        }
        let mut m = self.messages[pos].duplicate();
        m.state = state;
        m.updated_at = updated_at_on_update(m.created_at, now);
        let ghost v0 = self@;
        self.messages.set(pos, m.duplicate());
        proof {
            lemma_put_message_wf(v0, pos as int, m);
        }
        Ok(m)
    }

    /// Moves a message to a new lifecycle state, stamped with the current time.
    pub fn set_message_state(&mut self, message_id: i32, state: ChatMessageState) -> (r: Result<
        ChatMessage,
        DatabaseError,
    >)
        requires
            old(self)@.wf(),
        ensures
            final(self)@.wf(),
            !old(self)@.has_message(message_id) ==> r == Err::<ChatMessage, DatabaseError>(
                DatabaseError::Database(StorageFailure::MissingMessage),
            ) && final(self)@ == old(self)@,
            old(self)@.has_message(message_id) ==> {
                let i = old(self)@.message_index(message_id);
                let m = old(self)@.messages[i];
                if !allowed_transition(m.state, state) {
                    r == Err::<ChatMessage, DatabaseError>(
                        DatabaseError::Database(StorageFailure::InvalidTransition),
                    ) && final(self)@ == old(self)@
                } else {
                    &&& r is Ok
                    &&& r->Ok_0 == m.with_state(state, r->Ok_0.updated_at)
                    &&& r->Ok_0.updated_at.micros >= m.created_at.micros
                    &&& final(self)@ == old(self)@.put_message(i, r->Ok_0)
                }
            },
    {
        let t = now();
        self.set_message_state_with(message_id, state, t)
    }

    /// Fills the store with a starting user, `test_user`, and a starting
    /// chat, `test_chat`, tied to each other.
    pub fn seed(&mut self) -> (r: Result<(User, Chat), DatabaseError>)
        requires
            old(self)@.wf(),
        ensures
            final(self)@.wf(),
            match r {
                Ok((u, c)) => {
                    &&& u.username@ == "test_user"@
                    &&& c.title@ == "test_chat"@
                    &&& final(self)@.users.contains(u)
                    &&& final(self)@.chat_of_user(u.id, c)
                },
                Err(e) => e is Database,
            },
            !old(self)@.username_taken("test_user"@) && old(self)@.next_user_id < i32::MAX
                && old(self)@.next_chat_id < i32::MAX ==> (r is Ok || r == Err::<
                (User, Chat),
                DatabaseError,
            >(DatabaseError::Database(StorageFailure::DuplicateUuid))),
    {
        let ghost v0 = self@;
        let user = match self.insert_user("test_user") {
            Ok(u) => u,
            Err(e) => {
                return Err(e);
            },
        };
        let ghost v1 = self@;
        let chat = match self.insert_chat("test_chat") {
            Ok(c) => c,
            Err(e) => {
                return Err(e);
            },
        };
        proof {
            let v2 = self@;
            lemma_push_contains(v0.users, user);
            lemma_push_contains(v1.chats, chat);
            assert(v2.users.contains(user));
            assert(v2.chats.contains(chat));
            assert(!v2.related(user.id, chat.id)) by {
                let l = ChatsUsers { chat_id: chat.id, user_id: user.id };
                if v2.links.contains(l) {
                    assert(v1.links.contains(l));
                    let x = choose|x: Chat| #[trigger] v1.chats.contains(x) && x.id == l.chat_id;
                }
            }
        }
        match self.link_user_to_chat(user.id, chat.id) {
            Ok(()) => {},
            Err(e) => {
                return Err(e);
            },
        }
        proof {
            lemma_push_contains(self@.links.drop_last(), ChatsUsers { chat_id: chat.id, user_id: user.id });
            assert(self@.links.drop_last().push(ChatsUsers { chat_id: chat.id, user_id: user.id }) =~= self@.links);
        }
        Ok((user, chat))
    }

    /// Deletes the chat together with its messages and its links, and
    /// returns how many messages went with it.
    pub fn delete_chat(&mut self, chat_id: i32) -> (r: Result<usize, DatabaseError>)
        requires
            old(self)@.wf(),
        ensures
            final(self)@.wf(),
            !old(self)@.has_chat(chat_id) ==> r == Err::<usize, DatabaseError>(
                DatabaseError::ChatNotFound,
            ) && final(self)@ == old(self)@,
            old(self)@.has_chat(chat_id) ==> r == Ok::<usize, DatabaseError>(
                old(self)@.messages_of(chat_id).len() as usize,
            ) && final(self)@ == old(self)@.without_chat(chat_id),
    {
        match self.chat_position(chat_id) {
            None => {
                return Err(DatabaseError::ChatNotFound);
            },
            Some(i) => {
                assert(self@.chats.contains(self.chats@[i as int]));
            },
        }
        let ghost v0 = self@;
        let kept = messages_outside_chat(&self.messages, chat_id);
        proof {
            lemma_filter_split_len(v0.messages, msg_in_chat(chat_id), msg_outside_chat(chat_id));
        }
        let removed = self.messages.len() - kept.len();
        self.messages = kept;
        self.links = links_outside_chat(&self.links, chat_id);
        self.chats = chats_other_than(&self.chats, chat_id);
        proof {
            lemma_without_chat_wf(v0, chat_id);
            assert(self@ == v0.without_chat(chat_id));
        }
        Ok(removed)
    }

    /// Deletes the user together with its links and the messages it wrote,
    /// and returns how many messages went with it.
    pub fn delete_user(&mut self, user_id: i32) -> (r: Result<usize, DatabaseError>)
        requires
            old(self)@.wf(),
        ensures
            final(self)@.wf(),
            !old(self)@.has_user(user_id) ==> r == Err::<usize, DatabaseError>(
                DatabaseError::UserNotFound,
            ) && final(self)@ == old(self)@,
            old(self)@.has_user(user_id) ==> r == Ok::<usize, DatabaseError>(
                old(self)@.messages.filter(msg_by(user_id)).len() as usize,
            ) && final(self)@ == old(self)@.without_user(user_id),
    {
        match self.user_position(user_id) {
            None => {
                return Err(DatabaseError::UserNotFound);
            },
            Some(i) => {
                assert(self@.users.contains(self.users@[i as int]));
            },
        }
        let ghost v0 = self@;
        let kept = messages_not_by(&self.messages, user_id);
        proof {
            lemma_filter_split_len(v0.messages, msg_by(user_id), msg_not_by(user_id));
        }
        let removed = self.messages.len() - kept.len();
        self.messages = kept;
        self.links = links_outside_user(&self.links, user_id);
        self.users = users_other_than(&self.users, user_id);
        proof {
            lemma_without_user_wf(v0, user_id);
            assert(self@ == v0.without_user(user_id));
        }
        Ok(removed)
    }
}

impl User {
    /// The user with the key, if there is one.
    pub fn find(db: &Db, user_id: i32) -> (r: Option<User>)
        ensures
            match r {
                Some(u) => db@.users.contains(u) && u.id == user_id,
                None => !db@.has_user(user_id),
            },
    {
        match db.user_position(user_id) {
            Some(i) => {
                assert(db@.users.contains(db.users@[i as int]));
                Some(db.users[i].duplicate())
            },
            None => None,
        }
    }

    /// The user with the key; `UserNotFound` if there is none.
    pub fn get(db: &Db, user_id: i32) -> (r: Result<User, DatabaseError>)
        ensures
            match r {
                Ok(u) => db@.users.contains(u) && u.id == user_id,
                Err(e) => e == DatabaseError::UserNotFound && !db@.has_user(user_id),
            },
    {
        match User::find(db, user_id) {
            Some(u) => Ok(u),
            None => Err(DatabaseError::UserNotFound),
        }
    }

    /// The user with the smallest key; `UserNotFound` if there are no users.
    pub fn find_first(db: &Db) -> (r: Result<User, DatabaseError>)
        requires
            db@.wf(),
        ensures
            db@.users.len() == 0 ==> r == Err::<User, DatabaseError>(DatabaseError::UserNotFound),
            db@.users.len() > 0 ==> r == Ok::<User, DatabaseError>(db@.users[0]),
            r matches Ok(u) ==> forall|x: User| #[trigger] db@.users.contains(x) ==> u.id <= x.id,
    {
        if db.users.len() == 0 {
            return Err(DatabaseError::UserNotFound);
        }
        let u = db.users[0].duplicate();
        proof {
            assert forall|x: User| #[trigger] db@.users.contains(x) implies u.id <= x.id by {
                let k = choose|k: int| 0 <= k < db@.users.len() && db@.users[k] == x;
                if k > 0 {
                    assert(db@.users[0].id < db@.users[k].id);
                }
            }
        }
        Ok(u)
    }

    /// The chat tied to this user that was created first; `ChatNotFound` if
    /// the user has no chat.
    pub fn get_default_chat(&self, db: &Db) -> (r: Result<Chat, DatabaseError>)
        ensures
            match r {
                Ok(c) => db@.chat_of_user(self.id, c) && forall|d: Chat| #[trigger]
                    db@.chat_of_user(self.id, d) ==> c.created_at.micros <= d.created_at.micros,
                Err(e) => e == DatabaseError::ChatNotFound && forall|d: Chat| #[trigger]
                    db@.chats.contains(d) ==> !db@.related(self.id, d.id),
            },
    {
        let mut best: Option<usize> = None;
        let mut i: usize = 0;
        while i < db.chats.len()
            invariant
                i <= db.chats.len(),
                match best {
                    Some(b) => b < i && db@.related(self.id, db.chats@[b as int].id) && forall|k: int|
                        0 <= k < i && db@.related(self.id, db.chats@[k].id)
                            ==> db.chats@[b as int].created_at.micros
                            <= db.chats@[k].created_at.micros,
                    None => forall|k: int| 0 <= k < i ==> !db@.related(self.id, db.chats@[k].id),
                },
            decreases db.chats.len() - i,
        {
            if db.is_related(self.id, db.chats[i].id) {
                match best {
                    None => {
                        best = Some(i);
                    },
                    Some(b) => {
                        if db.chats[i].created_at.micros < db.chats[b].created_at.micros {
                            best = Some(i);
                        }
                    },
                }
            }
            i = i + 1;
        }
        match best {
            None => {
                proof {
                    assert forall|d: Chat| #[trigger] db@.chats.contains(d) implies !db@.related(
                        self.id,
                        d.id,
                    ) by {
                        let k = choose|k: int| 0 <= k < db@.chats.len() && db@.chats[k] == d;
                    }
                }
                Err(DatabaseError::ChatNotFound)
            },
            Some(b) => {
                let c = db.chats[b].duplicate();
                proof {
                    assert(db@.chats.contains(db.chats@[b as int]));
                    assert forall|d: Chat| #[trigger] db@.chat_of_user(self.id, d) implies c.created_at.micros
                        <= d.created_at.micros by {
                        let k = choose|k: int| 0 <= k < db@.chats.len() && db@.chats[k] == d;
                    }
                }
                Ok(c)
            },
        }
    }

    /// The chat tied to this user whose identifier is `chat_uuid`;
    /// `ChatNotFound` if none of the user's chats has it, even where another
    /// user's chat does.
    pub fn get_chat_by_uuid(&self, db: &Db, chat_uuid: &str) -> (r: Result<Chat, DatabaseError>)
        ensures
            match r {
                Ok(c) => db@.chat_of_user(self.id, c) && c.uuid@ == chat_uuid@,
                Err(e) => e == DatabaseError::ChatNotFound && forall|d: Chat| #[trigger]
                    db@.chat_of_user(self.id, d) ==> d.uuid@ != chat_uuid@,
            },
    {
        let wanted = String::from_str(chat_uuid);
        let mut i: usize = 0;
        while i < db.chats.len()
            invariant
                i <= db.chats.len(),
                wanted@ == chat_uuid@,
                forall|k: int|
                    0 <= k < i ==> !(db@.related(self.id, db.chats@[k].id) && db.chats@[k].uuid@
                        == chat_uuid@),
            decreases db.chats.len() - i,
        {
            if db.chats[i].uuid == wanted && db.is_related(self.id, db.chats[i].id) {
                assert(db@.chats.contains(db.chats@[i as int]));
                return Ok(db.chats[i].duplicate());
            }
            i = i + 1;
        }
        proof {
            assert forall|d: Chat| #[trigger] db@.chat_of_user(self.id, d) implies d.uuid@
                != chat_uuid@ by {
                let k = choose|k: int| 0 <= k < db@.chats.len() && db@.chats[k] == d;
            }
        }
        Err(DatabaseError::ChatNotFound)
    }
}

impl Chat {
    /// The chat with the key, if there is one.
    pub fn find(db: &Db, chat_id: i32) -> (r: Option<Chat>)
        ensures
            match r {
                Some(c) => db@.chats.contains(c) && c.id == chat_id,
                None => !db@.has_chat(chat_id),
            },
    {
        match db.chat_position(chat_id) {
            Some(i) => {
                assert(db@.chats.contains(db.chats@[i as int]));
                Some(db.chats[i].duplicate())
            },
            None => None,
        }
    }

    /// The chat with the key; `ChatNotFound` if there is none.
    pub fn get(db: &Db, chat_id: i32) -> (r: Result<Chat, DatabaseError>)
        ensures
            match r {
                Ok(c) => db@.chats.contains(c) && c.id == chat_id,
                Err(e) => e == DatabaseError::ChatNotFound && !db@.has_chat(chat_id),
            },
    {
        match Chat::find(db, chat_id) {
            Some(c) => Ok(c),
            None => Err(DatabaseError::ChatNotFound),
        }
    }

    /// The chat whose identifier is `chat_uuid`, if there is one.
    pub fn find_by_uuid(db: &Db, chat_uuid: &str) -> (r: Option<Chat>)
        ensures
            match r {
                Some(c) => db@.chats.contains(c) && c.uuid@ == chat_uuid@,
                None => forall|d: Chat| #[trigger] db@.chats.contains(d) ==> d.uuid@ != chat_uuid@,
            },
    {
        let wanted = String::from_str(chat_uuid);
        let mut i: usize = 0;
        while i < db.chats.len()
            invariant
                i <= db.chats.len(),
                wanted@ == chat_uuid@,
                forall|k: int| 0 <= k < i ==> db.chats@[k].uuid@ != chat_uuid@,
            decreases db.chats.len() - i,
        {
            if db.chats[i].uuid == wanted {
                assert(db@.chats.contains(db.chats@[i as int]));
                return Some(db.chats[i].duplicate());
            }
            i = i + 1;
        }
        proof {
            assert forall|d: Chat| #[trigger] db@.chats.contains(d) implies d.uuid@ != chat_uuid@ by {
                let k = choose|k: int| 0 <= k < db@.chats.len() && db@.chats[k] == d;
            }
        }
        None
    }

    /// The chat whose identifier is `chat_uuid`; `ChatNotFound` if there is
    /// none.
    pub fn get_by_uuid(db: &Db, chat_uuid: &str) -> (r: Result<Chat, DatabaseError>)
        ensures
            match r {
                Ok(c) => db@.chats.contains(c) && c.uuid@ == chat_uuid@,
                Err(e) => e == DatabaseError::ChatNotFound && forall|d: Chat| #[trigger]
                    db@.chats.contains(d) ==> d.uuid@ != chat_uuid@,
            },
    {
        match Chat::find_by_uuid(db, chat_uuid) {
            Some(c) => Ok(c),
            None => Err(DatabaseError::ChatNotFound),
        }
    }
    /// Deletes every message of this chat and returns how many there were.
    pub fn delete_all_messages(&self, db: &mut Db) -> (r: usize)
        requires
            old(db)@.wf(),
        ensures
            final(db)@.wf(),
            r == old(db)@.messages_of(self.id).len(),
            final(db)@ == old(db)@.without_chat_messages(self.id),
    {
        let ghost v0 = db@;
        let kept = messages_outside_chat(&db.messages, self.id);
        proof {
            lemma_filter_split_len(v0.messages, msg_in_chat(self.id), msg_outside_chat(self.id));
        }
        let removed = db.messages.len() - kept.len();
        db.messages = kept;
        proof {
            lemma_without_chat_messages_wf(v0, self.id);
            assert(db@ == v0.without_chat_messages(self.id));
        }
        removed
    }

    /// The messages of this chat, in storage order.
    pub fn get_messages(&self, db: &Db) -> (r: Vec<ChatMessage>)
        ensures
            r@ == db@.messages_of(self.id),
    {
        messages_in_chat(&db.messages, self.id)
    }
    /// Adds a message to this chat under the given identifier, stamped as
    /// created at `now`. With an author the message is the user's, else the
    /// assistant's; it is `Ready` unless `state` says otherwise.
    pub fn create_chat_message_with(
        &self,
        db: &mut Db,
        content: &str,
        user_id: Option<i32>,
        state: Option<ChatMessageState>,
        uuid: String,
        now: Timestamp,
    ) -> (r: Result<ChatMessage, DatabaseError>)
        requires
            old(db)@.wf(),
        ensures
            final(db)@.wf(),
            match old(db)@.message_failure(self.id, user_id, uuid@) {
                Some(f) => r == Err::<ChatMessage, DatabaseError>(DatabaseError::Database(f))
                    && final(db)@ == old(db)@,
                None => {
                    &&& r is Ok
                    &&& r->Ok_0.id == old(db)@.next_message_id
                    &&& r->Ok_0.uuid@ == uuid@
                    &&& r->Ok_0.new_message_shape(self.id, content@, user_id, state)
                    &&& r->Ok_0.created_at == now
                    &&& r->Ok_0.updated_at == now
                    &&& final(db)@ == old(db)@.add_message(r->Ok_0)
                },
            },
    {
        match db.chat_position(self.id) {
            None => {
                return Err(DatabaseError::Database(StorageFailure::MissingChat));
            },
            Some(i) => {
                assert(db@.chats.contains(db.chats@[i as int]));
            },
        }
        match user_id {
            Some(uid) => match db.user_position(uid) {
                None => {
                    return Err(DatabaseError::Database(StorageFailure::MissingUser));
                },
                Some(i) => {
                    assert(db@.users.contains(db.users@[i as int]));
                },
            },
            None => {},
        }
        if uuid.as_str().is_empty() {
            return Err(DatabaseError::Database(StorageFailure::EmptyUuid));
        }
        if db.uuid_in_use(&uuid) {
            return Err(DatabaseError::Database(StorageFailure::DuplicateUuid));
        }
        if db.next_message_id == i32::MAX {
            return Err(DatabaseError::Database(StorageFailure::IdsExhausted));
        }
        let stamps = stamps_on_insert(uuid, now);
        let mut message = match user_id {
            Some(uid) => ChatMessage {
                id: db.next_message_id,
                uuid: stamps.uuid,
                title: None,
                content: Some(String::from_str(content)),
                role: ChatMessageRole::User,
                state: ChatMessageState::Ready,
                chat_id: self.id,
                user_id: Some(uid),
                created_at: stamps.created_at,
                updated_at: stamps.updated_at,
            },
            None => ChatMessage {
                id: db.next_message_id,
                uuid: stamps.uuid,
                title: None,
                content: Some(String::from_str(content)),
                role: ChatMessageRole::Assistant,
                state: ChatMessageState::Ready,
                chat_id: self.id,
                user_id: None,
                created_at: stamps.created_at,
                updated_at: stamps.updated_at,
            },
        };
        if let Some(s) = state {
            message.state = s;
        }
        let ghost v0 = db@;
        db.messages.push(message.duplicate());
        db.next_message_id = db.next_message_id + 1;
        proof {
            lemma_add_message_wf(v0, message);
        }
        Ok(message)
    }

    /// Adds a message to this chat under a fresh identifier, stamped with the
    /// current time; see `create_chat_message_with`.
    pub fn create_chat_message(
        &self,
        db: &mut Db,
        content: &str,
        user_id: Option<i32>,
        state: Option<ChatMessageState>,
    ) -> (r: Result<ChatMessage, DatabaseError>)
        requires
            old(db)@.wf(),
        ensures
            final(db)@.wf(),
            match r {
                Ok(m) => {
                    &&& old(db)@.message_failure(self.id, user_id, m.uuid@) is None
                    &&& m.id == old(db)@.next_message_id
                    &&& m.uuid@.len() == 36
                    &&& m.new_message_shape(self.id, content@, user_id, state)
                    &&& m.created_at == m.updated_at
                    &&& final(db)@ == old(db)@.add_message(m)
                },
                Err(e) => e is Database && final(db)@ == old(db)@,
            },
            old(db)@.has_chat(self.id) && (user_id is Some ==> old(db)@.has_user(user_id->0))
                && old(db)@.next_message_id < i32::MAX ==> (r is Ok || r == Err::<
                ChatMessage,
                DatabaseError,
            >(DatabaseError::Database(StorageFailure::DuplicateUuid))),
    {
        let t = now();
        let uuid = new_uuid();
        self.create_chat_message_with(db, content, user_id, state, uuid, t)
    }
}

} // verus!
