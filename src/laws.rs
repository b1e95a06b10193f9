use vstd::prelude::*;

use crate::document::{chat_document, chat_summary_of, member};
use crate::entities::{Chat, ChatMessage, ChatsUsers, User};
use crate::seq_facts::{lemma_filter_contains, lemma_filter_none, lemma_filter_split_len, lemma_filter_all};
use crate::store::{
    msg_in_chat, msg_outside_chat, chat_other_than, link_outside_chat, link_outside_user,
    msg_not_by, user_other_than, DbView,
};

verus! {

/// In every well-formed store each row's identifier is non-empty, and no two
/// rows, of one table or of two, share an identifier.
pub proof fn law_identifiers_unique(v: DbView)
    requires
        v.wf(),
    ensures
        forall|u: User| #[trigger] v.users.contains(u) ==> u.uuid@.len() > 0,
        forall|c: Chat| #[trigger] v.chats.contains(c) ==> c.uuid@.len() > 0,
        forall|m: ChatMessage| #[trigger] v.messages.contains(m) ==> m.uuid@.len() > 0,
        forall|a: User, b: User|
            #[trigger] v.users.contains(a) && #[trigger] v.users.contains(b) && a.uuid@ == b.uuid@
                ==> a == b,
        forall|a: Chat, b: Chat|
            #[trigger] v.chats.contains(a) && #[trigger] v.chats.contains(b) && a.uuid@ == b.uuid@
                ==> a == b,
        forall|a: ChatMessage, b: ChatMessage|
            #[trigger] v.messages.contains(a) && #[trigger] v.messages.contains(b) && a.uuid@
                == b.uuid@ ==> a == b,
        forall|u: User, c: Chat|
            #[trigger] v.users.contains(u) && #[trigger] v.chats.contains(c) ==> u.uuid@ != c.uuid@,
        forall|u: User, m: ChatMessage|
            #[trigger] v.users.contains(u) && #[trigger] v.messages.contains(m) ==> u.uuid@
                != m.uuid@,
        forall|c: Chat, m: ChatMessage|
            #[trigger] v.chats.contains(c) && #[trigger] v.messages.contains(m) ==> c.uuid@
                != m.uuid@,
{
}

/// Updating a message's state keeps its identifier and creation time, and
/// leaves its update time no earlier than its creation time.
pub proof fn law_update_keeps_identity(v: DbView, i: int, m: ChatMessage)
    requires
        v.wf(),
        0 <= i < v.messages.len(),
        m == v.messages[i].with_state(m.state, m.updated_at),
        m.updated_at.micros >= m.created_at.micros,
    ensures
        v.put_message(i, m).messages[i].uuid == v.messages[i].uuid,
        v.put_message(i, m).messages[i].created_at == v.messages[i].created_at,
        v.put_message(i, m).messages[i].updated_at.micros >= v.messages[i].created_at.micros,
{
}

/// Deleting a chat removes exactly its messages and its links, and leaves no
/// chat with its key or its identifier.
pub proof fn law_delete_chat_cascades(v: DbView, c: Chat)
    requires
        v.wf(),
        v.chats.contains(c),
    ensures
        v.messages.len() - v.without_chat(c.id).messages.len() == v.messages_of(c.id).len(),
        forall|m: ChatMessage| #[trigger]
            v.without_chat(c.id).messages.contains(m) ==> m.chat_id != c.id,
        forall|l: ChatsUsers| #[trigger] v.without_chat(c.id).links.contains(l) ==> l.chat_id != c.id,
        !v.without_chat(c.id).has_chat(c.id),
        forall|d: Chat| #[trigger] v.without_chat(c.id).chats.contains(d) ==> d.uuid@ != c.uuid@,
{
    let w = v.without_chat(c.id);
    lemma_filter_split_len(v.messages, msg_in_chat(c.id), msg_outside_chat(c.id));
    lemma_filter_contains(v.messages, msg_outside_chat(c.id));
    lemma_filter_contains(v.links, link_outside_chat(c.id));
    lemma_filter_contains(v.chats, chat_other_than(c.id));
    assert forall|d: Chat| #[trigger] w.chats.contains(d) implies d.uuid@ != c.uuid@ by {
        assert(v.chats.contains(d));
    }
}

/// Deleting a user removes its links and the messages it wrote, and leaves
/// no user with its key.
pub proof fn law_delete_user_cascades(v: DbView, id: i32)
    requires
        v.wf(),
    ensures
        forall|l: ChatsUsers| #[trigger] v.without_user(id).links.contains(l) ==> l.user_id != id,
        forall|m: ChatMessage| #[trigger]
            v.without_user(id).messages.contains(m) ==> m.user_id != Some(id),
        !v.without_user(id).has_user(id),
{
    lemma_filter_contains(v.links, link_outside_user(id));
    lemma_filter_contains(v.messages, msg_not_by(id));
    lemma_filter_contains(v.users, user_other_than(id));
}

/// Reading a chat's document back gives the chat's key, identifier and title,
/// and as many message documents as the chat has messages.
pub proof fn law_chat_document_round_trip(d: crate::document::JsonValue, c: Chat, msgs: Seq<ChatMessage>)
    requires
        chat_document(d, c, msgs),
    ensures
        chat_summary_of(d) == Some((c.id as int, c.uuid@, c.title@, msgs.len() as int)),
{
    reveal_strlit("title");
    reveal_strlit("id");
    reveal_strlit("uuid");
    reveal_strlit("created_at");
    reveal_strlit("updated_at");
    reveal_strlit("chat_messages");
    reveal_with_fuel(member, 7);
    let e = d->Object_0@;
    let e1 = e.drop_first();
    let e2 = e1.drop_first();
    let e3 = e2.drop_first();
    let e4 = e3.drop_first();
    let e5 = e4.drop_first();
    assert(e1[0] == e[1] && e2[0] == e[2] && e3[0] == e[3] && e4[0] == e[4] && e5[0] == e[5]);
    assert("title"@.len() == 5 && "id"@.len() == 2 && "uuid"@.len() == 4);
    assert("created_at"@.len() == 10 && "updated_at"@.len() == 10);
    assert("chat_messages"@.len() == 13);
    assert(e[0].0@ != "id"@);
    assert(e[0].0@ != "uuid"@ && e[1].0@ != "uuid"@);
    assert(member(e, "id"@) == Some(e[1].1));
    assert(member(e, "uuid"@) == Some(e[2].1));
    assert(member(e, "title"@) == Some(e[0].1));
    assert(e[1].0@ != "chat_messages"@);
    assert(e[2].0@ != "chat_messages"@);
    assert(e[3].0@ != "chat_messages"@);
    assert(e[4].0@ != "chat_messages"@);
    assert(member(e, "chat_messages"@) == Some(e[5].1));
}

/// Deleting a chat's messages a second time removes nothing: the chat then
/// has no messages, and the store stays as the first deletion left it.
pub proof fn law_delete_all_messages_idempotent(v: DbView, id: i32)
    ensures
        v.without_chat_messages(id).messages_of(id).len() == 0,
        v.without_chat_messages(id).without_chat_messages(id) == v.without_chat_messages(id),
{
    let w = v.without_chat_messages(id);
    lemma_filter_contains(v.messages, msg_outside_chat(id));
    assert forall|i: int| 0 <= i < w.messages.len() implies !msg_in_chat(id)(w.messages[i]) by {
        assert(w.messages.contains(w.messages[i]));
    }
    lemma_filter_none(w.messages, msg_in_chat(id));
    lemma_filter_all(w.messages, msg_outside_chat(id));
}

} // verus!
