use vstd::prelude::*;

use crate::clock::Timestamp;

verus! {

/// Who a message speaks for.
#[derive(Clone, Copy, Debug, PartialEq, Eq, Structural)]
pub enum ChatMessageRole {
    Assistant,
    System,
    User,
}

/// Where a message stands in its lifecycle.
#[derive(Clone, Copy, Debug, PartialEq, Eq, Structural)]
pub enum ChatMessageState {
    Pending,
    Loading,
    Ready,
    Error,
}

pub open spec fn role_label(r: ChatMessageRole) -> Seq<char> {
    match r {
        ChatMessageRole::Assistant => "Assistant"@,
        ChatMessageRole::System => "System"@,
        ChatMessageRole::User => "User"@,
    }
}

pub open spec fn state_label(s: ChatMessageState) -> Seq<char> {
    match s {
        ChatMessageState::Pending => "Pending"@,
        ChatMessageState::Loading => "Loading"@,
        ChatMessageState::Ready => "Ready"@,
        ChatMessageState::Error => "Error"@,
    }
}

/// The lifecycle a message follows: `Pending` to `Loading`, and `Loading` to
/// either `Ready` or `Error`. `Ready` and `Error` are final.
pub open spec fn allowed_transition(from: ChatMessageState, to: ChatMessageState) -> bool {
    (from == ChatMessageState::Pending && to == ChatMessageState::Loading) || (from
        == ChatMessageState::Loading && (to == ChatMessageState::Ready || to
        == ChatMessageState::Error))
}

impl ChatMessageRole {
    /// The role's label, as stored and as written in documents.
    pub fn to_string(&self) -> (r: String)
        ensures
            r@ == role_label(*self),
    {
        match self {
            ChatMessageRole::Assistant => String::from_str("Assistant"),
            ChatMessageRole::System => String::from_str("System"),
            ChatMessageRole::User => String::from_str("User"),
        }
    }
}

impl ChatMessageState {
    /// The state's label, as stored and as written in documents.
    pub fn to_string(&self) -> (r: String)
        ensures
            r@ == state_label(*self),
    {
        match self {
            ChatMessageState::Pending => String::from_str("Pending"),
            ChatMessageState::Loading => String::from_str("Loading"),
            ChatMessageState::Ready => String::from_str("Ready"),
            ChatMessageState::Error => String::from_str("Error"),
        }
    }

    /// Whether a message in this state may move to `next`.
    pub fn can_transition_to(&self, next: ChatMessageState) -> (r: bool)
        ensures
            r == allowed_transition(*self, next),
    {
        match (self, next) {
            (ChatMessageState::Pending, ChatMessageState::Loading) => true,
            (ChatMessageState::Loading, ChatMessageState::Ready) => true,
            (ChatMessageState::Loading, ChatMessageState::Error) => true,
            _ => false,
        }
    }

    /// Whether no further transition leaves this state.
    pub fn is_final(&self) -> (r: bool)
        ensures
            r == (*self == ChatMessageState::Ready || *self == ChatMessageState::Error),
            r <==> forall|n: ChatMessageState| !allowed_transition(*self, n),
    {
        proof {
            if !(*self == ChatMessageState::Ready || *self == ChatMessageState::Error) {
                if *self == ChatMessageState::Pending {
                    assert(allowed_transition(*self, ChatMessageState::Loading));
                } else {
                    assert(allowed_transition(*self, ChatMessageState::Ready));
                }
            }
        }
        match self {
            ChatMessageState::Ready | ChatMessageState::Error => true,
            _ => false,
        }
    }
}

/// An account.
#[derive(Clone, Debug)]
pub struct User {
    pub id: i32,
    pub uuid: String,
    pub username: String,
    pub created_at: Timestamp,
    pub updated_at: Timestamp,
}

/// A conversation, holding messages and linked to the users who own it.
#[derive(Clone, Debug)]
pub struct Chat {
    pub id: i32,
    pub uuid: String,
    pub title: String,
    pub created_at: Timestamp,
    pub updated_at: Timestamp,
}

/// One row of the link table between chats and users.
#[derive(Clone, Copy, Debug, PartialEq, Eq, Structural)]
pub struct ChatsUsers {
    pub chat_id: i32,
    pub user_id: i32,
}

/// One message of a chat.
#[derive(Clone, Debug)]
pub struct ChatMessage {
    pub id: i32,
    pub uuid: String,
    pub title: Option<String>,
    pub content: Option<String>,
    pub role: ChatMessageRole,
    pub state: ChatMessageState,
    pub chat_id: i32,
    pub user_id: Option<i32>,
    pub created_at: Timestamp,
    pub updated_at: Timestamp,
}

fn copy_text(s: &Option<String>) -> (r: Option<String>)
    ensures
        r == *s,
{
    match s {
        Some(t) => Some(t.clone()),
        None => None,
    }
}

impl User {
    /// A copy of this row.
    pub fn duplicate(&self) -> (r: User)
        ensures
            r == *self,
    {
        User {
            id: self.id,
            uuid: self.uuid.clone(),
            username: self.username.clone(),
            created_at: self.created_at,
            updated_at: self.updated_at,
        }
    }
}

impl Chat {
    /// A copy of this row.
    pub fn duplicate(&self) -> (r: Chat)
        ensures
            r == *self,
    {
        Chat {
            id: self.id,
            uuid: self.uuid.clone(),
            title: self.title.clone(),
            created_at: self.created_at,
            updated_at: self.updated_at,
        }
    }
}

impl ChatMessage {
    /// A copy of this row.
    pub fn duplicate(&self) -> (r: ChatMessage)
        ensures
            r == *self,
    {
        ChatMessage {
            id: self.id,
            uuid: self.uuid.clone(),
            title: copy_text(&self.title),
            content: copy_text(&self.content),
            role: self.role,
            state: self.state,
            chat_id: self.chat_id,
            user_id: self.user_id,
            created_at: self.created_at,
            updated_at: self.updated_at,
        }
    }
}

} // verus!
