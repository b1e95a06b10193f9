//! Persistence and lifecycle core of a small multi-user chat service.
//!
//! Users own chats through a link table, chats hold messages, and every row
//! carries an external UUID and creation / update timestamps. The store keeps
//! the uniqueness and referential rules itself and cascades deletions, and the
//! message lifecycle only moves forward.
pub mod clock;
pub mod identity;
pub mod entities;
pub mod errors;
pub mod seq_facts;
pub mod store;
pub mod document;
pub mod laws;

pub use store::Db;
pub use document::{ChatSummary, JsonValue};

pub use clock::Timestamp;
pub use entities::{Chat, ChatMessage, ChatMessageRole, ChatMessageState, ChatsUsers, User};
pub use errors::{AppError, DatabaseError, SerializationFailure, StorageFailure};

