use vstd::prelude::*;

verus! {

/// Why the store refused a write.
#[derive(Clone, Copy, Debug, PartialEq, Eq, Structural)]
pub enum StorageFailure {
    /// The identifier is empty.
    EmptyUuid,
    /// Another row already holds the identifier.
    DuplicateUuid,
    /// Another user already holds the username.
    DuplicateUsername,
    /// A referenced chat does not exist.
    MissingChat,
    /// A referenced user does not exist.
    MissingUser,
    /// The user is already linked to the chat.
    DuplicateLink,
    /// No message has the given id.
    MissingMessage,
    /// The message may not move from its state to the one asked for.
    InvalidTransition,
    /// The table has used up its surrogate keys.
    IdsExhausted,
}

/// The failures of the store's operations.
#[derive(Clone, Debug, PartialEq, Eq, Structural)]
pub enum DatabaseError {
    UserNotFound,
    ChatNotFound,
    Database(StorageFailure),
    /// A document could not be built; the field names what failed.
    Serialization(SerializationFailure),
}

/// What could not be written into a document.
#[derive(Clone, Copy, Debug, PartialEq, Eq, Structural)]
pub enum SerializationFailure {
    /// A timestamp lies outside the range that can be rendered.
    TimestampOutOfRange,
}

/// An error as the web layer reports it: an HTTP status and a message.
#[derive(Clone, Debug)]
pub struct AppError {
    pub status: u16,
    pub message: String,
}

pub open spec fn app_status(e: DatabaseError) -> u16 {
    match e {
        DatabaseError::UserNotFound | DatabaseError::ChatNotFound => 404,
        _ => 500,
    }
}

pub open spec fn app_message(e: DatabaseError) -> Seq<char> {
    match e {
        DatabaseError::UserNotFound => "User not found"@,
        DatabaseError::ChatNotFound => "Chat not found"@,
        DatabaseError::Database(_) => "Database error"@,
        DatabaseError::Serialization(_) => "Serialization error"@,
    }
}

impl AppError {
    /// The web-layer form of a store error: not found for the two lookups,
    /// a generic failure, with no detail, for the rest.
    pub fn from_database_error(err: DatabaseError) -> (r: AppError)
        ensures
            r.status == app_status(err),
            r.message@ == app_message(err),
    {
        match err {
            DatabaseError::UserNotFound => AppError {
                status: 404,
                message: String::from_str("User not found"),
            },
            DatabaseError::ChatNotFound => AppError {
                status: 404,
                message: String::from_str("Chat not found"),
            },
            DatabaseError::Database(_) => AppError {
                status: 500,
                message: String::from_str("Database error"),
            },
            DatabaseError::Serialization(_) => AppError {
                status: 500,
                message: String::from_str("Serialization error"),
            },
        }
    }
}

} // verus!
