use vstd::prelude::*;

use crate::clock::Timestamp;

verus! {

/// Relies on `uuid::Uuid::new_v4` and its `Display`, which writes the
/// hyphenated form (`Hyphenated::LENGTH`, 36 characters). The value is random.
#[verifier::external_body]
pub(crate) fn new_uuid() -> (r: String)
    ensures
        r@.len() == 36,
{
    uuid::Uuid::new_v4().to_string()
}

/// The identity and timestamps every row receives on insert: the given
/// identifier, and the same instant as creation and last update.
pub struct Stamps {
    pub uuid: String,
    pub created_at: Timestamp,
    pub updated_at: Timestamp,
}

/// The hook run before a row is first saved.
pub fn stamps_on_insert(uuid: String, now: Timestamp) -> (r: Stamps)
    ensures
        r.uuid@ == uuid@,
        r.created_at == now,
        r.updated_at == now,
{
    Stamps { uuid, created_at: now, updated_at: now }
}

/// The hook run before a row is saved again: the new `updated_at`, which is
/// `now` but never earlier than the row's creation.
pub fn updated_at_on_update(created_at: Timestamp, now: Timestamp) -> (r: Timestamp)
    ensures
        r.micros == if now.micros < created_at.micros { created_at.micros } else { now.micros },
{
    now.not_before(created_at)
}

} // verus!
