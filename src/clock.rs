use vstd::prelude::*;

verus! {

/// An instant in UTC, counted in microseconds since the Unix epoch.
#[derive(Clone, Copy, Debug, PartialEq, Eq, Structural)]
pub struct Timestamp {
    pub micros: i64,
}

/// The RFC 3339 text that chrono renders for an instant, if chrono can
/// represent it.
pub uninterp spec fn rfc3339_of(micros: i64) -> Option<Seq<char>>;

/// Relies on `chrono::Utc::now` and `DateTime::timestamp_micros`: reads the
/// system clock. Nothing is promised of the value.
#[verifier::external_body]
pub(crate) fn now() -> (r: Timestamp) {
    Timestamp { micros: chrono::Utc::now().timestamp_micros() }
}

/// Relies on `chrono::DateTime::<Utc>::from_timestamp_micros` and
/// `to_rfc3339_opts(SecondsFormat::AutoSi, true)`, the form chrono's serde
/// support writes for a UTC instant.
#[verifier::external_body]
pub(crate) fn rfc3339_text(t: Timestamp) -> (r: Option<String>)
    ensures
        match r {
            Some(s) => rfc3339_of(t.micros) == Some(s@),
            None => rfc3339_of(t.micros) is None,
        },
{
    match chrono::DateTime::<chrono::Utc>::from_timestamp_micros(t.micros) {
        Some(d) => Some(d.to_rfc3339_opts(chrono::SecondsFormat::AutoSi, true)),
        None => None,
    }
}

impl Timestamp {
    /// The later of this instant and `floor`.
    pub fn not_before(self, floor: Timestamp) -> (r: Timestamp)
        ensures
            r.micros == if self.micros < floor.micros { floor.micros } else { self.micros },
    {
        if self.micros < floor.micros {
            floor
        } else {
            self
        }
    }
}

} // verus!
