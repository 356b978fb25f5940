//! What a transaction is stamped with: a fresh identifier and the instant of
//! the fill.

use vstd::prelude::*;

verus! {

/// Whether `c` is a digit of lower-case hexadecimal.
pub open spec fn is_lower_hex(c: char) -> bool {
    ('0' <= c && c <= '9') || ('a' <= c && c <= 'f')
}

/// Whether `text` is the hyphenated lower-case form of a random
/// (version 4) UUID: five groups of hexadecimal digits, 8-4-4-4-12, the third
/// group beginning with `4` and the fourth with `8`, `9`, `a` or `b`.
pub open spec fn is_uuid_v4_text(text: Seq<char>) -> bool {
    &&& text.len() == 36
    &&& forall|i: int|
        0 <= i < 36 ==> if i == 8 || i == 13 || i == 18 || i == 23 {
            text[i] == '-'
        } else {
            is_lower_hex(#[trigger] text[i])
        }
    &&& text[14] == '4'
    &&& (text[19] == '8' || text[19] == '9' || text[19] == 'a' || text[19] == 'b')
}

/// The text that `chrono` writes for the instant `nanos` nanoseconds after
/// 1970-01-01T00:00:00Z, in the format of RFC 3339.
pub uninterp spec fn rfc3339_text(nanos: i64) -> Seq<char>;

/// Calls `uuid::Uuid::new_v4` and writes the result with its `Display`, which
/// is the hyphenated lower-case form. Which identifier comes out is left
/// open; only its form is claimed.
#[verifier::external_body]
pub(crate) fn fresh_uuid_text() -> (text: String)
    ensures
        is_uuid_v4_text(text@),
{
    uuid::Uuid::new_v4().to_string()
}

/// Calls `chrono::Utc::now` and reads the result with
/// `DateTime::timestamp_nanos_opt`: the nanoseconds since the epoch, or
/// nothing where they are too many for 64 bits. Nothing is claimed of the
/// reading. `chrono` panics where the system's clock stands before the epoch.
#[verifier::external_body]
fn utc_now_nanos() -> (nanos: Option<i64>) {
    chrono::Utc::now().timestamp_nanos_opt()
}

/// Calls `chrono::DateTime::from_timestamp_nanos`, which takes every 64-bit
/// count, and `DateTime::to_rfc3339` on the result. The text is claimed to
/// depend on the count alone.
#[verifier::external_body]
fn write_rfc3339(nanos: i64) -> (text: String)
    ensures
        text@ == rfc3339_text(nanos),
{
    chrono::DateTime::from_timestamp_nanos(nanos).to_rfc3339()
}

/// An instant in UTC, counted in nanoseconds from 1970-01-01T00:00:00Z.
#[derive(Debug, Clone, Copy, PartialEq, Eq, Structural, PartialOrd, Ord, Hash)]
pub struct Timestamp {
    nanos: i64,
}

impl View for Timestamp {
    type V = i64;

    /// The nanoseconds since the epoch.
    closed spec fn view(&self) -> i64 {
        self.nanos
    }
}

impl Timestamp {
    /// The instant `nanos` nanoseconds after the epoch.
    pub fn from_nanos(nanos: i64) -> (at: Timestamp)
        ensures
            at@ == nanos,
    {
        Timestamp { nanos }
    }

    /// The instant that a reading of the clock stands for. A reading that
    /// does not fit in 64 bits is held at the last instant that does.
    pub fn from_reading(reading: Option<i64>) -> (at: Timestamp)
        ensures
            at@ == match reading {
                Some(nanos) => nanos,
                None => i64::MAX,
            },
    {
        match reading {
            Some(nanos) => Timestamp { nanos },
            None => Timestamp { nanos: i64::MAX },
        }
    }

    /// The present instant, by the system's clock.
    pub fn now() -> Timestamp {
        Timestamp::from_reading(utc_now_nanos())
    }

    /// The nanoseconds since the epoch.
    pub fn nanos(&self) -> (nanos: i64)
        ensures
            nanos == self@,
    {
        self.nanos
    }

    /// The instant as RFC 3339 writes it.
    pub fn to_rfc3339(&self) -> (text: String)
        ensures
            text@ == rfc3339_text(self@),
    {
        write_rfc3339(self.nanos)
    }
}

} // verus!
