//! Offset-aware timestamps.  The deserializer only needs to know whether a
//! text is a valid RFC 3339 timestamp; the text itself is kept as the
//! value.  Validity is decided by the date-time library behind a trusted
//! boundary.

use vstd::prelude::*;

verus! {

/// Whether the date-time library accepts `s` as an RFC 3339 timestamp with
/// offset; a function of the text alone.
pub uninterp spec fn rfc3339_ok(s: Seq<char>) -> bool;

/// Relies on `chrono::DateTime::<chrono::FixedOffset>::parse_from_rfc3339`:
/// whether a text parses as an RFC 3339 timestamp depends on its characters
/// alone.
#[verifier::external_body]
fn rfc3339_valid(s: &str) -> (r: bool)
    ensures
        r == rfc3339_ok(s@),
{
    chrono::DateTime::parse_from_rfc3339(s).is_ok()
}

/// A validated offset-aware timestamp, kept as its RFC 3339 text.
#[derive(Debug, Clone, PartialEq)]
pub struct Timestamp {
    pub raw: String,
}

/// Spec-level mirror of [`Timestamp`]: the text.
pub type TimestampV = Seq<char>;

impl View for Timestamp {
    type V = TimestampV;

    open spec fn view(&self) -> TimestampV {
        self.raw@
    }
}

impl DeepView for Timestamp {
    type V = TimestampV;

    open spec fn deep_view(&self) -> TimestampV {
        self.view()
    }
}

/// The timestamp a text denotes, if it is a valid RFC 3339 timestamp.
pub open spec fn sp_timestamp(s: Seq<char>) -> Option<TimestampV> {
    if rfc3339_ok(s) {
        Some(s)
    } else {
        None
    }
}

impl Timestamp {
    /// Validates a timestamp text.
    pub fn parse(s: &str) -> (r: Option<Timestamp>)
        ensures
            r.deep_view() == sp_timestamp(s@),
    {
        if rfc3339_valid(s) {
            Some(Timestamp { raw: s.to_owned() })
        } else {
            None
        }
    }

    /// The RFC 3339 text of this timestamp.
    pub fn as_str(&self) -> (r: &str)
        ensures
            r@ == self@,
    {
        self.raw.as_str()
    }
}

} // verus!
