//! Timestamps of meter samples.

use vstd::prelude::*;

verus! {

/// A point in time as parsed from an RFC 3339 string: the instant as
/// seconds and subsecond nanoseconds relative to the Unix epoch, plus
/// the fixed UTC offset the string carried (preserved, not normalized
/// away).
#[derive(Clone, Copy, Debug, PartialEq, Eq, Structural)]
pub struct Timestamp {
    pub secs: i64,
    pub nanos: u32,
    pub offset_secs: i32,
}

impl Timestamp {
    /// `self` is at or before `other`. Ordering is by the instant alone
    /// (seconds, then nanoseconds); the recorded offset plays no part.
    pub open spec fn spec_le(self, other: Timestamp) -> bool {
        self.secs < other.secs || (self.secs == other.secs && self.nanos <= other.nanos)
    }

    /// `self` is strictly before `other`, again by the instant alone.
    pub open spec fn spec_lt(self, other: Timestamp) -> bool {
        self.secs < other.secs || (self.secs == other.secs && self.nanos < other.nanos)
    }

    /// `self >= other` on instants: the acceptance comparison of the
    /// ingestion loop.
    pub fn is_at_or_after(&self, other: &Timestamp) -> (r: bool)
        ensures
            r == other.spec_le(*self),
    {
        other.secs < self.secs || (other.secs == self.secs && other.nanos <= self.nanos)
    }
}

/// What chrono's RFC 3339 parser yields for a byte string: the instant
/// and offset of a timestamp it accepts, or nothing. Which strings it
/// accepts is chrono's decision and is left unstated here; the result
/// is a function of the bytes alone.
pub uninterp spec fn rfc3339_timestamp(s: Seq<u8>) -> Option<Timestamp>;

/// Relies on `chrono::DateTime::<FixedOffset>::parse_from_rfc3339` for the
/// parse itself, and on `DateTime::timestamp`,
/// `DateTime::timestamp_subsec_nanos` and `FixedOffset::local_minus_utc`
/// to read the instant and offset out of the parsed value; all are
/// functions of the input bytes alone.
#[verifier::external_body]
pub(crate) fn parse_rfc3339(s: &[u8]) -> (r: Option<Timestamp>)
    ensures
        r == rfc3339_timestamp(s@),
{
    let text = match core::str::from_utf8(s) {
        Ok(t) => t,
        Err(_) => return None,
    };
    match chrono::DateTime::parse_from_rfc3339(text) {
        Ok(dt) => Some(Timestamp {
            secs: dt.timestamp(),
            nanos: dt.timestamp_subsec_nanos(),
            offset_secs: dt.offset().local_minus_utc(),
        }),
        Err(_) => None,
    }
}

/// Watermark boundary: a sample stamped exactly at the watermark is
/// accepted by the inclusive comparison, and any strictly earlier
/// instant is rejected.
pub proof fn lemma_watermark_boundary(watermark: Timestamp, earlier: Timestamp)
    requires
        earlier.spec_lt(watermark),
    ensures
        watermark.spec_le(watermark),
        !watermark.spec_le(earlier),
{
}

} // verus!
