//! Instants in time, carried as plain seconds/nanoseconds pairs.
//!
//! Externally every timestamp travels as an RFC 3339 date-time string with an
//! explicit offset; internally the library keeps only the instant the string
//! denotes.  Parsing and rendering are delegated to the `chrono` crate behind
//! trusted wrappers; everything else (ordering, well-formedness) is plain
//! integer logic and is verified.

use vstd::prelude::*;

verus! {

/// Smallest `secs` value a well-formed timestamp may carry; far below any
/// instant an RFC 3339 string (years 0000..=9999, offsets up to 23:59) can
/// denote, and comfortably inside the range `chrono` can represent.
pub const TS_MIN_SECS: i64 = -8_000_000_000_000;

/// Largest `secs` value a well-formed timestamp may carry; far above any
/// instant an RFC 3339 string can denote.
pub const TS_MAX_SECS: i64 = 8_000_000_000_000;

/// Instant of 0000-01-01T00:00:00 UTC: below it, rendering produces a year
/// with a sign that an RFC 3339 parser no longer accepts.
pub const RFC_MIN_SECS: i64 = -62_167_219_200;

/// Instant of 9999-12-31T23:59:59 UTC: above it, rendering produces a
/// five-digit year that an RFC 3339 parser no longer accepts.
pub const RFC_MAX_SECS: i64 = 253_402_300_799;

/// An instant: seconds since the Unix epoch plus a sub-second part.
/// `nanos` may reach into `1_000_000_000..2_000_000_000` to represent an
/// instant inside a leap second, as `chrono` does; such a value only ever
/// sits on the last second of a minute.
#[derive(Clone, Copy, PartialEq, Eq, Structural, Debug)]
pub struct Timestamp {
    pub secs: i64,
    pub nanos: u32,
}

impl Timestamp {
    /// The range every parsed timestamp lies in and for which rendering back
    /// to a string is defined.
    pub open spec fn wf(self) -> bool {
        &&& TS_MIN_SECS <= self.secs <= TS_MAX_SECS
        &&& self.nanos < 2_000_000_000
        &&& self.nanos >= 1_000_000_000 ==> self.secs % 60 == 59
    }

    /// True when rendering this instant yields a string that parses back to
    /// the same instant: the rendered year must have exactly four digits.
    pub open spec fn round_trips(self) -> bool {
        &&& self.wf()
        &&& RFC_MIN_SECS <= self.secs <= RFC_MAX_SECS
    }
}

/// Strict instant order: earlier seconds, or equal seconds and an earlier
/// sub-second part.
pub open spec fn ts_lt(a: Timestamp, b: Timestamp) -> bool {
    a.secs < b.secs || (a.secs == b.secs && a.nanos < b.nanos)
}

/// Non-strict instant order.
pub open spec fn ts_le(a: Timestamp, b: Timestamp) -> bool {
    ts_lt(a, b) || a == b
}

/// Decides the strict instant order on two timestamps.
pub fn timestamp_lt(a: &Timestamp, b: &Timestamp) -> (r: bool)
    ensures
        r == ts_lt(*a, *b),
{
    a.secs < b.secs || (a.secs == b.secs && a.nanos < b.nanos)
}

/// The instant, as (seconds, nanoseconds), that an RFC 3339 date-time string
/// with offset denotes, or `None` where the string is malformed.  Names the
/// result of `chrono::DateTime::parse_from_rfc3339`.
pub uninterp spec fn rfc3339_instant(s: Seq<char>) -> Option<(int, int)>;

/// The canonical RFC 3339 rendering of an instant: UTC offset written
/// `+00:00`, fractional seconds only when the sub-second part is non-zero.
/// Names the result of `chrono::DateTime::<Utc>::to_rfc3339`.
pub uninterp spec fn rfc3339_canonical(secs: int, nanos: int) -> Seq<char>;

/// Relies on `chrono::DateTime::parse_from_rfc3339` to read an RFC 3339
/// string, and on `timestamp` / `timestamp_subsec_nanos` to expose the
/// instant it denotes.  A parsed instant lies within years 0000..=9999
/// shifted by at most one day of offset, hence well inside `wf`'s range, and
/// a leap-second instant (`nanos >= 1_000_000_000`) only ever sits on the
/// last second of a minute.
#[verifier::external_body]
pub fn parse_rfc3339(s: &str) -> (r: Option<Timestamp>)
    ensures
        match r {
            Some(t) => t.wf() && rfc3339_instant(s@) == Some((t.secs as int, t.nanos as int)),
            None => rfc3339_instant(s@) is None,
        },
{
    match chrono::DateTime::parse_from_rfc3339(s) {
        Ok(dt) => {
            let utc: chrono::DateTime<chrono::Utc> = dt.into();
            Some(Timestamp { secs: utc.timestamp(), nanos: utc.timestamp_subsec_nanos() })
        }
        Err(_) => None,
    }
}

/// Relies on `chrono::DateTime::<Utc>::from_timestamp` (defined on the whole
/// of `wf`'s range) and `to_rfc3339` to render an instant canonically.  For
/// an instant whose UTC year has four digits the rendering parses back to
/// the very same instant; outside that range the year gains a sign or a
/// fifth digit and no longer parses.
#[verifier::external_body]
pub fn format_rfc3339(t: &Timestamp) -> (r: String)
    requires
        t.wf(),
    ensures
        r@ == rfc3339_canonical(t.secs as int, t.nanos as int),
        t.round_trips() ==> rfc3339_instant(r@) == Some((t.secs as int, t.nanos as int)),
{
    let dt = chrono::DateTime::<chrono::Utc>::from_timestamp(t.secs, t.nanos).unwrap();
    dt.to_rfc3339()
}

/// Relies on `chrono::Utc::now` for the current instant.  Nothing is assumed
/// of the clock's reading beyond well-formedness: the sub-second part is
/// below a second, and the reading lies inside `wf`'s generous range — a
/// clock outside it (beyond roughly the year 250,000) would already make
/// `chrono` itself give up.
#[verifier::external_body]
pub fn now() -> (r: Timestamp)
    ensures
        r.wf(),
{
    let n = chrono::Utc::now();
    Timestamp { secs: n.timestamp(), nanos: n.timestamp_subsec_nanos() }
}

} // verus!
