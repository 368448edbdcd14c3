//! Instants in UTC and ranges of them.
use vstd::prelude::*;

verus! {

/// Nanoseconds in one second.
pub open spec fn nanos_per_sec() -> int {
    1_000_000_000
}

/// The earliest instant `chrono` represents, in seconds from the Unix epoch: the
/// start of January 1 of the year -262143.
pub open spec fn min_unix_secs() -> int {
    -8_334_601_228_800
}

/// The last second `chrono` represents, in seconds from the Unix epoch: the last
/// second of December 31 of the year 262142.
pub open spec fn max_unix_secs() -> int {
    8_210_266_876_799
}

/// The RFC 3339 text that `chrono` prints for the instant `secs` seconds and `nanos`
/// nanoseconds after the Unix epoch, in UTC.
pub uninterp spec fn rfc3339_text(secs: i64, nanos: u32) -> Seq<char>;

/// An instant in UTC: whole seconds since the Unix epoch plus a sub-second part.
#[derive(Debug, Clone, Copy, PartialEq, Eq, Structural)]
pub struct Timestamp {
    secs: i64,
    nanos: u32,
}

impl View for Timestamp {
    type V = int;

    /// Nanoseconds since the Unix epoch.
    closed spec fn view(&self) -> int {
        self.secs * nanos_per_sec() + self.nanos
    }
}

impl Timestamp {
    #[verifier::type_invariant]
    spec fn inv(self) -> bool {
        &&& self.nanos < 1_000_000_000
        &&& min_unix_secs() <= self.secs <= max_unix_secs()
    }

    /// The instant `secs` seconds and `nanos` nanoseconds after the Unix epoch.
    pub fn from_unix(secs: i64, nanos: u32) -> (r: Timestamp)
        requires
            nanos < 1_000_000_000,
            min_unix_secs() <= secs <= max_unix_secs(),
        ensures
            r@ == secs * nanos_per_sec() + nanos,
    {
        Timestamp { secs, nanos }
    }

    pub fn unix_secs(&self) -> (r: i64)
        ensures
            r * nanos_per_sec() <= self@ < (r + 1) * nanos_per_sec(),
    {
        proof {
            use_type_invariant(self);
        }
        self.secs
    }

    pub fn subsec_nanos(&self) -> (r: u32)
        ensures
            self@ == self.unix_secs_spec() * nanos_per_sec() + r,
            r < 1_000_000_000,
    {
        proof {
            use_type_invariant(self);
        }
        self.nanos
    }

    pub closed spec fn unix_secs_spec(&self) -> int {
        self.secs as int
    }

    /// Is `self` strictly earlier than `other`?
    pub fn before(&self, other: &Timestamp) -> (r: bool)
        ensures
            r == (self@ < other@),
    {
        proof {
            use_type_invariant(self);
            use_type_invariant(other);
        }
        self.secs < other.secs || (self.secs == other.secs && self.nanos < other.nanos)
    }

    /// The instant as `chrono` prints it in RFC 3339 form.
    pub fn to_rfc3339(&self) -> (r: String)
        ensures
            r@ == rfc3339_text(self.secs_spec(), self.nanos_spec()),
    {
        proof {
            use_type_invariant(self);
        }
        rfc3339(self.secs, self.nanos)
    }

    pub closed spec fn secs_spec(&self) -> i64 {
        self.secs
    }

    pub closed spec fn nanos_spec(&self) -> u32 {
        self.nanos
    }

    /// Is less than `secs` seconds between `earlier` and `self`?
    pub fn within_secs_of(&self, earlier: &Timestamp, secs: u32) -> (r: bool)
        ensures
            r == (self@ - earlier@ < secs * nanos_per_sec()),
    {
        proof {
            use_type_invariant(self);
            use_type_invariant(earlier);
        }
        let d: i128 = (self.secs as i128 - earlier.secs as i128) * 1_000_000_000 + (
        self.nanos as i128 - earlier.nanos as i128);
        d < (secs as i128) * 1_000_000_000
    }
}

/// Calls `chrono::DateTime::<Utc>::from_timestamp` and `to_rfc3339` on the result; the
/// text is named by `rfc3339_text`. `from_timestamp` returns a value for every such
/// instant: its day count fits an `i32` and its date lies between `NaiveDate::MIN`
/// (January 1 of the year -262143) and `NaiveDate::MAX` (December 31 of 262142).
#[verifier::external_body]
fn rfc3339(secs: i64, nanos: u32) -> (r: String)
    requires
        nanos < 1_000_000_000,
        min_unix_secs() <= secs <= max_unix_secs(),
    ensures
        r@ == rfc3339_text(secs, nanos),
{
    chrono::DateTime::<chrono::Utc>::from_timestamp(secs, nanos).unwrap().to_rfc3339()
}

/// A span from `start` to `end`, never backwards.
#[derive(Debug, Clone, Copy)]
pub struct TimeRange {
    start: Timestamp,
    end: Timestamp,
}

/// Why a range was refused.
#[derive(Debug, Clone, Copy, PartialEq, Eq, Structural)]
pub enum TimeRangeError {
    /// The end is before the start.
    InvalidOrder,
}

impl TimeRange {
    #[verifier::type_invariant]
    spec fn inv(self) -> bool {
        self.start@ <= self.end@
    }

    /// Accepts any range whose end is not before its start.
    pub fn new(start: Timestamp, end: Timestamp) -> (r: Result<TimeRange, TimeRangeError>)
        ensures
            r is Ok <==> start@ <= end@,
            r matches Ok(t) ==> t.start_spec() == start && t.end_spec() == end,
            r matches Err(e) ==> e == TimeRangeError::InvalidOrder,
    {
        if end.before(&start) {
            return Err(TimeRangeError::InvalidOrder);
        }
        Ok(TimeRange { start, end })
    }

    pub closed spec fn start_spec(&self) -> Timestamp {
        self.start
    }

    pub closed spec fn end_spec(&self) -> Timestamp {
        self.end
    }

    pub fn start(&self) -> (r: Timestamp)
        ensures
            r == self.start_spec(),
    {
        self.start
    }

    pub fn end(&self) -> (r: Timestamp)
        ensures
            r == self.end_spec(),
            self.start_spec()@ <= r@,
    {
        proof {
            use_type_invariant(self);
        }
        self.end
    }
}

} // verus!
