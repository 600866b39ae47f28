//! Instants on the UTC time line, as the transaction-time and valid-time axes use them.
use vstd::prelude::*;

verus! {

/// Seconds of the first instant that can be represented: -262143-01-01T00:00:00Z.
pub const FIRST_SECOND: i64 = -8334601228800;

/// Seconds of the last instant that can be represented: +262142-12-31T23:59:59Z.
pub const LAST_SECOND: i64 = 8210266876799;

/// Whether a count of seconds since the Unix epoch and a count of nanoseconds denote an instant.
/// Nanoseconds from one second on stand for a leap second, which may follow any second.
pub open spec fn denotes_instant(secs: int, nanos: int) -> bool {
    &&& FIRST_SECOND <= secs <= LAST_SECOND
    &&& 0 <= nanos < 2_000_000_000
}

/// An instant: whole seconds since the Unix epoch, and nanoseconds within that second.
#[derive(Clone, Copy, Debug, PartialEq, Eq, Structural, PartialOrd, Ord, Hash)]
pub struct Timestamp {
    secs: i64,
    nanos: u32,
}

impl Timestamp {
    /// The whole seconds since the Unix epoch.
    pub closed spec fn secs(self) -> int {
        self.secs as int
    }

    /// The nanoseconds within the second; a leap second counts on from 1_000_000_000.
    pub closed spec fn nanos(self) -> int {
        self.nanos as int
    }

    /// The position of the instant on the time line: instants are ordered as these numbers are.
    pub open spec fn at(self) -> int {
        self.secs() * 0x1_0000_0000 + self.nanos()
    }

    #[verifier::type_invariant]
    pub closed spec fn in_range(self) -> bool {
        denotes_instant(self.secs as int, self.nanos as int)
    }

    /// The instant with these parts, or `None` where there is no such instant.
    pub fn new(secs: i64, nanos: u32) -> (r: Option<Timestamp>)
        ensures
            r is Some <==> denotes_instant(secs as int, nanos as int),
            r matches Some(t) ==> t.secs() == secs && t.nanos() == nanos,
    {
        if secs < FIRST_SECOND || secs > LAST_SECOND || nanos >= 2_000_000_000 {
            return None;
        }
        Some(Timestamp { secs, nanos })
    }

    /// The whole seconds since the Unix epoch.
    pub fn timestamp(&self) -> (r: i64)
        ensures
            r == self.secs(),
    {
        self.secs
    }

    /// The nanoseconds within the second.
    pub fn subsec_nanos(&self) -> (r: u32)
        ensures
            r == self.nanos(),
    {
        self.nanos
    }

    /// Whether this instant is no later than `other`.
    pub fn at_or_before(&self, other: &Timestamp) -> (r: bool)
        ensures
            r == (self.at() <= other.at()),
    {
        self.secs < other.secs || (self.secs == other.secs && self.nanos <= other.nanos)
    }

    /// Whether this instant is earlier than `other`.
    pub fn before(&self, other: &Timestamp) -> (r: bool)
        ensures
            r == (self.at() < other.at()),
    {
        self.secs < other.secs || (self.secs == other.secs && self.nanos < other.nanos)
    }

    /// The RFC 3339 text of the instant, such as `2026-01-01T00:00:00+00:00`.
    pub fn to_rfc3339(&self) -> (r: String)
        ensures
            r@ == rfc3339_text(self.secs(), self.nanos()),
    {
        proof {
            use_type_invariant(self);
        }
        rfc3339(self.secs, self.nanos)
    }

    /// The whole seconds from `earlier` to this instant, negative where it lies before, and cut
    /// off toward zero.
    pub fn seconds_since(&self, earlier: &Timestamp) -> (r: i64)
        ensures
            r == elapsed_seconds(self.secs(), self.nanos(), earlier.secs(), earlier.nanos()),
    {
        proof {
            use_type_invariant(self);
            use_type_invariant(earlier);
        }
        elapsed(self.secs, self.nanos, earlier.secs, earlier.nanos)
    }
}

/// Two instants at one position of the time line are one instant.
pub proof fn lemma_position_is_unique(a: Timestamp, b: Timestamp)
    ensures
        a.at() == b.at() <==> a == b,
{
}

/// The engine-stamped time at which a record was written.
#[derive(Clone, Copy, Debug, PartialEq, Eq, Structural, PartialOrd, Ord, Hash)]
pub struct TransactionTime(pub Timestamp);

/// The nanoseconds between two instants. A leap second that lies between the times of day counts
/// as a second of its own.
pub open spec fn elapsed_nanos(secs: int, nanos: int, from_secs: int, from_nanos: int) -> int {
    let leap: int = if secs % 86_400 > from_secs % 86_400 && from_nanos >= 1_000_000_000 {
        1
    } else if secs % 86_400 < from_secs % 86_400 && nanos >= 1_000_000_000 {
        -1
    } else {
        0
    };
    (secs - from_secs + leap) * 1_000_000_000 + (nanos - from_nanos)
}

/// The whole seconds in [`elapsed_nanos`], cut off toward zero.
pub open spec fn elapsed_seconds(secs: int, nanos: int, from_secs: int, from_nanos: int) -> int {
    let total = elapsed_nanos(secs, nanos, from_secs, from_nanos);
    if total >= 0 {
        total / 1_000_000_000
    } else {
        -((-total) / 1_000_000_000)
    }
}

/// What `chrono::DateTime::<Utc>::to_rfc3339` writes for the instant with these parts.
pub uninterp spec fn rfc3339_text(secs: int, nanos: int) -> Seq<char>;

/// Calls `chrono::DateTime::<Utc>::to_rfc3339` on the instant with these parts, which is made of
/// the whole seconds and then given the nanoseconds, as `DateTime::from_timestamp` takes those of a
/// leap second at the end of a minute alone. The text is a function of the parts alone.
#[verifier::external_body]
fn rfc3339(secs: i64, nanos: u32) -> (r: String)
    requires
        denotes_instant(secs as int, nanos as int),
    ensures
        r@ == rfc3339_text(secs as int, nanos as int),
{
    let second = chrono::DateTime::<chrono::Utc>::from_timestamp(secs, 0).unwrap().naive_utc();
    chrono::Timelike::with_nanosecond(&second, nanos).unwrap().and_utc().to_rfc3339()
}

/// Calls `chrono::DateTime::signed_duration_since` and `TimeDelta::num_seconds`: the difference of
/// the two instants in nanoseconds, with the leap second of the earlier time of day counted, and
/// its whole seconds cut off toward zero. The instants are made as for [`rfc3339`].
#[verifier::external_body]
fn elapsed(secs: i64, nanos: u32, from_secs: i64, from_nanos: u32) -> (r: i64)
    requires
        denotes_instant(secs as int, nanos as int),
        denotes_instant(from_secs as int, from_nanos as int),
    ensures
        r == elapsed_seconds(secs as int, nanos as int, from_secs as int, from_nanos as int),
{
    let to = chrono::DateTime::<chrono::Utc>::from_timestamp(secs, 0).unwrap().naive_utc();
    let from = chrono::DateTime::<chrono::Utc>::from_timestamp(from_secs, 0).unwrap().naive_utc();
    let to = chrono::Timelike::with_nanosecond(&to, nanos).unwrap().and_utc();
    let from = chrono::Timelike::with_nanosecond(&from, from_nanos).unwrap().and_utc();
    to.signed_duration_since(from).num_seconds()
}

} // verus!
