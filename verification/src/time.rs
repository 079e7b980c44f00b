use vstd::prelude::*;

verus! {

/// An instant in UTC, as seconds since the Unix epoch and the nanoseconds
/// within that second. A leap second is represented, as chrono does, by a
/// `nanos` value of one billion or more in the last second of a minute.
#[derive(Clone, Copy, Debug, PartialEq, Eq, Structural)]
pub struct Timestamp {
    pub secs: i64,
    pub nanos: u32,
}

/// The largest timestamp (in seconds) that a UTC date-time can have.
pub const MAX_TIMESTAMP_SECS: i64 = 8_210_266_876_799;

/// The smallest timestamp (in seconds) that a UTC date-time can have.
pub const MIN_TIMESTAMP_SECS: i64 = -8_334_601_228_800;

/// A non-negative length of time: whole seconds and the nanoseconds beyond.
#[derive(Clone, Copy, Debug, PartialEq, Eq, Structural)]
pub struct Span {
    pub secs: u64,
    pub nanos: u32,
}

impl Span {
    /// The length in nanoseconds.
    pub open spec fn total_nanos(self) -> int {
        self.secs * 1_000_000_000 + self.nanos
    }
}

impl Timestamp {
    /// Whether a UTC date-time exists at this instant: the seconds lie in the
    /// supported range, and `nanos` is below one billion, or below two
    /// billion during a leap second (the last second of a minute).
    pub open spec fn is_valid(self) -> bool {
        &&& MIN_TIMESTAMP_SECS <= self.secs <= MAX_TIMESTAMP_SECS
        &&& self.nanos < 1_000_000_000 || (self.nanos < 2_000_000_000 && self.secs % 60 == 59)
    }

    /// Whether the instant is an ordinary one, not inside a leap second.
    pub open spec fn is_ordinary(self) -> bool {
        self.is_valid() && self.nanos < 1_000_000_000
    }

    /// The instant some whole seconds later; adding at least one second to
    /// an instant inside a leap second leaves the leap second.
    pub open spec fn plus_seconds(self, seconds: int) -> Timestamp {
        if self.nanos >= 1_000_000_000 && seconds > 0 {
            Timestamp { secs: (self.secs + seconds) as i64, nanos: (self.nanos - 1_000_000_000) as u32 }
        } else {
            Timestamp { secs: (self.secs + seconds) as i64, nanos: self.nanos }
        }
    }

    /// The signed number of nanoseconds from `self` to `later`.
    pub open spec fn nanos_until(self, later: Timestamp) -> int {
        (later.secs - self.secs) * 1_000_000_000 + later.nanos - self.nanos
    }

    /// The ordering of instants: `self` comes strictly after `other`.
    pub open spec fn is_after(self, other: Timestamp) -> bool {
        self.secs > other.secs || (self.secs == other.secs && self.nanos > other.nanos)
    }

    /// Whether `self` lies strictly after `other`.
    pub fn later_than(&self, other: &Timestamp) -> (b: bool)
        ensures
            b == self.is_after(*other),
    {
        self.secs > other.secs || (self.secs == other.secs && self.nanos > other.nanos)
    }
}

/// Adds whole seconds to an instant with chrono (`DateTime::checked_add_signed`).
/// chrono's source gives: an instant that is not a valid date-time gives
/// `None`; otherwise the sum exists exactly when it stays within the
/// supported range, and it is the instant `seconds` later, leaving a leap
/// second when at least one second is added.
#[verifier::external_body]
pub(crate) fn checked_add_seconds(t: Timestamp, seconds: u32) -> (r: Option<Timestamp>)
    ensures
        !t.is_valid() ==> r is None,
        t.is_valid() ==> (r is Some <==> t.secs + seconds <= MAX_TIMESTAMP_SECS),
        t.is_valid() && r is Some ==> r == Some(t.plus_seconds(seconds as int)),
{
    let start = chrono::DateTime::from_timestamp(t.secs, t.nanos)?;
    let end = start.checked_add_signed(chrono::TimeDelta::try_seconds(i64::from(seconds))?)?;
    Some(Timestamp { secs: end.timestamp(), nanos: end.timestamp_subsec_nanos() })
}

/// The same time of day some days earlier, with chrono
/// (`DateTime::checked_sub_days`). chrono's source gives: an instant that is
/// not a valid date-time gives `None`; otherwise the result exists exactly
/// when the earlier day is within the supported range, and it keeps the time
/// within the day.
#[verifier::external_body]
pub(crate) fn checked_sub_days(t: Timestamp, days: u32) -> (r: Option<Timestamp>)
    ensures
        !t.is_valid() ==> r is None,
        t.is_valid() ==> (r is Some <==> t.secs - 86_400 * days >= MIN_TIMESTAMP_SECS),
        t.is_valid() && r is Some ==> r == Some(Timestamp { secs: (t.secs - 86_400 * days) as i64, nanos: t.nanos }),
{
    let start = chrono::DateTime::from_timestamp(t.secs, t.nanos)?;
    let end = start.checked_sub_days(chrono::Days::new(u64::from(days)))?;
    Some(Timestamp { secs: end.timestamp(), nanos: end.timestamp_subsec_nanos() })
}

/// The time from one instant to a later one, with chrono (`DateTime - DateTime`,
/// then `TimeDelta::to_std`), for instants outside leap seconds. chrono's
/// source gives the exact difference, and no result when it is negative.
#[verifier::external_body]
pub(crate) fn span_between(from: Timestamp, to: Timestamp) -> (r: Option<Span>)
    requires
        from.is_ordinary(),
        to.is_ordinary(),
    ensures
        r is Some <==> from.nanos_until(to) >= 0,
        r matches Some(s) ==> s.total_nanos() == from.nanos_until(to) && s.nanos < 1_000_000_000,
{
    let start = chrono::DateTime::from_timestamp(from.secs, from.nanos)?;
    let end = chrono::DateTime::from_timestamp(to.secs, to.nanos)?;
    match (end - start).to_std() {
        Ok(d) => Some(Span { secs: d.as_secs(), nanos: d.subsec_nanos() }),
        Err(_) => None,
    }
}

} // verus!
