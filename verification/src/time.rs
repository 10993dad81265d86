use vstd::prelude::*;

verus! {

/// Nanoseconds in one minute.
pub const NANOS_PER_MINUTE: i64 = 60_000_000_000;

/// Nanoseconds in one civil day.
pub const NANOS_PER_DAY: i64 = 86_400_000_000_000;

/// The reference epoch of the sun model, the solar noon of the summer solstice
/// taken as 2021-06-22T12:00:00Z, in nanoseconds since the Unix epoch.
pub const REFERENCE_EPOCH_NANOS: i64 = 1_624_363_200_000_000_000;

/// Quotient of `a` by a positive `b`, rounded toward zero.
pub open spec fn truncated_quotient(a: int, b: int) -> int {
    if a >= 0 {
        a / b
    } else {
        -((-a) / b)
    }
}

/// Whole minutes that lie between `epoch` and `time`, both in nanoseconds:
/// negative before the epoch, and rounded toward zero on either side of it.
pub open spec fn minutes_between(epoch: int, time: int) -> int {
    truncated_quotient(time - epoch, NANOS_PER_MINUTE as int)
}

/// The instant, in nanoseconds since the Unix epoch, that the proleptic
/// Gregorian calendar date and the time of day denote in UTC; `None` where no
/// such date or time of day exists, or where the instant is not a 64-bit count
/// of nanoseconds.
pub uninterp spec fn utc_civil_nanos(
    year: int,
    month: int,
    day: int,
    hour: int,
    minute: int,
    second: int,
) -> Option<i64>;

/// An instant on the UTC time line, counted in nanoseconds since the Unix epoch.
#[derive(Clone, Copy, Debug, PartialEq, Eq, Structural)]
pub struct Timestamp {
    pub nanos: i64,
}

impl View for Timestamp {
    type V = int;

    open spec fn view(&self) -> int {
        self.nanos as int
    }
}

/// Calls chrono's `TimeZone::with_ymd_and_hms` on `Utc` and reads the instant
/// that comes back with `DateTime::timestamp_nanos_opt`. Not proved: that the
/// outcome depends on the six arguments alone, so that `utc_civil_nanos` can
/// name it. Neither call panics; both answer what they cannot represent with
/// `None`.
#[verifier::external_body]
fn civil_to_nanos(year: i32, month: u32, day: u32, hour: u32, minute: u32, second: u32) -> (nanos:
    Option<i64>)
    ensures
        nanos == utc_civil_nanos(
            year as int,
            month as int,
            day as int,
            hour as int,
            minute as int,
            second as int,
        ),
{
    match chrono::TimeZone::with_ymd_and_hms(&chrono::Utc, year, month, day, hour, minute, second) {
        chrono::MappedLocalTime::Single(instant) => instant.timestamp_nanos_opt(),
        chrono::MappedLocalTime::Ambiguous(_, _) => None,
        chrono::MappedLocalTime::None => None,
    }
}

impl Timestamp {
    /// The instant that lies `nanos` nanoseconds after the Unix epoch.
    pub fn from_nanos(nanos: i64) -> (t: Timestamp)
        ensures
            t@ == nanos,
    {
        Timestamp { nanos }
    }

    /// The reference epoch of the sun model.
    pub fn reference_epoch() -> (t: Timestamp)
        ensures
            t@ == REFERENCE_EPOCH_NANOS,
    {
        Timestamp { nanos: REFERENCE_EPOCH_NANOS }
    }

    /// The instant that a calendar date and a time of day denote in UTC.
    pub fn from_utc(year: i32, month: u32, day: u32, hour: u32, minute: u32, second: u32) -> (t:
        Option<Timestamp>)
        ensures
            t == Timestamp::at_nanos(
                utc_civil_nanos(
                    year as int,
                    month as int,
                    day as int,
                    hour as int,
                    minute as int,
                    second as int,
                ),
            ),
    {
        Timestamp::at_nanos(civil_to_nanos(year, month, day, hour, minute, second))
    }

    /// The instant at a count of nanoseconds, where there is one.
    #[verifier::when_used_as_spec(spec_at_nanos)]
    pub fn at_nanos(nanos: Option<i64>) -> (t: Option<Timestamp>)
        ensures
            t == Timestamp::spec_at_nanos(nanos),
    {
        match nanos {
            Some(n) => Some(Timestamp { nanos: n }),
            None => None,
        }
    }

    pub open spec fn spec_at_nanos(nanos: Option<i64>) -> Option<Timestamp> {
        match nanos {
            Some(n) => Some(Timestamp { nanos: n }),
            None => None,
        }
    }

    /// The instant `nanos` nanoseconds later (earlier where `nanos` is
    /// negative), where it can be represented.
    pub fn checked_add(&self, nanos: i64) -> (t: Option<Timestamp>)
        ensures
            match t {
                Some(later) => later@ == self@ + nanos,
                None => self@ + nanos < i64::MIN || self@ + nanos > i64::MAX,
            },
    {
        match self.nanos.checked_add(nanos) {
            Some(n) => Some(Timestamp { nanos: n }),
            None => None,
        }
    }

    /// Whole minutes from `epoch` to this instant, rounded toward zero.
    pub fn minutes_since(&self, epoch: Timestamp) -> (minutes: i64)
        ensures
            minutes == minutes_between(epoch@, self@),
    {
        let elapsed: i128 = self.nanos as i128 - epoch.nanos as i128;
        let whole: i128 = elapsed / (NANOS_PER_MINUTE as i128);
        whole as i64
    }

    /// The time index of this instant: whole minutes since the reference
    /// epoch, rounded toward zero.
    pub fn time_index(&self) -> (minutes: i64)
        ensures
            minutes == minutes_between(REFERENCE_EPOCH_NANOS as int, self@),
    {
        self.minutes_since(Timestamp::reference_epoch())
    }
}

} // verus!
