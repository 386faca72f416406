//! Calendar dates in the machine's time zone, and the clock. The instants
//! come from the system clock, the dates and the text of an instant from
//! chrono; what is decided on them is decided here.

use vstd::prelude::*;

verus! {

/// A day of the calendar: year, month of the year and day of the month.
#[derive(Clone, Copy, Debug, PartialEq, Eq, Structural)]
pub struct CalendarDate {
    pub year: i32,
    pub month: u32,
    pub day: u32,
}

impl CalendarDate {
    /// The month is one of the twelve and the day lies between 1 and 31.
    pub open spec fn is_valid(self) -> bool {
        1 <= self.month <= 12 && 1 <= self.day <= 31
    }

    /// Whether `self` is an earlier day than `other`.
    pub open spec fn precedes(self, other: CalendarDate) -> bool {
        self.year < other.year || (self.year == other.year && (self.month < other.month || (
        self.month == other.month && self.day < other.day)))
    }
}

/// An instant of UTC: whole seconds since the epoch and the nanoseconds past them.
#[derive(Clone, Copy, Debug, PartialEq, Eq, Structural)]
pub struct Timestamp {
    pub seconds: i64,
    pub nanoseconds: u32,
}

/// Timestamps further than this from the epoch, in seconds, are given no
/// calendar date. The bound is about 253,000 years, which keeps every local
/// date well inside the range of years that chrono can represent.
pub const DATE_WINDOW_SECONDS: i64 = 8_000_000_000_000;

/// Whether a timestamp is near enough to the epoch to be given a date.
pub open spec fn in_date_window(seconds: i64) -> bool {
    -DATE_WINDOW_SECONDS <= seconds <= DATE_WINDOW_SECONDS
}

/// `DateTime::from_timestamp`, then `DateTime::with_timezone` to `Local` and
/// `DateTime::date_naive`: the calendar date, in the machine's time zone, of
/// the instant `seconds` after the epoch. Which date that is depends on the
/// time zone, so the contract says only that chrono has a date for every
/// instant of the window, and that its month and day are in range. At the far
/// ends of chrono's range the zone offset makes `date_naive` panic: the window
/// leaves them out.
#[verifier::external_body]
fn local_date_of_timestamp(seconds: i64) -> (r: Option<CalendarDate>)
    requires
        in_date_window(seconds),
    ensures
        r is Some,
        r matches Some(date) ==> date.is_valid(),
{
    chrono::DateTime::from_timestamp(seconds, 0).map(
        |instant|
            {
                let date = instant.with_timezone(&chrono::Local).date_naive();
                CalendarDate {
                    year: chrono::Datelike::year(&date),
                    month: chrono::Datelike::month(&date),
                    day: chrono::Datelike::day(&date),
                }
            },
    )
}

/// The system clock's reading of an instant, as std holds it.
#[verifier::external_type_specification]
#[verifier::external_body]
pub struct ExSystemTime(std::time::SystemTime);

/// `SystemTime::now`: the present reading of the system clock.
#[verifier::external_body]
fn system_now() -> std::time::SystemTime {
    std::time::SystemTime::now()
}

/// `SystemTime::duration_since` the epoch: the time from the epoch to the
/// reading, `None` for a reading before the epoch.
#[verifier::external_body]
fn since_epoch(reading: &std::time::SystemTime) -> Option<std::time::Duration> {
    reading.duration_since(std::time::UNIX_EPOCH).ok()
}

/// `Duration::as_secs`: the whole seconds of the duration.
#[verifier::external_body]
fn whole_seconds(duration: &std::time::Duration) -> u64 {
    duration.as_secs()
}

/// `Duration::subsec_nanos`: the part of the duration past its whole seconds,
/// in nanoseconds; always less than a second.
#[verifier::external_body]
fn nanoseconds_past(duration: &std::time::Duration) -> (nanoseconds: u32)
    ensures
        nanoseconds < 1_000_000_000,
{
    duration.subsec_nanos()
}

/// What `DateTime::to_rfc3339` writes for the instant of UTC that
/// `DateTime::from_timestamp` makes of the seconds and nanoseconds; `None`
/// where it makes none.
pub uninterp spec fn rfc3339_text(seconds: i64, nanoseconds: u32) -> Option<Seq<char>>;

/// `DateTime::from_timestamp` and `DateTime::to_rfc3339`: the instant written
/// as RFC 3339 text, `None` where chrono has no such instant. chrono has one
/// for every second of the window with less than a second of nanoseconds.
#[verifier::external_body]
fn rfc3339_of(seconds: i64, nanoseconds: u32) -> (text: Option<String>)
    ensures
        match text {
            Some(text) => rfc3339_text(seconds, nanoseconds) == Some(text@),
            None => rfc3339_text(seconds, nanoseconds) is None,
        },
        in_date_window(seconds) && nanoseconds < 1_000_000_000 ==> text is Some,
{
    chrono::DateTime::from_timestamp(seconds, nanoseconds).map(|instant| instant.to_rfc3339())
}

impl Timestamp {
    /// The time from the epoch to a reading of the clock as an instant: none
    /// for a reading before the epoch, and none where the seconds are more
    /// than the instant can hold.
    pub open spec fn of_reading(reading: Option<(u64, u32)>) -> Option<Timestamp> {
        match reading {
            Some((seconds, nanoseconds)) if seconds <= i64::MAX => Some(
                Timestamp { seconds: seconds as i64, nanoseconds },
            ),
            _ => None,
        }
    }

    /// The instant that a reading of the clock stands for.
    pub fn from_reading(reading: Option<(u64, u32)>) -> (r: Option<Timestamp>)
        ensures
            r == Self::of_reading(reading),
    {
        match reading {
            Some((seconds, nanoseconds)) => if seconds <= i64::MAX as u64 {
                Some(Timestamp { seconds: seconds as i64, nanoseconds })
            } else {
                None
            },
            None => None,
        }
    }

    /// The present instant, `None` where the system clock stands before the
    /// epoch or beyond what an instant can hold.
    pub fn now() -> (r: Option<Timestamp>)
        ensures
            r matches Some(instant) ==> instant.seconds >= 0 && instant.nanoseconds < 1_000_000_000,
    {
        let reading = match since_epoch(&system_now()) {
            Some(duration) => Some((whole_seconds(&duration), nanoseconds_past(&duration))),
            None => None,
        };
        Timestamp::from_reading(reading)
    }

    /// The instant as RFC 3339 text in UTC, `None` where there is no such
    /// text. There is one for every instant of the window with less than a
    /// second of nanoseconds.
    pub fn to_rfc3339(&self) -> (text: Option<String>)
        ensures
            match text {
                Some(text) => rfc3339_text(self.seconds, self.nanoseconds) == Some(text@),
                None => rfc3339_text(self.seconds, self.nanoseconds) is None,
            },
            in_date_window(self.seconds) && self.nanoseconds < 1_000_000_000 ==> text is Some,
    {
        rfc3339_of(self.seconds, self.nanoseconds)
    }
}

/// Today's date in the machine's time zone, `None` where the system clock
/// gives no instant or an instant outside the window.
pub fn today() -> (r: Option<CalendarDate>)
    ensures
        r matches Some(date) ==> date.is_valid(),
{
    match Timestamp::now() {
        Some(instant) => local_date(instant.seconds),
        None => None,
    }
}

/// The calendar date, in the machine's time zone, of the instant `seconds`
/// after the epoch; `None` for an instant outside the window.
pub fn local_date(seconds: i64) -> (r: Option<CalendarDate>)
    ensures
        r is Some <==> in_date_window(seconds),
        r matches Some(date) ==> date.is_valid(),
{
    if -DATE_WINDOW_SECONDS <= seconds && seconds <= DATE_WINDOW_SECONDS {
        local_date_of_timestamp(seconds)
    } else {
        None
    }
}

/// Whether a commit was made today: its date is known and is `today`.
pub fn is_commit_from_today(commit_date: Option<CalendarDate>, today: CalendarDate) -> (r: bool)
    ensures
        r == (commit_date == Some(today)),
{
    match commit_date {
        Some(date) => date == today,
        None => false,
    }
}

} // verus!
