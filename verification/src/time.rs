//! Instants in UTC and spans of time, to the nanosecond.
use vstd::prelude::*;

use crate::error::{decimal, KernelError};

verus! {

/// Nanoseconds in a second.
pub const NANOS_PER_SECOND: u64 = 1_000_000_000;

/// Seconds in a day.
pub const SECONDS_PER_DAY: i64 = 86_400;

/// Earliest year [`Instant::from_civil`] accepts.
pub const MIN_YEAR: i32 = 1700;

/// Latest year [`Instant::from_civil`] accepts.
pub const MAX_YEAR: i32 = 2200;

/// A span of time, non-negative, in nanoseconds.
#[derive(Clone, Copy, Debug, PartialEq, Eq, PartialOrd, Ord, Hash, Structural)]
pub struct Duration {
    /// Nanoseconds.
    pub nanos: u64,
}

impl View for Duration {
    type V = int;

    open spec fn view(&self) -> int {
        self.nanos as int
    }
}

impl Duration {
    /// No time.
    pub fn zero() -> (d: Duration)
        ensures
            d@ == 0,
    {
        Duration { nanos: 0 }
    }

    /// Span of `nanos` nanoseconds.
    pub fn from_nanos(nanos: u64) -> (d: Duration)
        ensures
            d@ == nanos,
    {
        Duration { nanos }
    }

    /// Span of `millis` milliseconds.
    pub fn from_millis(millis: u64) -> (d: Duration)
        requires
            millis * 1_000_000 <= u64::MAX,
        ensures
            d@ == millis * 1_000_000,
    {
        Duration { nanos: millis * 1_000_000 }
    }

    /// Span of `seconds` seconds.
    pub fn from_secs(seconds: u64) -> (d: Duration)
        requires
            seconds * NANOS_PER_SECOND <= u64::MAX,
        ensures
            d@ == seconds * NANOS_PER_SECOND,
    {
        Duration { nanos: seconds * NANOS_PER_SECOND }
    }

    /// Nanoseconds.
    pub fn as_nanos(&self) -> (r: u64)
        ensures
            r == self@,
    {
        self.nanos
    }

    /// Whole seconds.
    pub fn as_secs(&self) -> (r: u64)
        ensures
            r == self@ / (NANOS_PER_SECOND as int),
    {
        self.nanos / NANOS_PER_SECOND
    }

    /// Whether no time.
    pub fn is_zero(&self) -> (r: bool)
        ensures
            r == (self@ == 0),
    {
        self.nanos == 0
    }
}

/// An instant on the UTC time scale: nanoseconds since 1970-01-01T00:00:00Z.
#[derive(Clone, Copy, Debug, PartialEq, Eq, PartialOrd, Ord, Hash, Structural)]
pub struct Instant {
    /// Nanoseconds since the epoch.
    pub nanos: i64,
}

impl View for Instant {
    type V = int;

    open spec fn view(&self) -> int {
        self.nanos as int
    }
}

/// A calendar date and time of day in UTC.
#[derive(Clone, Copy, Debug, PartialEq, Eq)]
pub struct Civil {
    pub year: i32,
    pub month: u8,
    pub day: u8,
    pub hour: u8,
    pub minute: u8,
    pub second: u8,
    pub nanos: u32,
}

impl Civil {
    /// Midnight at the start of a date.
    pub fn date(year: i32, month: u8, day: u8) -> (c: Civil)
        ensures
            c == (Civil { year, month, day, hour: 0, minute: 0, second: 0, nanos: 0 }),
    {
        Civil { year, month, day, hour: 0, minute: 0, second: 0, nanos: 0 }
    }
}

/// Gregorian leap year.
pub open spec fn is_leap(year: int) -> bool {
    (year % 4 == 0 && year % 100 != 0) || year % 400 == 0
}

/// Days in a year.
pub open spec fn days_in_year(year: int) -> int {
    if is_leap(year) {
        366
    } else {
        365
    }
}

/// Days in a month, `1..=12`.
pub open spec fn days_in_month(year: int, month: int) -> int {
    if month == 2 {
        if is_leap(year) {
            29
        } else {
            28
        }
    } else if month == 4 || month == 6 || month == 9 || month == 11 {
        30
    } else {
        31
    }
}

/// Days from 1970-01-01 to the first of January of `year`; negative before.
pub open spec fn days_before_year(year: int) -> int
    decreases (if year >= 1970 {
        year - 1970
    } else {
        1970 - year
    }),
{
    if year == 1970 {
        0
    } else if year > 1970 {
        days_before_year(year - 1) + days_in_year(year - 1)
    } else {
        days_before_year(year + 1) - days_in_year(year)
    }
}

/// Days from the first of January to the first of `month` in `year`.
pub open spec fn days_before_month(year: int, month: int) -> int
    decreases month,
{
    if month <= 1 {
        0
    } else {
        days_before_month(year, month - 1) + days_in_month(year, month - 1)
    }
}

/// Whether the fields name a real time of day on a real date in range.
pub open spec fn civil_valid(c: Civil) -> bool {
    &&& MIN_YEAR <= c.year <= MAX_YEAR
    &&& calendar_valid(c)
}

/// Whether the fields name a real time of day on a real date, whatever the
/// year.
pub open spec fn calendar_valid(c: Civil) -> bool {
    &&& 1 <= c.month <= 12
    &&& 1 <= c.day <= days_in_month(c.year as int, c.month as int)
    &&& c.hour < 24
    &&& c.minute < 60
    &&& c.second < 60
    &&& c.nanos < NANOS_PER_SECOND
}

/// Nanoseconds since the epoch of a civil time.
pub open spec fn civil_nanos(c: Civil) -> int {
    let days = days_before_year(c.year as int) + days_before_month(c.year as int, c.month as int)
        + c.day - 1;
    let seconds = days * SECONDS_PER_DAY + c.hour * 3600 + c.minute * 60 + c.second;
    seconds * NANOS_PER_SECOND + c.nanos
}

proof fn lemma_days_before_year_bounds(year: int)
    ensures
        year >= 1970 ==> 365 * (year - 1970) <= days_before_year(year) <= 366 * (year - 1970),
        year < 1970 ==> 366 * (year - 1970) <= days_before_year(year) <= 365 * (year - 1970),
    decreases (if year >= 1970 {
        year - 1970
    } else {
        1970 - year
    }),
{
    if year > 1970 {
        lemma_days_before_year_bounds(year - 1);
    } else if year < 1970 {
        lemma_days_before_year_bounds(year + 1);
    }
}

/// Each year adds its own length to the days before it.
proof fn lemma_days_before_year_step(year: int)
    ensures
        days_before_year(year + 1) == days_before_year(year) + days_in_year(year),
{
    if year >= 1970 {
    } else {
        assert(days_before_year(year) == days_before_year(year + 1) - days_in_year(year));
    }
}

/// Days before a later year cover the earlier year whole.
proof fn lemma_days_before_year_grows(a: int, b: int)
    requires
        a < b,
    ensures
        days_before_year(a) + days_in_year(a) <= days_before_year(b),
    decreases b - a,
{
    lemma_days_before_year_step(a);
    if a + 1 < b {
        lemma_days_before_year_grows(a + 1, b);
        lemma_days_before_year_step(a + 1);
    }
}

/// Days before a later month cover the earlier month whole.
proof fn lemma_days_before_month_grows(year: int, a: int, b: int)
    requires
        1 <= a < b,
    ensures
        days_before_month(year, a) + days_in_month(year, a) <= days_before_month(year, b),
    decreases b - a,
{
    if a + 1 < b {
        lemma_days_before_month_grows(year, a + 1, b);
    }
}

/// Day number of a civil time since the epoch.
pub open spec fn civil_days(c: Civil) -> int {
    days_before_year(c.year as int) + days_before_month(c.year as int, c.month as int) + c.day - 1
}

/// Nanoseconds since midnight of a civil time.
pub open spec fn civil_time_of_day(c: Civil) -> int {
    (c.hour * 3600 + c.minute * 60 + c.second) * NANOS_PER_SECOND + c.nanos
}

/// A day and its time of day place a valid civil time within its year.
proof fn lemma_civil_parts(c: Civil)
    requires
        calendar_valid(c),
    ensures
        civil_nanos(c) == civil_days(c) * 86_400_000_000_000 + civil_time_of_day(c),
        0 <= civil_time_of_day(c) < 86_400_000_000_000,
        days_before_year(c.year as int) <= civil_days(c) < days_before_year(c.year as int)
            + days_in_year(c.year as int),
        days_before_month(c.year as int, c.month as int) <= civil_days(c) - days_before_year(
            c.year as int,
        ) < days_before_month(c.year as int, c.month as int) + days_in_month(
            c.year as int,
            c.month as int,
        ),
{
    lemma_months_fill_year(c.year as int);
    lemma_days_before_month_grows(c.year as int, c.month as int, 13);
    lemma_days_before_month_bounds(c.year as int, c.month as int);
}

/// A calendar reading names one instant, and an instant has one calendar
/// reading: two valid civil times with the same nanoseconds since the epoch
/// are the same.
pub proof fn law_calendar_reading_unique(a: Civil, b: Civil)
    requires
        calendar_valid(a),
        calendar_valid(b),
        civil_nanos(a) == civil_nanos(b),
    ensures
        a == b,
{
    lemma_civil_parts(a);
    lemma_civil_parts(b);
    let da = civil_days(a);
    let db = civil_days(b);
    assert(da == db) by (nonlinear_arith)
        requires
            da * 86_400_000_000_000 + civil_time_of_day(a) == db * 86_400_000_000_000
                + civil_time_of_day(b),
            0 <= civil_time_of_day(a) < 86_400_000_000_000,
            0 <= civil_time_of_day(b) < 86_400_000_000_000,
    ;
    if a.year < b.year {
        lemma_days_before_year_grows(a.year as int, b.year as int);
    } else if b.year < a.year {
        lemma_days_before_year_grows(b.year as int, a.year as int);
    }
    assert(a.year == b.year);
    if a.month < b.month {
        lemma_days_before_month_grows(a.year as int, a.month as int, b.month as int);
    } else if b.month < a.month {
        lemma_days_before_month_grows(a.year as int, b.month as int, a.month as int);
    }
    assert(a.month == b.month);
    assert(a.day == b.day);
    assert(civil_time_of_day(a) == civil_time_of_day(b));
}

/// The twelve months fill the year.
proof fn lemma_months_fill_year(year: int)
    ensures
        days_before_month(year, 13) == days_in_year(year),
{
    reveal_with_fuel(days_before_month, 13);
}

proof fn lemma_days_before_month_bounds(year: int, month: int)
    requires
        1 <= month <= 12,
    ensures
        0 <= days_before_month(year, month) <= 31 * (month - 1),
    decreases month,
{
    if month > 1 {
        lemma_days_before_month_bounds(year, month - 1);
    }
}

/// Number of days in a month of a year, `month` in `1..=12`.
fn month_length(year: i32, month: u8) -> (r: u8)
    requires
        1 <= month <= 12,
        year >= 0,
    ensures
        r == days_in_month(year as int, month as int),
{
    if month == 2 {
        if leap(year) {
            29
        } else {
            28
        }
    } else if month == 4 || month == 6 || month == 9 || month == 11 {
        30
    } else {
        31
    }
}

fn leap(year: i32) -> (r: bool)
    requires
        year >= 0,
    ensures
        r == is_leap(year as int),
{
    let y = year as u32;
    (y % 4 == 0 && y % 100 != 0) || y % 400 == 0
}

/// A non-negative integer in decimal, zero-padded to `width` digits, as
/// `format!` writes it with `{:0width$}`.
pub open spec fn padded(n: int, width: nat) -> Seq<char> {
    let d = decimal(n);
    if d.len() >= width {
        d
    } else {
        Seq::new((width - d.len()) as nat, |i: int| '0') + d
    }
}

/// A civil time as `YYYY-MM-DDThh:mm:ss.sss UTC`, to the millisecond.
pub open spec fn utc_words(c: Civil) -> Seq<char> {
    padded(c.year as int, 4) + "-"@ + padded(c.month as int, 2) + "-"@ + padded(c.day as int, 2)
        + "T"@ + padded(c.hour as int, 2) + ":"@ + padded(c.minute as int, 2) + ":"@ + padded(
        c.second as int,
        2,
    ) + "."@ + padded((c.nanos / 1_000_000) as int, 3) + " UTC"@
}

/// Date and time of day as text, to the millisecond: `format!` writes each
/// number zero-padded to its width (`{:04}`, `{:02}`, `{:03}`) and the
/// separators as they are.
#[verifier::external_body]
fn utc_text(year: i32, month: u8, day: u8, hour: u8, minute: u8, second: u8, millis: u32) -> (r:
    String)
    ensures
        year >= 0 ==> r@ == padded(year as int, 4) + "-"@ + padded(month as int, 2) + "-"@
            + padded(day as int, 2) + "T"@ + padded(hour as int, 2) + ":"@ + padded(minute as int, 2)
            + ":"@ + padded(second as int, 2) + "."@ + padded(millis as int, 3) + " UTC"@,
{
    format!("{year:04}-{month:02}-{day:02}T{hour:02}:{minute:02}:{second:02}.{millis:03} UTC")
}

fn year_length(year: i32) -> (r: i64)
    requires
        year >= 0,
    ensures
        r == days_in_year(year as int),
{
    if leap(year) {
        366
    } else {
        365
    }
}

impl Instant {
    /// The epoch.
    pub fn unix_epoch() -> (t: Instant)
        ensures
            t@ == 0,
    {
        Instant { nanos: 0 }
    }

    /// Instant `nanos` nanoseconds after the epoch.
    pub fn from_unix_nanos(nanos: i64) -> (t: Instant)
        ensures
            t@ == nanos,
    {
        Instant { nanos }
    }

    /// Instant `seconds` seconds after the epoch.
    pub fn from_unix_seconds(seconds: i64) -> (t: Instant)
        requires
            i64::MIN <= seconds * NANOS_PER_SECOND <= i64::MAX,
        ensures
            t@ == seconds * NANOS_PER_SECOND,
    {
        Instant { nanos: seconds * (NANOS_PER_SECOND as i64) }
    }

    /// Nanoseconds since the epoch.
    pub fn unix_nanos(&self) -> (r: i64)
        ensures
            r == self@,
    {
        self.nanos
    }

    /// Time elapsed since `earlier`; `None` if `earlier` is later.
    pub fn checked_duration_since(&self, earlier: Instant) -> (r: Option<Duration>)
        ensures
            match r {
                Some(d) => earlier@ <= self@ && d@ == self@ - earlier@,
                None => self@ < earlier@,
            },
    {
        if self.nanos < earlier.nanos {
            None
        } else {
            let difference = (self.nanos as i128) - (earlier.nanos as i128);
            Some(Duration::from_nanos(difference as u64))
        }
    }

    /// Time elapsed since `earlier`.
    ///
    /// # Errors
    ///
    /// [`KernelError::TimeReversed`] if `earlier` is later, by how much.
    pub fn duration_since(&self, earlier: Instant) -> (r: Result<Duration, KernelError>)
        ensures
            match r {
                Ok(d) => earlier@ <= self@ && d@ == self@ - earlier@,
                Err(e) => self@ < earlier@ && match e {
                    KernelError::TimeReversed { by } => by@ == earlier@ - self@,
                    _ => false,
                },
            },
    {
        match self.checked_duration_since(earlier) {
            Some(d) => Ok(d),
            None => {
                let by = (earlier.nanos as i128) - (self.nanos as i128);
                Err(KernelError::TimeReversed { by: Duration::from_nanos(by as u64) })
            },
        }
    }

    /// `span` later, or the latest representable instant.
    pub fn saturating_add(&self, span: Duration) -> (t: Instant)
        ensures
            t@ == if self@ + span@ <= i64::MAX {
                self@ + span@
            } else {
                i64::MAX as int
            },
    {
        let sum = (self.nanos as i128) + (span.as_nanos() as i128);
        if sum > i64::MAX as i128 {
            Instant { nanos: i64::MAX }
        } else {
            Instant { nanos: sum as i64 }
        }
    }

    /// `span` later, if representable.
    pub fn checked_add(&self, span: Duration) -> (r: Option<Instant>)
        ensures
            match r {
                Some(t) => t@ == self@ + span@,
                None => self@ + span@ > i64::MAX,
            },
    {
        let sum = (self.nanos as i128) + (span.as_nanos() as i128);
        if sum > i64::MAX as i128 {
            None
        } else {
            Some(Instant { nanos: sum as i64 })
        }
    }

    /// `span` earlier, if representable.
    pub fn checked_sub(&self, span: Duration) -> (r: Option<Instant>)
        ensures
            match r {
                Some(t) => t@ == self@ - span@,
                None => self@ - span@ < i64::MIN,
            },
    {
        let difference = (self.nanos as i128) - (span.as_nanos() as i128);
        if difference < i64::MIN as i128 {
            None
        } else {
            Some(Instant { nanos: difference as i64 })
        }
    }

    /// Whether strictly before `other`.
    pub fn is_before(&self, other: Instant) -> (r: bool)
        ensures
            r == (self@ < other@),
    {
        self.nanos < other.nanos
    }

    /// Calendar date and time of day of this instant.
    pub fn to_civil(&self) -> (c: Civil)
        ensures
            calendar_valid(c),
            civil_nanos(c) == self@,
            1600 <= c.year <= 2300,
    {
        let day_nanos: i64 = 86_400_000_000_000;
        let mut days: i64 = self.nanos / day_nanos;
        let mut rem: i64 = self.nanos % day_nanos;
        if rem < 0 {
            rem = rem + day_nanos;
            days = days - 1;
        }
        assert(self.nanos == days * 86_400_000_000_000 + rem);
        assert(-106_752 <= days <= 106_751);
        let mut year: i32 = 1970;
        let mut start: i64 = 0;
        if days >= 0 {
            while days >= start + year_length(year)
                invariant
                    0 <= days <= 106_751,
                    1970 <= year <= 2300,
                    start == days_before_year(year as int),
                    start <= days,
                    365 * (year - 1970) <= start,
                decreases days - start,
            {
                proof {
                    lemma_days_before_year_step(year as int);
                }
                start = start + year_length(year);
                year = year + 1;
            }
        } else {
            while days < start
                invariant
                    -106_752 <= days < 0,
                    1677 <= year <= 1970,
                    start == days_before_year(year as int),
                    days < start + days_in_year(year as int) || year == 1970,
                    366 * (year - 1970) <= start <= 365 * (year - 1970),
                decreases year - 1677,
            {
                proof {
                    lemma_days_before_year_step(year - 1);
                    lemma_days_before_year_bounds(year - 1);
                }
                year = year - 1;
                start = start - year_length(year);
            }
            proof {
                lemma_days_before_year_step(year as int);
            }
        }
        let d: i64 = days - start;
        proof {
            lemma_days_before_year_step(year as int);
            lemma_months_fill_year(year as int);
        }
        assert(0 <= d < days_in_year(year as int));
        let mut month: u8 = 1;
        let mut before: i64 = 0;
        while d >= before + month_length(year, month) as i64
            invariant
                1 <= month <= 12,
                1600 <= year <= 2300,
                0 <= before <= d < days_in_year(year as int),
                before == days_before_month(year as int, month as int),
                days_before_month(year as int, 13) == days_in_year(year as int),
            decreases 12 - month,
        {
            before = before + month_length(year, month) as i64;
            if month == 12 {
                assert(false);
            }
            month = month + 1;
        }
        let day = (d - before + 1) as u8;
        let hour = (rem / 3_600_000_000_000) as u8;
        let within_hour = rem % 3_600_000_000_000;
        let minute = (within_hour / 60_000_000_000) as u8;
        let within_minute = within_hour % 60_000_000_000;
        let second = (within_minute / 1_000_000_000) as u8;
        let nanos = (within_minute % 1_000_000_000) as u32;
        Civil { year, month, day, hour, minute, second, nanos }
    }

    /// The instant as `YYYY-MM-DDThh:mm:ss.sss UTC`, to the millisecond.
    pub fn to_string(&self) -> (r: String)
        ensures
            forall|c: Civil| calendar_valid(c) && civil_nanos(c) == self@ ==> r@ == utc_words(c),
    {
        let c = self.to_civil();
        let r = utc_text(c.year, c.month, c.day, c.hour, c.minute, c.second, c.nanos / 1_000_000);
        proof {
            assert forall|d: Civil| calendar_valid(d) && civil_nanos(d) == self@ implies r@
                == utc_words(d) by {
                law_calendar_reading_unique(c, d);
            }
        }
        r
    }

    /// Instant of a civil date and time.
    ///
    /// # Errors
    ///
    /// [`KernelError::OutOfRange`] for a field outside its calendar range (the
    /// thirtieth of February, hour 24) or a year outside
    /// [`MIN_YEAR`]`..=`[`MAX_YEAR`].
    pub fn from_civil(c: Civil) -> (r: Result<Instant, KernelError>)
        ensures
            match r {
                Ok(t) => civil_valid(c) && t@ == civil_nanos(c),
                Err(e) => !civil_valid(c) && e is OutOfRange,
            },
    {
        if c.year < MIN_YEAR || c.year > MAX_YEAR {
            return Err(KernelError::OutOfRange {
                parameter: "year",
                value: c.year as i64,
                min: MIN_YEAR as i64,
                max: MAX_YEAR as i64,
            });
        }
        if c.month < 1 || c.month > 12 {
            return Err(
                KernelError::OutOfRange { parameter: "month", value: c.month as i64, min: 1, max: 12 },
            );
        }
        let length = month_length(c.year, c.month);
        if c.day < 1 || c.day > length {
            return Err(
                KernelError::OutOfRange {
                    parameter: "day",
                    value: c.day as i64,
                    min: 1,
                    max: length as i64,
                },
            );
        }
        if c.hour >= 24 {
            return Err(
                KernelError::OutOfRange { parameter: "hour", value: c.hour as i64, min: 0, max: 23 },
            );
        }
        if c.minute >= 60 {
            return Err(
                KernelError::OutOfRange {
                    parameter: "minute",
                    value: c.minute as i64,
                    min: 0,
                    max: 59,
                },
            );
        }
        if c.second >= 60 {
            return Err(
                KernelError::OutOfRange {
                    parameter: "second",
                    value: c.second as i64,
                    min: 0,
                    max: 59,
                },
            );
        }
        if c.nanos >= 1_000_000_000 {
            return Err(
                KernelError::OutOfRange {
                    parameter: "nanoseconds",
                    value: c.nanos as i64,
                    min: 0,
                    max: 999_999_999,
                },
            );
        }
        // Days to the start of the year, counted a year at a time from 1970.
        let mut days: i64 = 0;
        let mut year: i32 = 1970;
        if c.year >= 1970 {
            while year < c.year
                invariant
                    1970 <= year <= c.year <= MAX_YEAR,
                    days == days_before_year(year as int),
                    0 <= days <= 366 * (year - 1970),
                decreases c.year - year,
            {
                days = days + year_length(year);
                year = year + 1;
            }
        } else {
            while year > c.year
                invariant
                    MIN_YEAR <= c.year <= year <= 1970,
                    days == days_before_year(year as int),
                    -366 * (1970 - year) <= days <= 0,
                decreases year - c.year,
            {
                year = year - 1;
                days = days - year_length(year);
            }
        }
        let mut month: u8 = 1;
        while month < c.month
            invariant
                1 <= month <= c.month <= 12,
                MIN_YEAR <= c.year <= MAX_YEAR,
                days == days_before_year(c.year as int) + days_before_month(
                    c.year as int,
                    month as int,
                ),
                -366 * 300 <= days <= 366 * 300 + 31 * (month - 1),
            decreases c.month - month,
        {
            days = days + month_length(c.year, month) as i64;
            month = month + 1;
        }
        proof {
            lemma_days_before_year_bounds(c.year as int);
            lemma_days_before_month_bounds(c.year as int, c.month as int);
        }
        days = days + c.day as i64 - 1;
        assert(-98_820 <= days <= 84_751);
        let seconds = days * SECONDS_PER_DAY + (c.hour as i64) * 3600 + (c.minute as i64) * 60
            + c.second as i64;
        proof {
            assert(seconds * NANOS_PER_SECOND <= i64::MAX - 1_000_000_000) by (nonlinear_arith)
                requires
                    seconds <= 84_752 * 86_400,
            ;
            assert(seconds * NANOS_PER_SECOND >= i64::MIN) by (nonlinear_arith)
                requires
                    seconds >= -98_820 * 86_400,
            ;
        }
        let nanos = seconds * (NANOS_PER_SECOND as i64) + c.nanos as i64;
        Ok(Instant { nanos })
    }
}

} // verus!
