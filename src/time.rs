use vstd::prelude::*;

verus! {

/// The earliest year a calendar date can hold.
pub const MIN_YEAR: i32 = -262143;

/// The latest year a calendar date can hold.
pub const MAX_YEAR: i32 = 262142;

/// A leap year of the proleptic Gregorian calendar.
pub open spec fn is_leap_year(y: int) -> bool {
    y % 4 == 0 && (y % 100 != 0 || y % 400 == 0)
}

/// The number of days in month `m` of year `y`.
pub open spec fn days_in_month(y: int, m: int) -> int {
    if m == 2 {
        if is_leap_year(y) {
            29
        } else {
            28
        }
    } else if m == 4 || m == 6 || m == 9 || m == 11 {
        30
    } else {
        31
    }
}

/// A day that exists in the calendar, within the supported years.
pub open spec fn valid_date(y: int, m: int, d: int) -> bool {
    &&& MIN_YEAR <= y <= MAX_YEAR
    &&& 1 <= m <= 12
    &&& 1 <= d <= days_in_month(y, m)
}

/// A time of day; a leap second is a nanosecond count of a second or more
/// in the last second of a minute.
pub open spec fn valid_time(h: int, mi: int, s: int, ns: int) -> bool {
    &&& 0 <= h < 24
    &&& 0 <= mi < 60
    &&& 0 <= s < 60
    &&& 0 <= ns < 2_000_000_000
    &&& (ns >= 1_000_000_000 ==> s == 59)
}

/// A day of the calendar, as numbers.
pub struct DateModel {
    pub year: int,
    pub month: int,
    pub day: int,
}

/// An instant in UTC, as numbers.
pub struct TimestampModel {
    pub date: DateModel,
    pub hour: int,
    pub minute: int,
    pub second: int,
    pub nanosecond: int,
}

/// The RFC 3339 text of an instant in UTC.
pub uninterp spec fn rfc3339_of(
    year: int,
    month: int,
    day: int,
    hour: int,
    minute: int,
    second: int,
    nanosecond: int,
) -> Seq<char>;

/// A day of the proleptic Gregorian calendar, without a time.
#[derive(Clone, Copy, Debug, PartialEq, Eq)]
pub struct CalendarDate {
    pub(crate) year: i32,
    pub(crate) month: u32,
    pub(crate) day: u32,
}

impl View for CalendarDate {
    type V = DateModel;

    closed spec fn view(&self) -> DateModel {
        DateModel { year: self.year as int, month: self.month as int, day: self.day as int }
    }
}

impl CalendarDate {
    #[verifier::type_invariant]
    spec fn well_formed(self) -> bool {
        valid_date(self.year as int, self.month as int, self.day as int)
    }

    /// The date `year`-`month`-`day`, if that day exists.
    pub fn new(year: i32, month: u32, day: u32) -> (r: Option<CalendarDate>)
        ensures
            r is Some <==> valid_date(year as int, month as int, day as int),
            r matches Some(d) ==> d@ == (DateModel {
                year: year as int,
                month: month as int,
                day: day as int,
            }),
    {
        if year < MIN_YEAR || year > MAX_YEAR || month < 1 || month > 12 || day < 1 {
            return None;
        }
        let leap = year % 4 == 0 && (year % 100 != 0 || year % 400 == 0);
        assert(leap == is_leap_year(year as int)) by (nonlinear_arith)
            requires
                leap == (year % 4 == 0 && (year % 100 != 0 || year % 400 == 0)),
        {
        }
        let last: u32 = if month == 2 {
            if leap {
                29
            } else {
                28
            }
        } else if month == 4 || month == 6 || month == 9 || month == 11 {
            30
        } else {
            31
        };
        if day > last {
            None
        } else {
            Some(CalendarDate { year, month, day })
        }
    }

    pub fn year(&self) -> (r: i32)
        ensures
            r == self@.year,
    {
        self.year
    }

    pub fn month(&self) -> (r: u32)
        ensures
            r == self@.month,
    {
        self.month
    }

    pub fn day(&self) -> (r: u32)
        ensures
            r == self@.day,
    {
        self.day
    }
}

/// An instant in UTC, to the nanosecond.
#[derive(Clone, Copy, Debug, PartialEq, Eq)]
pub struct Timestamp {
    pub(crate) date: CalendarDate,
    pub(crate) hour: u32,
    pub(crate) minute: u32,
    pub(crate) second: u32,
    pub(crate) nanosecond: u32,
}

impl View for Timestamp {
    type V = TimestampModel;

    closed spec fn view(&self) -> TimestampModel {
        TimestampModel {
            date: self.date@,
            hour: self.hour as int,
            minute: self.minute as int,
            second: self.second as int,
            nanosecond: self.nanosecond as int,
        }
    }
}

/// The RFC 3339 text of `t`.
pub open spec fn rfc3339_text(t: TimestampModel) -> Seq<char> {
    rfc3339_of(t.date.year, t.date.month, t.date.day, t.hour, t.minute, t.second, t.nanosecond)
}

/// Midnight UTC at the start of `d`.
pub open spec fn midnight_of(d: DateModel) -> TimestampModel {
    TimestampModel { date: d, hour: 0, minute: 0, second: 0, nanosecond: 0 }
}

impl Timestamp {
    #[verifier::type_invariant]
    spec fn well_formed(self) -> bool {
        valid_time(self.hour as int, self.minute as int, self.second as int, self.nanosecond as int)
    }

    /// The instant at the given time of day on `date`, if that time exists.
    pub fn new(date: CalendarDate, hour: u32, minute: u32, second: u32, nanosecond: u32) -> (r:
        Option<Timestamp>)
        ensures
            r is Some <==> valid_time(hour as int, minute as int, second as int, nanosecond as int),
            r matches Some(t) ==> t@ == (TimestampModel {
                date: date@,
                hour: hour as int,
                minute: minute as int,
                second: second as int,
                nanosecond: nanosecond as int,
            }),
    {
        if hour >= 24 || minute >= 60 || second >= 60 || nanosecond >= 2_000_000_000 || (
        nanosecond >= 1_000_000_000 && second != 59) {
            None
        } else {
            Some(Timestamp { date, hour, minute, second, nanosecond })
        }
    }

    /// Midnight UTC at the start of `date`.
    pub fn at_midnight(date: CalendarDate) -> (r: Timestamp)
        ensures
            r@ == midnight_of(date@),
    {
        Timestamp { date, hour: 0, minute: 0, second: 0, nanosecond: 0 }
    }

    pub fn date(&self) -> (r: CalendarDate)
        ensures
            r@ == self@.date,
    {
        self.date
    }

    pub fn hour(&self) -> (r: u32)
        ensures
            r == self@.hour,
    {
        self.hour
    }

    pub fn minute(&self) -> (r: u32)
        ensures
            r == self@.minute,
    {
        self.minute
    }

    pub fn second(&self) -> (r: u32)
        ensures
            r == self@.second,
    {
        self.second
    }

    pub fn nanosecond(&self) -> (r: u32)
        ensures
            r == self@.nanosecond,
    {
        self.nanosecond
    }

    /// The RFC 3339 text of this instant, with a `+00:00` offset.
    pub fn to_rfc3339(&self) -> (r: String)
        ensures
            r@ == rfc3339_text(self@),
    {
        proof {
            use_type_invariant(self);
            use_type_invariant(&self.date);
        }
        chrono_rfc3339(self)
    }
}

/// Relies on chrono: `NaiveDate::from_ymd_opt` and `NaiveDate::and_hms_nano_opt`
/// accept every valid date and time of day, and `DateTime::<Utc>::to_rfc3339`
/// renders the instant; the text depends on the numbers alone.
#[verifier::external_body]
fn chrono_rfc3339(t: &Timestamp) -> (r: String)
    requires
        valid_date(t@.date.year, t@.date.month, t@.date.day),
        valid_time(t@.hour, t@.minute, t@.second, t@.nanosecond),
    ensures
        r@ == rfc3339_of(
            t@.date.year,
            t@.date.month,
            t@.date.day,
            t@.hour,
            t@.minute,
            t@.second,
            t@.nanosecond,
        ),
{
    let date = chrono::NaiveDate::from_ymd_opt(t.date.year, t.date.month, t.date.day).unwrap();
    date.and_hms_nano_opt(t.hour, t.minute, t.second, t.nanosecond).unwrap().and_utc().to_rfc3339()
}

} // verus!
