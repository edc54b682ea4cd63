//! Dates, times of day and zone-aware timestamps.
//!
//! The API writes dates as `YYYY-MM-DD` and date-times as `YYYY-MM-DD HH:MM:SS`,
//! local to a time zone that the response names. Reading the text and looking up
//! the zone's offsets is chrono's and chrono_tz's work; which pattern applies,
//! and how the pieces combine into a timestamp, is this module's.
use crate::error::{parsing_error, Error, ErrorView};
use chrono::{Datelike, Offset, TimeZone, Timelike};
use vstd::prelude::*;

verus! {

/// Pattern of a date with a time of day.
pub const DATETIME_FORMAT: &'static str = "%Y-%m-%d %H:%M:%S";

/// Pattern of a date on its own.
pub const DATE_FORMAT: &'static str = "%Y-%m-%d";

/// Pattern of a time of day with hours and minutes.
pub const TIME_FORMAT: &'static str = "%H:%M";

/// A day of the proleptic Gregorian calendar.
#[derive(Clone, Copy, Debug, PartialEq, Eq, Structural)]
pub struct CalendarDate {
    pub year: i32,
    /// 1 to 12.
    pub month: u32,
    /// 1 to the length of the month.
    pub day: u32,
}

/// A time of day. A leap second is second 59 with a nanosecond count of one
/// second or more.
#[derive(Clone, Copy, Debug, PartialEq, Eq, Structural)]
pub struct TimeOfDay {
    pub hour: u32,
    pub minute: u32,
    pub second: u32,
    pub nanosecond: u32,
}

/// A date and a time of day on a wall clock, in no particular zone.
#[derive(Clone, Copy, Debug, PartialEq, Eq, Structural)]
pub struct LocalDateTime {
    pub date: CalendarDate,
    pub time: TimeOfDay,
}

/// An instant, with the offset from UTC of the zone in which it was read.
///
/// `seconds` counts the seconds since 1970-01-01 00:00:00 UTC; the wall clock of
/// the zone showed `seconds + offset` seconds since that date's midnight.
#[derive(Clone, Copy, Debug, PartialEq, Eq, Structural)]
pub struct Timestamp {
    pub seconds: i64,
    pub nanosecond: u32,
    /// Seconds east of UTC.
    pub offset: i32,
}

/// A fixed offset from UTC.
#[derive(Clone, Copy, Debug, PartialEq, Eq, Structural)]
pub struct UtcOffset {
    /// Seconds east of UTC, less than a day either way.
    pub seconds: i32,
}

pub open spec fn is_leap_year(y: int) -> bool {
    (y % 4 == 0 && y % 100 != 0) || y % 400 == 0
}

pub open spec fn days_in_month(y: int, m: int) -> int {
    if m == 2 {
        if is_leap_year(y) {
            29
        } else {
            28
        }
    } else if m == 4 || m == 6 || m == 9 || m == 11 {
        30
    } else {
        31
    }
}

impl CalendarDate {
    /// A date that exists, within the years that chrono represents.
    pub open spec fn wf(self) -> bool {
        &&& -262_143 <= self.year <= 262_142
        &&& 1 <= self.month <= 12
        &&& 1 <= self.day <= days_in_month(self.year as int, self.month as int)
    }

    /// The number of days from 1970-01-01 to this date.
    pub open spec fn day_number(self) -> int {
        let m = self.month as int;
        let y = if m <= 2 {
            self.year - 1
        } else {
            self.year as int
        };
        let era = y / 400;
        let year_of_era = y - era * 400;
        let shifted_month = if m > 2 {
            m - 3
        } else {
            m + 9
        };
        let day_of_year = (153 * shifted_month + 2) / 5 + self.day - 1;
        let day_of_era = year_of_era * 365 + year_of_era / 4 - year_of_era / 100 + day_of_year;
        era * 146097 + day_of_era - 719468
    }
}

impl TimeOfDay {
    pub open spec fn wf(self) -> bool {
        &&& self.hour < 24
        &&& self.minute < 60
        &&& self.second < 60
        &&& self.nanosecond < 2_000_000_000
        &&& (self.nanosecond >= 1_000_000_000 ==> self.second == 59)
    }

    pub open spec fn seconds_from_midnight(self) -> int {
        self.hour * 3600 + self.minute * 60 + self.second
    }

    pub open spec fn is_midnight(self) -> bool {
        self.hour == 0 && self.minute == 0 && self.second == 0 && self.nanosecond == 0
    }
}

impl LocalDateTime {
    pub open spec fn wf(self) -> bool {
        self.date.wf() && self.time.wf()
    }

    /// Seconds from 1970-01-01 00:00:00 on the same wall clock.
    pub open spec fn local_seconds(self) -> int {
        self.date.day_number() * 86400 + self.time.seconds_from_midnight()
    }
}

/// The first instant of a day.
pub open spec fn midnight(d: CalendarDate) -> LocalDateTime {
    LocalDateTime { date: d, time: TimeOfDay { hour: 0, minute: 0, second: 0, nanosecond: 0 } }
}

/// `a` is an earlier instant than `b`.
pub open spec fn instant_lt(a: Timestamp, b: Timestamp) -> bool {
    a.seconds < b.seconds || (a.seconds == b.seconds && a.nanosecond < b.nanosecond)
}

/// Whether chrono_tz knows a zone of this name.
pub uninterp spec fn zone_known(name: Seq<char>) -> bool;

/// What chrono's `NaiveDateTime::parse_from_str` reads from `text` by `format`.
pub uninterp spec fn parsed_date_time(text: Seq<char>, format: Seq<char>) -> Option<LocalDateTime>;

/// What chrono's `NaiveDate::parse_from_str` reads from `text` by `format`.
pub uninterp spec fn parsed_date(text: Seq<char>, format: Seq<char>) -> Option<CalendarDate>;

/// What chrono's `NaiveTime::parse_from_str` reads from `text` by `format`.
pub uninterp spec fn parsed_time(text: Seq<char>, format: Seq<char>) -> Option<TimeOfDay>;

/// The offset from UTC, in seconds, of the one instant at which the clocks of the
/// named zone show `local`; `None` where they show it never or twice, and at the
/// edge of chrono's range, where that instant cannot be represented.
pub uninterp spec fn zone_offset(zone: Seq<char>, local: LocalDateTime) -> Option<i32>;

/// The instant at which the clocks of the named zone show `local`, where there is
/// exactly one.
pub open spec fn resolved_in(zone: Seq<char>, local: LocalDateTime) -> Option<Timestamp> {
    match zone_offset(zone, local) {
        Some(off) => Some(
            Timestamp {
                seconds: (local.local_seconds() - off) as i64,
                nanosecond: local.time.nanosecond,
                offset: off,
            },
        ),
        None => None,
    }
}

/// Relies on chrono_tz's `Tz::from_str`: whether `name` is a zone of its database.
#[verifier::external_body]
fn is_known_zone(name: &str) -> (r: bool)
    ensures
        r == zone_known(name@),
{
    name.parse::<chrono_tz::Tz>().is_ok()
}

/// Relies on chrono's `NaiveDateTime::parse_from_str`, which only gives dates and
/// times that exist.
#[verifier::external_body]
fn read_date_time(text: &str, format: &str) -> (r: Option<LocalDateTime>)
    ensures
        r == parsed_date_time(text@, format@),
        r matches Some(l) ==> l.wf(),
{
    chrono::NaiveDateTime::parse_from_str(text, format).ok().map(|d| LocalDateTime {
        date: CalendarDate { year: d.year(), month: d.month(), day: d.day() },
        time: TimeOfDay {
            hour: d.hour(),
            minute: d.minute(),
            second: d.second(),
            nanosecond: d.nanosecond(),
        },
    })
}

/// Relies on chrono's `NaiveDate::parse_from_str`, which only gives dates that
/// exist.
#[verifier::external_body]
fn read_date(text: &str, format: &str) -> (r: Option<CalendarDate>)
    ensures
        r == parsed_date(text@, format@),
        r matches Some(d) ==> d.wf(),
{
    chrono::NaiveDate::parse_from_str(text, format).ok().map(|d| CalendarDate {
        year: d.year(),
        month: d.month(),
        day: d.day(),
    })
}

/// Relies on chrono's `NaiveTime::parse_from_str`, which only gives valid times of
/// day.
#[verifier::external_body]
fn read_time(text: &str, format: &str) -> (r: Option<TimeOfDay>)
    ensures
        r == parsed_time(text@, format@),
        r matches Some(t) ==> t.wf(),
{
    chrono::NaiveTime::parse_from_str(text, format).ok().map(|t| TimeOfDay {
        hour: t.hour(),
        minute: t.minute(),
        second: t.second(),
        nanosecond: t.nanosecond(),
    })
}

/// Relies on chrono's `TimeZone::from_local_datetime` for a chrono_tz zone, and its
/// `single`: the instant at which the zone's clocks show `local`, its UTC
/// timestamp being the local one less the offset.
#[verifier::external_body]
fn zoned(zone: &str, local: LocalDateTime) -> (r: Option<Timestamp>)
    requires
        zone_known(zone@),
        local.wf(),
    ensures
        r is Some <==> zone_offset(zone@, local) is Some,
        r == resolved_in(zone@, local),
{
    let tz: chrono_tz::Tz = zone.parse().unwrap();
    let (d, t) = (local.date, local.time);
    let date = chrono::NaiveDate::from_ymd_opt(d.year, d.month, d.day).unwrap();
    let naive = date.and_hms_nano_opt(t.hour, t.minute, t.second, t.nanosecond).unwrap();
    tz.from_local_datetime(&naive).single().map(|z| Timestamp {
        seconds: z.timestamp(),
        nanosecond: z.timestamp_subsec_nanos(),
        offset: z.offset().fix().local_minus_utc(),
    })
}

/// How a date or date-time text reads in a known zone: with a `:` it is a date
/// with a time of day, else a date, taken at its midnight. The local time must
/// occur exactly once in the zone.
pub open spec fn resolve_outcome(value: Seq<char>, zone: Seq<char>) -> Result<Timestamp, ErrorView> {
    if value.contains(':') {
        match parsed_date_time(value, DATETIME_FORMAT@) {
            None => Err(ErrorView::Parsing("error parsing datetime"@)),
            Some(l) => match resolved_in(zone, l) {
                None => Err(ErrorView::Parsing("unable to parse datetime"@)),
                Some(t) => Ok(t),
            },
        }
    } else {
        match parsed_date(value, DATE_FORMAT@) {
            None => Err(ErrorView::Parsing("error parsing date"@)),
            Some(d) => match resolved_in(zone, midnight(d)) {
                None => Err(ErrorView::Parsing("unable to parse date"@)),
                Some(t) => Ok(t),
            },
        }
    }
}

/// How a date or date-time text reads in the named zone.
pub open spec fn date_outcome(value: Seq<char>, zone: Seq<char>) -> Result<Timestamp, ErrorView> {
    if zone_known(zone) {
        resolve_outcome(value, zone)
    } else {
        Err(ErrorView::Parsing("error parsing time zone"@))
    }
}

/// How a time-of-day text `HH:MM` reads.
pub open spec fn time_outcome(value: Seq<char>) -> Result<TimeOfDay, ErrorView> {
    match parsed_time(value, TIME_FORMAT@) {
        Some(t) => Ok(t),
        None => Err(ErrorView::Parsing("error parsing time"@)),
    }
}

/// The view of a result whose value needs none.
pub open spec fn plain_outcome<T>(r: Result<T, Error>) -> Result<T, ErrorView> {
    match r {
        Ok(v) => Ok(v),
        Err(e) => Err(e@),
    }
}

/// Whether `s` holds the character `c`.
pub fn contains_char(s: &str, c: char) -> (r: bool)
    ensures
        r == s@.contains(c),
{
    let n = s.unicode_len();
    let mut i: usize = 0;
    while i < n
        invariant
            i <= n,
            n == s@.len(),
            forall|k: int| 0 <= k < i ==> s@[k] != c,
        decreases n - i,
    {
        if s.get_char(i) == c {
            assert(s@[i as int] == c);
            return true;
        }
        i = i + 1;
    }
    false
}

/// Whether chrono_tz knows the zone `name`.
pub fn is_time_zone(name: &str) -> (r: bool)
    ensures
        r == zone_known(name@),
{
    is_known_zone(name)
}

/// Reads a date or date-time text in a zone that is known to exist.
pub fn resolve(value: &str, zone: &str) -> (r: Result<Timestamp, Error>)
    requires
        zone_known(zone@),
    ensures
        plain_outcome(r) == resolve_outcome(value@, zone@),
{
    if contains_char(value, ':') {
        match read_date_time(value, DATETIME_FORMAT) {
            None => Err(parsing_error("error parsing datetime")),
            Some(l) => match zoned(zone, l) {
                None => Err(parsing_error("unable to parse datetime")),
                Some(t) => Ok(t),
            },
        }
    } else {
        match read_date(value, DATE_FORMAT) {
            None => Err(parsing_error("error parsing date")),
            Some(d) => {
                let start = LocalDateTime {
                    date: d,
                    time: TimeOfDay { hour: 0, minute: 0, second: 0, nanosecond: 0 },
                };
                match zoned(zone, start) {
                    None => Err(parsing_error("unable to parse date")),
                    Some(t) => Ok(t),
                }
            },
        }
    }
}

/// Reads `value`, a date (`YYYY-MM-DD`, taken at midnight) or a date with a time
/// of day (`YYYY-MM-DD HH:MM:SS`), as local to the zone named `time_zone`.
pub fn parse_date(value: &str, time_zone: &str) -> (r: Result<Timestamp, Error>)
    ensures
        plain_outcome(r) == date_outcome(value@, time_zone@),
{
    if !is_known_zone(time_zone) {
        return Err(parsing_error("error parsing time zone"));
    }
    resolve(value, time_zone)
}

/// Reads a time of day written `HH:MM`.
pub fn parse_time(value: &str) -> (r: Result<TimeOfDay, Error>)
    ensures
        plain_outcome(r) == time_outcome(value@),
{
    match read_time(value, TIME_FORMAT) {
        Some(t) => Ok(t),
        None => Err(parsing_error("error parsing time")),
    }
}

/// Whether `a` is an earlier instant than `b`.
pub fn is_before(a: &Timestamp, b: &Timestamp) -> (r: bool)
    ensures
        r == instant_lt(*a, *b),
{
    a.seconds < b.seconds || (a.seconds == b.seconds && a.nanosecond < b.nanosecond)
}

/// The UTC offset of `seconds` east, where it is less than a day either way.
pub fn utc_offset(seconds: i32) -> (r: Option<UtcOffset>)
    ensures
        r matches Some(o) ==> o.seconds == seconds,
        r is Some <==> -86_400 < seconds < 86_400,
{
    if -86_400 < seconds && seconds < 86_400 {
        Some(UtcOffset { seconds })
    } else {
        None
    }
}

/// A date read in a zone and the same date read with a time of day in that zone
/// give equal timestamps exactly when the time of day is midnight.
pub proof fn lemma_date_and_midnight(date_text: Seq<char>, date_time_text: Seq<char>, zone: Seq<char>)
    requires
        !date_text.contains(':'),
        date_time_text.contains(':'),
        parsed_date(date_text, DATE_FORMAT@) is Some,
        parsed_date_time(date_time_text, DATETIME_FORMAT@) is Some,
        parsed_date_time(date_time_text, DATETIME_FORMAT@)->Some_0.date == parsed_date(
            date_text,
            DATE_FORMAT@,
        )->Some_0,
        parsed_date_time(date_time_text, DATETIME_FORMAT@)->Some_0.wf(),
        date_outcome(date_text, zone) is Ok,
        date_outcome(date_time_text, zone) is Ok,
    ensures
        date_outcome(date_text, zone) == date_outcome(date_time_text, zone) <==> parsed_date_time(
            date_time_text,
            DATETIME_FORMAT@,
        )->Some_0.time.is_midnight(),
{
    let l = parsed_date_time(date_time_text, DATETIME_FORMAT@)->Some_0;
    let m = midnight(l.date);
    lemma_local_seconds_bounds(l);
    lemma_local_seconds_bounds(m);
    if date_outcome(date_text, zone) == date_outcome(date_time_text, zone) {
        assert(l.local_seconds() == m.local_seconds());
        assert(l.time.seconds_from_midnight() == 0);
    }
    if l.time.is_midnight() {
        assert(l == m);
    }
}

/// The wall-clock seconds of a valid date and time are far inside 64 bits.
pub proof fn lemma_local_seconds_bounds(l: LocalDateTime)
    requires
        l.wf(),
    ensures
        -100_000_000_000_000 < l.local_seconds() < 100_000_000_000_000,
{
    let d = l.date;
    let m = d.month as int;
    let y = if m <= 2 {
        d.year - 1
    } else {
        d.year as int
    };
    let era = y / 400;
    assert(-700 <= era <= 700);
    assert(-1_000_000_000 < d.day_number() < 1_000_000_000);
}

} // verus!
