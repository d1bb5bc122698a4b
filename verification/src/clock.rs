//! Instants as chrono represents them, and the calls into chrono that the
//! library makes about them.
use chrono::{Offset, TimeZone};
use vstd::prelude::*;

verus! {

/// The earliest instant chrono can represent, `-262143-01-01T00:00:00Z`, in seconds
/// since the Unix epoch.
pub const MIN_TIMESTAMP: i64 = -8334601315200;

/// The latest whole second chrono can represent, `262142-12-31T23:59:59Z`, in seconds
/// since the Unix epoch.
pub const MAX_TIMESTAMP: i64 = 8210266876799;

/// Nanoseconds in one second.
pub const NANOS_PER_SECOND: u32 = 1_000_000_000;

/// An instant: whole seconds since the Unix epoch and the nanoseconds past them.
#[derive(Clone, Copy, Debug, PartialEq, Eq, Structural)]
pub struct Instant {
    pub secs: i64,
    pub nanos: u32,
}

impl Instant {
    /// Within chrono's range, with fewer than a second's worth of nanoseconds.
    pub open spec fn valid(self) -> bool {
        &&& MIN_TIMESTAMP <= self.secs <= MAX_TIMESTAMP
        &&& self.nanos < NANOS_PER_SECOND
    }

    /// Strictly earlier than `other`.
    pub open spec fn spec_is_before(self, other: Instant) -> bool {
        self.secs < other.secs || (self.secs == other.secs && self.nanos < other.nanos)
    }

    /// Nanoseconds since the Unix epoch.
    pub open spec fn total_nanos(self) -> int {
        self.secs * NANOS_PER_SECOND + self.nanos
    }

    /// Whether this instant is strictly earlier than `other`.
    pub fn is_before(&self, other: &Instant) -> (b: bool)
        ensures
            b == self.spec_is_before(*other),
    {
        self.secs < other.secs || (self.secs == other.secs && self.nanos < other.nanos)
    }
}

/// The current time, from `chrono::Utc::now`. Nothing is claimed of its value beyond
/// that chrono can represent it and that it carries fewer than a second of nanoseconds
/// (it is built from a `SystemTime` duration).
#[verifier::external_body]
pub(crate) fn utc_now() -> (now: Instant)
    ensures
        now.valid(),
{
    let now = chrono::Utc::now();
    Instant { secs: now.timestamp(), nanos: now.timestamp_subsec_nanos() }
}

/// The text that chrono's `format("%Y-%m-%dT%H-%M-%S")` gives for the UTC instant at
/// the given whole second.
pub uninterp spec fn spec_format_sas_time(secs: int) -> Seq<char>;

/// Formats a UTC instant as `%Y-%m-%dT%H-%M-%S` with chrono (`DateTime::format`);
/// the result is named, not described. `%Y` writes a year from 0 to 9999 as four
/// digits and any other year with an explicit sign, and chrono's
/// `NaiveDateTime::parse_from_str` with the same format reads a signed year of any
/// length, so the text reads back as that same whole second.
#[verifier::external_body]
pub(crate) fn format_sas_time(secs: i64) -> (text: String)
    requires
        MIN_TIMESTAMP <= secs <= MAX_TIMESTAMP,
    ensures
        text@ == spec_format_sas_time(secs as int),
        spec_parse_sas_time(text@) == Some((secs as int, 0int)),
{
    chrono::DateTime::from_timestamp(secs, 0)
        .expect("the timestamp is within chrono's range")
        .format("%Y-%m-%dT%H-%M-%S")
        .to_string()
}

/// What `chrono::NaiveDateTime::parse_from_str(text, "%Y-%m-%dT%H-%M-%S")`, read as
/// UTC, gives: the seconds since the Unix epoch and the nanoseconds past them (at or
/// above one second only for a leap second), or nothing where the text does not parse.
pub uninterp spec fn spec_parse_sas_time(text: Seq<char>) -> Option<(int, int)>;

/// Parses `%Y-%m-%dT%H-%M-%S` text as a UTC instant with
/// `chrono::NaiveDateTime::parse_from_str`; the error carries chrono's message.
/// The parsed value is named, not described; of its parts only the range of the
/// nanoseconds (below two seconds' worth, as chrono documents for leap seconds) is stated.
#[verifier::external_body]
pub(crate) fn parse_sas_time(text: &str) -> (r: Result<(i64, u32), String>)
    ensures
        match r {
            Ok((secs, nanos)) => {
                &&& spec_parse_sas_time(text@) == Some((secs as int, nanos as int))
                &&& nanos < 2 * NANOS_PER_SECOND
            },
            Err(_) => spec_parse_sas_time(text@) is None,
        },
{
    match chrono::NaiveDateTime::parse_from_str(text, "%Y-%m-%dT%H-%M-%S") {
        Ok(t) => Ok((t.and_utc().timestamp(), t.and_utc().timestamp_subsec_nanos())),
        Err(e) => Err(e.to_string()),
    }
}

/// Seconds in one day.
pub const SECONDS_PER_DAY: i64 = 86400;

/// The day number (counted from 0001-01-01, which is day 1) of the Unix epoch, 1970-01-01.
pub const UNIX_EPOCH_DAY: i64 = 719163;

/// The number of time zones that chrono-tz knows (`chrono_tz::TZ_VARIANTS`); a zone is
/// its position in that list.
pub const ZONE_COUNT: u32 = 597;

/// A day of the week.
#[derive(Clone, Copy, Debug, PartialEq, Eq, Structural, Hash)]
pub enum Weekday {
    Mon,
    Tue,
    Wed,
    Thu,
    Fri,
    Sat,
    Sun,
}

/// The weekday with the given number of days since Monday (0 to 6).
pub open spec fn weekday_from_monday(n: int) -> Weekday {
    if n == 0 {
        Weekday::Mon
    } else if n == 1 {
        Weekday::Tue
    } else if n == 2 {
        Weekday::Wed
    } else if n == 3 {
        Weekday::Thu
    } else if n == 4 {
        Weekday::Fri
    } else if n == 5 {
        Weekday::Sat
    } else {
        Weekday::Sun
    }
}

/// The weekday of a day number (days counted so that 0001-01-01, a Monday, is day 1).
pub open spec fn weekday_of_day(day: int) -> Weekday {
    weekday_from_monday((day - 1) % 7)
}

/// The weekday of a day number.
pub fn weekday_of(day: i64) -> (w: Weekday)
    requires
        -1_000_000_000_000 <= day <= 1_000_000_000_000,
    ensures
        w == weekday_of_day(day as int),
{
    let shifted = (day - 1 + 7_000_000_000_000) as u64;
    let n = shifted % 7;
    assert(n as int == (day - 1) % 7) by {
        assert(shifted as int == (day - 1) + 7 * 1_000_000_000_000);
    }
    if n == 0 {
        Weekday::Mon
    } else if n == 1 {
        Weekday::Tue
    } else if n == 2 {
        Weekday::Wed
    } else if n == 3 {
        Weekday::Thu
    } else if n == 4 {
        Weekday::Fri
    } else if n == 5 {
        Weekday::Sat
    } else {
        Weekday::Sun
    }
}

/// A time of day: seconds since midnight and nanoseconds past them.
#[derive(Clone, Copy, Debug, PartialEq, Eq, Structural)]
pub struct TimeOfDay {
    pub secs: u32,
    pub nanos: u32,
}

impl TimeOfDay {
    /// A time within one day, without leap seconds.
    pub open spec fn valid(self) -> bool {
        self.secs < 86400 && self.nanos < NANOS_PER_SECOND
    }

    /// Not later than `other`.
    pub open spec fn spec_le(self, other: TimeOfDay) -> bool {
        self.secs < other.secs || (self.secs == other.secs && self.nanos <= other.nanos)
    }

    /// Whether this time is not later than `other`.
    pub fn le(&self, other: &TimeOfDay) -> (b: bool)
        ensures
            b == self.spec_le(*other),
    {
        self.secs < other.secs || (self.secs == other.secs && self.nanos <= other.nanos)
    }
}

/// The offset from UTC, in seconds, that time zone `zone` has at the UTC instant
/// `utc_secs`.
pub uninterp spec fn spec_zone_offset(zone: int, utc_secs: int) -> int;

/// The offset from UTC of a chrono-tz time zone at an instant
/// (`offset_from_utc_datetime`, then `fix().local_minus_utc()`). Named; of its value only
/// the bound that chrono documents for fixed offsets (strictly within one day) is stated.
#[verifier::external_body]
pub(crate) fn zone_offset(zone: u32, utc_secs: i64) -> (offset: i32)
    requires
        zone < ZONE_COUNT,
        MIN_TIMESTAMP <= utc_secs <= MAX_TIMESTAMP,
    ensures
        offset == spec_zone_offset(zone as int, utc_secs as int),
        -86400 < offset < 86400,
{
    let tz = chrono_tz::TZ_VARIANTS[zone as usize];
    let utc = chrono::DateTime::from_timestamp(utc_secs, 0).expect("within chrono's range");
    tz.offset_from_utc_datetime(&utc.naive_utc()).fix().local_minus_utc()
}

/// The earliest UTC instant, as seconds and nanoseconds, at which the clocks of time
/// zone `zone` show the given local day and time, or nothing if they never do.
pub uninterp spec fn spec_local_earliest(zone: int, day: int, secs: int, nanos: int) -> Option<
    (int, int),
>;

/// The earliest instant at which a chrono-tz time zone shows a local date and time
/// (`from_local_datetime(..).earliest()`). Named; a result is a value chrono represents.
#[verifier::external_body]
pub(crate) fn local_earliest(zone: u32, day: i64, time: TimeOfDay) -> (r: Option<Instant>)
    requires
        zone < ZONE_COUNT,
        time.valid(),
    ensures
        match r {
            Some(t) => {
                &&& spec_local_earliest(zone as int, day as int, time.secs as int, time.nanos as int)
                    == Some((t.secs as int, t.nanos as int))
                &&& t.valid()
            },
            None => spec_local_earliest(zone as int, day as int, time.secs as int, time.nanos as int)
                is None,
        },
{
    let tz = chrono_tz::TZ_VARIANTS[zone as usize];
    let date = chrono::NaiveDate::from_num_days_from_ce_opt(i32::try_from(day).ok()?)?;
    let naive = chrono::NaiveTime::from_num_seconds_from_midnight_opt(time.secs, time.nanos)?;
    let t = tz.from_local_datetime(&date.and_time(naive)).earliest()?;
    Some(Instant { secs: t.timestamp(), nanos: t.timestamp_subsec_nanos() })
}

/// An instant together with a time zone and that zone's offset at the instant, as
/// chrono's `DateTime<Tz>` holds them.
#[derive(Clone, Copy, Debug, PartialEq, Eq, Structural)]
pub struct ZonedDateTime {
    pub instant: Instant,
    pub zone: u32,
    pub offset: i32,
}

impl ZonedDateTime {
    /// A valid instant, a known zone, and the zone's offset at the instant.
    pub open spec fn wf(self) -> bool {
        &&& self.instant.valid()
        &&& self.zone < ZONE_COUNT
        &&& self.offset == spec_zone_offset(self.zone as int, self.instant.secs as int)
        &&& -86400 < self.offset < 86400
    }

    /// Seconds since the Unix epoch of the local clock reading.
    pub open spec fn local_secs(self) -> int {
        self.instant.secs + self.offset
    }

    /// The local date, as a day number (0001-01-01 is day 1).
    pub open spec fn spec_local_day(self) -> int {
        self.local_secs() / 86400 + UNIX_EPOCH_DAY
    }

    /// The local time of day.
    pub open spec fn spec_local_time(self) -> TimeOfDay {
        TimeOfDay { secs: (self.local_secs() % 86400) as u32, nanos: self.instant.nanos }
    }

    /// The local day of the week.
    pub open spec fn spec_weekday(self) -> Weekday {
        weekday_of_day(self.spec_local_day())
    }

    /// The time in `zone` at `instant`.
    pub fn at(zone: u32, instant: Instant) -> (z: ZonedDateTime)
        requires
            zone < ZONE_COUNT,
            instant.valid(),
        ensures
            z.wf(),
            z.zone == zone,
            z.instant == instant,
    {
        let offset = zone_offset(zone, instant.secs);
        ZonedDateTime { instant, zone, offset }
    }

    /// The local date, as a day number.
    pub fn local_day(&self) -> (d: i64)
        requires
            self.wf(),
        ensures
            d == self.spec_local_day(),
            -1_000_000_000 <= d <= 1_000_000_000,
    {
        let shifted = (self.instant.secs + self.offset as i64 + 17_280_000_000_000) as u64;
        let q = (shifted / 86400) as i64;
        proof {
            assert(shifted as int == self.local_secs() + 86400 * 200_000_000);
            assert(q as int == self.local_secs() / 86400 + 200_000_000) by (nonlinear_arith)
                requires
                    shifted as int == self.local_secs() + 86400 * 200_000_000,
                    q as int == shifted as int / 86400,
                    shifted >= 0,
            ;
        }
        q - 200_000_000 + UNIX_EPOCH_DAY
    }

    /// The local time of day.
    pub fn local_time(&self) -> (t: TimeOfDay)
        requires
            self.wf(),
        ensures
            t == self.spec_local_time(),
            t.valid(),
    {
        let shifted = (self.instant.secs + self.offset as i64 + 17_280_000_000_000) as u64;
        let r = (shifted % 86400) as u32;
        proof {
            assert(shifted as int == self.local_secs() + 86400 * 200_000_000);
            assert(r as int == self.local_secs() % 86400) by (nonlinear_arith)
                requires
                    shifted as int == self.local_secs() + 86400 * 200_000_000,
                    r as int == shifted as int % 86400,
                    shifted >= 0,
            ;
        }
        TimeOfDay { secs: r, nanos: self.instant.nanos }
    }

    /// The local day of the week.
    pub fn weekday(&self) -> (w: Weekday)
        requires
            self.wf(),
        ensures
            w == self.spec_weekday(),
    {
        weekday_of(self.local_day())
    }
}

/// Whether croner parses `pattern` as a cron schedule (seconds field optional).
pub uninterp spec fn spec_cron_parses(pattern: Seq<char>) -> bool;

/// The next occurrence, strictly after the given instant, of the cron schedule
/// `pattern` read in time zone `zone`, as seconds and nanoseconds, or nothing if croner
/// finds none.
pub uninterp spec fn spec_cron_next(pattern: Seq<char>, zone: int, secs: int, nanos: int) -> Option<
    (int, int),
>;

/// What the cron wrapper reports.
pub enum CronNext {
    /// The schedule does not parse.
    Unparsable,
    /// The schedule parses but croner found no next occurrence.
    NoOccurrence,
    /// The next occurrence.
    At(Instant),
}

/// Parses a cron schedule with croner (`Cron::new(..).with_seconds_optional().parse()`)
/// and finds its next occurrence after `now` in a chrono-tz zone
/// (`find_next_occurrence(.., false)`). Named, not described; a found occurrence is a
/// value chrono represents.
#[verifier::external_body]
pub(crate) fn cron_next(pattern: &str, zone: u32, now: Instant) -> (r: CronNext)
    requires
        zone < ZONE_COUNT,
        now.valid(),
    ensures
        match r {
            CronNext::Unparsable => !spec_cron_parses(pattern@),
            CronNext::NoOccurrence => spec_cron_parses(pattern@) && spec_cron_next(
                pattern@,
                zone as int,
                now.secs as int,
                now.nanos as int,
            ) is None,
            CronNext::At(t) => {
                &&& spec_cron_parses(pattern@)
                &&& spec_cron_next(pattern@, zone as int, now.secs as int, now.nanos as int) == Some(
                    (t.secs as int, t.nanos as int),
                )
                &&& t.valid()
            },
        },
{
    let tz = chrono_tz::TZ_VARIANTS[zone as usize];
    let Ok(cron) = croner::Cron::new(pattern).with_seconds_optional().parse() else {
        return CronNext::Unparsable;
    };
    let start = tz.timestamp_opt(now.secs, now.nanos).unwrap();
    match cron.find_next_occurrence(&start, false) {
        Ok(t) => CronNext::At(Instant { secs: t.timestamp(), nanos: t.timestamp_subsec_nanos() }),
        Err(_) => CronNext::NoOccurrence,
    }
}

/// The current time in time zone `zone`.
pub fn now_in(zone: u32) -> (z: ZonedDateTime)
    requires
        zone < ZONE_COUNT,
    ensures
        z.wf(),
        z.zone == zone,
{
    ZonedDateTime::at(zone, utc_now())
}

} // verus!
