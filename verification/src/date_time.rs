//! Calendar timestamps as plain values.
//!
//! A [`DateTime`] is a date in the proleptic Gregorian calendar, given as a
//! year and a day of that year, with a time of day. Its mathematical model is
//! its [`instant`](DateTime::instant): the number of whole seconds between
//! the start of year 0 and the timestamp.

use vstd::prelude::*;

verus! {

/// The first year a timestamp can lie in.
pub const MIN_YEAR: i32 = -9999;

/// The last year a timestamp can lie in.
pub const MAX_YEAR: i32 = 9999;

/// The seconds of a minute.
pub const SECONDS_IN_MINUTE: u32 = 60;

/// The seconds of an hour.
pub const SECONDS_IN_HOUR: u32 = 3600;

/// The seconds of a day.
pub const SECONDS_IN_DAY: u32 = 86400;

/// The minutes of an hour.
pub const MINUTES_IN_HOUR: u32 = 60;

/// The nanoseconds of a second.
pub const NANOSECONDS_IN_SECOND: u32 = 1_000_000_000;

/// Whether `year` has 366 days.
pub open spec fn is_leap_year(year: int) -> bool {
    year % 4 == 0 && (year % 100 != 0 || year % 400 == 0)
}

/// The number of days of `year`.
pub open spec fn days_in_year(year: int) -> int {
    if is_leap_year(year) {
        366
    } else {
        365
    }
}

/// The number of days between the start of year 0 and the start of `year`
/// (negative for a year before 0).
#[verifier::opaque]
pub open spec fn days_before_year(year: int) -> int {
    365 * year + (year + 3) / 4 - (year + 99) / 100 + (year + 399) / 400
}

/// Whether `year` has 366 days.
pub fn leap_year(year: i32) -> (r: bool)
    ensures
        r == is_leap_year(year as int),
{
    // 2147484000 is a multiple of 400, so the shifted year, which is never
    // negative, is a leap year exactly when `year` is.
    let shifted: u64 = (year as i64 + 2_147_484_000) as u64;
    assert(shifted % 4 == 0 <==> year as int % 4 == 0) by {
        assert(shifted as int == year as int + 4 * 536871000);
    }
    assert(shifted % 100 == 0 <==> year as int % 100 == 0) by {
        assert(shifted as int == year as int + 100 * 21474840);
    }
    assert(shifted % 400 == 0 <==> year as int % 400 == 0) by {
        assert(shifted as int == year as int + 400 * 5368710);
    }
    shifted % 4 == 0 && (shifted % 100 != 0 || shifted % 400 == 0)
}

/// A calendar timestamp: year, day of the year (from 1), and time of day.
#[derive(Clone, Copy, Debug, PartialEq, Eq, Structural)]
pub struct DateTime {
    year: i32,
    ordinal: u16,
    hour: u8,
    minute: u8,
    second: u8,
    nanosecond: u32,
}

impl DateTime {
    /// Whether the six components name a timestamp that exists.
    pub open spec fn components_valid(
        year: int,
        ordinal: int,
        hour: int,
        minute: int,
        second: int,
        nanosecond: int,
    ) -> bool {
        &&& MIN_YEAR <= year <= MAX_YEAR
        &&& 1 <= ordinal <= days_in_year(year)
        &&& 0 <= hour < 24
        &&& 0 <= minute < 60
        &&& 0 <= second < 60
        &&& 0 <= nanosecond < NANOSECONDS_IN_SECOND
    }

    /// The year.
    pub closed spec fn spec_year(self) -> int {
        self.year as int
    }

    /// The day of the year, from 1.
    pub closed spec fn spec_ordinal(self) -> int {
        self.ordinal as int
    }

    /// The hour of the day.
    pub closed spec fn spec_hour(self) -> int {
        self.hour as int
    }

    /// The minute of the hour.
    pub closed spec fn spec_minute(self) -> int {
        self.minute as int
    }

    /// The second of the minute.
    pub closed spec fn spec_second(self) -> int {
        self.second as int
    }

    /// The nanosecond of the second.
    pub closed spec fn spec_nanosecond(self) -> int {
        self.nanosecond as int
    }

    /// Every timestamp that executable code holds exists in the calendar.
    #[verifier::type_invariant]
    pub open spec fn is_valid(self) -> bool {
        Self::components_valid(
            self.spec_year(),
            self.spec_ordinal(),
            self.spec_hour(),
            self.spec_minute(),
            self.spec_second(),
            self.spec_nanosecond(),
        )
    }

    /// Seconds between the start of the timestamp's year and the timestamp.
    pub open spec fn second_of_year(self) -> int {
        (self.spec_ordinal() - 1) * 86400 + self.spec_hour() * 3600 + self.spec_minute() * 60
            + self.spec_second()
    }

    /// Whole seconds between the start of year 0 and the timestamp.
    pub open spec fn instant(self) -> int {
        days_before_year(self.spec_year()) * 86400 + self.second_of_year()
    }

    /// The timestamp `seconds` seconds after this one (before it, where
    /// `seconds` is negative), with the same nanosecond. It is meaningful
    /// where the calendar reaches that far.
    pub open spec fn shifted(self, seconds: int) -> DateTime {
        choose|to: DateTime| self.reaches(to, seconds)
    }

    /// `to` is the timestamp `seconds` seconds after this one, with the same
    /// nanosecond.
    pub open spec fn reaches(self, to: DateTime, seconds: int) -> bool {
        &&& to.is_valid()
        &&& to.instant() == self.instant() + seconds
        &&& to.spec_nanosecond() == self.spec_nanosecond()
    }

    /// The timestamp of the given components, if there is one.
    pub closed spec fn spec_new(
        year: i32,
        ordinal: u16,
        hour: u8,
        minute: u8,
        second: u8,
        nanosecond: u32,
    ) -> Option<DateTime> {
        if Self::components_valid(
            year as int,
            ordinal as int,
            hour as int,
            minute as int,
            second as int,
            nanosecond as int,
        ) {
            Some(DateTime { year, ordinal, hour, minute, second, nanosecond })
        } else {
            None
        }
    }

    /// There is a timestamp of given components exactly when they are valid,
    /// and its components are those.
    pub proof fn lemma_spec_new(
        year: i32,
        ordinal: u16,
        hour: u8,
        minute: u8,
        second: u8,
        nanosecond: u32,
    )
        ensures
            Self::spec_new(year, ordinal, hour, minute, second, nanosecond).is_some()
                == Self::components_valid(
                year as int,
                ordinal as int,
                hour as int,
                minute as int,
                second as int,
                nanosecond as int,
            ),
            Self::spec_new(year, ordinal, hour, minute, second, nanosecond) matches Some(dt) ==> {
                &&& dt.is_valid()
                &&& dt.spec_year() == year
                &&& dt.spec_ordinal() == ordinal
                &&& dt.spec_hour() == hour
                &&& dt.spec_minute() == minute
                &&& dt.spec_second() == second
                &&& dt.spec_nanosecond() == nanosecond
            },
    {
    }

    /// The timestamp of the given components, if there is one.
    #[verifier::when_used_as_spec(spec_new)]
    pub fn new(year: i32, ordinal: u16, hour: u8, minute: u8, second: u8, nanosecond: u32) -> (r:
        Option<Self>)
        ensures
            r == Self::spec_new(year, ordinal, hour, minute, second, nanosecond),
            r.is_some() == Self::components_valid(
                year as int,
                ordinal as int,
                hour as int,
                minute as int,
                second as int,
                nanosecond as int,
            ),
            r matches Some(dt) ==> {
                &&& dt.spec_year() == year
                &&& dt.spec_ordinal() == ordinal
                &&& dt.spec_hour() == hour
                &&& dt.spec_minute() == minute
                &&& dt.spec_second() == second
                &&& dt.spec_nanosecond() == nanosecond
            },
    {
        if year < MIN_YEAR || year > MAX_YEAR {
            return None;
        }
        let days: u16 = if leap_year(year) {
            366
        } else {
            365
        };
        if ordinal < 1 || ordinal > days {
            return None;
        }
        if hour >= 24 || minute >= 60 || second >= 60 || nanosecond >= NANOSECONDS_IN_SECOND {
            return None;
        }
        Some(DateTime { year, ordinal, hour, minute, second, nanosecond })
    }

    /// The year.
    pub fn year(self) -> (r: i32)
        ensures
            r == self.spec_year(),
    {
        self.year
    }

    /// The day of the year, from 1.
    pub fn ordinal(self) -> (r: u16)
        ensures
            r == self.spec_ordinal(),
    {
        self.ordinal
    }

    /// The hour of the day.
    pub fn hour(self) -> (r: u8)
        ensures
            r == self.spec_hour(),
    {
        self.hour
    }

    /// The minute of the hour.
    pub fn minute(self) -> (r: u8)
        ensures
            r == self.spec_minute(),
    {
        self.minute
    }

    /// The second of the minute.
    pub fn second(self) -> (r: u8)
        ensures
            r == self.spec_second(),
    {
        self.second
    }

    /// The nanosecond of the second.
    pub fn nanosecond(self) -> (r: u32)
        ensures
            r == self.spec_nanosecond(),
    {
        self.nanosecond
    }

    /// Hour, minute and second of the time of day.
    pub fn as_hms(self) -> (r: (u8, u8, u8))
        ensures
            r.0 == self.spec_hour(),
            r.1 == self.spec_minute(),
            r.2 == self.spec_second(),
            r.0 < 24 && r.1 < 60 && r.2 < 60,
    {
        proof {
            use_type_invariant(&self);
        }
        (self.hour, self.minute, self.second)
    }

    /// Year and day of the year.
    pub fn to_ordinal_date(self) -> (r: (i32, u16))
        ensures
            r.0 == self.spec_year(),
            r.1 == self.spec_ordinal(),
            MIN_YEAR <= r.0 <= MAX_YEAR,
            1 <= r.1 <= days_in_year(r.0 as int),
    {
        proof {
            use_type_invariant(&self);
        }
        (self.year, self.ordinal)
    }
}

/// The instant of the first timestamp there is.
pub open spec fn min_instant() -> int {
    days_before_year(MIN_YEAR as int) * 86400
}

/// The instant of the last second there is.
pub open spec fn max_instant() -> int {
    days_before_year(MAX_YEAR + 1) * 86400 - 1
}

/// A year ends where the next one starts.
pub proof fn lemma_year_length(year: int)
    ensures
        days_before_year(year + 1) == days_before_year(year) + days_in_year(year),
{
    reveal(days_before_year);
    let fourth: int = if year % 4 == 0 { 1 } else { 0 };
    let hundredth: int = if year % 100 == 0 { 1 } else { 0 };
    let four_hundredth: int = if year % 400 == 0 { 1 } else { 0 };
    assert((year + 4) / 4 == (year + 3) / 4 + fourth);
    assert((year + 100) / 100 == (year + 99) / 100 + hundredth);
    assert((year + 400) / 400 == (year + 399) / 400 + four_hundredth);
    assert(year % 100 == 0 ==> year % 4 == 0) by {
        if year % 100 == 0 {
            assert(year == 4 * (25 * (year / 100)));
        }
    }
    assert(year % 400 == 0 ==> year % 100 == 0) by {
        if year % 400 == 0 {
            assert(year == 100 * (4 * (year / 400)));
        }
    }
    assert(days_in_year(year) == 365 + fourth - hundredth + four_hundredth);
}

/// Later years start later, by at least 365 days a year.
pub proof fn lemma_years_ordered(earlier: int, later: int)
    requires
        earlier <= later,
    ensures
        days_before_year(earlier) + 365 * (later - earlier) <= days_before_year(later),
    decreases later - earlier,
{
    if earlier < later {
        lemma_years_ordered(earlier, later - 1);
        lemma_year_length(later - 1);
    }
}

/// A timestamp's instant lies within its year, and within the calendar.
pub proof fn lemma_instant_within_year(dt: DateTime)
    requires
        dt.is_valid(),
    ensures
        0 <= dt.second_of_year() < days_in_year(dt.spec_year()) * 86400,
        days_before_year(dt.spec_year()) * 86400 <= dt.instant() < days_before_year(
            dt.spec_year() + 1,
        ) * 86400,
        min_instant() <= dt.instant() <= max_instant(),
{
    lemma_year_length(dt.spec_year());
    lemma_years_ordered(MIN_YEAR as int, dt.spec_year());
    lemma_years_ordered(dt.spec_year() + 1, MAX_YEAR + 1);
}

/// Two timestamps that lie `offset` seconds apart, where `offset` does not
/// lead out of the first one's year, lie in the same year.
pub proof fn lemma_offset_within_year(from: DateTime, to: DateTime, offset: int)
    requires
        from.is_valid(),
        to.is_valid(),
        to.instant() == from.instant() + offset,
        0 <= from.second_of_year() + offset < days_in_year(from.spec_year()) * 86400,
    ensures
        to.spec_year() == from.spec_year(),
        to.second_of_year() == from.second_of_year() + offset,
{
    lemma_instant_within_year(from);
    lemma_instant_within_year(to);
    lemma_year_length(from.spec_year());
    if to.spec_year() > from.spec_year() {
        lemma_years_ordered(from.spec_year() + 1, to.spec_year());
    }
    if to.spec_year() < from.spec_year() {
        lemma_years_ordered(to.spec_year() + 1, from.spec_year());
    }
}

/// No two timestamps of one nanosecond share an instant: the instant and
/// the nanosecond name the timestamp.
pub proof fn lemma_instant_names_timestamp(a: DateTime, b: DateTime)
    requires
        a.is_valid(),
        b.is_valid(),
        a.instant() == b.instant(),
        a.spec_nanosecond() == b.spec_nanosecond(),
    ensures
        a == b,
{
    lemma_instant_within_year(a);
    lemma_offset_within_year(a, b, 0);
    let day_a = a.spec_hour() * 3600 + a.spec_minute() * 60 + a.spec_second();
    let day_b = b.spec_hour() * 3600 + b.spec_minute() * 60 + b.spec_second();
    assert(0 <= day_a < 86400 && 0 <= day_b < 86400);
    assert((a.spec_ordinal() - 1) * 86400 + day_a == (b.spec_ordinal() - 1) * 86400 + day_b);
    assert(a.spec_ordinal() == b.spec_ordinal());
    let hour_a = a.spec_minute() * 60 + a.spec_second();
    let hour_b = b.spec_minute() * 60 + b.spec_second();
    assert(0 <= hour_a < 3600 && 0 <= hour_b < 3600);
    assert(a.spec_hour() * 3600 + hour_a == b.spec_hour() * 3600 + hour_b);
    assert(a.spec_hour() == b.spec_hour());
    assert(a.spec_minute() == b.spec_minute());
}

/// There is one timestamp at most a given number of seconds after another.
pub proof fn lemma_shifted_is(from: DateTime, to: DateTime, seconds: int)
    requires
        from.reaches(to, seconds),
    ensures
        from.shifted(seconds) == to,
{
    let chosen = from.shifted(seconds);
    assert(from.reaches(chosen, seconds));
    lemma_instant_names_timestamp(chosen, to);
}

/// A shift that does not lead out of the year is met by a timestamp of the
/// same year.
pub proof fn lemma_shifted_within_year(from: DateTime, seconds: int)
    requires
        from.is_valid(),
        0 <= from.second_of_year() + seconds < days_in_year(from.spec_year()) * 86400,
    ensures
        from.reaches(from.shifted(seconds), seconds),
        from.shifted(seconds).spec_year() == from.spec_year(),
        from.shifted(seconds).second_of_year() == from.second_of_year() + seconds,
{
    let target = from.second_of_year() + seconds;
    let in_day = target % 86400;
    let to = DateTime {
        year: from.year,
        ordinal: (target / 86400 + 1) as u16,
        hour: (in_day / 3600) as u8,
        minute: (in_day % 3600 / 60) as u8,
        second: (in_day % 60) as u8,
        nanosecond: from.nanosecond,
    };
    assert(0 <= target / 86400 < days_in_year(from.spec_year()));
    assert(0 <= in_day < 86400);
    assert(0 <= in_day / 3600 < 24);
    assert(0 <= in_day % 3600 / 60 < 60);
    assert(in_day == (in_day / 3600) * 3600 + (in_day % 3600 / 60) * 60 + in_day % 60) by {
        let rest = in_day % 3600;
        assert(in_day == (in_day / 3600) * 3600 + rest);
        assert(rest == (rest / 60) * 60 + rest % 60);
        assert(rest % 60 == in_day % 60) by {
            assert(in_day == 60 * (60 * (in_day / 3600)) + rest);
        }
    }
    assert(to.is_valid());
    assert(to.second_of_year() == target);
    assert(from.reaches(to, seconds));
    lemma_shifted_is(from, to, seconds);
}

/// The timestamp `seconds` seconds after `dt` (before it, where `seconds`
/// is negative), with the nanosecond kept.
///
/// Calls `time::PrimitiveDateTime`'s `+` with `time::Duration::seconds`, on
/// the `time` value of the same components. `time` panics where the sum
/// leaves its calendar, the years -9999 to 9999: that is left out. Trusted,
/// not proved: the sum is a timestamp of that calendar, the stated number
/// of seconds away on the proleptic Gregorian calendar, and its nanosecond
/// is the one given.
#[verifier::external_body]
pub(crate) fn plus_seconds(dt: DateTime, seconds: i64) -> (r: DateTime)
    requires
        dt.is_valid(),
        min_instant() <= dt.instant() + seconds <= max_instant(),
    ensures
        r.is_valid(),
        r.instant() == dt.instant() + seconds,
        r.spec_nanosecond() == dt.spec_nanosecond(),
{
    let date = time::Date::from_ordinal_date(dt.year, dt.ordinal).unwrap();
    let clock = time::Time::from_hms_nano(dt.hour, dt.minute, dt.second, dt.nanosecond).unwrap();
    let sum = time::PrimitiveDateTime::new(date, clock) + time::Duration::seconds(seconds);
    let hms = sum.as_hms_nano();
    DateTime {
        year: sum.year(),
        ordinal: sum.ordinal(),
        hour: hms.0,
        minute: hms.1,
        second: hms.2,
        nanosecond: hms.3,
    }
}

/// The timestamp `seconds` seconds before `dt` (after it, where `seconds`
/// is negative), with the nanosecond kept.
///
/// Calls `time::PrimitiveDateTime`'s `-` with `time::Duration::seconds`, on
/// the `time` value of the same components. `time` panics where the
/// difference leaves its calendar, the years -9999 to 9999: that is left
/// out. Trusted, not proved: the difference is a timestamp of that calendar,
/// the stated number of seconds away on the proleptic Gregorian calendar,
/// and its nanosecond is the one given.
#[verifier::external_body]
pub(crate) fn minus_seconds(dt: DateTime, seconds: i64) -> (r: DateTime)
    requires
        dt.is_valid(),
        min_instant() <= dt.instant() - seconds <= max_instant(),
    ensures
        r.is_valid(),
        r.instant() == dt.instant() - seconds,
        r.spec_nanosecond() == dt.spec_nanosecond(),
{
    let date = time::Date::from_ordinal_date(dt.year, dt.ordinal).unwrap();
    let clock = time::Time::from_hms_nano(dt.hour, dt.minute, dt.second, dt.nanosecond).unwrap();
    let rest = time::PrimitiveDateTime::new(date, clock) - time::Duration::seconds(seconds);
    let hms = rest.as_hms_nano();
    DateTime {
        year: rest.year(),
        ordinal: rest.ordinal(),
        hour: hms.0,
        minute: hms.1,
        second: hms.2,
        nanosecond: hms.3,
    }
}

} // verus!
