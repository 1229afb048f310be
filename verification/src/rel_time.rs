//! Elapsed time, kept as a calendar timestamp of one reference year.
//!
//! A [`RelTime`] stands for the time that has passed since the start of the
//! reference year. Its mathematical model is [`RelTime::elapsed`], a number
//! of seconds. The timestamp is meant to stay within the reference year;
//! stepping it by an hour, a minute or a second does not check that, and
//! [`RelTime::wf`] says whether it still holds.

use vstd::prelude::*;
use crate::date_time::{
    days_before_year, lemma_instant_within_year, lemma_shifted_is, lemma_shifted_within_year,
    lemma_year_length, lemma_years_ordered, max_instant, min_instant, minus_seconds,
    plus_seconds, DateTime, MAX_YEAR, MINUTES_IN_HOUR, MIN_YEAR, SECONDS_IN_DAY,
    SECONDS_IN_HOUR, SECONDS_IN_MINUTE,
};
use crate::text::{lemma_two_digits_is_digits, push_two_digits, two_digits};

verus! {

/// The year that every elapsed time is counted from and lies in.
pub const REFERENCE_YEAR: i32 = 1970;

/// The length of the reference year, which has 365 days.
pub const SECONDS_IN_YEAR: u32 = 31_536_000;

/// The instant that elapsed time is counted from: the start of the
/// reference year.
pub open spec fn epoch_instant() -> int {
    days_before_year(REFERENCE_YEAR as int) * 86400
}

/// A count of seconds as the text of a clock: hours, minutes and seconds
/// with colons between, each of two digits at least. The hours are all the
/// whole hours of the count.
pub open spec fn clock_text(seconds: nat) -> Seq<char> {
    two_digits(seconds / 3600) + seq![':'] + two_digits(seconds / 60 % 60) + seq![':']
        + two_digits(seconds % 60)
}

/// The text of a clock is digits and two colons, whatever the count: two
/// digits or more of hours, then two of minutes and two of seconds. No line
/// feed is in it.
pub proof fn lemma_clock_text_is_one_line(seconds: nat)
    ensures
        clock_text(seconds).len() >= 8,
        seconds < 360000 ==> clock_text(seconds).len() == 8,
        forall|i: int|
            0 <= i < clock_text(seconds).len() ==> {
                let ch = #[trigger] clock_text(seconds)[i];
                '0' <= ch <= '9' || ch == ':'
            },
        !clock_text(seconds).contains('\n'),
{
    lemma_two_digits_is_digits(seconds / 3600);
    lemma_two_digits_is_digits(seconds / 60 % 60);
    lemma_two_digits_is_digits(seconds % 60);
}

/// Quotient and remainder of a division.
///
/// Calls `num_integer::Integer::div_rem`, which panics on a divisor of
/// zero: that is left out. Trusted, not proved: for `u32` the two results
/// are those of `/` and `%`.
#[verifier::external_body]
fn div_rem(dividend: u32, divisor: u32) -> (r: (u32, u32))
    requires
        divisor != 0,
    ensures
        r.0 == dividend / divisor,
        r.1 == dividend % divisor,
{
    num_integer::Integer::div_rem(&dividend, &divisor)
}

/// The timestamp that elapsed time is counted from: midnight on the first
/// day of the reference year.
pub open spec fn epoch() -> DateTime {
    DateTime::new(REFERENCE_YEAR, 1, 0, 0, 0, 0).unwrap()
}

/// An elapsed time, as the timestamp reached that long after the start of
/// the reference year.
#[derive(Clone, Copy, Debug, PartialEq, Eq, Structural)]
pub struct RelTime(DateTime);

impl RelTime {
    /// The timestamp that stands for this elapsed time.
    pub closed spec fn spec_raw(self) -> DateTime {
        self.0
    }

    /// The timestamp lies in the reference year.
    pub open spec fn wf(self) -> bool {
        self.spec_raw().spec_year() == REFERENCE_YEAR
    }

    /// The seconds that have passed since the start of the reference year
    /// (negative for a timestamp before it).
    pub open spec fn elapsed(self) -> int {
        self.spec_raw().instant() - epoch_instant()
    }

    /// The elapsed time that `dt` stands for.
    pub closed spec fn spec_from_raw(dt: DateTime) -> RelTime {
        RelTime(dt)
    }

    /// This elapsed time with `seconds` seconds more (less, where `seconds`
    /// is negative): its timestamp is the one that many seconds later.
    pub open spec fn shifted(self, seconds: int) -> RelTime {
        RelTime::from_raw(self.raw().shifted(seconds))
    }

    /// No time elapsed: midnight on the first day of the reference year.
    pub fn zero() -> (r: Self)
        ensures
            r == Self::spec_from_raw(epoch()),
            r.raw() == epoch(),
            r.raw().is_valid(),
            r.wf(),
            r.elapsed() == 0,
    {
        proof {
            lemma_epoch();
        }
        let start: Option<DateTime> = DateTime::new(REFERENCE_YEAR, 1, 0, 0, 0, 0);
        Self::from_raw(start.unwrap())
    }

    /// The elapsed time that `dt` stands for. `dt` lies in the reference
    /// year.
    #[verifier::when_used_as_spec(spec_from_raw)]
    pub fn from_raw(dt: DateTime) -> (r: Self)
        requires
            dt.spec_year() == REFERENCE_YEAR,
        ensures
            r == Self::spec_from_raw(dt),
            r.raw() == dt,
            r.wf(),
    {
        RelTime(dt)
    }

    /// The elapsed time that `dt` stands for, if `dt` lies in the reference
    /// year.
    pub fn try_from_raw(dt: DateTime) -> (r: Option<Self>)
        ensures
            r == if dt.spec_year() == REFERENCE_YEAR {
                Some(Self::from_raw(dt))
            } else {
                None
            },
            r matches Some(t) ==> t.raw() == dt && t.wf(),
    {
        if dt.year() == REFERENCE_YEAR {
            Some(Self::from_raw(dt))
        } else {
            None
        }
    }

    /// Whether the timestamp still lies in the reference year.
    pub fn in_reference_year(self) -> (r: bool)
        ensures
            r == self.wf(),
    {
        self.0.year() == REFERENCE_YEAR
    }

    /// The timestamp that stands for this elapsed time.
    #[verifier::when_used_as_spec(spec_raw)]
    pub fn raw(self) -> (dt: DateTime)
        ensures
            dt == self.spec_raw(),
            dt.is_valid(),
    {
        proof {
            use_type_invariant(&self.0);
        }
        self.0
    }

    /// The elapsed whole seconds: the days since the first day of the
    /// reference year, in seconds, and the seconds of the time of day, less
    /// the time of day at which the reference year's count starts.
    pub fn seconds(self) -> (sec: u32)
        requires
            self.wf(),
        ensures
            sec == self.elapsed(),
            sec == (self.raw().spec_ordinal() - 1) * 86400 + self.raw().spec_hour() * 3600
                + self.raw().spec_minute() * 60 + self.raw().spec_second(),
            sec < SECONDS_IN_YEAR,
    {
        let epoch: DateTime = Self::zero().raw();
        let local_hms: (u8, u8, u8) = self.raw().as_hms();
        let local_seconds: u32 = local_hms.0 as u32 * SECONDS_IN_HOUR + local_hms.1 as u32
            * SECONDS_IN_MINUTE + local_hms.2 as u32;
        let epoch_hms: (u8, u8, u8) = epoch.as_hms();
        let epoch_seconds: u32 = epoch_hms.0 as u32 * SECONDS_IN_HOUR + epoch_hms.1 as u32
            * SECONDS_IN_MINUTE + epoch_hms.2 as u32;
        let local_date: (i32, u16) = self.raw().to_ordinal_date();
        let epoch_date: (i32, u16) = epoch.to_ordinal_date();
        let years: u32 = (local_date.0 - epoch_date.0) as u32;
        let days: u32 = (local_date.1 - epoch_date.1) as u32;
        let sec: u32 = years * SECONDS_IN_YEAR + days * SECONDS_IN_DAY;
        let sec: u32 = sec + local_seconds;
        let sec: u32 = sec - epoch_seconds;
        sec
    }

    /// The elapsed time as text: hours, minutes and seconds, two digits
    /// each, with colons between. Hours are not taken modulo 24: they count
    /// on, and take three or four digits from the hundredth hour on.
    pub fn to_string(&self) -> (text: String)
        requires
            self.wf(),
        ensures
            text@ == clock_text(self.elapsed() as nat),
    {
        let sec: u32 = self.seconds();
        let minutes_and_seconds: (u32, u32) = div_rem(sec, SECONDS_IN_MINUTE);
        let hours_and_minutes: (u32, u32) = div_rem(minutes_and_seconds.0, MINUTES_IN_HOUR);
        assert(hours_and_minutes.0 == sec / 3600) by {
            let whole_minutes = sec as int / 60;
            assert(sec as int == 60 * whole_minutes + sec as int % 60);
            assert(whole_minutes == 60 * (whole_minutes / 60) + whole_minutes % 60);
            assert(sec as int == 3600 * (whole_minutes / 60) + (60 * (whole_minutes % 60)
                + sec as int % 60));
        }
        let mut text: String = String::new();
        push_two_digits(&mut text, hours_and_minutes.0);
        text.push(':');
        push_two_digits(&mut text, hours_and_minutes.1);
        text.push(':');
        push_two_digits(&mut text, minutes_and_seconds.1);
        text
    }

    /// One hour more.
    pub fn add_hour(&mut self)
        requires
            old(self).raw().instant() + 3600 <= max_instant(),
        ensures
            *final(self) == old(self).shifted(3600),
            final(self).raw().is_valid(),
            final(self).elapsed() == old(self).elapsed() + 3600,
            final(self).wf() <==> 0 <= old(self).elapsed() + 3600 < SECONDS_IN_YEAR,
    {
        proof {
            use_type_invariant(&self.0);
            lemma_instant_within_year(self.0);
        }
        let next: DateTime = plus_seconds(self.0, 3600);
        proof {
            lemma_shifted_is(self.0, next, 3600);
            lemma_year_is_elapsed_range(RelTime(next));
        }
        self.0 = next;
    }

    /// One minute more.
    pub fn add_minute(&mut self)
        requires
            old(self).raw().instant() + 60 <= max_instant(),
        ensures
            *final(self) == old(self).shifted(60),
            final(self).raw().is_valid(),
            final(self).elapsed() == old(self).elapsed() + 60,
            final(self).wf() <==> 0 <= old(self).elapsed() + 60 < SECONDS_IN_YEAR,
    {
        proof {
            use_type_invariant(&self.0);
            lemma_instant_within_year(self.0);
        }
        let next: DateTime = plus_seconds(self.0, 60);
        proof {
            lemma_shifted_is(self.0, next, 60);
            lemma_year_is_elapsed_range(RelTime(next));
        }
        self.0 = next;
    }

    /// One second more.
    pub fn add_second(&mut self)
        requires
            old(self).raw().instant() + 1 <= max_instant(),
        ensures
            *final(self) == old(self).shifted(1),
            final(self).raw().is_valid(),
            final(self).elapsed() == old(self).elapsed() + 1,
            final(self).wf() <==> 0 <= old(self).elapsed() + 1 < SECONDS_IN_YEAR,
    {
        proof {
            use_type_invariant(&self.0);
            lemma_instant_within_year(self.0);
        }
        let next: DateTime = plus_seconds(self.0, 1);
        proof {
            lemma_shifted_is(self.0, next, 1);
            lemma_year_is_elapsed_range(RelTime(next));
        }
        self.0 = next;
    }

    /// One hour less.
    pub fn sub_hour(&mut self)
        requires
            min_instant() <= old(self).raw().instant() - 3600,
        ensures
            *final(self) == old(self).shifted(-3600),
            final(self).raw().is_valid(),
            final(self).elapsed() == old(self).elapsed() - 3600,
            final(self).wf() <==> 0 <= old(self).elapsed() - 3600 < SECONDS_IN_YEAR,
    {
        proof {
            use_type_invariant(&self.0);
            lemma_instant_within_year(self.0);
        }
        let next: DateTime = minus_seconds(self.0, 3600);
        proof {
            lemma_shifted_is(self.0, next, -3600);
            lemma_year_is_elapsed_range(RelTime(next));
        }
        self.0 = next;
    }

    /// One minute less.
    pub fn sub_minute(&mut self)
        requires
            min_instant() <= old(self).raw().instant() - 60,
        ensures
            *final(self) == old(self).shifted(-60),
            final(self).raw().is_valid(),
            final(self).elapsed() == old(self).elapsed() - 60,
            final(self).wf() <==> 0 <= old(self).elapsed() - 60 < SECONDS_IN_YEAR,
    {
        proof {
            use_type_invariant(&self.0);
            lemma_instant_within_year(self.0);
        }
        let next: DateTime = minus_seconds(self.0, 60);
        proof {
            lemma_shifted_is(self.0, next, -60);
            lemma_year_is_elapsed_range(RelTime(next));
        }
        self.0 = next;
    }

    /// One second less.
    pub fn sub_second(&mut self)
        requires
            min_instant() <= old(self).raw().instant() - 1,
        ensures
            *final(self) == old(self).shifted(-1),
            final(self).raw().is_valid(),
            final(self).elapsed() == old(self).elapsed() - 1,
            final(self).wf() <==> 0 <= old(self).elapsed() - 1 < SECONDS_IN_YEAR,
    {
        proof {
            use_type_invariant(&self.0);
            lemma_instant_within_year(self.0);
        }
        let next: DateTime = minus_seconds(self.0, 1);
        proof {
            lemma_shifted_is(self.0, next, -1);
            lemma_year_is_elapsed_range(RelTime(next));
        }
        self.0 = next;
    }
}

/// An elapsed time and the timestamp that stands for it name each other.
pub proof fn lemma_raw_names_elapsed_time(t: RelTime, dt: DateTime)
    ensures
        RelTime::from_raw(dt).raw() == dt,
        RelTime::from_raw(t.raw()) == t,
{
}

/// The epoch is a timestamp of the reference year, and no time has elapsed
/// at it.
pub proof fn lemma_epoch()
    ensures
        epoch().is_valid(),
        epoch().spec_year() == REFERENCE_YEAR,
        epoch().second_of_year() == 0,
        epoch().spec_nanosecond() == 0,
        epoch().instant() == epoch_instant(),
{
    DateTime::lemma_spec_new(REFERENCE_YEAR, 1, 0, 0, 0, 0);
}

/// A timestamp lies in the reference year exactly when the time elapsed
/// up to it is at least nothing and less than that year; the time elapsed is
/// then the timestamp's second of the year.
pub proof fn lemma_year_is_elapsed_range(t: RelTime)
    requires
        t.raw().is_valid(),
    ensures
        t.wf() <==> 0 <= t.elapsed() < SECONDS_IN_YEAR,
        t.wf() ==> t.elapsed() == t.raw().second_of_year(),
{
    let year = t.raw().spec_year();
    lemma_instant_within_year(t.raw());
    lemma_year_length(REFERENCE_YEAR as int);
    if year > REFERENCE_YEAR {
        lemma_years_ordered(REFERENCE_YEAR + 1, year);
    }
    if year < REFERENCE_YEAR {
        lemma_years_ordered(year + 1, REFERENCE_YEAR as int);
    }
}

/// From a timestamp of the reference year the calendar reaches further
/// than an hour, both ways: every step can be taken.
pub proof fn lemma_reference_year_has_room(t: RelTime)
    requires
        t.raw().is_valid(),
        t.wf(),
    ensures
        min_instant() <= t.raw().instant() - 3600,
        t.raw().instant() + 3600 <= max_instant(),
{
    lemma_instant_within_year(t.raw());
    lemma_years_ordered(MIN_YEAR as int, REFERENCE_YEAR as int);
    lemma_years_ordered(REFERENCE_YEAR + 1, MAX_YEAR + 1);
}

/// What `count` times one second more makes of `t`.
pub open spec fn seconds_added(t: RelTime, count: nat) -> RelTime
    decreases count,
{
    if count == 0 {
        t
    } else {
        seconds_added(t, (count - 1) as nat).shifted(1)
    }
}

/// Single seconds added to an elapsed time make what one step of their
/// number makes, as long as the reference year is not left.
pub proof fn lemma_seconds_add_up(t: RelTime, count: nat)
    requires
        t.raw().is_valid(),
        t.wf(),
        t.elapsed() + count < SECONDS_IN_YEAR,
    ensures
        seconds_added(t, count) == t.shifted(count as int),
        seconds_added(t, count).raw().is_valid(),
        seconds_added(t, count).wf(),
        seconds_added(t, count).elapsed() == t.elapsed() + count,
    decreases count,
{
    lemma_year_is_elapsed_range(t);
    lemma_shifted_within_year(t.raw(), count as int);
    if count == 0 {
        lemma_shifted_is(t.raw(), t.raw(), 0);
    } else {
        let before = (count - 1) as nat;
        lemma_seconds_add_up(t, before);
        let reached = seconds_added(t, before);
        lemma_shifted_within_year(t.raw(), before as int);
        lemma_year_is_elapsed_range(reached);
        lemma_shifted_within_year(reached.raw(), 1);
        lemma_shifted_is(t.raw(), reached.raw().shifted(1), count as int);
    }
}

/// Sixty times one second more is one minute more, as long as the
/// reference year is not left: the same elapsed time, and so the same
/// elapsed seconds, sixty more than before.
pub proof fn lemma_sixty_seconds_are_a_minute(t: RelTime)
    requires
        t.raw().is_valid(),
        t.wf(),
        t.elapsed() + 60 < SECONDS_IN_YEAR,
    ensures
        seconds_added(t, 60) == t.shifted(60),
        seconds_added(t, 60).elapsed() == t.shifted(60).elapsed(),
        t.shifted(60).elapsed() == t.elapsed() + 60,
        t.shifted(60).wf(),
{
    lemma_seconds_add_up(t, 60);
}

} // verus!
