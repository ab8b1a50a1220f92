//! Points in time and spans of time, and how they are written.

use std::fmt::Write;
use vstd::prelude::*;
use vstd::string::*;
use crate::text::{digit, digit_char, nat_text, push_char, push_nat, Comparison};

verus! {

/// A span of time: whole seconds and the nanoseconds of the second begun.
#[derive(Clone, Copy, Debug)]
pub struct Duration {
    secs: u64,
    nanos: u32,
}

pub const NANOS_PER_SEC: u32 = 1_000_000_000;

pub const MICROS_PER_SEC: u128 = 1_000_000;

pub const MICROS_PER_MINUTE: u128 = 60_000_000;

pub const MICROS_PER_HOUR: u128 = 3_600_000_000;

pub const MICROS_PER_DAY: u128 = 86_400_000_000;

pub const MICROS_PER_YEAR: u128 = 31_536_000_000_000;

impl View for Duration {
    type V = nat;

    /// The span in nanoseconds.
    closed spec fn view(&self) -> nat {
        (self.secs as nat) * 1_000_000_000 + (self.nanos as nat)
    }
}

impl Duration {
    #[verifier::type_invariant]
    spec fn well_formed(self) -> bool {
        self.nanos < NANOS_PER_SEC
    }

    /// A span of `secs` seconds and `nanos` nanoseconds, where `nanos` is
    /// less than a second.
    pub fn new(secs: u64, nanos: u32) -> (d: Duration)
        requires
            nanos < NANOS_PER_SEC,
        ensures
            d@ == secs * 1_000_000_000 + nanos,
    {
        Duration { secs, nanos }
    }

    /// A span of whole seconds.
    pub fn from_secs(secs: u64) -> (d: Duration)
        ensures
            d@ == secs * 1_000_000_000,
    {
        Duration { secs, nanos: 0 }
    }

    /// A span of whole milliseconds.
    pub fn from_millis(millis: u64) -> (d: Duration)
        ensures
            d@ == millis * 1_000_000,
    {
        let rest: u32 = (millis % 1000) as u32;
        Duration { secs: millis / 1000, nanos: rest * 1_000_000 }
    }

    /// A span of whole microseconds.
    pub fn from_micros(micros: u64) -> (d: Duration)
        ensures
            d@ == micros * 1_000,
    {
        let rest: u32 = (micros % 1_000_000) as u32;
        Duration { secs: micros / 1_000_000, nanos: rest * 1000 }
    }

    /// The whole seconds of the span.
    pub fn as_secs(&self) -> (s: u64)
        ensures
            s == self@ / 1_000_000_000,
    {
        proof {
            use_type_invariant(self);
        }
        self.secs
    }

    /// The nanoseconds of the second begun.
    pub fn subsec_nanos(&self) -> (n: u32)
        ensures
            n == self@ % 1_000_000_000,
    {
        proof {
            use_type_invariant(self);
        }
        self.nanos
    }

    /// The whole microseconds of the span.
    pub fn as_micros(&self) -> (m: u128)
        ensures
            m == self@ / 1000,
    {
        proof {
            use_type_invariant(self);
        }
        (self.secs as u128) * 1_000_000 + ((self.nanos / 1000) as u128)
    }

    /// Compares two spans by their length.
    pub fn compare(&self, other: &Duration) -> (r: Comparison)
        ensures
            r == int_order(self@ as int, other@ as int),
    {
        proof {
            use_type_invariant(self);
            use_type_invariant(other);
        }
        if self.secs < other.secs {
            Comparison::Less
        } else if self.secs > other.secs {
            Comparison::Greater
        } else if self.nanos < other.nanos {
            Comparison::Less
        } else if self.nanos > other.nanos {
            Comparison::Greater
        } else {
            Comparison::Equal
        }
    }

    /// The span as text.
    pub fn to_string(&self) -> (s: String)
        ensures
            s@ == duration_text(self@ / 1000),
    {
        duration_format(self)
    }
}

/// The order of two integers.
pub open spec fn int_order(a: int, b: int) -> Comparison {
    if a < b {
        Comparison::Less
    } else if a > b {
        Comparison::Greater
    } else {
        Comparison::Equal
    }
}

/// A number below a hundred in two digits.
pub open spec fn two_digits(n: nat) -> Seq<char> {
    seq![digit_char((n / 10) as int), digit_char((n % 10) as int)]
}

/// The last `width` digits of `n`, with zeros in front where `n` has fewer.
pub open spec fn padded(n: nat, width: nat) -> Seq<char>
    decreases width,
{
    if width == 0 {
        Seq::empty()
    } else {
        padded(n / 10, (width - 1) as nat).push(digit_char((n % 10) as int))
    }
}

/// The digits behind the decimal point for `n` parts in ten to the
/// `width`, without the zeros at the end.
pub open spec fn trimmed_fraction(n: nat, width: nat) -> Seq<char>
    decreases width,
{
    if width == 0 {
        Seq::empty()
    } else if n % 10 == 0 {
        trimmed_fraction(n / 10, (width - 1) as nat)
    } else {
        padded(n, width)
    }
}

/// A span of `micros` microseconds as text. Under a minute: the seconds,
/// with up to six decimals where the span is not a whole number of seconds.
/// From a minute on the part of a second is left out and the span is
/// written as minutes and seconds, then as hours, minutes and seconds, then
/// with the days in front, then with the years of 365 days in front of
/// those.
pub open spec fn duration_text(micros: nat) -> Seq<char> {
    let years = micros / (MICROS_PER_YEAR as nat);
    let in_year = micros % (MICROS_PER_YEAR as nat);
    let days = in_year / (MICROS_PER_DAY as nat);
    let in_day = in_year % (MICROS_PER_DAY as nat);
    let hours = in_day / (MICROS_PER_HOUR as nat);
    let in_hour = in_day % (MICROS_PER_HOUR as nat);
    let minutes = in_hour / (MICROS_PER_MINUTE as nat);
    let in_minute = in_hour % (MICROS_PER_MINUTE as nat);
    let seconds = in_minute / (MICROS_PER_SEC as nat);
    let fraction = in_minute % (MICROS_PER_SEC as nat);
    let clock = nat_text(hours) + seq![':'] + two_digits(minutes) + seq![':'] + two_digits(seconds);
    if years > 0 {
        nat_text(years) + seq!['y'] + nat_text(days) + seq!['d'] + clock
    } else if days > 0 {
        nat_text(days) + seq!['d'] + clock
    } else if hours > 0 {
        clock
    } else if minutes > 0 {
        nat_text(minutes) + seq![':'] + two_digits(seconds)
    } else if fraction == 0 {
        nat_text(seconds)
    } else {
        nat_text(seconds) + seq!['.'] + trimmed_fraction(fraction, 6)
    }
}

fn push_two_digits(out: &mut String, n: u128)
    requires
        n < 100,
    ensures
        final(out)@ == old(out)@ + two_digits(n as nat),
{
    push_char(out, digit((n / 10) as u8));
    push_char(out, digit((n % 10) as u8));
}

fn push_padded(out: &mut String, n: u128, width: u8)
    ensures
        final(out)@ == old(out)@ + padded(n as nat, width as nat),
    decreases width,
{
    if width > 0 {
        push_padded(out, n / 10, width - 1);
        push_char(out, digit((n % 10) as u8));
    }
}

fn push_fraction(out: &mut String, n: u128, width: u8)
    ensures
        final(out)@ == old(out)@ + trimmed_fraction(n as nat, width as nat),
    decreases width,
{
    if width > 0 {
        if n % 10 == 0 {
            push_fraction(out, n / 10, width - 1);
        } else {
            push_padded(out, n, width);
        }
    }
}

fn push_clock(out: &mut String, hours: u128, minutes: u128, seconds: u128)
    requires
        minutes < 60,
        seconds < 60,
    ensures
        final(out)@ == old(out)@ + (nat_text(hours as nat) + seq![':'] + two_digits(
            minutes as nat,
        ) + seq![':'] + two_digits(seconds as nat)),
{
    push_nat(out, hours);
    push_char(out, ':');
    push_two_digits(out, minutes);
    push_char(out, ':');
    push_two_digits(out, seconds);
}

/// Writes a span of time in the shortest of the forms that holds it.
pub fn duration_format(d: &Duration) -> (s: String)
    ensures
        s@ == duration_text(d@ / 1000),
{
    let micros: u128 = d.as_micros();
    let years: u128 = micros / MICROS_PER_YEAR;
    let in_year: u128 = micros % MICROS_PER_YEAR;
    let days: u128 = in_year / MICROS_PER_DAY;
    let in_day: u128 = in_year % MICROS_PER_DAY;
    let hours: u128 = in_day / MICROS_PER_HOUR;
    let in_hour: u128 = in_day % MICROS_PER_HOUR;
    let minutes: u128 = in_hour / MICROS_PER_MINUTE;
    let in_minute: u128 = in_hour % MICROS_PER_MINUTE;
    let seconds: u128 = in_minute / MICROS_PER_SEC;
    let fraction: u128 = in_minute % MICROS_PER_SEC;
    let mut s = String::new();
    if years > 0 {
        push_nat(&mut s, years);
        push_char(&mut s, 'y');
        push_nat(&mut s, days);
        push_char(&mut s, 'd');
        push_clock(&mut s, hours, minutes, seconds);
    } else if days > 0 {
        push_nat(&mut s, days);
        push_char(&mut s, 'd');
        push_clock(&mut s, hours, minutes, seconds);
    } else if hours > 0 {
        push_clock(&mut s, hours, minutes, seconds);
    } else if minutes > 0 {
        push_nat(&mut s, minutes);
        push_char(&mut s, ':');
        push_two_digits(&mut s, seconds);
    } else if fraction == 0 {
        push_nat(&mut s, seconds);
    } else {
        push_nat(&mut s, seconds);
        push_char(&mut s, '.');
        push_fraction(&mut s, fraction, 6);
    }
    s
}

/// A point in time: the seconds since the start of 1970 in universal time,
/// the nanoseconds of the second begun, and the offset in seconds of the
/// local clock that the point is shown on.
pub ghost struct Instant {
    pub secs: int,
    pub nanos: int,
    pub offset: int,
}

/// The pattern that a time is written with: year, month and day, then
/// hour, minute and second, then the offset of the clock.
pub open spec fn time_pattern() -> Seq<char> {
    "%Y-%m-%d %H:%M:%S %z"@
}

/// The pattern that a time is written with.
pub fn pattern() -> (p: &'static str)
    ensures
        p@ == time_pattern(),
{
    "%Y-%m-%d %H:%M:%S %z"
}

/// The first second that the calendar has: the start of the year -262143.
pub const FIRST_SECOND: i64 = -8_334_601_228_800;

/// The last second that the calendar has: the end of the year 262142.
pub const LAST_SECOND: i64 = 8_210_266_876_799;

/// Whether the calendar has the instant `secs` seconds and `nanos`
/// nanoseconds after the start of 1970: the second lies in the years that
/// the calendar spans, and the nanoseconds are less than a second, or less
/// than two in the last second of a minute, where a leap second is counted
/// so.
pub open spec fn instant_exists(secs: int, nanos: int) -> bool {
    &&& FIRST_SECOND <= secs <= LAST_SECOND
    &&& 0 <= nanos < 2_000_000_000
    &&& (nanos < 1_000_000_000 || secs % 60 == 59)
}

/// Whether a clock can be `offset` seconds east of universal time: by less
/// than a day either way.
pub open spec fn offset_exists(offset: int) -> bool {
    -86_400 < offset < 86_400
}

/// What `chrono` writes with the pattern `pattern` for the instant `secs`
/// seconds and `nanos` nanoseconds after the start of 1970, on a clock
/// `offset` seconds east of universal time; `None` where `chrono` has no
/// such instant or no such offset.
pub uninterp spec fn time_text(secs: int, nanos: int, offset: int, pattern: Seq<char>) -> Option<
    Seq<char>,
>;

/// `chrono::DateTime::from_timestamp`, `chrono::FixedOffset::east_opt` and
/// `chrono::DateTime::format`: the instant is built, moved to the clock of
/// the given offset and written with the pattern. What comes back depends
/// on the three numbers and the pattern alone. Something comes back exactly
/// where `chrono` takes the timestamp (the day within the years -262143 to
/// 262142, the nanoseconds under a second, or under two in a second 59) and
/// the offset (under a day either way); with the one pattern that is let
/// in, writing does not fail.
#[verifier::external_body]
fn render_instant(secs: i64, nanos: u32, offset: i32, pattern: &str) -> (r: Option<String>)
    requires
        pattern@ == time_pattern(),
    ensures
        match r {
            Some(s) => time_text(secs as int, nanos as int, offset as int, pattern@) == Some(s@)
                && instant_exists(secs as int, nanos as int) && offset_exists(offset as int),
            None => time_text(secs as int, nanos as int, offset as int, pattern@) is None && !(
            instant_exists(secs as int, nanos as int) && offset_exists(offset as int)),
        },
{
    let utc = chrono::DateTime::from_timestamp(secs, nanos)?;
    let zone = chrono::FixedOffset::east_opt(offset)?;
    let mut text = String::new();
    write!(text, "{}", utc.with_timezone(&zone).format(pattern)).ok()?;
    Some(text)
}

/// A point in time, shown on a clock with a fixed offset from universal
/// time.
#[derive(Clone, Copy, Debug)]
pub struct Time {
    secs: i64,
    nanos: u32,
    offset: i32,
}

impl View for Time {
    type V = Instant;

    closed spec fn view(&self) -> Instant {
        Instant { secs: self.secs as int, nanos: self.nanos as int, offset: self.offset as int }
    }
}

impl Instant {
    /// Whether the calendar has this instant on this clock.
    pub open spec fn exists_in_calendar(self) -> bool {
        instant_exists(self.secs, self.nanos) && offset_exists(self.offset)
    }

    /// The instant as text, written with the pattern of times.
    pub open spec fn text(self) -> Seq<char> {
        time_text(self.secs, self.nanos, self.offset, time_pattern())->0
    }
}

/// The order of two instants: the earlier one first, whatever clocks they
/// are shown on.
pub open spec fn instant_order(a: Instant, b: Instant) -> Comparison {
    if a.secs != b.secs {
        int_order(a.secs, b.secs)
    } else {
        int_order(a.nanos, b.nanos)
    }
}

/// Whether `secs` is the last second of a minute.
fn ends_a_minute(secs: i64) -> (r: bool)
    ensures
        r == ((secs as int) % 60 == 59),
{
    if secs >= 0 {
        secs % 60 == 59
    } else {
        (-(secs + 1)) % 60 == 0
    }
}

impl Time {
    #[verifier::type_invariant]
    spec fn well_formed(self) -> bool {
        self@.exists_in_calendar()
    }

    /// The instant `secs` seconds and `nanos` nanoseconds after the start of
    /// 1970, on a clock `offset` seconds east of universal time, if the
    /// calendar has it.
    pub fn new(secs: i64, nanos: u32, offset: i32) -> (r: Option<Time>)
        ensures
            match r {
                Some(t) => t@ == (Instant {
                    secs: secs as int,
                    nanos: nanos as int,
                    offset: offset as int,
                }) && t@.exists_in_calendar(),
                None => !(instant_exists(secs as int, nanos as int) && offset_exists(
                    offset as int,
                )),
            },
    {
        if secs < FIRST_SECOND || secs > LAST_SECOND {
            return None;
        }
        if nanos >= 2_000_000_000 {
            return None;
        }
        if nanos >= NANOS_PER_SEC && !ends_a_minute(secs) {
            return None;
        }
        if offset <= -86_400 || offset >= 86_400 {
            return None;
        }
        Some(Time { secs, nanos, offset })
    }

    /// The seconds since the start of 1970.
    pub fn timestamp(&self) -> (s: i64)
        ensures
            s == self@.secs,
    {
        self.secs
    }

    /// The nanoseconds of the second begun.
    pub fn subsec_nanos(&self) -> (n: u32)
        ensures
            n == self@.nanos,
    {
        self.nanos
    }

    /// The offset of the clock in seconds east of universal time.
    pub fn offset(&self) -> (o: i32)
        ensures
            o == self@.offset,
    {
        self.offset
    }

    /// Compares two instants: the earlier one first.
    pub fn compare(&self, other: &Time) -> (r: Comparison)
        ensures
            r == instant_order(self@, other@),
    {
        if self.secs < other.secs {
            Comparison::Less
        } else if self.secs > other.secs {
            Comparison::Greater
        } else if self.nanos < other.nanos {
            Comparison::Less
        } else if self.nanos > other.nanos {
            Comparison::Greater
        } else {
            Comparison::Equal
        }
    }

    /// The instant as text.
    pub fn to_string(&self) -> (s: String)
        ensures
            self@.exists_in_calendar(),
            s@ == self@.text(),
    {
        proof {
            use_type_invariant(self);
        }
        match render_instant(self.secs, self.nanos, self.offset, pattern()) {
            Some(s) => s,
            None => unreached(),
        }
    }
}

} // verus!
