//! Instants and calendar dates.

use vstd::prelude::*;
use vstd::string::*;

use crate::text::{
    all_digits, decimal, decimal_reads_back, digits_value, integer_value, is_ascii_digit, leading_zeros,
    number,
};

verus! {

/// An instant: nanoseconds since the beginning of 1970, in UTC.
pub type Instant = i128;

/// How an instant is written in RFC 3339, in UTC; nothing for one outside the years
/// that can be written.
pub uninterp spec fn rfc3339_text(t: Instant) -> Option<Seq<char>>;

/// `OffsetDateTime::format` with `Rfc3339`, of the instant in UTC.
#[verifier::external_body]
pub(crate) fn format_instant(t: Instant) -> (r: Option<String>)
    ensures
        crate::text::opt_text(r) == rfc3339_text(t),
{
    let at = time::OffsetDateTime::from_unix_timestamp_nanos(t).ok()?;
    at.format(&time::format_description::well_known::Rfc3339).ok()
}

/// The instant that a text in RFC 3339 stands for.
pub uninterp spec fn rfc3339_instant(s: Seq<char>) -> Option<Instant>;

/// An instant whose whole seconds fit in sixty-four bits.
pub open spec fn is_near(t: Instant) -> bool {
    -9_223_372_036_854_775_808_000_000_000 <= t < 9_223_372_036_854_775_808_000_000_000
}

/// `OffsetDateTime::parse` with `Rfc3339`: the instant, whatever offset it is written
/// in. `OffsetDateTime::unix_timestamp_nanos` is made of a 64-bit number of seconds and
/// the nanoseconds of one second.
#[verifier::external_body]
pub(crate) fn parse_instant(s: &str) -> (r: Option<Instant>)
    ensures
        r == rfc3339_instant(s@),
        r matches Some(t) ==> is_near(t),
{
    let at = time::OffsetDateTime::parse(s, &time::format_description::well_known::Rfc3339).ok()?;
    Some(at.unix_timestamp_nanos())
}

/// How an instant is written out with its offset, in UTC; nothing for one outside the years
/// that are kept.
pub uninterp spec fn offset_text(t: Instant) -> Option<Seq<char>>;

/// `OffsetDateTime::to_string`, of the instant in UTC.
#[verifier::external_body]
pub(crate) fn write_instant(t: Instant) -> (r: Option<String>)
    ensures
        crate::text::opt_text(r) == offset_text(t),
{
    time::OffsetDateTime::from_unix_timestamp_nanos(t).ok().map(|at| at.to_string())
}

/// An instant as it is shown; nothing where it cannot be written.
pub open spec fn shown(t: Instant) -> Seq<char> {
    match rfc3339_text(t) {
        Some(s) => s,
        None => Seq::empty(),
    }
}

/// An instant as it is shown.
pub fn show(t: Instant) -> (r: String)
    ensures
        r@ == shown(t),
{
    match format_instant(t) {
        Some(s) => s,
        None => String::new(),
    }
}

/// An instant written out with its offset; nothing where it cannot be.
pub open spec fn spelled(t: Instant) -> Seq<char> {
    match offset_text(t) {
        Some(s) => s,
        None => Seq::empty(),
    }
}

/// Writes an instant out with its offset.
pub fn spell(t: Instant) -> (r: String)
    ensures
        r@ == spelled(t),
{
    match write_instant(t) {
        Some(s) => s,
        None => String::new(),
    }
}

/// A day of the proleptic Gregorian calendar.
#[derive(Clone, Copy, Debug, PartialEq, Eq, Structural)]
pub struct CalendarDate {
    pub year: i32,
    pub month: u8,
    pub day: u8,
}

pub open spec fn is_leap(year: int) -> bool {
    year % 4 == 0 && (year % 100 != 0 || year % 400 == 0)
}

pub open spec fn days_in(year: int, month: int) -> int {
    if month == 2 {
        if is_leap(year) {
            29
        } else {
            28
        }
    } else if month == 4 || month == 6 || month == 9 || month == 11 {
        30
    } else {
        31
    }
}

/// A date that the calendar has, in the years that are kept.
pub open spec fn is_date(year: int, month: int, day: int) -> bool {
    &&& -9999 <= year <= 9999
    &&& 1 <= month <= 12
    &&& 1 <= day <= days_in(year, month)
}

/// `Month::try_from` and `Date::from_calendar_date`: whether the calendar has the
/// date.
#[verifier::external_body]
pub(crate) fn calendar_has(year: i32, month: u8, day: u8) -> (r: bool)
    ensures
        r == is_date(year as int, month as int, day as int),
{
    match time::Month::try_from(month) {
        Ok(m) => time::Date::from_calendar_date(year, m, day).is_ok(),
        Err(_) => false,
    }
}

/// A number in decimal, filled up with zeros to a width.
pub open spec fn padded(n: nat, width: nat) -> Seq<char> {
    if decimal(n).len() < width {
        Seq::new((width - decimal(n).len()) as nat, |i: int| '0') + decimal(n)
    } else {
        decimal(n)
    }
}

/// A date as year, month and day, with a minus sign before a year below zero.
pub open spec fn date_text(year: int, month: int, day: int) -> Seq<char> {
    (if year < 0 {
        seq!['-'] + padded((-year) as nat, 4)
    } else {
        padded(year as nat, 4)
    }) + seq!['-'] + padded(month as nat, 2) + seq!['-'] + padded(day as nat, 2)
}

fn pad(n: u64, width: usize) -> (r: String)
    ensures
        r@ == padded(n as nat, width as nat),
{
    let digits = number(n);
    let have: usize = digits.as_str().unicode_len();
    let mut out = String::new();
    let mut i: usize = have;
    while i < width
        invariant
            have == digits@.len(),
            have <= i,
            have < width ==> i <= width,
            have >= width ==> i == have,
            out@ == Seq::new((i - have) as nat, |k: int| '0'),
        decreases width - i,
    {
        out.push('0');
        i = i + 1;
        assert(out@ =~= Seq::new((i - have) as nat, |k: int| '0'));
    }
    out.append(digits.as_str());
    assert(out@ =~= padded(n as nat, width as nat));
    out
}

/// A date as it is written.
pub fn show_date(d: CalendarDate) -> (r: String)
    requires
        is_date(d.year as int, d.month as int, d.day as int),
    ensures
        r@ == date_text(d.year as int, d.month as int, d.day as int),
{
    let mut out = String::new();
    if d.year < 0 {
        out.push('-');
        let y = pad((-d.year) as u64, 4);
        out.append(y.as_str());
    } else {
        let y = pad(d.year as u64, 4);
        out.append(y.as_str());
    }
    out.push('-');
    let m = pad(d.month as u64, 2);
    out.append(m.as_str());
    out.push('-');
    let day = pad(d.day as u64, 2);
    out.append(day.as_str());
    assert(out@ =~= date_text(d.year as int, d.month as int, d.day as int));
    out
}

/// A number filled up with zeros is made of that many digits, and they stand for that
/// number.
pub proof fn padded_reads_back(n: nat, width: nat)
    requires
        (width == 2 && n < 100) || (width == 4 && n < 10000),
    ensures
        padded(n, width).len() == width,
        all_digits(padded(n, width)),
        digits_value(padded(n, width)) == Some(n),
        integer_value(padded(n, width), true) == Some(n as int),
        integer_value(padded(n, width), false) == Some(n as int),
{
    decimal_reads_back(n);
    let zeros = Seq::new((width - decimal(n).len()) as nat, |i: int| '0');
    leading_zeros(zeros, decimal(n));
    let s = padded(n, width);
    assert(s =~= zeros + decimal(n));
    assert forall|i: int| 0 <= i < s.len() implies is_ascii_digit(#[trigger] s[i]) by {
        if i >= zeros.len() {
            assert(decimal(n)[i - zeros.len()] == s[i]);
        }
    }
    assert(is_ascii_digit(s[0]));
}

/// The days of the calendar: how many each month has, and which dates there are.
pub proof fn the_calendar_is_as_ever(year: int, month: int, day: int)
    ensures
        days_in(year, 1) == 31,
        days_in(year, 2) == (if is_leap(year) {
            29int
        } else {
            28
        }),
        days_in(year, 3) == 31,
        days_in(year, 4) == 30,
        days_in(year, 5) == 31,
        days_in(year, 6) == 30,
        days_in(year, 7) == 31,
        days_in(year, 8) == 31,
        days_in(year, 9) == 30,
        days_in(year, 10) == 31,
        days_in(year, 11) == 30,
        days_in(year, 12) == 31,
        is_leap(4 * year) <==> year % 25 != 0 || year % 100 == 0,
        is_leap(year) ==> year % 4 == 0,
        is_date(year, month, day) <==> -9999 <= year <= 9999 && 1 <= month <= 12 && 1 <= day
            <= days_in(year, month),
{
}

/// A date is written as year, month and day with a hyphen between each two, and each reads back.
pub proof fn dates_read_back(year: int, month: int, day: int)
    requires
        is_date(year, month, day),
        year >= 0,
    ensures
        date_text(year, month, day).len() == 10,
        date_text(year, month, day)[4] == '-',
        date_text(year, month, day)[7] == '-',
        digits_value(date_text(year, month, day).subrange(0, 4)) == Some(year as nat),
        digits_value(date_text(year, month, day).subrange(5, 7)) == Some(month as nat),
        digits_value(date_text(year, month, day).subrange(8, 10)) == Some(day as nat),
{
    padded_reads_back(year as nat, 4);
    padded_reads_back(month as nat, 2);
    padded_reads_back(day as nat, 2);
    let t = date_text(year, month, day);
    assert(t.subrange(0, 4) =~= padded(year as nat, 4));
    assert(t.subrange(5, 7) =~= padded(month as nat, 2));
    assert(t.subrange(8, 10) =~= padded(day as nat, 2));
}

/// A year before the first is written as the one as far behind it, with a minus in front.
pub proof fn early_dates_have_a_minus(year: int, month: int, day: int)
    requires
        year < 0,
    ensures
        date_text(year, month, day) == seq!['-'] + date_text(-year, month, day),
{
    assert(date_text(year, month, day) =~= seq!['-'] + date_text(-year, month, day));
}

/// A time is shown as it is written out, and not at all where it cannot be.
pub proof fn times_are_shown_or_left_out(t: Instant)
    ensures
        rfc3339_text(t) matches Some(s) ==> shown(t) == s,
        rfc3339_text(t) is None ==> shown(t).len() == 0,
        offset_text(t) matches Some(s) ==> spelled(t) == s,
        offset_text(t) is None ==> spelled(t).len() == 0,
{
}

/// A time is near where its seconds fit in sixty-four bits.
pub proof fn near_times_fit_in_seconds(t: Instant)
    ensures
        is_near(t) <==> i64::MIN <= t as int / 1_000_000_000 <= i64::MAX,
{
}

} // verus!
