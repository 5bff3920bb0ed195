//! Publication dates: reading an ISO 8601 timestamp through the `time` crate
//! and writing the calendar date as "<day> <month> <year>".

use vstd::prelude::*;
use crate::text::{chars_of, string_from_chars};

verus! {

/// The calendar date (year, month number, day of month) of the timestamp that
/// `time::OffsetDateTime::parse` reads from `s` in the default ISO 8601
/// format, or `None` where it rejects `s`.
pub uninterp spec fn iso8601_calendar_date(s: Seq<char>) -> Option<(i32, u8, u8)>;

/// Relies on `time::OffsetDateTime::parse` with `Iso8601::DEFAULT` and on
/// `OffsetDateTime::to_calendar_date`, whose month is a `time::Month`
/// (numbered 1 to 12) and whose day lies in 1 to 31.
#[verifier::external_body]
fn parse_calendar_date(s: &str) -> (r: Option<(i32, u8, u8)>)
    ensures
        r == iso8601_calendar_date(s@),
        r matches Some((y, m, d)) ==> 1 <= m <= 12 && 1 <= d <= 31,
{
    let format = time::format_description::well_known::Iso8601::DEFAULT;
    match time::OffsetDateTime::parse(s, &format) {
        Ok(t) => {
            let (year, month, day) = t.to_calendar_date();
            Some((year, month as u8, day))
        },
        Err(_) => None,
    }
}

/// The English name of month `m` (1 is January), as `time::Month` displays it.
pub open spec fn month_name(m: u8) -> Seq<char> {
    if m == 1 {
        "January"@
    } else if m == 2 {
        "February"@
    } else if m == 3 {
        "March"@
    } else if m == 4 {
        "April"@
    } else if m == 5 {
        "May"@
    } else if m == 6 {
        "June"@
    } else if m == 7 {
        "July"@
    } else if m == 8 {
        "August"@
    } else if m == 9 {
        "September"@
    } else if m == 10 {
        "October"@
    } else if m == 11 {
        "November"@
    } else {
        "December"@
    }
}

/// The character of the decimal digit `d`.
pub open spec fn digit_char(d: nat) -> char {
    seq!['0', '1', '2', '3', '4', '5', '6', '7', '8', '9'][d as int]
}

/// The decimal digits of `n`, without leading zeros.
pub open spec fn decimal(n: nat) -> Seq<char>
    decreases n,
{
    if n < 10 {
        seq![digit_char(n)]
    } else {
        decimal(n / 10).push(digit_char(n % 10))
    }
}

/// The decimal text of the integer `n`, with a leading `-` when negative.
pub open spec fn signed_decimal(n: int) -> Seq<char> {
    if n < 0 {
        seq!['-'] + decimal((-n) as nat)
    } else {
        decimal(n as nat)
    }
}

/// "<day> <month> <year>", as in "7 March 2024".
pub open spec fn date_text(year: i32, month: u8, day: u8) -> Seq<char> {
    decimal(day as nat) + seq![' '] + month_name(month) + seq![' '] + signed_decimal(year as int)
}

/// The publication date that a registry timestamp reads as: `date_text` of
/// its calendar date, or `None` where the timestamp is not ISO 8601.
pub open spec fn published_date(s: Seq<char>) -> Option<Seq<char>> {
    match iso8601_calendar_date(s) {
        Some((y, m, d)) => Some(date_text(y, m, d)),
        None => None,
    }
}

fn digit_char_of(d: u64) -> (r: char)
    requires
        d < 10,
    ensures
        r == digit_char(d as nat),
{
    match d {
        0 => '0',
        1 => '1',
        2 => '2',
        3 => '3',
        4 => '4',
        5 => '5',
        6 => '6',
        7 => '7',
        8 => '8',
        _ => '9',
    }
}

fn push_decimal(out: &mut Vec<char>, n: u64)
    ensures
        final(out)@ == old(out)@ + decimal(n as nat),
    decreases n,
{
    if n >= 10 {
        push_decimal(out, n / 10);
    }
    out.push(digit_char_of(n % 10));
    assert(decimal(n as nat) == if n < 10 {
        seq![digit_char(n as nat)]
    } else {
        decimal((n / 10) as nat).push(digit_char((n % 10) as nat))
    });
}

fn month_chars(m: u8) -> (r: Vec<char>)
    ensures
        r@ == month_name(m),
{
    if m == 1 {
        chars_of("January")
    } else if m == 2 {
        chars_of("February")
    } else if m == 3 {
        chars_of("March")
    } else if m == 4 {
        chars_of("April")
    } else if m == 5 {
        chars_of("May")
    } else if m == 6 {
        chars_of("June")
    } else if m == 7 {
        chars_of("July")
    } else if m == 8 {
        chars_of("August")
    } else if m == 9 {
        chars_of("September")
    } else if m == 10 {
        chars_of("October")
    } else if m == 11 {
        chars_of("November")
    } else {
        chars_of("December")
    }
}

/// Writes a calendar date as "<day> <month> <year>".
pub fn format_date(year: i32, month: u8, day: u8) -> (r: String)
    ensures
        r@ == date_text(year, month, day),
{
    let mut out: Vec<char> = Vec::new();
    push_decimal(&mut out, day as u64);
    out.push(' ');
    let name = month_chars(month);
    let mut i: usize = 0;
    let ghost start = out@;
    while i < name.len()
        invariant
            i <= name@.len(),
            out@ == start + name@.take(i as int),
        decreases name.len() - i,
    {
        out.push(name[i]);
        i = i + 1;
    }
    assert(name@.take(name@.len() as int) == name@);
    out.push(' ');
    if year < 0 {
        out.push('-');
        let magnitude: u64 = (0 - (year as i64)) as u64;
        push_decimal(&mut out, magnitude);
    } else {
        push_decimal(&mut out, year as u64);
    }
    let r = string_from_chars(&out);
    assert(r@ =~= date_text(year, month, day));
    r
}

/// The publication date shown for a registry timestamp: the calendar date
/// written as "<day> <month> <year>", or `None` where the `time` crate does
/// not read the text as an ISO 8601 timestamp.
pub fn publication_date(timestamp: &str) -> (r: Option<String>)
    ensures
        r is Some <==> iso8601_calendar_date(timestamp@) is Some,
        r matches Some(d) ==> published_date(timestamp@) == Some(d@),
{
    match parse_calendar_date(timestamp) {
        Some((year, month, day)) => Some(format_date(year, month, day)),
        None => None,
    }
}

} // verus!
