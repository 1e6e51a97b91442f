//! Bounds of a sales listing by date. Sales are stamped `dd-mm-yy HH:MM`;
//! a listing between two calendar days runs from the first minute of the
//! first day to the last minute of the second.

use vstd::prelude::*;

verus! {

/// Why a date range was refused.
#[derive(PartialEq, Eq, Structural, Clone, Copy, Debug)]
pub enum DateRangeError {
    /// The first day is not a `dd-mm-yyyy` calendar date.
    InvalidStart,
    /// The last day is not a `dd-mm-yyyy` calendar date.
    InvalidEnd,
}

/// A calendar day as (day, month, year).
pub type DayMonthYear = (u32, u32, i32);

/// The calendar day, as (day, month, year), that `s` denotes when read in
/// the `dd-mm-yyyy` pattern, if it denotes one.
pub uninterp spec fn calendar_date_of(s: Seq<char>) -> Option<(int, int, int)>;

/// Relies on `chrono::NaiveDate::parse_from_str` with the pattern
/// `%d-%m-%Y`, and on `Datelike::{day, month, year}` of the parsed date,
/// whose day lies in 1..=31 and month in 1..=12.
#[verifier::external_body]
fn parse_day_month_year(s: &str) -> (r: Option<DayMonthYear>)
    ensures
        match r {
            None => calendar_date_of(s@) is None,
            Some(d) => {
                &&& calendar_date_of(s@) == Some((d.0 as int, d.1 as int, d.2 as int))
                &&& 1 <= d.0 <= 31
                &&& 1 <= d.1 <= 12
            },
        },
{
    match chrono::NaiveDate::parse_from_str(s, "%d-%m-%Y") {
        Ok(d) => Some(
            (chrono::Datelike::day(&d), chrono::Datelike::month(&d), chrono::Datelike::year(&d)),
        ),
        Err(_) => None,
    }
}

/// The decimal digit `d` as a character.
pub open spec fn digit_char(d: int) -> char {
    if d == 0 {
        '0'
    } else if d == 1 {
        '1'
    } else if d == 2 {
        '2'
    } else if d == 3 {
        '3'
    } else if d == 4 {
        '4'
    } else if d == 5 {
        '5'
    } else if d == 6 {
        '6'
    } else if d == 7 {
        '7'
    } else if d == 8 {
        '8'
    } else {
        '9'
    }
}

/// `n` (below a hundred) written with two digits.
pub open spec fn two_digits(n: int) -> Seq<char> {
    seq![digit_char(n / 10), digit_char(n % 10)]
}

/// The day written `dd-mm-yy`, the year taken modulo a hundred.
pub open spec fn short_date(day: int, month: int, year: int) -> Seq<char> {
    two_digits(day) + seq!['-'] + two_digits(month) + seq!['-'] + two_digits(year % 100)
}

fn digit_str(d: u32) -> (r: &'static str)
    requires
        d < 10,
    ensures
        r@ == seq![digit_char(d as int)],
{
    proof {
        reveal_strlit("0");
        reveal_strlit("1");
        reveal_strlit("2");
        reveal_strlit("3");
        reveal_strlit("4");
        reveal_strlit("5");
        reveal_strlit("6");
        reveal_strlit("7");
        reveal_strlit("8");
        reveal_strlit("9");
    }
    match d {
        0 => "0",
        1 => "1",
        2 => "2",
        3 => "3",
        4 => "4",
        5 => "5",
        6 => "6",
        7 => "7",
        8 => "8",
        _ => "9",
    }
}

fn push_two_digits(s: &mut String, n: u32)
    requires
        n < 100,
    ensures
        final(s)@ == old(s)@ + two_digits(n as int),
{
    s.append(digit_str(n / 10));
    s.append(digit_str(n % 10));
    proof {
        assert(final(s)@ =~= old(s)@ + two_digits(n as int));
    }
}

/// The year modulo a hundred, as a printed two-digit year.
fn year_of_century(year: i32) -> (r: u32)
    ensures
        r as int == year as int % 100,
{
    if year >= 0 {
        year as u32 % 100
    } else {
        let back: u32 = ((-(year as i64)) as u64 % 100) as u32;
        if back == 0 {
            proof {
                assert(year as int % 100 == 0) by (nonlinear_arith)
                    requires
                        (-year) % 100 == 0,
                ;
            }
            0
        } else {
            proof {
                assert(year as int % 100 == 100 - back) by (nonlinear_arith)
                    requires
                        back == (-year) % 100,
                        back != 0,
                ;
            }
            100 - back
        }
    }
}

/// The stamp of `day` at the minute `time`.
pub open spec fn bound_stamp(day: (int, int, int), time: Seq<char>) -> Seq<char> {
    short_date(day.0, day.1, day.2) + time
}

/// The stamps that bound a listing from day `first` to day `last`, both
/// included: `dd-mm-yy 00:00` and `dd-mm-yy 23:59`.
pub fn day_span(first: DayMonthYear, last: DayMonthYear) -> (r: (String, String))
    requires
        first.0 <= 31 && first.1 <= 12,
        last.0 <= 31 && last.1 <= 12,
    ensures
        r.0@ == short_date(first.0 as int, first.1 as int, first.2 as int) + " 00:00"@,
        r.1@ == short_date(last.0 as int, last.1 as int, last.2 as int) + " 23:59"@,
{
    let mut from = String::new();
    push_two_digits(&mut from, first.0);
    from.append("-");
    push_two_digits(&mut from, first.1);
    from.append("-");
    push_two_digits(&mut from, year_of_century(first.2));
    from.append(" 00:00");
    let mut to = String::new();
    push_two_digits(&mut to, last.0);
    to.append("-");
    push_two_digits(&mut to, last.1);
    to.append("-");
    push_two_digits(&mut to, year_of_century(last.2));
    to.append(" 23:59");
    proof {
        reveal_strlit("-");
        assert(from@ =~= short_date(first.0 as int, first.1 as int, first.2 as int) + " 00:00"@);
        assert(to@ =~= short_date(last.0 as int, last.1 as int, last.2 as int) + " 23:59"@);
    }
    (from, to)
}

/// The stamps bounding the sales from day `start` to day `end`, both given
/// as `dd-mm-yyyy`.
pub fn sales_date_bounds(start: &str, end: &str) -> (r: Result<(String, String), DateRangeError>)
    ensures
        calendar_date_of(start@) is None ==> r == Err::<(String, String), DateRangeError>(
            DateRangeError::InvalidStart,
        ),
        calendar_date_of(start@) is Some && calendar_date_of(end@) is None ==> r == Err::<
            (String, String),
            DateRangeError,
        >(DateRangeError::InvalidEnd),
        calendar_date_of(start@) is Some && calendar_date_of(end@) is Some ==> (r matches Ok(bounds)
            && bounds.0@ == bound_stamp(calendar_date_of(start@)->Some_0, " 00:00"@) && bounds.1@
            == bound_stamp(calendar_date_of(end@)->Some_0, " 23:59"@)),
{
    let first = match parse_day_month_year(start) {
        Some(d) => d,
        None => {
            return Err(DateRangeError::InvalidStart);
        },
    };
    let last = match parse_day_month_year(end) {
        Some(d) => d,
        None => {
            return Err(DateRangeError::InvalidEnd);
        },
    };
    Ok(day_span(first, last))
}

} // verus!
