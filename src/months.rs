use chrono::Datelike;
use vstd::prelude::*;

verus! {

/// A calendar month: a year and a month number from 1 to 12.
#[derive(Clone, Copy, Debug, PartialEq, Eq, Structural)]
pub struct YearMonth {
    pub year: i32,
    pub month: u32,
}

/// Why a date stamp was refused.
#[derive(Clone, Copy, Debug, PartialEq, Eq, Structural)]
pub enum DateError {
    /// The first stamp does not read as `YYYYMMDD_HHMMSS`.
    BadStart,
    /// The second stamp does not read as `YYYYMMDD_HHMMSS`.
    BadEnd,
}

/// The year and month that chrono reads from the stamp `s` in the format
/// `%Y%m%d_%H%M%S`, or `None` where it refuses the text.
pub uninterp spec fn stamp_month(s: Seq<char>) -> Option<(int, int)>;

/// Relies on chrono's `NaiveDateTime::parse_from_str` with the format
/// `%Y%m%d_%H%M%S`, and on `Datelike::month` returning 1 to 12.
#[verifier::external_body]
fn read_stamp(s: &str) -> (r: Option<YearMonth>)
    ensures
        match r {
            Some(ym) => stamp_month(s@) == Some((ym.year as int, ym.month as int)) && 1
                <= ym.month <= 12,
            None => stamp_month(s@) is None,
        },
{
    match chrono::NaiveDateTime::parse_from_str(s, "%Y%m%d_%H%M%S") {
        Ok(t) => Some(YearMonth { year: t.year(), month: t.month() }),
        Err(_) => None,
    }
}

/// Relies on chrono's `Local::now`: the current year and month in the local
/// time zone, with the month from 1 to 12.
#[verifier::external_body]
fn local_month() -> (r: YearMonth)
    ensures
        1 <= r.month <= 12,
{
    let t = chrono::Local::now();
    YearMonth { year: t.year(), month: t.month() }
}

/// The whole calendar months from `start` to `end`, ignoring the day.
pub open spec fn months_spec(start: YearMonth, end: YearMonth) -> int {
    12 * (end.year - start.year) + (end.month - start.month)
}

/// The months from the stamp `start` to the stamp `end`, or to `now` where
/// there is no end stamp; an error where a stamp does not read.
pub open spec fn elapsed_spec(start: Seq<char>, end: Option<Seq<char>>, now: YearMonth) -> Result<
    int,
    DateError,
> {
    match stamp_month(start) {
        None => Err(DateError::BadStart),
        Some((sy, sm)) => match end {
            None => Ok(12 * (now.year - sy) + (now.month - sm)),
            Some(e) => match stamp_month(e) {
                None => Err(DateError::BadEnd),
                Some((ey, em)) => Ok(12 * (ey - sy) + (em - sm)),
            },
        },
    }
}

/// The characters of an optional stamp.
pub open spec fn text_of(o: Option<&str>) -> Option<Seq<char>> {
    match o {
        Some(e) => Some(e@),
        None => None,
    }
}

impl YearMonth {
    /// The current month of the local clock.
    pub fn now() -> (r: YearMonth)
        ensures
            1 <= r.month <= 12,
    {
        local_month()
    }
}

/// The whole calendar months from `start` to `end`: negative where `end`
/// comes first.
pub fn months_between(start: YearMonth, end: YearMonth) -> (r: i64)
    ensures
        r == months_spec(start, end),
{
    12 * (end.year as i64 - start.year as i64) + (end.month as i64 - start.month as i64)
}

/// The months from the stamp `start` to the stamp `end`, or to `now` where
/// `end` is `None`.
pub fn elapsed_months(start: &str, end: Option<&str>, now: YearMonth) -> (r: Result<i64, DateError>)
    ensures
        match (r, elapsed_spec(start@, text_of(end), now)) {
            (Ok(n), Ok(m)) => n == m,
            (Err(x), Err(y)) => x == y,
            _ => false,
        },
{
    let s = match read_stamp(start) {
        Some(s) => s,
        None => return Err(DateError::BadStart),
    };
    let e = match end {
        None => now,
        Some(e) => match read_stamp(e) {
            Some(e) => e,
            None => return Err(DateError::BadEnd),
        },
    };
    Ok(months_between(s, e))
}

} // verus!
