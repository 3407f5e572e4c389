//! Times as users are shown them: month, day and time of day.
use vstd::prelude::*;
use vstd::string::*;

use crate::text::digit;

verus! {

/// How a time is shown: month, day and time of day.
pub const TUNNEL_TIME_FORMAT: &'static str = "%m-%d %H:%M:%S";

/// The first and the last second that can be shown, since the epoch.
pub const FIRST_SECOND: i64 = -8_334_601_228_800;

pub const LAST_SECOND: i64 = 8_210_266_876_799;

/// Whether a year has a leap day.
pub open spec fn is_leap_year(year: int) -> bool {
    year % 4 == 0 && (year % 100 != 0 || year % 400 == 0)
}

/// How many days a month of a year has.
pub open spec fn days_in_month(year: int, month: int) -> int {
    if month == 2 {
        if is_leap_year(year) {
            29
        } else {
            28
        }
    } else if month == 4 || month == 6 || month == 9 || month == 11 {
        30
    } else {
        31
    }
}

/// How many days of a year are over when a month begins.
pub open spec fn days_before_month(year: int, month: int) -> int
    decreases month,
{
    if month <= 1 {
        0
    } else {
        days_before_month(year, month - 1) + days_in_month(year, month - 1)
    }
}

/// How many days after the first of January of the year one a year begins.
pub open spec fn days_before_year(year: int) -> int {
    365 * (year - 1) + (year - 1) / 4 - (year - 1) / 100 + (year - 1) / 400
}

/// Whether a day, counted from the first of January 1970, has this date.
pub open spec fn is_date(day: int, year: int, month: int, dom: int) -> bool {
    &&& 1 <= month <= 12
    &&& 1 <= dom <= days_in_month(year, month)
    &&& day == days_before_year(year) + days_before_month(year, month) + dom - 1
        - days_before_year(1970)
}

/// A number below a hundred in two digits.
pub open spec fn two_digits(n: int) -> Seq<char> {
    seq![digit((n / 10) as nat), digit((n % 10) as nat)]
}

/// A date and the time of day of clocks that stand at `wall` seconds.
pub open spec fn date_text(month: int, dom: int, wall: int) -> Seq<char> {
    two_digits(month) + "-"@ + two_digits(dom) + " "@ + two_digits(wall % 86_400 / 3600) + ":"@
        + two_digits(wall % 3600 / 60) + ":"@ + two_digits(wall % 60)
}

/// Whether a text shows the date and the time of day of clocks that stand at `wall`
/// seconds since the epoch.
pub open spec fn shows_time(s: Seq<char>, wall: int) -> bool {
    exists|year: int, month: int, dom: int| #[trigger]
        is_date(wall / 86_400, year, month, dom) && s == date_text(month, dom, wall)
}

/// Whether clocks can stand so many seconds ahead of universal time.
pub open spec fn is_offset(offset: int) -> bool {
    -86_400 < offset < 86_400
}

/// Whether a second can be shown.
pub open spec fn can_be_shown(secs: int) -> bool {
    FIRST_SECOND <= secs <= LAST_SECOND
}

/// Whether a text shows a second as clocks do that stand so far ahead.
pub open spec fn shown_at(s: Seq<char>, secs: int, offset: int) -> bool {
    is_offset(offset) && shows_time(s, secs + offset)
}

/// Calls `chrono::DateTime::from_timestamp`, which finds the seconds from the first to
/// the last and no other, and `with_timezone` for the time zone of this machine. How
/// far its clocks are ahead then is up to the time zone, but it is less than a day.
#[verifier::external_body]
fn local_offset(secs: i64) -> (r: Option<i32>)
    ensures
        r is Some <==> can_be_shown(secs as int),
        r matches Some(offset) ==> is_offset(offset as int),
{
    let at = chrono::DateTime::from_timestamp(secs, 0)?.with_timezone(&chrono::Local);
    Some(at.offset().local_minus_utc())
}

/// Calls `chrono::DateTime::format` on a second in the time zone of this machine whose
/// clocks are `offset` seconds ahead then. The text is the month and the day in the
/// Gregorian calendar and the time of day that these clocks show.
#[verifier::external_body]
fn time_text(secs: i64, offset: i32, format: &str) -> (r: Option<String>)
    requires
        format@ == TUNNEL_TIME_FORMAT@,
    ensures
        r is Some <==> (can_be_shown(secs as int) && is_offset(offset as int)),
        r matches Some(s) ==> shows_time(s@, secs + offset),
{
    let utc = chrono::DateTime::from_timestamp(secs, 0)?.naive_utc();
    let offset = chrono::FixedOffset::east_opt(offset)?;
    let at = chrono::DateTime::<chrono::Local>::from_naive_utc_and_offset(utc, offset);
    Some(at.format(format).to_string())
}

/// The time of a start as clocks show it that stand so far ahead of universal time;
/// nothing where there was no start, or where it cannot be shown.
pub fn format_time_at(unix: Option<i64>, offset: i32) -> (r: Option<String>)
    ensures
        r is Some <==> unix is Some && can_be_shown(unix->0 as int) && is_offset(offset as int),
        r matches Some(s) ==> shown_at(s@, unix->0 as int, offset as int),
{
    match unix {
        Some(t) => time_text(t, offset, TUNNEL_TIME_FORMAT),
        None => None,
    }
}

/// Whether the time of a start is shown right: a time that can be shown is, as the
/// clocks of some place show it, and nothing else.
pub open spec fn time_shown(unix: Option<i64>, shown: Option<String>) -> bool {
    match unix {
        Some(t) => {
            &&& shown is Some <==> can_be_shown(t as int)
            &&& shown matches Some(s) ==> exists|offset: int| #[trigger]
                shown_at(s@, t as int, offset)
        },
        None => shown is None,
    }
}

/// The time of a start as the clocks of this machine show it.
pub fn format_tunnel_time(unix: Option<i64>) -> (r: Option<String>)
    ensures
        time_shown(unix, r),
{
    match unix {
        Some(t) => match local_offset(t) {
            Some(offset) => format_time_at(Some(t), offset),
            None => None,
        },
        None => None,
    }
}

proof fn lemma_years_grow(a: int, b: int)
    requires
        a < b,
    ensures
        days_before_year(a) + days_before_month(a, 13) <= days_before_year(b),
    decreases b - a,
{
    reveal_with_fuel(days_before_month, 14);
    assert(days_before_year(b) >= days_before_year(b - 1) + 365);
    if a + 1 < b {
        lemma_years_grow(a, b - 1);
    }
}

proof fn lemma_months_grow(year: int, a: int, b: int)
    requires
        1 <= a < b <= 13,
    ensures
        days_before_month(year, a) + days_in_month(year, a) <= days_before_month(year, b),
    decreases b - a,
{
    if a + 1 < b {
        lemma_months_grow(year, a, b - 1);
    }
}

proof fn lemma_months_are_over(year: int, month: int)
    ensures
        days_before_month(year, month) >= 0,
    decreases month,
{
    if month > 1 {
        lemma_months_are_over(year, month - 1);
    }
}

proof fn lemma_years_in_order(day: int, y: int, m: int, d: int, y2: int, m2: int, d2: int)
    requires
        is_date(day, y, m, d),
        is_date(day, y2, m2, d2),
    ensures
        y >= y2,
{
    if y < y2 {
        lemma_years_grow(y, y2);
        lemma_months_grow(y, m, 13);
        lemma_months_are_over(y2, m2);
    }
}

/// A day has at most one date.
pub proof fn days_have_one_date(day: int, y: int, m: int, d: int, y2: int, m2: int, d2: int)
    requires
        is_date(day, y, m, d),
        is_date(day, y2, m2, d2),
    ensures
        y == y2 && m == m2 && d == d2,
{
    lemma_years_in_order(day, y, m, d, y2, m2, d2);
    lemma_years_in_order(day, y2, m2, d2, y, m, d);
    if m < m2 {
        lemma_months_grow(y, m, m2);
    } else if m2 < m {
        lemma_months_grow(y, m2, m);
    }
}

/// A second is shown in one way only by clocks that stand so far ahead.
pub proof fn times_are_shown_in_one_way(a: Seq<char>, b: Seq<char>, secs: int, offset: int)
    requires
        shown_at(a, secs, offset),
        shown_at(b, secs, offset),
    ensures
        a == b,
{
    let wall = secs + offset;
    let (y, m, d) = choose|y: int, m: int, d: int| #[trigger]
        is_date(wall / 86_400, y, m, d) && a == date_text(m, d, wall);
    let (y2, m2, d2) = choose|y: int, m: int, d: int| #[trigger]
        is_date(wall / 86_400, y, m, d) && b == date_text(m, d, wall);
    days_have_one_date(wall / 86_400, y, m, d, y2, m2, d2);
}

} // verus!
