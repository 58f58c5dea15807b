//! Calendar dates, month stepping and the zero-padded texts the portal and
//! the archive use for dates and months.
use vstd::prelude::*;

use crate::bindings::{unix_seconds, utc_date, utc_date_of, valid_ymd};

verus! {

/// A day of the proleptic Gregorian calendar.
#[derive(Debug, Clone, Copy, PartialEq, Eq, Structural)]
pub struct CalendarDate {
    pub year: u16,
    pub month: u8,
    pub day: u8,
}

pub open spec fn is_leap(y: int) -> bool {
    (y % 4 == 0 && y % 100 != 0) || y % 400 == 0
}

pub open spec fn days_in_month_spec(y: int, m: int) -> int {
    if m == 2 {
        if is_leap(y) {
            29
        } else {
            28
        }
    } else if m == 4 || m == 6 || m == 9 || m == 11 {
        30
    } else {
        31
    }
}

impl CalendarDate {
    pub open spec fn wf(self) -> bool {
        1 <= self.month <= 12 && 1 <= self.day <= days_in_month_spec(
            self.year as int,
            self.month as int,
        )
    }

    /// Months since year zero, for ordering months.
    pub open spec fn month_index(self) -> int {
        self.year * 12 + self.month - 1
    }
}

/// Number of days in month `m` of year `y`.
pub fn days_in_month(y: u16, m: u8) -> (r: u8)
    requires
        1 <= m <= 12,
    ensures
        r == days_in_month_spec(y as int, m as int),
{
    if m == 2 {
        if (y % 4 == 0 && y % 100 != 0) || y % 400 == 0 {
            29
        } else {
            28
        }
    } else if m == 4 || m == 6 || m == 9 || m == 11 {
        30
    } else {
        31
    }
}

/// The last day of the date's month.
pub fn last_day_of_month(d: CalendarDate) -> (r: CalendarDate)
    requires
        d.wf(),
    ensures
        r.wf(),
        r.year == d.year && r.month == d.month,
        r.day == days_in_month_spec(d.year as int, d.month as int),
{
    CalendarDate { year: d.year, month: d.month, day: days_in_month(d.year, d.month) }
}

/// The first day of the month after the date's; `None` past year 65535.
pub fn first_day_next_month(d: CalendarDate) -> (r: Option<CalendarDate>)
    requires
        d.wf(),
    ensures
        d.month < 12 ==> r == Some(CalendarDate { year: d.year, month: (d.month + 1) as u8, day: 1 }),
        d.month == 12 && d.year < u16::MAX ==> r == Some(
            CalendarDate { year: (d.year + 1) as u16, month: 1, day: 1 },
        ),
        d.month == 12 && d.year == u16::MAX ==> r is None,
        r matches Some(n) ==> n.wf() && n.month_index() == d.month_index() + 1,
{
    if d.month < 12 {
        Some(CalendarDate { year: d.year, month: d.month + 1, day: 1 })
    } else if d.year < u16::MAX {
        Some(CalendarDate { year: d.year + 1, month: 1, day: 1 })
    } else {
        None
    }
}

pub open spec fn digit_char(d: nat) -> char {
    if d == 0 {
        '0'
    } else if d == 1 {
        '1'
    } else if d == 2 {
        '2'
    } else if d == 3 {
        '3'
    } else if d == 4 {
        '4'
    } else if d == 5 {
        '5'
    } else if d == 6 {
        '6'
    } else if d == 7 {
        '7'
    } else if d == 8 {
        '8'
    } else {
        '9'
    }
}

/// The lowest `w` decimal digits of `n`, zero-padded to width `w`.
pub open spec fn padded(n: nat, w: nat) -> Seq<char>
    decreases w,
{
    if w == 0 {
        Seq::empty()
    } else {
        padded(n / 10, (w - 1) as nat).push(digit_char(n % 10))
    }
}

fn digit_str(d: u64) -> (r: &'static str)
    requires
        d < 10,
    ensures
        r@ == seq![digit_char(d as nat)],
{
    proof {
        reveal_strlit("0");
        reveal_strlit("1");
        reveal_strlit("2");
        reveal_strlit("3");
        reveal_strlit("4");
        reveal_strlit("5");
        reveal_strlit("6");
        reveal_strlit("7");
        reveal_strlit("8");
        reveal_strlit("9");
    }
    if d == 0 {
        "0"
    } else if d == 1 {
        "1"
    } else if d == 2 {
        "2"
    } else if d == 3 {
        "3"
    } else if d == 4 {
        "4"
    } else if d == 5 {
        "5"
    } else if d == 6 {
        "6"
    } else if d == 7 {
        "7"
    } else if d == 8 {
        "8"
    } else {
        "9"
    }
}

/// Appends `n` zero-padded to `w` digits.
pub fn append_padded(s: &mut String, n: u64, w: usize)
    ensures
        final(s)@ == old(s)@ + padded(n as nat, w as nat),
    decreases w,
{
    if w == 0 {
        assert(old(s)@ + Seq::<char>::empty() == old(s)@);
        return;
    }
    append_padded(s, n / 10, w - 1);
    s.append(digit_str(n % 10));
}

/// `n` in decimal, without leading zeros.
pub open spec fn decimal_text(n: nat) -> Seq<char>
    decreases n,
{
    if n < 10 {
        seq![digit_char(n)]
    } else {
        decimal_text(n / 10).push(digit_char(n % 10))
    }
}

/// Appends `n` in decimal.
pub fn append_decimal(s: &mut String, n: u64)
    ensures
        final(s)@ == old(s)@ + decimal_text(n as nat),
    decreases n,
{
    if n >= 10 {
        append_decimal(s, n / 10);
    }
    s.append(digit_str(n % 10));
}

/// `YYYY-MM-DD`.
pub open spec fn date_text(d: CalendarDate) -> Seq<char> {
    padded(d.year as nat, 4) + "-"@ + padded(d.month as nat, 2) + "-"@ + padded(d.day as nat, 2)
}

/// `YYYY-MM`, the name of a month's archive entry.
pub open spec fn month_text(d: CalendarDate) -> Seq<char> {
    padded(d.year as nat, 4) + "-"@ + padded(d.month as nat, 2)
}

pub fn format_date(d: CalendarDate) -> (r: String)
    ensures
        r@ == date_text(d),
{
    let mut s = String::new();
    append_padded(&mut s, d.year as u64, 4);
    s.append("-");
    append_padded(&mut s, d.month as u64, 2);
    s.append("-");
    append_padded(&mut s, d.day as u64, 2);
    assert(s@ == date_text(d));
    s
}

pub fn format_month(d: CalendarDate) -> (r: String)
    ensures
        r@ == month_text(d),
{
    let mut s = String::new();
    append_padded(&mut s, d.year as u64, 4);
    s.append("-");
    append_padded(&mut s, d.month as u64, 2);
    assert(s@ == month_text(d));
    s
}

/// A chrono day as a `CalendarDate`, when its year is in `0..=65535`.
pub open spec fn date_of_ymd(d: (i32, u32, u32)) -> Option<CalendarDate> {
    if 0 <= d.0 <= 65535 {
        Some(CalendarDate { year: d.0 as u16, month: d.1 as u8, day: d.2 as u8 })
    } else {
        None
    }
}

fn date_from_ymd(d: (i32, u32, u32)) -> (r: Option<CalendarDate>)
    requires
        valid_ymd(d),
    ensures
        r == date_of_ymd(d),
        r matches Some(c) ==> c.wf(),
{
    if 0 <= d.0 && d.0 <= 65535 {
        Some(CalendarDate { year: d.0 as u16, month: d.1 as u8, day: d.2 as u8 })
    } else {
        None
    }
}

/// The UTC calendar day holding a Unix second.
pub open spec fn date_of_timestamp_spec(ts: i64) -> Option<CalendarDate> {
    match utc_date_of(ts) {
        Some(d) => date_of_ymd(d),
        None => None,
    }
}

pub fn date_of_timestamp(ts: i64) -> (r: Option<CalendarDate>)
    ensures
        r == date_of_timestamp_spec(ts),
        r matches Some(c) ==> c.wf(),
{
    match utc_date(ts) {
        Some(d) => date_from_ymd(d),
        None => None,
    }
}

/// Today's UTC calendar day; `None` when the clock reads before the Unix
/// epoch or past year 65535.
pub fn today() -> (r: Option<CalendarDate>)
    ensures
        r matches Some(c) ==> c.wf(),
{
    match unix_seconds() {
        Some(s) => {
            if s <= 9223372036854775807 {
                date_of_timestamp(s as i64)
            } else {
                None
            }
        },
        None => None,
    }
}

} // verus!
