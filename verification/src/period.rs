//! Reporting windows and their concrete date range relative to "today".
//!
//! Every window ends at today: future days of the nominal week, month or year
//! are excluded. The window's start never lies after today.

use vstd::prelude::*;
use crate::date::{
    Date, date_le, day_number, days_in_month, lemma_days_before_month_bounds,
    lemma_days_before_year_bounds, lemma_pred_succ, sub_days_spec, valid_date,
    weekday_from_monday,
};

verus! {

/// The reporting window a balance is computed over.
#[derive(Clone, Copy, Debug, PartialEq, Eq, Structural, Hash)]
pub enum Period {
    Day,
    Week,
    Month,
    Year,
    All,
}

/// The first day of the epoch window: 1970-01-01.
pub open spec fn epoch_date() -> Date {
    Date { year: 1970, month: 1, day: 1 }
}

/// The first day of the window that contains `today`: today itself, the
/// Monday of its week, the first of its month, January 1 of its year, or the
/// epoch.
pub open spec fn period_start_spec(p: Period, today: Date) -> Date {
    match p {
        Period::Day => today,
        Period::Week => sub_days_spec(today, (day_number(today) % 7) as nat),
        Period::Month => Date { year: today.year, month: today.month, day: 1 },
        Period::Year => Date { year: today.year, month: 1, day: 1 },
        Period::All => epoch_date(),
    }
}

/// Both bounds of the window, inclusive; the end is always today.
pub open spec fn period_bounds_spec(p: Period, today: Date) -> (Date, Date) {
    (period_start_spec(p, today), today)
}

/// A date from 1970 on lies at least a week past the calendar's first day.
proof fn lemma_epoch_day_number(d: Date)
    requires
        valid_date(d),
        d.year >= 1970,
    ensures
        day_number(d) >= 7,
{
    lemma_days_before_year_bounds(d.year as int);
    lemma_days_before_month_bounds(d.year as int, d.month as int);
}

impl Period {
    pub fn as_str(&self) -> (r: &'static str)
        ensures
            *self == Period::Day ==> r@ == "Day"@,
            *self == Period::Week ==> r@ == "Week"@,
            *self == Period::Month ==> r@ == "Month"@,
            *self == Period::Year ==> r@ == "Year"@,
            *self == Period::All ==> r@ == "All"@,
    {
        match self {
            Period::Day => "Day",
            Period::Week => "Week",
            Period::Month => "Month",
            Period::Year => "Year",
            Period::All => "All",
        }
    }

    pub fn as_slice() -> (r: [Period; 5])
        ensures
            r@ == seq![Period::Day, Period::Week, Period::Month, Period::Year, Period::All],
    {
        let r = [Period::Day, Period::Week, Period::Month, Period::Year, Period::All];
        proof {
            assert(r@ =~= seq![
                Period::Day,
                Period::Week,
                Period::Month,
                Period::Year,
                Period::All,
            ]);
        }
        r
    }

    /// The inclusive date range of this window around `today`. The range ends
    /// at today; for `Week` the start is the Monday of today's week.
    pub fn bounds(&self, today: Date) -> (r: (Date, Date))
        requires
            valid_date(today),
            today.year >= 1970,
        ensures
            r == period_bounds_spec(*self, today),
            valid_date(r.0),
            date_le(r.0, r.1),
            r.1 == today,
            *self == Period::Week ==> weekday_from_monday(r.0) == 0,
    {
        match self {
            Period::Day => (today, today),
            Period::Week => {
                let w = today.weekday();
                proof {
                    lemma_epoch_day_number(today);
                    crate::date::lemma_sub_days_day_number(today, w as nat);
                }
                let mut cur = today;
                let mut k: u8 = 0;
                while k < w
                    invariant
                        valid_date(today),
                        k <= w < 7,
                        w == day_number(today) % 7,
                        day_number(today) >= 7,
                        cur == sub_days_spec(today, k as nat),
                        valid_date(cur),
                        day_number(cur) == day_number(today) - k,
                    decreases w - k,
                {
                    proof {
                        if cur.year == 1 && cur.month == 1 && cur.day == 1 {
                            assert(day_number(cur) == 0);
                            assert(false);
                        }
                        lemma_pred_succ(cur);
                    }
                    match cur.prev_day() {
                        Some(p) => {
                            cur = p;
                        },
                        None => {
                            proof {
                                assert(false);
                            }
                        },
                    }
                    k = k + 1;
                }
                proof {
                    let q = day_number(today) / 7;
                    vstd::arithmetic::div_mod::lemma_fundamental_div_mod(day_number(today), 7);
                    assert(day_number(cur) == 7 * q);
                    assert((q * 7) % 7 == 0) by {
                        vstd::arithmetic::div_mod::lemma_mod_multiples_basic(q, 7);
                    }
                    assert(7 * q == q * 7);
                }
                (cur, today)
            },
            Period::Month => (Date { year: today.year, month: today.month, day: 1 }, today),
            Period::Year => (Date { year: today.year, month: 1, day: 1 }, today),
            Period::All => (Date { year: 1970, month: 1, day: 1 }, today),
        }
    }
}

impl Default for Period {
    fn default() -> (r: Self)
        ensures
            r == Period::All,
    {
        Period::All
    }
}

/// What a raw clock reading becomes: the date itself when it lies on the
/// supported calendar from 1970 on; 9999-12-31 for a reading past the last
/// supported day; 1970-01-01 for an earlier reading, or for one that is no
/// date at all.
pub open spec fn clock_date_spec(y: int, m: int, d: int) -> Date {
    if 1970 <= y <= 9999 && 1 <= m <= 12 && 1 <= d <= days_in_month(y, m) {
        Date { year: y as u32, month: m as u8, day: d as u8 }
    } else if y > 9999 {
        Date { year: 9999, month: 12, day: 31 }
    } else {
        epoch_date()
    }
}

/// Turns a raw clock reading — year, month and day as some clock reported
/// them — into a "today" the engine accepts. The reading itself is
/// environment input; the caller obtains it (a front end reads the system
/// clock) and everything from here on is checked.
pub fn today_from_reading(year: i32, month: u32, day: u32) -> (r: Date)
    ensures
        r == clock_date_spec(year as int, month as int, day as int),
        valid_date(r),
        r.year >= 1970,
{
    if 1970 <= year && year <= 9999 && 1 <= month && month <= 12 && 1 <= day && day <= 31 {
        let dt = Date { year: year as u32, month: month as u8, day: day as u8 };
        if dt.valid() {
            return dt;
        }
    }
    if year > 9999 {
        Date { year: 9999, month: 12, day: 31 }
    } else {
        Date { year: 1970, month: 1, day: 1 }
    }
}

} // verus!
