//! Calendar dates in the proleptic Gregorian calendar, years 1 through 9999.
//!
//! Dates are ordered lexicographically by (year, month, day). `day_number`
//! counts days since the calendar's first day (0001-01-01, a Monday), which
//! gives the weekday of any date.

use vstd::prelude::*;
use vstd::string::StrSliceExecFns;

verus! {

/// Smallest year a `Date` may carry.
pub const MIN_YEAR: u32 = 1;

/// Largest year a `Date` may carry; the four-digit document format ends here.
pub const MAX_YEAR: u32 = 9999;

/// A calendar date. A value is meaningful only when `valid_date` holds.
#[derive(Clone, Copy, Debug, PartialEq, Eq, Structural, Hash)]
pub struct Date {
    pub year: u32,
    pub month: u8,
    pub day: u8,
}

pub open spec fn is_leap_year(y: int) -> bool {
    y % 4 == 0 && (y % 100 != 0 || y % 400 == 0)
}

pub open spec fn days_in_month(y: int, m: int) -> int {
    if m == 2 {
        if is_leap_year(y) {
            29
        } else {
            28
        }
    } else if m == 4 || m == 6 || m == 9 || m == 11 {
        30
    } else {
        31
    }
}

pub open spec fn valid_date(d: Date) -> bool {
    &&& MIN_YEAR <= d.year <= MAX_YEAR
    &&& 1 <= d.month <= 12
    &&& 1 <= d.day <= days_in_month(d.year as int, d.month as int)
}

/// Lexicographic order on (year, month, day).
pub open spec fn date_le(a: Date, b: Date) -> bool {
    ||| a.year < b.year
    ||| (a.year == b.year && a.month < b.month)
    ||| (a.year == b.year && a.month == b.month && a.day <= b.day)
}

pub open spec fn date_lt(a: Date, b: Date) -> bool {
    date_le(a, b) && a != b
}

/// A measure that respects the lexicographic order: one month apart outweighs
/// any day difference, one year apart outweighs any month difference.
pub open spec fn date_idx(d: Date) -> int {
    d.year * 372 + d.month * 31 + d.day
}

/// The day after `d`, as a total formula; callers guard the calendar cap.
pub open spec fn succ_date(d: Date) -> Date {
    if d.day < days_in_month(d.year as int, d.month as int) {
        Date { year: d.year, month: d.month, day: (d.day + 1) as u8 }
    } else if d.month < 12 {
        Date { year: d.year, month: (d.month + 1) as u8, day: 1 }
    } else {
        Date { year: (d.year + 1) as u32, month: 1, day: 1 }
    }
}

/// The day before `d`; meaningful for valid `d` other than 0001-01-01.
pub open spec fn pred_date(d: Date) -> Date {
    if d.day > 1 {
        Date { year: d.year, month: d.month, day: (d.day - 1) as u8 }
    } else if d.month > 1 {
        Date {
            year: d.year,
            month: (d.month - 1) as u8,
            day: days_in_month(d.year as int, d.month as int - 1) as u8,
        }
    } else {
        Date { year: (d.year - 1) as u32, month: 12, day: 31 }
    }
}

/// `d` advanced by `n` calendar days (total formula, may pass the year cap).
pub open spec fn add_days_spec(d: Date, n: nat) -> Date
    decreases n,
{
    if n == 0 {
        d
    } else {
        succ_date(add_days_spec(d, (n - 1) as nat))
    }
}

/// `d` moved back by `n` calendar days.
pub open spec fn sub_days_spec(d: Date, n: nat) -> Date
    decreases n,
{
    if n == 0 {
        d
    } else {
        pred_date(sub_days_spec(d, (n - 1) as nat))
    }
}

/// `d` advanced by `n` calendar months; the day of month is clamped to the
/// length of the target month (the month-overflow rule of this library).
pub open spec fn add_months_spec(d: Date, n: nat) -> Date {
    let m0 = d.month - 1 + n;
    let y = d.year + m0 / 12;
    let m = m0 % 12 + 1;
    let dd = if d.day <= days_in_month(y, m) {
        d.day as int
    } else {
        days_in_month(y, m)
    };
    Date { year: y as u32, month: m as u8, day: dd as u8 }
}

pub proof fn lemma_succ_gt(d: Date)
    requires
        valid_date(d),
    ensures
        date_lt(d, succ_date(d)),
        date_idx(succ_date(d)) > date_idx(d),
        valid_date(succ_date(d)) || succ_date(d).year > MAX_YEAR,
        d.year <= succ_date(d).year <= d.year + 1,
{
}

pub proof fn lemma_date_lt_idx(a: Date, b: Date)
    requires
        valid_date(a),
        valid_date(b),
        date_lt(a, b),
    ensures
        date_idx(a) < date_idx(b),
{
}

/// Advancing by days moves the year forward by at most one per day, and
/// never backwards, as long as the year counter cannot wrap.
pub proof fn lemma_add_days_year_bounds(d: Date, n: nat)
    requires
        d.year + n <= u32::MAX,
    ensures
        d.year <= add_days_spec(d, n).year <= d.year + n,
    decreases n,
{
    if n > 0 {
        lemma_add_days_year_bounds(d, (n - 1) as nat);
    }
}

/// Day steps compose: `i + j` steps are `i` steps followed by `j` steps.
pub proof fn lemma_add_days_compose(d: Date, i: nat, j: nat)
    ensures
        add_days_spec(d, i + j) == add_days_spec(add_days_spec(d, i), j),
    decreases j,
{
    if j > 0 {
        lemma_add_days_compose(d, i, (j - 1) as nat);
        assert(add_days_spec(d, i + j) == succ_date(add_days_spec(d, (i + j - 1) as nat)));
    }
}

impl Date {
    pub fn valid(&self) -> (r: bool)
        ensures
            r == valid_date(*self),
    {
        MIN_YEAR <= self.year && self.year <= MAX_YEAR && 1 <= self.month && self.month <= 12
            && 1 <= self.day && self.day as u32 <= days_in_month_of(self.year, self.month)
    }

    pub fn le(&self, other: &Date) -> (r: bool)
        ensures
            r == date_le(*self, *other),
    {
        if self.year != other.year {
            self.year < other.year
        } else if self.month != other.month {
            self.month < other.month
        } else {
            self.day <= other.day
        }
    }

    pub fn lt(&self, other: &Date) -> (r: bool)
        ensures
            r == date_lt(*self, *other),
    {
        if self.year != other.year {
            self.year < other.year
        } else if self.month != other.month {
            self.month < other.month
        } else {
            self.day < other.day
        }
    }

    /// The next calendar day, or `None` past the supported range of years.
    pub fn next_day(&self) -> (r: Option<Date>)
        requires
            valid_date(*self),
        ensures
            succ_date(*self).year <= MAX_YEAR ==> r == Some(succ_date(*self)),
            succ_date(*self).year > MAX_YEAR ==> r is None,
            r matches Some(n) ==> valid_date(n) && date_lt(*self, n),
    {
        proof {
            lemma_succ_gt(*self);
        }
        if (self.day as u32) < days_in_month_of(self.year, self.month) {
            Some(Date { year: self.year, month: self.month, day: self.day + 1 })
        } else if self.month < 12 {
            Some(Date { year: self.year, month: self.month + 1, day: 1 })
        } else if self.year < MAX_YEAR {
            Some(Date { year: self.year + 1, month: 1, day: 1 })
        } else {
            None
        }
    }

    /// The previous calendar day; the first supported day has none.
    pub fn prev_day(&self) -> (r: Option<Date>)
        requires
            valid_date(*self),
        ensures
            (self.year == MIN_YEAR && self.month == 1 && self.day == 1) <==> r is None,
            r matches Some(p) ==> valid_date(p) && succ_date(p) == *self && date_lt(p, *self),
    {
        if self.day > 1 {
            Some(Date { year: self.year, month: self.month, day: self.day - 1 })
        } else if self.month > 1 {
            let pm = self.month - 1;
            Some(Date { year: self.year, month: pm, day: days_in_month_of(self.year, pm) as u8 })
        } else if self.year > MIN_YEAR {
            Some(Date { year: self.year - 1, month: 12, day: 31 })
        } else {
            None
        }
    }
}

impl Date {
    /// `self` advanced by `n` calendar days, or `None` past the year cap.
    pub fn add_days(&self, n: u32) -> (r: Option<Date>)
        requires
            valid_date(*self),
            n <= 366,
        ensures
            add_days_spec(*self, n as nat).year <= MAX_YEAR ==> r == Some(
                add_days_spec(*self, n as nat),
            ),
            add_days_spec(*self, n as nat).year > MAX_YEAR ==> r is None,
            r matches Some(v) ==> valid_date(v) && date_le(*self, v) && (n >= 1 ==> date_lt(
                *self,
                v,
            )),
    {
        let mut cur = *self;
        let mut i: u32 = 0;
        while i < n
            invariant
                valid_date(*self),
                i <= n <= 366,
                valid_date(cur),
                cur == add_days_spec(*self, i as nat),
                i >= 1 ==> date_lt(*self, cur),
            decreases n - i,
        {
            match cur.next_day() {
                Some(next) => {
                    proof {
                        if i >= 1 {
                            lemma_date_lt_idx(*self, cur);
                            lemma_date_lt_idx(cur, next);
                        }
                        if date_lt(*self, cur) && date_lt(cur, next) {
                            assert(date_lt(*self, next));
                        }
                    }
                    cur = next;
                },
                None => {
                    proof {
                        lemma_succ_gt(cur);
                        assert(succ_date(cur).year > MAX_YEAR);
                        lemma_add_days_remainder_year(*self, i as nat, n as nat);
                    }
                    return None;
                },
            }
            i = i + 1;
        }
        Some(cur)
    }

    /// `self` advanced by `n` calendar months with the day clamped to the
    /// target month's length, or `None` past the year cap.
    pub fn add_months(&self, n: u32) -> (r: Option<Date>)
        requires
            valid_date(*self),
            1 <= n <= 12,
        ensures
            add_months_spec(*self, n as nat).year <= MAX_YEAR ==> r == Some(
                add_months_spec(*self, n as nat),
            ),
            add_months_spec(*self, n as nat).year > MAX_YEAR ==> r is None,
            r matches Some(v) ==> valid_date(v) && date_lt(*self, v),
    {
        let m0: u32 = self.month as u32 - 1 + n;
        let y: u32 = self.year + m0 / 12;
        let m: u32 = m0 % 12 + 1;
        let dim = days_in_month_of(y, m as u8);
        let dd: u8 = if (self.day as u32) <= dim {
            self.day
        } else {
            dim as u8
        };
        if y <= MAX_YEAR {
            Some(Date { year: y, month: m as u8, day: dd })
        } else {
            None
        }
    }
}

/// Once a day step leaves the supported years, no later step returns.
pub proof fn lemma_add_days_remainder_year(d: Date, i: nat, n: nat)
    requires
        i < n,
        n <= i + u32::MAX - succ_date(add_days_spec(d, i)).year,
        succ_date(add_days_spec(d, i)).year > MAX_YEAR,
    ensures
        add_days_spec(d, n).year > MAX_YEAR,
{
    let cur = add_days_spec(d, i);
    let stepped = succ_date(cur);
    lemma_add_days_compose(d, i, (n - i) as nat);
    lemma_add_days_compose(cur, 1, (n - i - 1) as nat);
    assert(add_days_spec(cur, 0) == cur);
    assert(add_days_spec(cur, 1) == stepped);
    lemma_add_days_year_bounds(stepped, (n - i - 1) as nat);
}

pub open spec fn days_in_year(y: int) -> int {
    if is_leap_year(y) {
        366
    } else {
        365
    }
}

/// Days in all years before year `y`, counted from year 1.
pub open spec fn days_before_year(y: int) -> int
    decreases y,
{
    if y <= 1 {
        0
    } else {
        days_before_year(y - 1) + days_in_year(y - 1)
    }
}

/// Days in all months of year `y` before month `m`.
pub open spec fn days_before_month(y: int, m: int) -> int
    decreases m,
{
    if m <= 1 {
        0
    } else {
        days_before_month(y, m - 1) + days_in_month(y, m - 1)
    }
}

/// Days since 0001-01-01, which was a Monday in the proleptic Gregorian
/// calendar; 0001-01-01 itself is day 0.
pub open spec fn day_number(d: Date) -> int {
    days_before_year(d.year as int) + days_before_month(d.year as int, d.month as int) + d.day - 1
}

/// Weekday of `d` counted from Monday: Monday is 0, Sunday is 6.
pub open spec fn weekday_from_monday(d: Date) -> int {
    day_number(d) % 7
}

pub proof fn lemma_days_before_year_bounds(y: int)
    requires
        1 <= y,
    ensures
        365 * (y - 1) <= days_before_year(y) <= 366 * (y - 1),
    decreases y,
{
    if y > 1 {
        lemma_days_before_year_bounds(y - 1);
    }
}

pub proof fn lemma_days_before_month_bounds(y: int, m: int)
    requires
        1 <= m <= 13,
    ensures
        28 * (m - 1) <= days_before_month(y, m) <= 31 * (m - 1),
    decreases m,
{
    if m > 1 {
        lemma_days_before_month_bounds(y, m - 1);
    }
}

pub proof fn lemma_day_number_bounds(d: Date)
    requires
        valid_date(d),
    ensures
        0 <= day_number(d) < 3_660_000,
{
    lemma_days_before_year_bounds(d.year as int);
    lemma_days_before_month_bounds(d.year as int, d.month as int);
}

/// The months of a year and its final day add up to the length of the year.
proof fn lemma_year_months_total(y: int)
    ensures
        days_before_month(y, 12) + 31 == days_in_year(y),
{
    assert(days_before_month(y, 12) == 334 + if is_leap_year(y) {
        1int
    } else {
        0int
    }) by {
        reveal_with_fuel(days_before_month, 13);
    }
}

/// The day after `d` has the next day number.
pub proof fn lemma_day_number_succ(d: Date)
    requires
        valid_date(d),
    ensures
        day_number(succ_date(d)) == day_number(d) + 1,
{
    if d.day < days_in_month(d.year as int, d.month as int) {
    } else if d.month < 12 {
        assert(days_before_month(d.year as int, d.month + 1 as int) == days_before_month(
            d.year as int,
            d.month as int,
        ) + days_in_month(d.year as int, d.month as int));
    } else {
        lemma_year_months_total(d.year as int);
        assert(days_before_year(d.year + 1 as int) == days_before_year(d.year as int)
            + days_in_year(d.year as int));
    }
}

/// The day before `d` has the previous day number, and stepping forward from
/// it lands back on `d`.
pub proof fn lemma_pred_succ(d: Date)
    requires
        valid_date(d),
        !(d.year == MIN_YEAR && d.month == 1 && d.day == 1),
    ensures
        valid_date(pred_date(d)),
        succ_date(pred_date(d)) == d,
        day_number(pred_date(d)) == day_number(d) - 1,
{
    lemma_day_number_succ(pred_date(d));
}

/// Moving back `n` days lowers the day number by `n`.
pub proof fn lemma_sub_days_day_number(d: Date, n: nat)
    requires
        valid_date(d),
        day_number(d) >= n,
    ensures
        valid_date(sub_days_spec(d, n)),
        day_number(sub_days_spec(d, n)) == day_number(d) - n,
        date_le(sub_days_spec(d, n), d),
    decreases n,
{
    if n > 0 {
        lemma_sub_days_day_number(d, (n - 1) as nat);
        let prev = sub_days_spec(d, (n - 1) as nat);
        assert(day_number(prev) >= 1);
        if prev.year == MIN_YEAR && prev.month == 1 && prev.day == 1 {
            assert(days_before_year(1int) == 0);
            assert(days_before_month(1int, 1int) == 0);
            assert(day_number(prev) == 0);
            assert(false);
        }
        lemma_pred_succ(prev);
        lemma_succ_gt(pred_date(prev));
    }
}

impl Date {
    /// Days since 0001-01-01 (day 0).
    pub fn day_number_of(&self) -> (n: u32)
        requires
            valid_date(*self),
        ensures
            n == day_number(*self),
            n < 3_660_000,
    {
        proof {
            lemma_day_number_bounds(*self);
        }
        let mut acc: u32 = 0;
        let mut y: u32 = 1;
        while y < self.year
            invariant
                valid_date(*self),
                1 <= y <= self.year,
                acc == days_before_year(y as int),
                acc <= 366 * (y - 1),
            decreases self.year - y,
        {
            acc = acc + if leap_year(y) {
                366
            } else {
                365
            };
            y = y + 1;
        }
        let mut m: u8 = 1;
        while m < self.month
            invariant
                valid_date(*self),
                1 <= m <= self.month,
                acc == days_before_year(self.year as int) + days_before_month(
                    self.year as int,
                    m as int,
                ),
                acc <= 366 * (self.year - 1) + 31 * (m - 1),
            decreases self.month - m,
        {
            acc = acc + days_in_month_of(self.year, m);
            m = m + 1;
        }
        acc + (self.day - 1) as u32
    }

    /// Weekday counted from Monday: Monday is 0, Sunday is 6.
    pub fn weekday(&self) -> (w: u8)
        requires
            valid_date(*self),
        ensures
            w as int == weekday_from_monday(*self),
            w < 7,
    {
        (self.day_number_of() % 7) as u8
    }
}

/// The canonical rendering of a date: zero-padded `YYYY-MM-DD`.
pub open spec fn date_str(d: Date) -> Seq<char> {
    seq![
        crate::text::digit_char(d.year as int / 1000),
        crate::text::digit_char((d.year as int / 100) % 10),
        crate::text::digit_char((d.year as int / 10) % 10),
        crate::text::digit_char(d.year as int % 10),
        '-',
        crate::text::digit_char(d.month as int / 10),
        crate::text::digit_char(d.month as int % 10),
        '-',
        crate::text::digit_char(d.day as int / 10),
        crate::text::digit_char(d.day as int % 10),
    ]
}

/// What parsing a date string yields: the date of a well-formed, zero-padded
/// `YYYY-MM-DD` rendering of a valid date, and nothing else.
pub open spec fn parse_date_chars(s: Seq<char>) -> Option<Date> {
    if s.len() == 10 && crate::text::is_digit_char(s[0]) && crate::text::is_digit_char(s[1])
        && crate::text::is_digit_char(s[2]) && crate::text::is_digit_char(s[3]) && s[4] == '-'
        && crate::text::is_digit_char(s[5]) && crate::text::is_digit_char(s[6]) && s[7] == '-'
        && crate::text::is_digit_char(s[8]) && crate::text::is_digit_char(s[9]) {
        let y = 1000 * crate::text::digit_char_val(s[0]) + 100 * crate::text::digit_char_val(s[1])
            + 10 * crate::text::digit_char_val(s[2]) + crate::text::digit_char_val(s[3]);
        let m = 10 * crate::text::digit_char_val(s[5]) + crate::text::digit_char_val(s[6]);
        let dd = 10 * crate::text::digit_char_val(s[8]) + crate::text::digit_char_val(s[9]);
        let d = Date { year: y as u32, month: m as u8, day: dd as u8 };
        if valid_date(d) {
            Some(d)
        } else {
            None
        }
    } else {
        None
    }
}

impl Date {
    /// Renders the date as zero-padded `YYYY-MM-DD`.
    pub fn to_text(&self) -> (r: String)
        requires
            valid_date(*self),
        ensures
            r@ == date_str(*self),
    {
        let mut out = String::new();
        out.append(crate::text::digit_str((self.year / 1000) as u8));
        out.append(crate::text::digit_str(((self.year / 100) % 10) as u8));
        out.append(crate::text::digit_str(((self.year / 10) % 10) as u8));
        out.append(crate::text::digit_str((self.year % 10) as u8));
        proof {
            reveal_strlit("-");
        }
        out.append("-");
        out.append(crate::text::digit_str(self.month / 10));
        out.append(crate::text::digit_str(self.month % 10));
        out.append("-");
        out.append(crate::text::digit_str(self.day / 10));
        out.append(crate::text::digit_str(self.day % 10));
        proof {
            assert(out@ =~= date_str(*self));
        }
        out
    }

    /// Parses a zero-padded `YYYY-MM-DD` string into a valid date.
    pub fn parse(s: &str) -> (r: Option<Date>)
        ensures
            r == parse_date_chars(s@),
    {
        if s.unicode_len() != 10 {
            return None;
        }
        let c0 = s.get_char(0);
        let c1 = s.get_char(1);
        let c2 = s.get_char(2);
        let c3 = s.get_char(3);
        let c4 = s.get_char(4);
        let c5 = s.get_char(5);
        let c6 = s.get_char(6);
        let c7 = s.get_char(7);
        let c8 = s.get_char(8);
        let c9 = s.get_char(9);
        if !(crate::text::is_digit(c0) && crate::text::is_digit(c1) && crate::text::is_digit(c2)
            && crate::text::is_digit(c3) && c4 == '-' && crate::text::is_digit(c5)
            && crate::text::is_digit(c6) && c7 == '-' && crate::text::is_digit(c8)
            && crate::text::is_digit(c9)) {
            return None;
        }
        let y: u32 = 1000 * crate::text::digit_val(c0) as u32 + 100 * crate::text::digit_val(
            c1,
        ) as u32 + 10 * crate::text::digit_val(c2) as u32 + crate::text::digit_val(c3) as u32;
        let m: u8 = 10 * crate::text::digit_val(c5) + crate::text::digit_val(c6);
        let dd: u8 = 10 * crate::text::digit_val(c8) + crate::text::digit_val(c9);
        let d = Date { year: y, month: m, day: dd };
        if d.valid() {
            Some(d)
        } else {
            None
        }
    }
}

proof fn lemma_two_digits(v: int)
    requires
        0 <= v <= 99,
    ensures
        10 * (v / 10) + v % 10 == v,
{
    vstd::arithmetic::div_mod::lemma_fundamental_div_mod(v, 10);
}

proof fn lemma_four_digits(y: int)
    requires
        0 <= y <= 9999,
    ensures
        1000 * (y / 1000) + 100 * ((y / 100) % 10) + 10 * ((y / 10) % 10) + y % 10 == y,
{
    vstd::arithmetic::div_mod::lemma_fundamental_div_mod(y, 10);
    vstd::arithmetic::div_mod::lemma_fundamental_div_mod(y / 10, 10);
    vstd::arithmetic::div_mod::lemma_fundamental_div_mod(y / 100, 10);
    vstd::arithmetic::div_mod::lemma_div_denominator(y, 10, 10);
    vstd::arithmetic::div_mod::lemma_div_denominator(y, 100, 10);
    vstd::arithmetic::div_mod::lemma_mod_bound(y / 100, 10);
    assert(y / 1000 <= 9) by {
        vstd::arithmetic::div_mod::lemma_div_is_ordered(y, 9999, 1000);
    }
    assert((y / 100) / 10 == y / 1000);
    assert(y / 100 == 10 * (y / 1000) + (y / 100) % 10);
}

/// Rendering a valid date and parsing the result gives the date back.
pub proof fn lemma_date_text_round_trip(d: Date)
    requires
        valid_date(d),
    ensures
        parse_date_chars(date_str(d)) == Some(d),
{
    let s = date_str(d);
    crate::text::lemma_digit_char_val(d.year as int / 1000);
    crate::text::lemma_digit_char_val((d.year as int / 100) % 10);
    crate::text::lemma_digit_char_val((d.year as int / 10) % 10);
    crate::text::lemma_digit_char_val(d.year as int % 10);
    crate::text::lemma_digit_char_val(d.month as int / 10);
    crate::text::lemma_digit_char_val(d.month as int % 10);
    crate::text::lemma_digit_char_val(d.day as int / 10);
    crate::text::lemma_digit_char_val(d.day as int % 10);
    lemma_four_digits(d.year as int);
    lemma_two_digits(d.month as int);
    lemma_two_digits(d.day as int);
}

pub fn leap_year(y: u32) -> (r: bool)
    ensures
        r == is_leap_year(y as int),
{
    y % 4 == 0 && (y % 100 != 0 || y % 400 == 0)
}

pub fn days_in_month_of(y: u32, m: u8) -> (r: u32)
    ensures
        r == days_in_month(y as int, m as int),
{
    if m == 2 {
        if leap_year(y) {
            29
        } else {
            28
        }
    } else if m == 4 || m == 6 || m == 9 || m == 11 {
        30
    } else {
        31
    }
}

} // verus!
