//! Repeat cycles of a transaction and their "next occurrence" step.

use vstd::prelude::*;
use crate::date::{
    Date, add_days_spec, add_months_spec, date_idx, date_le, date_lt, lemma_add_days_compose,
    lemma_add_days_remainder_year, lemma_date_lt_idx, lemma_succ_gt, succ_date, valid_date,
    MAX_YEAR,
};

verus! {

/// How a transaction repeats; `OneTime` never repeats.
#[derive(Clone, Copy, Debug, PartialEq, Eq, Structural, Hash)]
pub enum Cycle {
    Daily,
    Weekly,
    Monthly,
    Yearly,
    OneTime,
}

/// The occurrence after one at `d`: a day, a week, a calendar month or a
/// calendar year later; none for `OneTime`, and none past the year cap.
pub open spec fn cycle_next_spec(c: Cycle, d: Date) -> Option<Date> {
    match c {
        Cycle::Daily => if succ_date(d).year <= MAX_YEAR {
            Some(succ_date(d))
        } else {
            None
        },
        Cycle::Weekly => if add_days_spec(d, 7).year <= MAX_YEAR {
            Some(add_days_spec(d, 7))
        } else {
            None
        },
        Cycle::Monthly => if add_months_spec(d, 1).year <= MAX_YEAR {
            Some(add_months_spec(d, 1))
        } else {
            None
        },
        Cycle::Yearly => if add_months_spec(d, 12).year <= MAX_YEAR {
            Some(add_months_spec(d, 12))
        } else {
            None
        },
        Cycle::OneTime => None,
    }
}

/// Day steps that stay under the year cap yield a valid, strictly later date.
pub proof fn lemma_add_days_valid(d: Date, n: nat)
    requires
        valid_date(d),
        n <= 400,
        add_days_spec(d, n).year <= MAX_YEAR,
    ensures
        valid_date(add_days_spec(d, n)),
        date_le(d, add_days_spec(d, n)),
        n >= 1 ==> date_lt(d, add_days_spec(d, n)),
    decreases n,
{
    if n >= 1 {
        lemma_succ_gt(d);
        assert(add_days_spec(d, 0) == d);
        if succ_date(d).year > MAX_YEAR {
            lemma_add_days_remainder_year(d, 0, n);
            assert(false);
        } else {
            lemma_add_days_compose(d, 1, (n - 1) as nat);
            assert(add_days_spec(d, 1) == succ_date(add_days_spec(d, 0)));
            lemma_add_days_valid(succ_date(d), (n - 1) as nat);
        }
    }
}

/// A month step that stays under the year cap yields a valid, strictly later
/// date.
pub proof fn lemma_add_months_props(d: Date, n: nat)
    requires
        valid_date(d),
        1 <= n <= 12,
        add_months_spec(d, n).year <= MAX_YEAR,
    ensures
        valid_date(add_months_spec(d, n)),
        date_lt(d, add_months_spec(d, n)),
{
    let m0 = d.month - 1 + n;
    if m0 <= 11 {
        assert(m0 / 12 == 0 && m0 % 12 == m0) by (nonlinear_arith)
            requires
                0 <= m0 <= 11,
        ;
    } else {
        assert(m0 / 12 == 1 && m0 % 12 == m0 - 12) by (nonlinear_arith)
            requires
                12 <= m0 <= 23,
        ;
    }
}

/// Every step moves strictly forward in time.
pub proof fn lemma_cycle_next_advances(c: Cycle, d: Date)
    requires
        valid_date(d),
        cycle_next_spec(c, d) is Some,
    ensures
        valid_date(cycle_next_spec(c, d)->Some_0),
        date_lt(d, cycle_next_spec(c, d)->Some_0),
        date_idx(cycle_next_spec(c, d)->Some_0) > date_idx(d),
{
    match c {
        Cycle::Daily => {
            lemma_succ_gt(d);
        },
        Cycle::Weekly => {
            lemma_add_days_valid(d, 7);
        },
        Cycle::Monthly => {
            lemma_add_months_props(d, 1);
        },
        Cycle::Yearly => {
            lemma_add_months_props(d, 12);
        },
        Cycle::OneTime => {
        },
    }
    lemma_date_lt_idx(d, cycle_next_spec(c, d)->Some_0);
}

impl Cycle {
    pub fn as_str(&self) -> (r: &'static str)
        ensures
            *self == Cycle::Daily ==> r@ == "Daily"@,
            *self == Cycle::Weekly ==> r@ == "Weekly"@,
            *self == Cycle::Monthly ==> r@ == "Monthly"@,
            *self == Cycle::Yearly ==> r@ == "Yearly"@,
            *self == Cycle::OneTime ==> r@ == "One Time"@,
    {
        match self {
            Cycle::Daily => "Daily",
            Cycle::Weekly => "Weekly",
            Cycle::Monthly => "Monthly",
            Cycle::Yearly => "Yearly",
            Cycle::OneTime => "One Time",
        }
    }

    pub fn as_slice() -> (r: [Cycle; 5])
        ensures
            r@ == seq![Cycle::Daily, Cycle::Weekly, Cycle::Monthly, Cycle::Yearly, Cycle::OneTime],
    {
        let r = [Cycle::Daily, Cycle::Weekly, Cycle::Monthly, Cycle::Yearly, Cycle::OneTime];
        proof {
            assert(r@ =~= seq![
                Cycle::Daily,
                Cycle::Weekly,
                Cycle::Monthly,
                Cycle::Yearly,
                Cycle::OneTime,
            ]);
        }
        r
    }

    /// The icon a front end shows for this cycle.
    pub fn icon_name(&self) -> (r: &'static str)
        ensures
            *self == Cycle::Weekly ==> r@ == "work-week-symbolic"@,
            *self == Cycle::Monthly ==> r@ == "month-symbolic"@,
            *self == Cycle::Yearly ==> r@ == "year-symbolic"@,
            (*self == Cycle::Daily || *self == Cycle::OneTime) ==> r@ == "today-alt-symbolic"@,
    {
        match self {
            Cycle::Daily => "today-alt-symbolic",
            Cycle::Weekly => "work-week-symbolic",
            Cycle::Monthly => "month-symbolic",
            Cycle::Yearly => "year-symbolic",
            Cycle::OneTime => "today-alt-symbolic",
        }
    }

    /// The occurrence following one at `date`, if the cycle repeats and the
    /// next occurrence is still on the calendar.
    pub fn next(&self, date: Date) -> (r: Option<Date>)
        requires
            valid_date(date),
        ensures
            r == cycle_next_spec(*self, date),
            r matches Some(n) ==> valid_date(n) && date_lt(date, n),
    {
        proof {
            assert(add_days_spec(date, 0) == date);
            assert(add_days_spec(date, 1) == succ_date(date));
            if cycle_next_spec(*self, date) is Some {
                lemma_cycle_next_advances(*self, date);
            }
        }
        match self {
            Cycle::Daily => date.add_days(1),
            Cycle::Weekly => date.add_days(7),
            Cycle::Monthly => date.add_months(1),
            Cycle::Yearly => date.add_months(12),
            Cycle::OneTime => None,
        }
    }
}

/// The default cycle for a fresh transaction.
impl Default for Cycle {
    fn default() -> (r: Self)
        ensures
            r == Cycle::OneTime,
    {
        Cycle::OneTime
    }
}

} // verus!
