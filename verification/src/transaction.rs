//! A single one-off or recurring monetary movement, and the expansion of its
//! repeat cycle into concrete occurrence dates inside a reporting period.

use vstd::prelude::*;
use crate::amount::{Amount, scale_amount_spec};
use crate::cycle::{Cycle, cycle_next_spec, lemma_cycle_next_advances};
use crate::date::{
    Date, date_idx, date_le, date_lt, lemma_date_lt_idx, parse_date_chars, valid_date,
};
use crate::ids::{IdGenerator, id_generator_wf};
use crate::period::{Period, period_start_spec};
use crate::text::{valid_description, valid_name};

verus! {

/// A monetary movement. The sign of `amount` separates income (non-negative)
/// from expense (negative); identifier 0 marks a draft not yet promoted.
/// A repeating cycle without an `end_date` repeats up to "today".
#[derive(Clone, Debug)]
pub struct Transaction {
    pub id: usize,
    pub name: String,
    pub description: Option<String>,
    pub amount: Amount,
    pub cycle: Cycle,
    pub start_date: Date,
    pub end_date: Option<Date>,
}

/// The dates a transaction carries are on the calendar.
pub open spec fn transaction_dates_wf(t: Transaction) -> bool {
    &&& valid_date(t.start_date)
    &&& (t.end_date matches Some(e) ==> valid_date(e))
}

pub open spec fn opt_text_view(o: Option<String>) -> Option<Seq<char>> {
    match o {
        Some(s) => Some(s@),
        None => None,
    }
}

/// A transaction that may be persisted: a real name, a bounded description,
/// an amount other than exactly zero, dates on the calendar, and an end date
/// not before the start date.
pub open spec fn transaction_valid(t: Transaction) -> bool {
    &&& valid_name(t.name@)
    &&& (t.description matches Some(d) ==> valid_description(d@))
    &&& t.amount != Amount::Finite(0i64)
    &&& transaction_dates_wf(t)
    &&& (t.end_date matches Some(e) ==> date_le(t.start_date, e))
}

/// Two transactions differ in some field the user can edit (the identifier
/// does not count).
pub open spec fn transaction_different(a: Transaction, b: Transaction) -> bool {
    ||| a.name@ != b.name@
    ||| opt_text_view(a.description) != opt_text_view(b.description)
    ||| a.amount != b.amount
    ||| a.start_date != b.start_date
    ||| a.end_date != b.end_date
    ||| a.cycle != b.cycle
}

/// The occurrence dates of a cycle starting at `cur`, stopping after `limit`,
/// that fall inside `[ps, pe]` — both ends inclusive.
pub open spec fn occ_seq(c: Cycle, cur: Date, limit: Date, ps: Date, pe: Date) -> Seq<Date>
    decreases (if valid_date(cur) && valid_date(limit) && date_le(cur, limit) {
        date_idx(limit) - date_idx(cur) + 1
    } else {
        0
    }),
    via occ_seq_decreases
{
    if !valid_date(cur) || !valid_date(limit) || date_lt(limit, cur) {
        Seq::empty()
    } else {
        let here: Seq<Date> = if date_le(ps, cur) && date_le(cur, pe) {
            seq![cur]
        } else {
            Seq::empty()
        };
        match cycle_next_spec(c, cur) {
            Some(n) => here + occ_seq(c, n, limit, ps, pe),
            None => here,
        }
    }
}

#[via_fn]
proof fn occ_seq_decreases(c: Cycle, cur: Date, limit: Date, ps: Date, pe: Date) {
    if valid_date(cur) && valid_date(limit) && !date_lt(limit, cur) {
        if cycle_next_spec(c, cur) is Some {
            let n = cycle_next_spec(c, cur)->Some_0;
            lemma_cycle_next_advances(c, cur);
            if date_le(n, limit) {
                lemma_date_lt_idx(cur, limit);
            }
        }
    }
}

/// Once past the period's end, a strictly increasing walk meets no further
/// occurrence.
pub proof fn lemma_occ_beyond_end(c: Cycle, cur: Date, limit: Date, ps: Date, pe: Date)
    requires
        date_lt(pe, cur),
    ensures
        occ_seq(c, cur, limit, ps, pe) == Seq::<Date>::empty(),
    decreases (if valid_date(cur) && valid_date(limit) && date_le(cur, limit) {
        date_idx(limit) - date_idx(cur) + 1
    } else {
        0
    }),
{
    if valid_date(cur) && valid_date(limit) && !date_lt(limit, cur) {
        if cycle_next_spec(c, cur) is Some {
            let n = cycle_next_spec(c, cur)->Some_0;
            lemma_cycle_next_advances(c, cur);
            if date_le(n, limit) {
                lemma_date_lt_idx(cur, limit);
            }
            lemma_occ_beyond_end(c, n, limit, ps, pe);
            assert(occ_seq(c, cur, limit, ps, pe) =~= Seq::<Date>::empty());
        }
    }
}

/// Occurrences come out in strictly increasing order, and each one lies
/// inside the reporting window `[ps, pe]`, no earlier than the walk's start
/// and no later than its stopping date.
pub proof fn lemma_occ_increasing(c: Cycle, cur: Date, limit: Date, ps: Date, pe: Date)
    ensures
        forall|i: int, j: int|
            0 <= i < j < occ_seq(c, cur, limit, ps, pe).len() ==> date_lt(
                #[trigger] occ_seq(c, cur, limit, ps, pe)[i],
                #[trigger] occ_seq(c, cur, limit, ps, pe)[j],
            ),
        forall|i: int|
            0 <= i < occ_seq(c, cur, limit, ps, pe).len() ==> {
                let o = #[trigger] occ_seq(c, cur, limit, ps, pe)[i];
                date_le(cur, o) && date_le(ps, o) && date_le(o, pe) && date_le(o, limit)
            },
    decreases (if valid_date(cur) && valid_date(limit) && date_le(cur, limit) {
        date_idx(limit) - date_idx(cur) + 1
    } else {
        0
    }),
{
    if valid_date(cur) && valid_date(limit) && !date_lt(limit, cur) {
        let occ = occ_seq(c, cur, limit, ps, pe);
        let here: Seq<Date> = if date_le(ps, cur) && date_le(cur, pe) {
            seq![cur]
        } else {
            Seq::empty()
        };
        if cycle_next_spec(c, cur) is Some {
            let n = cycle_next_spec(c, cur)->Some_0;
            lemma_cycle_next_advances(c, cur);
            if date_le(n, limit) {
                lemma_date_lt_idx(cur, limit);
            }
            lemma_occ_increasing(c, n, limit, ps, pe);
            let tail = occ_seq(c, n, limit, ps, pe);
            assert(occ == here + tail);
            assert forall|i: int| 0 <= i < occ.len() implies {
                let o = #[trigger] occ[i];
                date_le(cur, o) && date_le(ps, o) && date_le(o, pe) && date_le(o, limit)
            } by {
                if i >= here.len() {
                    assert(occ[i] == tail[i - here.len()]);
                }
            }
            assert forall|i: int, j: int| 0 <= i < j < occ.len() implies date_lt(
                #[trigger] occ[i],
                #[trigger] occ[j],
            ) by {
                assert(occ[j] == tail[j - here.len()]);
                if i >= here.len() {
                    assert(occ[i] == tail[i - here.len()]);
                } else {
                    assert(occ[i] == cur);
                    assert(date_le(n, occ[j]));
                }
            }
        } else {
            assert(occ == here);
        }
    }
}

/// The walk's stopping date: the end date if one is set, else today.
pub open spec fn occ_limit(t: Transaction, today: Date) -> Date {
    match t.end_date {
        Some(e) => e,
        None => today,
    }
}

/// The occurrence dates of `t` inside the reporting window of `p` around
/// `today`.
pub open spec fn transaction_occurrences(t: Transaction, p: Period, today: Date) -> Seq<Date> {
    occ_seq(t.cycle, t.start_date, occ_limit(t, today), period_start_spec(p, today), today)
}

/// How many occurrences `t` contributes: none before it starts.
pub open spec fn occ_count_spec(t: Transaction, p: Period, today: Date) -> nat {
    if date_lt(today, t.start_date) {
        0
    } else {
        transaction_occurrences(t, p, today).len()
    }
}

/// The projection of `t` onto a reporting window: the same transaction with
/// its amount multiplied by the occurrence count. A display value, never
/// persisted.
pub open spec fn for_period_spec(t: Transaction, p: Period, today: Date) -> Transaction {
    Transaction { amount: scale_amount_spec(t.amount, occ_count_spec(t, p, today)), ..t }
}

impl Transaction {
    /// The entity has been promoted out of the draft state.
    pub fn is_created(&self) -> (r: bool)
        ensures
            r == (self.id != 0),
    {
        self.id != 0
    }

    /// Promotes a draft by drawing a fresh identifier; promoting again
    /// changes nothing.
    pub fn assign_global_id(self, gen: &mut IdGenerator) -> (r: Transaction)
        requires
            id_generator_wf(*old(gen)),
            old(gen).next_id < usize::MAX,
        ensures
            self.id != 0 ==> r == self && *final(gen) == *old(gen),
            self.id == 0 ==> r == (Transaction { id: old(gen).next_id, ..self }) && r.id > 0
                && final(gen).next_id == old(gen).next_id + 1,
            id_generator_wf(*final(gen)),
    {
        if self.is_created() {
            self
        } else {
            let id = gen.fresh();
            Transaction { id, ..self }
        }
    }

    pub fn is_valid(&self) -> (r: bool)
        ensures
            r == transaction_valid(*self),
    {
        if !crate::text::name_is_valid(self.name.as_str()) {
            return false;
        }
        match &self.description {
            Some(d) => {
                if !crate::text::description_is_valid(d.as_str()) {
                    return false;
                }
            },
            None => {},
        }
        if self.amount == Amount::Finite(0) {
            return false;
        }
        if !self.start_date.valid() {
            return false;
        }
        match &self.end_date {
            Some(e) => {
                if !e.valid() {
                    return false;
                }
                if !self.start_date.le(e) {
                    return false;
                }
            },
            None => {},
        }
        true
    }

    /// The fields a user can edit differ somewhere.
    pub fn is_different(&self, other: &Transaction) -> (r: bool)
        ensures
            r == transaction_different(*self, *other),
    {
        if !(self.name == other.name) {
            return true;
        }
        let desc_eq = match (&self.description, &other.description) {
            (None, None) => true,
            (Some(a), Some(b)) => *a == *b,
            _ => false,
        };
        if !desc_eq {
            return true;
        }
        if self.amount != other.amount {
            return true;
        }
        if self.start_date != other.start_date {
            return true;
        }
        let end_eq = match (&self.end_date, &other.end_date) {
            (None, None) => true,
            (Some(a), Some(b)) => *a == *b,
            _ => false,
        };
        if !end_eq {
            return true;
        }
        self.cycle != other.cycle
    }

    /// The dates on which this transaction occurs inside the window of
    /// `period` around `today`, oldest first; `None` for a transaction that
    /// has not started yet (as opposed to one with zero occurrences).
    pub fn get_occurrences_in_period(&self, period: Period, today: Date) -> (r: Option<Vec<Date>>)
        requires
            valid_date(today),
            today.year >= 1970,
            transaction_dates_wf(*self),
        ensures
            (r is None) <==> date_lt(today, self.start_date),
            r matches Some(v) ==> v@ == transaction_occurrences(*self, period, today),
    {
        if today.lt(&self.start_date) {
            return None;
        }
        let bounds = period.bounds(today);
        let ps = bounds.0;
        let pe = bounds.1;
        let limit = match &self.end_date {
            Some(e) => *e,
            None => today,
        };
        let ghost full = transaction_occurrences(*self, period, today);
        let c = self.cycle;
        let mut out: Vec<Date> = Vec::new();
        let mut cur = self.start_date;
        proof {
            assert(out@ + occ_seq(c, cur, limit, ps, pe) =~= full);
        }
        loop
            invariant_except_break
                out@ + occ_seq(c, cur, limit, ps, pe) == full,
            invariant
                valid_date(cur),
                valid_date(limit),
            ensures
                out@ == full,
            decreases (if date_le(cur, limit) {
                date_idx(limit) - date_idx(cur) + 1
            } else {
                0
            }),
        {
            let ghost entry = occ_seq(c, cur, limit, ps, pe);
            if limit.lt(&cur) {
                proof {
                    assert(entry =~= Seq::<Date>::empty());
                    assert(out@ =~= full);
                }
                break;
            }
            let ghost before = out@;
            let mut stepped = false;
            if ps.le(&cur) && cur.le(&pe) {
                out.push(cur);
            } else if pe.lt(&cur) {
                proof {
                    lemma_occ_beyond_end(c, cur, limit, ps, pe);
                    assert(out@ =~= full);
                }
                break;
            }
            match c.next(cur) {
                Some(n) => {
                    proof {
                        lemma_cycle_next_advances(c, cur);
                        if date_le(n, limit) {
                            lemma_date_lt_idx(cur, limit);
                        }
                        assert(out@ + occ_seq(c, n, limit, ps, pe) =~= full);
                    }
                    cur = n;
                },
                None => {
                    proof {
                        assert(out@ =~= full);
                    }
                    break;
                },
            }
        }
        Some(out)
    }

    /// How many occurrences fall inside the window; `None` for a transaction
    /// that has not started yet.
    pub fn count_occurrences_in_period(&self, period: Period, today: Date) -> (r: Option<usize>)
        requires
            valid_date(today),
            today.year >= 1970,
            transaction_dates_wf(*self),
        ensures
            (r is None) <==> date_lt(today, self.start_date),
            r matches Some(n) ==> n == transaction_occurrences(*self, period, today).len(),
    {
        match self.get_occurrences_in_period(period, today) {
            Some(v) => Some(v.len()),
            None => None,
        }
    }

    /// The transaction projected onto the reporting window: its amount times
    /// the occurrence count (zero occurrences give amount zero; a transaction
    /// that has not started contributes nothing either). All other fields are
    /// kept.
    pub fn for_period(&self, period: Period, today: Date) -> (r: Transaction)
        requires
            valid_date(today),
            today.year >= 1970,
            transaction_dates_wf(*self),
        ensures
            r == for_period_spec(*self, period, today),
    {
        let count: usize = match self.count_occurrences_in_period(period, today) {
            Some(n) => n,
            None => 0,
        };
        let amount = self.amount.scale(count as u64);
        Transaction {
            id: self.id,
            name: self.name.clone(),
            description: clone_description(&self.description),
            amount,
            cycle: self.cycle,
            start_date: self.start_date,
            end_date: self.end_date,
        }
    }
}

/// Why a stored record could not become a transaction.
#[derive(Clone, Copy, Debug, PartialEq, Eq, Structural)]
pub enum RecordError {
    InvalidStartDate,
    InvalidEndDate,
    EndBeforeStart,
}

impl Transaction {
    /// Builds a transaction from the fields of a stored record, drawing a
    /// fresh identifier — identifiers are never persisted. The date strings
    /// must be zero-padded `YYYY-MM-DD` and the end date must not lie before
    /// the start date; a rejected record leaves the generator untouched.
    pub fn from_record(
        name: String,
        description: Option<String>,
        amount: Amount,
        cycle: Cycle,
        start_date: &str,
        end_date: Option<&str>,
        gen: &mut IdGenerator,
    ) -> (r: Result<Transaction, RecordError>)
        requires
            id_generator_wf(*old(gen)),
            old(gen).next_id < usize::MAX,
        ensures
            r == Err::<Transaction, _>(RecordError::InvalidStartDate) <==> parse_date_chars(
                start_date@,
            ) is None,
            r == Err::<Transaction, _>(RecordError::InvalidEndDate) <==> ({
                &&& parse_date_chars(start_date@) is Some
                &&& end_date matches Some(e) && parse_date_chars(e@) is None
            }),
            r == Err::<Transaction, _>(RecordError::EndBeforeStart) <==> ({
                &&& parse_date_chars(start_date@) matches Some(sd) && end_date matches Some(e)
                    && parse_date_chars(e@) matches Some(ed) && date_lt(ed, sd)
            }),
            r matches Ok(t) ==> {
                &&& parse_date_chars(start_date@) == Some(t.start_date)
                &&& t.name == name
                &&& t.description == description
                &&& t.amount == amount
                &&& t.cycle == cycle
                &&& (match end_date {
                    Some(e) => parse_date_chars(e@) matches Some(ed) && t.end_date == Some(ed)
                        && date_le(t.start_date, ed),
                    None => t.end_date is None,
                })
                &&& t.id == old(gen).next_id
                &&& t.id > 0
                &&& transaction_dates_wf(t)
            },
            r is Ok ==> final(gen).next_id == old(gen).next_id + 1,
            r is Err ==> *final(gen) == *old(gen),
            id_generator_wf(*final(gen)),
    {
        let sd = match Date::parse(start_date) {
            Some(d) => d,
            None => {
                return Err(RecordError::InvalidStartDate);
            },
        };
        let ed: Option<Date> = match end_date {
            Some(e) => match Date::parse(e) {
                Some(d) => Some(d),
                None => {
                    return Err(RecordError::InvalidEndDate);
                },
            },
            None => None,
        };
        if let Some(e) = &ed {
            if e.lt(&sd) {
                return Err(RecordError::EndBeforeStart);
            }
        }
        let id = gen.fresh();
        Ok(Transaction { id, name, description, amount, cycle, start_date: sd, end_date: ed })
    }
}

/// A fresh draft: no identifier yet, empty name, amount zero, one-time,
/// dated at the epoch with no end date. A front end re-dates the draft to
/// the current day — the clock is the caller's, not the library's.
impl Default for Transaction {
    fn default() -> (r: Self)
        ensures
            r.id == 0,
            r.name@ == Seq::<char>::empty(),
            r.description is None,
            r.amount == Amount::Finite(0i64),
            r.cycle == Cycle::OneTime,
            r.start_date == crate::period::epoch_date(),
            r.end_date is None,
    {
        Transaction {
            id: 0,
            name: String::new(),
            description: None,
            amount: Amount::Finite(0),
            cycle: Cycle::OneTime,
            start_date: Date { year: 1970, month: 1, day: 1 },
            end_date: None,
        }
    }
}

/// A one-time transaction dated between the epoch and today occurs exactly
/// once in the all-time window, so projecting it onto that window returns it
/// unchanged.
pub proof fn lemma_one_time_projection_identity(t: Transaction, today: Date)
    requires
        t.cycle == Cycle::OneTime,
        transaction_dates_wf(t),
        valid_date(today),
        today.year >= 1970,
        date_le(crate::period::epoch_date(), t.start_date),
        date_le(t.start_date, today),
        t.end_date matches Some(e) ==> date_le(t.start_date, e),
    ensures
        occ_count_spec(t, Period::All, today) == 1,
        for_period_spec(t, Period::All, today) == t,
{
    let limit = occ_limit(t, today);
    let ps = period_start_spec(Period::All, today);
    assert(transaction_occurrences(t, Period::All, today) =~= seq![t.start_date]);
    match t.amount {
        Amount::Finite(v) => {
            assert(v * 1 == v) by (nonlinear_arith);
        },
        Amount::NonFinite => {},
    }
}

pub(crate) fn clone_description(o: &Option<String>) -> (r: Option<String>)
    ensures
        r == *o,
{
    match o {
        Some(s) => Some(s.clone()),
        None => None,
    }
}

} // verus!
