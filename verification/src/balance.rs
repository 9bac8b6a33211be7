//! Income/expense aggregates over transactions.
//!
//! A balance keeps two non-negative accumulators in cents: income collects
//! the non-negative amounts, expense the magnitudes of the negative ones.
//! Sums saturate at the accumulator's capacity instead of wrapping.

use vstd::prelude::*;
use crate::amount::Amount;
use crate::text::{dec_digits, digit_char, digit_str, group_digits, grouped_decimal};
use crate::transaction::Transaction;

verus! {

/// Income and expense totals, both non-negative cent counts.
#[derive(Clone, Copy, Debug, PartialEq, Eq, Structural)]
pub struct Balance {
    pub income: u64,
    pub expense: u64,
}

/// Addition that saturates at the accumulator's capacity.
pub open spec fn sat_u64(x: int) -> u64 {
    if x > u64::MAX {
        u64::MAX
    } else {
        x as u64
    }
}

/// What a transaction adds to the income accumulator: its amount when that
/// is finite and non-negative.
pub open spec fn income_contrib(t: Transaction) -> int {
    match t.amount {
        Amount::Finite(v) => if v >= 0 {
            v as int
        } else {
            0
        },
        Amount::NonFinite => 0,
    }
}

/// What a transaction adds to the expense accumulator: the magnitude of its
/// amount when that is finite and negative.
pub open spec fn expense_contrib(t: Transaction) -> int {
    match t.amount {
        Amount::Finite(v) => if v < 0 {
            -(v as int)
        } else {
            0
        },
        Amount::NonFinite => 0,
    }
}

pub open spec fn income_sum(s: Seq<Transaction>) -> u64
    decreases s.len(),
{
    if s.len() == 0 {
        0
    } else {
        sat_u64(income_sum(s.drop_last()) + income_contrib(s.last()))
    }
}

pub open spec fn expense_sum(s: Seq<Transaction>) -> u64
    decreases s.len(),
{
    if s.len() == 0 {
        0
    } else {
        sat_u64(expense_sum(s.drop_last()) + expense_contrib(s.last()))
    }
}

/// The balance of a list of transactions: each one is counted once, into
/// exactly one of the two accumulators, chosen by the sign of its amount.
pub open spec fn balance_of(s: Seq<Transaction>) -> Balance {
    Balance { income: income_sum(s), expense: expense_sum(s) }
}

pub open spec fn zero_balance() -> Balance {
    Balance { income: 0, expense: 0 }
}

/// Pointwise saturating addition of two balances.
pub open spec fn join_spec(a: Balance, b: Balance) -> Balance {
    Balance { income: sat_u64(a.income + b.income), expense: sat_u64(a.expense + b.expense) }
}

/// Joining balances is commutative.
pub proof fn lemma_join_commutative(a: Balance, b: Balance)
    ensures
        join_spec(a, b) == join_spec(b, a),
{
}

/// Joining balances is associative.
pub proof fn lemma_join_associative(a: Balance, b: Balance, c: Balance)
    ensures
        join_spec(join_spec(a, b), c) == join_spec(a, join_spec(b, c)),
{
}

/// The zero balance is the identity of `join`.
pub proof fn lemma_join_zero(b: Balance)
    ensures
        join_spec(b, zero_balance()) == b,
        join_spec(zero_balance(), b) == b,
{
}

/// How a signed cent value renders: an optional sign (a plus only when asked
/// for, a minus only when asked for), the whole units grouped by thousands,
/// a dot and two fraction digits.
pub open spec fn format_value_spec(v: int, prefix_sign: bool) -> Seq<char> {
    let mag = vstd::math::abs(v);
    let prefix: Seq<char> = if v >= 0 && prefix_sign {
        seq!['+']
    } else if v < 0 && prefix_sign {
        seq!['-']
    } else {
        Seq::empty()
    };
    prefix + group_digits(dec_digits((mag / 100) as nat)) + seq!['.'] + seq![
        digit_char(((mag % 100) / 10) as int),
        digit_char((mag % 10) as int),
    ]
}

impl Balance {
    /// Folds transactions into a balance in one pass: amounts at least zero
    /// add to income, negative amounts add their magnitude to expense, and a
    /// value with no magnitude adds to neither.
    pub fn from_transactions(transactions: &[Transaction]) -> (r: Balance)
        ensures
            r == balance_of(transactions@),
    {
        let mut income: u64 = 0;
        let mut expense: u64 = 0;
        let mut i: usize = 0;
        proof {
            assert(transactions@.take(0) =~= Seq::<Transaction>::empty());
        }
        while i < transactions.len()
            invariant
                i <= transactions@.len(),
                income == income_sum(transactions@.take(i as int)),
                expense == expense_sum(transactions@.take(i as int)),
            decreases transactions@.len() - i,
        {
            proof {
                assert(transactions@.take(i + 1).drop_last() =~= transactions@.take(i as int));
                assert(transactions@.take(i + 1).last() == transactions@[i as int]);
            }
            match transactions[i].amount {
                Amount::Finite(v) => {
                    if v >= 0 {
                        income = match income.checked_add(v as u64) {
                            Some(s) => s,
                            None => u64::MAX,
                        };
                    } else {
                        let mag: u64 = (-(v as i128)) as u64;
                        expense = match expense.checked_add(mag) {
                            Some(s) => s,
                            None => u64::MAX,
                        };
                    }
                },
                Amount::NonFinite => {},
            }
            i = i + 1;
        }
        proof {
            assert(transactions@.take(transactions@.len() as int) =~= transactions@);
        }
        Balance { income, expense }
    }

    /// Income minus expense, exactly.
    pub fn net_balance(&self) -> (r: i128)
        ensures
            r == self.income - self.expense,
    {
        self.income as i128 - self.expense as i128
    }

    /// Pointwise saturating addition. Commutative and associative, with the
    /// zero balance as identity.
    pub fn join(&self, other: &Balance) -> (r: Balance)
        ensures
            r == join_spec(*self, *other),
    {
        let income = match self.income.checked_add(other.income) {
            Some(s) => s,
            None => u64::MAX,
        };
        let expense = match self.expense.checked_add(other.expense) {
            Some(s) => s,
            None => u64::MAX,
        };
        Balance { income, expense }
    }

    /// Renders a signed cent value with two decimals and thousands grouping;
    /// `prefix_sign` asks for an explicit sign (otherwise the magnitude is
    /// shown unsigned).
    pub fn format_value(value: i128, prefix_sign: bool) -> (r: String)
        requires
            value > i128::MIN,
        ensures
            r@ == format_value_spec(value as int, prefix_sign),
    {
        let mut out = String::new();
        let neg = value < 0;
        let mag: u128 = if neg {
            (-value) as u128
        } else {
            value as u128
        };
        proof {
            assert(mag as int == vstd::math::abs(value as int));
        }
        if prefix_sign {
            if neg {
                proof {
                    reveal_strlit("-");
                    assert("-"@ =~= seq!['-']);
                }
                out.append("-");
            } else {
                proof {
                    reveal_strlit("+");
                    assert("+"@ =~= seq!['+']);
                }
                out.append("+");
            }
        }
        let grouped = grouped_decimal(mag / 100);
        out.append(grouped.as_str());
        proof {
            reveal_strlit(".");
            assert("."@ =~= seq!['.']);
        }
        out.append(".");
        out.append(digit_str(((mag % 100) / 10) as u8));
        out.append(digit_str((mag % 10) as u8));
        proof {
            assert(out@ =~= format_value_spec(value as int, prefix_sign));
        }
        out
    }

    /// The net balance rendered with an explicit sign.
    pub fn formatted_balance(&self) -> (r: String)
        ensures
            r@ == format_value_spec(self.income - self.expense, true),
    {
        Balance::format_value(self.net_balance(), true)
    }
}

impl Default for Balance {
    fn default() -> (r: Self)
        ensures
            r == zero_balance(),
    {
        Balance { income: 0, expense: 0 }
    }
}

} // verus!
