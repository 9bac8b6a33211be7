//! Currencies, exchange rates, conversion and amount formatting.
//!
//! Rates are fixed-point: millionths of a currency unit per euro. The euro's
//! own rate is pinned to exactly one. Conversion scales a cent value by the
//! ratio of the target and origin rates and rounds, half away from zero, to
//! the target currency's rounding unit: whole yen for JPY, cents otherwise.

use vstd::prelude::*;
use vstd::string::StringExecFns;
use crate::amount::{
    Amount, amount_cents, div_round_half_away, div_round_i128, div_round_u128,
    lemma_div_round_err, round_to_quantum,
};
use crate::text::{dec_digits, digit_char, digit_str, group_digits, grouped_decimal};

verus! {

/// The closed set of supported currencies.
#[derive(Clone, Copy, Debug, PartialEq, Eq, Structural, Hash, PartialOrd, Ord)]
pub enum Currency {
    USD,
    EUR,
    CAD,
    GBP,
    JPY,
}

/// Rates are stored in millionths of a unit per euro.
pub const RATE_SCALE: u64 = 1_000_000;

/// Largest accepted rate: a million units per euro, in millionths.
pub const RATE_MAX: u64 = 1_000_000_000_000;

/// The exchange-rate table, fetched once at startup and immutable afterwards:
/// for each currency, millionths of a unit per euro.
#[derive(Clone, Copy, Debug, PartialEq, Eq, Structural)]
pub struct RateTable {
    pub usd: u64,
    pub eur: u64,
    pub cad: u64,
    pub gbp: u64,
    pub jpy: u64,
}

pub open spec fn rate_table_wf(t: RateTable) -> bool {
    &&& 1 <= t.usd <= RATE_MAX
    &&& t.eur == RATE_SCALE
    &&& 1 <= t.cad <= RATE_MAX
    &&& 1 <= t.gbp <= RATE_MAX
    &&& 1 <= t.jpy <= RATE_MAX
}

pub open spec fn rate_spec(t: RateTable, c: Currency) -> int {
    match c {
        Currency::USD => t.usd as int,
        Currency::EUR => t.eur as int,
        Currency::CAD => t.cad as int,
        Currency::GBP => t.gbp as int,
        Currency::JPY => t.jpy as int,
    }
}

impl RateTable {
    /// Builds the table from fetched rates; the euro is pinned to one. Rates
    /// outside (0, `RATE_MAX`] are rejected, which makes a failed or garbled
    /// fetch a startup failure instead of a source of senseless conversions.
    pub fn new(usd: u64, cad: u64, gbp: u64, jpy: u64) -> (r: Option<RateTable>)
        ensures
            r is Some <==> (1 <= usd <= RATE_MAX && 1 <= cad <= RATE_MAX && 1 <= gbp <= RATE_MAX
                && 1 <= jpy <= RATE_MAX),
            r matches Some(t) ==> t == (RateTable { usd, eur: RATE_SCALE, cad, gbp, jpy })
                && rate_table_wf(t),
    {
        if 1 <= usd && usd <= RATE_MAX && 1 <= cad && cad <= RATE_MAX && 1 <= gbp && gbp <= RATE_MAX
            && 1 <= jpy && jpy <= RATE_MAX {
            Some(RateTable { usd, eur: RATE_SCALE, cad, gbp, jpy })
        } else {
            None
        }
    }

    pub fn rate(&self, c: Currency) -> (r: u64)
        ensures
            r == rate_spec(*self, c),
    {
        match c {
            Currency::USD => self.usd,
            Currency::EUR => self.eur,
            Currency::CAD => self.cad,
            Currency::GBP => self.gbp,
            Currency::JPY => self.jpy,
        }
    }
}

/// Cents per rounding unit: whole yen for JPY, a cent for every other
/// currency.
pub open spec fn quantum(c: Currency) -> int {
    if c == Currency::JPY {
        100
    } else {
        1
    }
}

pub fn quantum_of(c: Currency) -> (r: u64)
    ensures
        r == quantum(c),
{
    if c == Currency::JPY {
        100
    } else {
        1
    }
}

/// What normalizing does: a value with no magnitude becomes zero; a finite
/// value is rounded, half away from zero, to the currency's rounding unit.
pub open spec fn normalize_amount_spec(c: Currency, a: Amount) -> Amount {
    match a {
        Amount::NonFinite => Amount::Finite(0),
        Amount::Finite(v) => {
            let w = round_to_quantum(v as int, quantum(c));
            if i64::MIN <= w <= i64::MAX {
                Amount::Finite(w as i64)
            } else {
                Amount::NonFinite
            }
        },
    }
}

/// The exact conversion of a cent value: scale by the rate ratio and round to
/// the quantum `q` of the target currency, half away from zero.
pub open spec fn convert_value(v: int, rate_from: int, rate_to: int, q: int) -> int {
    q * div_round_half_away(v * rate_to, rate_from * q)
}

/// What converting does: between equal currencies, and on values with no
/// magnitude, the amount passes through unchanged; otherwise the cent value
/// is converted exactly, and a result outside the fixed-point range has no
/// magnitude.
pub open spec fn convert_amount_spec(a: Amount, from: Currency, to: Currency, t: RateTable) -> Amount {
    if from == to || !(a is Finite) {
        a
    } else {
        let w = convert_value(amount_cents(a), rate_spec(t, from), rate_spec(t, to), quantum(to));
        if i64::MIN <= w <= i64::MAX {
            Amount::Finite(w as i64)
        } else {
            Amount::NonFinite
        }
    }
}

/// Rounding to a quantum of one changes nothing.
pub proof fn lemma_round_quantum_one(v: int)
    ensures
        round_to_quantum(v, 1) == v,
{
    if v >= 0 {
        assert((2 * v + 1) / 2 == v);
    } else {
        assert((2 * (-v) + 1) / 2 == -v);
    }
}

impl Currency {
    /// How many currencies there are.
    pub fn count() -> (r: usize)
        ensures
            r == 5,
    {
        5
    }

    pub fn as_slice() -> (r: [Currency; 5])
        ensures
            r@ == seq![Currency::USD, Currency::EUR, Currency::CAD, Currency::GBP, Currency::JPY],
    {
        let r = [Currency::USD, Currency::EUR, Currency::CAD, Currency::GBP, Currency::JPY];
        proof {
            assert(r@ =~= seq![
                Currency::USD,
                Currency::EUR,
                Currency::CAD,
                Currency::GBP,
                Currency::JPY,
            ]);
        }
        r
    }

    pub fn is_default(&self) -> (r: bool)
        ensures
            r == (*self == Currency::USD),
    {
        match self {
            Currency::USD => true,
            _ => false,
        }
    }

    pub fn as_symbol(&self) -> (r: &'static str)
        ensures
            r@ == symbol_seq(*self),
    {
        match self {
            Currency::USD => {
                proof {
                    reveal_strlit("$");
                    assert("$"@ =~= symbol_seq(Currency::USD));
                }
                "$"
            },
            Currency::EUR => {
                proof {
                    reveal_strlit("€");
                    assert("€"@ =~= symbol_seq(Currency::EUR));
                }
                "€"
            },
            Currency::CAD => {
                proof {
                    reveal_strlit("$");
                    assert("$"@ =~= symbol_seq(Currency::CAD));
                }
                "$"
            },
            Currency::GBP => {
                proof {
                    reveal_strlit("£");
                    assert("£"@ =~= symbol_seq(Currency::GBP));
                }
                "£"
            },
            Currency::JPY => {
                proof {
                    reveal_strlit("¥");
                    assert("¥"@ =~= symbol_seq(Currency::JPY));
                }
                "¥"
            },
        }
    }

    pub fn as_short_str(&self) -> (r: &'static str)
        ensures
            *self == Currency::USD ==> r@ == "USD"@,
            *self == Currency::EUR ==> r@ == "EUR"@,
            *self == Currency::CAD ==> r@ == "CAD"@,
            *self == Currency::GBP ==> r@ == "GBP"@,
            *self == Currency::JPY ==> r@ == "JPY"@,
    {
        match self {
            Currency::USD => "USD",
            Currency::EUR => "EUR",
            Currency::CAD => "CAD",
            Currency::GBP => "GBP",
            Currency::JPY => "JPY",
        }
    }

    pub fn as_long_str(&self) -> (r: &'static str)
        ensures
            *self == Currency::USD ==> r@ == "US Dollar"@,
            *self == Currency::EUR ==> r@ == "Euro"@,
            *self == Currency::CAD ==> r@ == "Canadian Dollar"@,
            *self == Currency::GBP ==> r@ == "Pound Sterling"@,
            *self == Currency::JPY ==> r@ == "Japanese Yen"@,
    {
        match self {
            Currency::USD => "US Dollar",
            Currency::EUR => "Euro",
            Currency::CAD => "Canadian Dollar",
            Currency::GBP => "Pound Sterling",
            Currency::JPY => "Japanese Yen",
        }
    }

    /// Rounds an amount to this currency's rounding unit; a value with no
    /// magnitude normalizes to zero.
    pub fn normalize_amount(&self, amount: Amount) -> (r: Amount)
        ensures
            r == normalize_amount_spec(*self, amount),
            !(amount is Finite) ==> r == Amount::Finite(0i64),
            amount is Finite && *self != Currency::JPY ==> r == amount,
    {
        match amount {
            Amount::NonFinite => Amount::Finite(0),
            Amount::Finite(v) => {
                if *self == Currency::JPY {
                    let rr = div_round_i128(v as i128, 100);
                    proof {
                        assert(rr * 100 == 100 * rr) by (nonlinear_arith);
                    }
                    let w: i128 = rr * 100;
                    if i64::MIN as i128 <= w && w <= i64::MAX as i128 {
                        Amount::Finite(w as i64)
                    } else {
                        Amount::NonFinite
                    }
                } else {
                    proof {
                        lemma_round_quantum_one(v as int);
                    }
                    amount
                }
            },
        }
    }

    /// Converts an amount from this currency into `to` at the given rates;
    /// equal currencies and values with no magnitude pass through unchanged.
    pub fn convert_amount(&self, amount: Amount, to: Currency, rates: &RateTable) -> (r: Amount)
        requires
            rate_table_wf(*rates),
        ensures
            r == convert_amount_spec(amount, *self, to, *rates),
            *self == to ==> r == amount,
            !(amount is Finite) ==> r == amount,
    {
        if *self == to {
            return amount;
        }
        match amount {
            Amount::NonFinite => Amount::NonFinite,
            Amount::Finite(v) => {
                let rf = rates.rate(*self);
                let rt = rates.rate(to);
                let q = quantum_of(to);
                proof {
                    assert((v as int) * (rt as int) <= i64::MAX * (RATE_MAX as int) && (v as int) * (
                    rt as int) >= i64::MIN * (RATE_MAX as int)) by (nonlinear_arith)
                        requires
                            i64::MIN <= v <= i64::MAX,
                            1 <= rt <= RATE_MAX,
                    ;
                    assert(1 <= (rf as int) * (q as int) <= (RATE_MAX as int) * 100)
                        by (nonlinear_arith)
                        requires
                            1 <= rf <= RATE_MAX,
                            1 <= q <= 100,
                    ;
                }
                let n: i128 = (v as i128) * (rt as i128);
                let d: i128 = (rf as i128) * (q as i128);
                let rr = div_round_i128(n, d);
                proof {
                    assert(rr * (q as int) == (q as int) * rr) by (nonlinear_arith);
                    assert(vstd::math::abs(rr as int) * (q as int) <= vstd::math::abs(n as int)
                        * 100) by (nonlinear_arith)
                        requires
                            vstd::math::abs(rr as int) <= vstd::math::abs(n as int),
                            1 <= q <= 100,
                    ;
                    assert(vstd::math::abs((rr * q) as int) == vstd::math::abs(rr as int) * (
                    q as int)) by (nonlinear_arith)
                        requires
                            1 <= q <= 100,
                            vstd::math::abs(rr as int) * (q as int) <= vstd::math::abs(n as int)
                                * 100,
                            vstd::math::abs(n as int) <= i128::MAX / 200,
                    ;
                }
                let w: i128 = rr * (q as i128);
                if i64::MIN as i128 <= w && w <= i64::MAX as i128 {
                    Amount::Finite(w as i64)
                } else {
                    Amount::NonFinite
                }
            },
        }
    }
}

/// How an amount renders: "N/A" for a value with no magnitude; otherwise an
/// optional minus sign, the currency glyph, the whole units grouped by
/// thousands with spaces, a dot and exactly two fraction digits. JPY shows
/// whole yen only: no glyph, no dot, no fraction.
pub open spec fn format_amount_spec(c: Currency, a: Amount) -> Seq<char> {
    match a {
        Amount::NonFinite => seq!['N', '/', 'A'],
        Amount::Finite(v) => {
            let mag = vstd::math::abs(v as int);
            let sign: Seq<char> = if v < 0 {
                seq!['-']
            } else {
                Seq::empty()
            };
            if c == Currency::JPY {
                let units = div_round_half_away(mag as int, 100);
                sign + group_digits(dec_digits(units as nat))
            } else {
                sign + symbol_seq(c) + group_digits(dec_digits((mag / 100) as nat)) + seq!['.']
                    + seq![digit_char(((mag % 100) / 10) as int), digit_char((mag % 10) as int)]
            }
        },
    }
}

impl Currency {
    /// Renders an amount of this currency for display.
    pub fn format_amount(&self, a: Amount) -> (r: String)
        ensures
            r@ == format_amount_spec(*self, a),
    {
        match a {
            Amount::NonFinite => {
                proof {
                    reveal_strlit("N/A");
                    assert("N/A"@ =~= seq!['N', '/', 'A']);
                }
                let mut out = String::new();
                out.append("N/A");
                out
            },
            Amount::Finite(v) => {
                let mut out = String::new();
                let neg = v < 0;
                let mag: u128 = if neg {
                    (-(v as i128)) as u128
                } else {
                    v as u128
                };
                proof {
                    assert(mag as int == vstd::math::abs(v as int));
                }
                if neg {
                    proof {
                        reveal_strlit("-");
                        assert("-"@ =~= seq!['-']);
                    }
                    out.append("-");
                }
                if *self == Currency::JPY {
                    let units = div_round_u128(mag, 100);
                    let grouped = grouped_decimal(units);
                    out.append(grouped.as_str());
                } else {
                    out.append(self.as_symbol());
                    let grouped = grouped_decimal(mag / 100);
                    out.append(grouped.as_str());
                    proof {
                        reveal_strlit(".");
                        assert("."@ =~= seq!['.']);
                    }
                    out.append(".");
                    out.append(digit_str(((mag % 100) / 10) as u8));
                    out.append(digit_str((mag % 10) as u8));
                }
                proof {
                    assert(out@ =~= format_amount_spec(*self, a));
                }
                out
            },
        }
    }
}

/// The round trip of a conversion comes back within one rounding unit of the
/// origin currency.
///
/// This holds for an amount already on the origin currency's rounding grid,
/// and as long as one target rounding unit is worth at most two origin
/// rounding units (true of every realistic rate table; with rates wildly out
/// of that proportion the intermediate rounding can swallow more than one
/// origin unit).
pub proof fn lemma_convert_round_trip(a: int, c1: Currency, c2: Currency, t: RateTable)
    requires
        rate_table_wf(t),
        c1 != c2,
        a % quantum(c1) == 0,
        quantum(c2) * rate_spec(t, c1) <= 2 * quantum(c1) * rate_spec(t, c2),
    ensures
        vstd::math::abs(
            convert_value(
                convert_value(a, rate_spec(t, c1), rate_spec(t, c2), quantum(c2)),
                rate_spec(t, c2),
                rate_spec(t, c1),
                quantum(c1),
            ) - a,
        ) <= quantum(c1),
{
    let r1 = rate_spec(t, c1);
    let r2 = rate_spec(t, c2);
    let q1 = quantum(c1);
    let q2 = quantum(c2);
    let rr1 = div_round_half_away(a * r2, r1 * q2);
    let v1 = convert_value(a, r1, r2, q2);
    let rr2 = div_round_half_away(v1 * r1, r2 * q1);
    let v2 = convert_value(v1, r2, r1, q1);
    assert(r1 * q2 >= 1 && r2 * q1 >= 1) by (nonlinear_arith)
        requires
            r1 >= 1 && r2 >= 1 && q1 >= 1 && q2 >= 1,
    ;
    lemma_div_round_err(a * r2, r1 * q2);
    assert(2 * vstd::math::abs(r1 * v1 - a * r2) <= r1 * q2) by (nonlinear_arith)
        requires
            2 * vstd::math::abs((r1 * q2) * rr1 - a * r2) <= r1 * q2,
            v1 == q2 * rr1,
    ;
    lemma_div_round_err(v1 * r1, r2 * q1);
    assert(2 * vstd::math::abs(r2 * v2 - v1 * r1) <= r2 * q1) by (nonlinear_arith)
        requires
            2 * vstd::math::abs((r2 * q1) * rr2 - v1 * r1) <= r2 * q1,
            v2 == q1 * rr2,
    ;
    assert(2 * (r2 * vstd::math::abs(v2 - a)) <= 3 * (r2 * q1)) by (nonlinear_arith)
        requires
            2 * vstd::math::abs(r2 * v2 - v1 * r1) <= r2 * q1,
            2 * vstd::math::abs(r1 * v1 - a * r2) <= r1 * q2,
            q2 * r1 <= 2 * q1 * r2,
    ;
    assert(vstd::math::abs(v2 - a) < 2 * q1) by (nonlinear_arith)
        requires
            2 * (r2 * vstd::math::abs(v2 - a)) <= 3 * (r2 * q1),
            r2 >= 1,
            q1 >= 1,
    ;
    vstd::arithmetic::div_mod::lemma_fundamental_div_mod(a, q1);
    let k = a / q1;
    assert(vstd::math::abs(v2 - a) <= q1) by (nonlinear_arith)
        requires
            a == q1 * k,
            v2 == q1 * rr2,
            vstd::math::abs(v2 - a) < 2 * q1,
            q1 >= 1,
    ;
}

/// The display glyph of each currency.
pub open spec fn symbol_seq(c: Currency) -> Seq<char> {
    match c {
        Currency::USD => seq!['$'],
        Currency::EUR => seq!['€'],
        Currency::CAD => seq!['$'],
        Currency::GBP => seq!['£'],
        Currency::JPY => seq!['¥'],
    }
}

/// `c` is the letter `u`, ignoring ASCII case; `u` is an upper-case letter.
pub open spec fn ascii_eq_upper(c: char, u: char) -> bool {
    c == u || c as u32 == u as u32 + 32
}

pub open spec fn code_matches(t: Seq<char>, a: char, b: char, c: char) -> bool {
    t.len() == 3 && ascii_eq_upper(t[0], a) && ascii_eq_upper(t[1], b) && ascii_eq_upper(t[2], c)
}

/// What parsing a currency code yields: the three-letter code, ignoring ASCII
/// case and surrounding whitespace.
pub open spec fn currency_code_spec(s: Seq<char>) -> Option<Currency> {
    let t = crate::text::trim_spec(s);
    if code_matches(t, 'U', 'S', 'D') {
        Some(Currency::USD)
    } else if code_matches(t, 'E', 'U', 'R') {
        Some(Currency::EUR)
    } else if code_matches(t, 'C', 'A', 'D') {
        Some(Currency::CAD)
    } else if code_matches(t, 'G', 'B', 'P') {
        Some(Currency::GBP)
    } else if code_matches(t, 'J', 'P', 'Y') {
        Some(Currency::JPY)
    } else {
        None
    }
}

fn char_eq_upper(c: char, u: char) -> (r: bool)
    ensures
        r == ascii_eq_upper(c, u),
{
    c == u || c as u32 == u as u32 + 32
}

impl Currency {
    /// Parses a three-letter currency code, ignoring ASCII case and
    /// surrounding whitespace.
    pub fn parse_code(s: &str) -> (r: Option<Currency>)
        ensures
            r == currency_code_spec(s@),
    {
        let len = s.unicode_len();
        let mut start: usize = 0;
        proof {
            assert(s@.skip(0) =~= s@);
        }
        while start < len && crate::text::is_space(s.get_char(start))
            invariant
                len == s@.len(),
                start <= len,
                crate::text::trim_start_spec(s@) == crate::text::trim_start_spec(
                    s@.skip(start as int),
                ),
            decreases len - start,
        {
            proof {
                assert(s@.skip(start as int).skip(1) =~= s@.skip(start + 1));
            }
            start = start + 1;
        }
        proof {
            assert(crate::text::trim_start_spec(s@.skip(start as int)) == s@.skip(start as int));
        }
        let mut end: usize = len;
        while end > start && crate::text::is_space(s.get_char(end - 1))
            invariant
                len == s@.len(),
                start <= end <= len,
                crate::text::trim_start_spec(s@) == s@.skip(start as int),
                crate::text::trim_end_spec(s@.skip(start as int)) == crate::text::trim_end_spec(
                    s@.subrange(start as int, end as int),
                ),
            decreases end,
        {
            proof {
                assert(s@.subrange(start as int, end as int).drop_last() =~= s@.subrange(
                    start as int,
                    end - 1,
                ));
                assert(s@.subrange(start as int, end as int).last() == s@[end - 1]);
            }
            end = end - 1;
        }
        let ghost t = crate::text::trim_spec(s@);
        proof {
            assert(s@.skip(start as int) =~= s@.subrange(start as int, len as int));
            assert(crate::text::trim_end_spec(s@.subrange(start as int, end as int)) == s@.subrange(
                start as int,
                end as int,
            ));
            assert(t == s@.subrange(start as int, end as int));
        }
        if end - start != 3 {
            return None;
        }
        let c0 = s.get_char(start);
        let c1 = s.get_char(start + 1);
        let c2 = s.get_char(start + 2);
        proof {
            assert(t[0] == s@[start as int]);
            assert(t[1] == s@[start + 1]);
            assert(t[2] == s@[start + 2]);
        }
        if char_eq_upper(c0, 'U') && char_eq_upper(c1, 'S') && char_eq_upper(c2, 'D') {
            Some(Currency::USD)
        } else if char_eq_upper(c0, 'E') && char_eq_upper(c1, 'U') && char_eq_upper(c2, 'R') {
            Some(Currency::EUR)
        } else if char_eq_upper(c0, 'C') && char_eq_upper(c1, 'A') && char_eq_upper(c2, 'D') {
            Some(Currency::CAD)
        } else if char_eq_upper(c0, 'G') && char_eq_upper(c1, 'B') && char_eq_upper(c2, 'P') {
            Some(Currency::GBP)
        } else if char_eq_upper(c0, 'J') && char_eq_upper(c1, 'P') && char_eq_upper(c2, 'Y') {
            Some(Currency::JPY)
        } else {
            None
        }
    }
}

/// The default currency for fresh wallets and documents.
impl Default for Currency {
    fn default() -> (r: Self)
        ensures
            r == Currency::USD,
    {
        Currency::USD
    }
}

} // verus!
