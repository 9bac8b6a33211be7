use moneybook::amount::Amount;
use moneybook::balance::Balance;
use moneybook::currency::{Currency, RateTable};
use moneybook::cycle::Cycle;
use moneybook::data::Data;
use moneybook::date::Date;
use moneybook::period::Period;
use moneybook::transaction::Transaction;
use moneybook::wallet::Wallet;

fn d(year: u32, month: u8, day: u8) -> Date {
    Date { year, month, day }
}

fn txn(name: &str, cents: i64, cycle: Cycle, start: Date, end: Option<Date>) -> Transaction {
    Transaction {
        id: 0,
        name: String::from(name),
        description: None,
        amount: Amount::Finite(cents),
        cycle,
        start_date: start,
        end_date: end,
    }
}

fn rates() -> RateTable {
    RateTable::new(1_080_000, 1_470_000, 870_000, 160_000_000).unwrap()
}

#[test]
fn one_time_occurs_once_on_its_day() {
    let t = txn("gift", 10000, Cycle::OneTime, d(2024, 3, 15), None);
    let today = d(2024, 3, 15);
    let occurrences = t.get_occurrences_in_period(Period::Day, today).unwrap();
    assert_eq!(occurrences, vec![d(2024, 3, 15)]);
    assert_eq!(t.count_occurrences_in_period(Period::Day, today), Some(1));
}

#[test]
fn one_time_outside_the_window_occurs_never() {
    let t = txn("gift", 10000, Cycle::OneTime, d(2024, 3, 15), None);
    // Five days later, the Day window no longer contains the start date.
    let today = d(2024, 3, 20);
    assert_eq!(t.count_occurrences_in_period(Period::Day, today), Some(0));
}

#[test]
fn unstarted_transaction_is_distinguished_from_zero_occurrences() {
    let t = txn("future", 100, Cycle::OneTime, d(2024, 3, 20), None);
    let today = d(2024, 3, 15);
    assert_eq!(t.get_occurrences_in_period(Period::Day, today), None);
    assert_eq!(t.count_occurrences_in_period(Period::Day, today), None);
}

#[test]
fn monthly_from_january_31_does_not_skip_february() {
    let t = txn("rent", -90000, Cycle::Monthly, d(2024, 1, 31), None);
    let today = d(2024, 4, 1);
    let occurrences = t.get_occurrences_in_period(Period::All, today).unwrap();
    // The day of month clamps to each month's length and stays clamped.
    assert_eq!(occurrences, vec![d(2024, 1, 31), d(2024, 2, 29), d(2024, 3, 29)]);
}

#[test]
fn daily_and_weekly_walks() {
    let today = d(2024, 3, 15);
    let daily = txn("coffee", -300, Cycle::Daily, d(2024, 3, 13), None);
    assert_eq!(daily.count_occurrences_in_period(Period::All, today), Some(3));
    let weekly = txn("class", -2000, Cycle::Weekly, d(2024, 2, 26), None);
    let occurrences = weekly.get_occurrences_in_period(Period::All, today).unwrap();
    assert_eq!(occurrences, vec![d(2024, 2, 26), d(2024, 3, 4), d(2024, 3, 11)]);
}

#[test]
fn end_date_stops_the_walk() {
    let t = txn("sub", -500, Cycle::Daily, d(2024, 3, 1), Some(d(2024, 3, 3)));
    let today = d(2024, 3, 15);
    assert_eq!(t.count_occurrences_in_period(Period::All, today), Some(3));
}

#[test]
fn yearly_walk() {
    let t = txn("insurance", -12000, Cycle::Yearly, d(2020, 2, 29), None);
    let today = d(2024, 3, 1);
    let occurrences = t.get_occurrences_in_period(Period::All, today).unwrap();
    assert_eq!(
        occurrences,
        vec![d(2020, 2, 29), d(2021, 2, 28), d(2022, 2, 28), d(2023, 2, 28), d(2024, 2, 28)]
    );
}

#[test]
fn for_period_scales_the_amount() {
    let today = d(2024, 3, 15);
    let daily = txn("coffee", -300, Cycle::Daily, d(2024, 3, 13), None);
    let projected = daily.for_period(Period::All, today);
    assert_eq!(projected.amount, Amount::Finite(-900));
    assert_eq!(projected.name, "coffee");
    let future = txn("future", 100, Cycle::OneTime, d(2024, 3, 20), None);
    assert_eq!(future.for_period(Period::All, today).amount, Amount::Finite(0));
    let outside = txn("old", 5000, Cycle::OneTime, d(2020, 1, 1), Some(d(2020, 1, 1)));
    assert_eq!(outside.for_period(Period::Month, today).amount, Amount::Finite(0));
}

#[test]
fn balance_classifies_by_sign() {
    let today = d(2024, 3, 15);
    let w = Wallet {
        id: 0,
        name: String::from("main"),
        description: None,
        currency: Currency::USD,
        transactions: vec![
            txn("salary", 10000, Cycle::OneTime, d(2024, 3, 1), None),
            txn("rent", -4000, Cycle::OneTime, d(2024, 3, 2), None),
            txn("bonus", 1000, Cycle::OneTime, d(2024, 3, 3), None),
        ],
    };
    let b = w.balance();
    assert_eq!(b.income, 11000);
    assert_eq!(b.expense, 4000);
    assert_eq!(b.net_balance(), 7000);
    assert_eq!(Currency::USD.format_amount(Amount::Finite(b.net_balance() as i64)), "$70.00");
    let _ = today;
}

#[test]
fn non_finite_amounts_count_into_neither_bucket() {
    let mut t = txn("odd", 1, Cycle::OneTime, d(2024, 3, 1), None);
    t.amount = Amount::NonFinite;
    let b = Balance::from_transactions(&[t]);
    assert_eq!((b.income, b.expense), (0, 0));
}

#[test]
fn join_is_commutative_associative_with_zero() {
    let a = Balance { income: 10, expense: 3 };
    let b = Balance { income: 7, expense: 9 };
    let c = Balance { income: u64::MAX - 5, expense: 1 };
    let zero = Balance::default();
    assert_eq!(a.join(&b), b.join(&a));
    assert_eq!(a.join(&b).join(&c), a.join(&b.join(&c)));
    assert_eq!(a.join(&zero), a);
    assert_eq!(zero.join(&b), b);
    // Saturation keeps the laws at the capacity edge.
    assert_eq!(c.join(&a).income, u64::MAX);
    assert_eq!(c.join(&a).join(&b), c.join(&a.join(&b)));
}

#[test]
fn format_value_grouping_and_signs() {
    assert_eq!(Balance::format_value(123456789, false), "1 234 567.89");
    assert_eq!(Balance::format_value(7000, true), "+70.00");
    assert_eq!(Balance::format_value(-7000, true), "-70.00");
    // Without an explicit sign request the magnitude is shown unsigned.
    assert_eq!(Balance::format_value(-7000, false), "70.00");
    assert_eq!(Balance::format_value(0, true), "+0.00");
    let b = Balance { income: 11000, expense: 4000 };
    assert_eq!(b.formatted_balance(), "+70.00");
}

#[test]
fn wallet_projection_and_conversion() {
    let today = d(2024, 3, 15);
    let t = rates();
    let w = Wallet {
        id: 0,
        name: String::from("gbp savings"),
        description: None,
        currency: Currency::GBP,
        transactions: vec![txn("deposit", 5000, Cycle::OneTime, d(2024, 3, 1), None)],
    };
    let projected = w.for_period(Period::All, today);
    assert_eq!(projected.currency, Currency::GBP);
    assert_eq!(projected.transactions[0].amount, Amount::Finite(5000));
    let converted = projected.convert_to_currency(Currency::EUR, &t);
    assert_eq!(converted.currency, Currency::EUR);
    assert_eq!(converted.transactions[0].amount, Amount::Finite(5747));
    // The source wallet is untouched.
    assert_eq!(w.currency, Currency::GBP);
    assert_eq!(w.transactions[0].amount, Amount::Finite(5000));
}

#[test]
fn total_balance_joins_converted_wallets() {
    let today = d(2024, 3, 15);
    let t = rates();
    let usd = Wallet {
        id: 1,
        name: String::from("usd"),
        description: None,
        currency: Currency::USD,
        transactions: vec![txn("pay", 10000, Cycle::OneTime, d(2024, 3, 1), None)],
    };
    let gbp = Wallet {
        id: 2,
        name: String::from("gbp"),
        description: None,
        currency: Currency::GBP,
        transactions: vec![
            txn("save", 5000, Cycle::OneTime, d(2024, 3, 2), None),
            txn("fee", -100, Cycle::OneTime, d(2024, 3, 3), None),
        ],
    };
    let data = Data { wallets: vec![usd, gbp], currency: Currency::EUR, period: Period::All };
    let total = data.total_balance_for_period(today, &t);
    // 100.00 USD -> 92.59 EUR; 50.00 GBP -> 57.47 EUR; -1.00 GBP -> -1.15 EUR.
    assert_eq!(total.income, 9259 + 5747);
    assert_eq!(total.expense, 115);
    // The same total as converting each wallet's full-history balance by hand.
    let e1 = Currency::USD.convert_amount(Amount::Finite(10000), Currency::EUR, &t);
    let e2 = Currency::GBP.convert_amount(Amount::Finite(5000), Currency::EUR, &t);
    let e3 = Currency::GBP.convert_amount(Amount::Finite(-100), Currency::EUR, &t);
    let (i1, i2, e3v) = match (e1, e2, e3) {
        (Amount::Finite(a), Amount::Finite(b), Amount::Finite(c)) => (a, b, c),
        _ => panic!("conversion lost a value"),
    };
    assert_eq!(total.income as i64, i1 + i2);
    assert_eq!(total.expense as i64, -e3v);
}

#[test]
fn empty_document_total_is_zero() {
    let data = Data::default();
    let total = data.total_balance_for_period(d(2024, 3, 15), &rates());
    assert_eq!(total, Balance::default());
}

#[test]
fn wallets_for_period_projects_each_wallet() {
    let today = d(2024, 3, 15);
    let w = Wallet {
        id: 1,
        name: String::from("w"),
        description: None,
        currency: Currency::USD,
        transactions: vec![txn("daily", -100, Cycle::Daily, d(2024, 3, 14), None)],
    };
    let data = Data { wallets: vec![w], currency: Currency::USD, period: Period::All };
    let projected = data.wallets_for_period(today);
    assert_eq!(projected.len(), 1);
    assert_eq!(projected[0].transactions[0].amount, Amount::Finite(-200));
}

#[test]
fn cycle_metadata() {
    assert_eq!(Cycle::OneTime.as_str(), "One Time");
    assert_eq!(Cycle::Daily.as_str(), "Daily");
    assert_eq!(Cycle::as_slice().len(), 5);
    assert_eq!(Cycle::default(), Cycle::OneTime);
    assert_eq!(Cycle::Monthly.icon_name(), "month-symbolic");
    assert_eq!(Cycle::Monthly.next(d(2024, 1, 31)), Some(d(2024, 2, 29)));
    assert_eq!(Cycle::OneTime.next(d(2024, 1, 31)), None);
}
