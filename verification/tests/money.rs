use moneybook::amount::Amount;
use moneybook::currency::{Currency, RateTable};

fn rates() -> RateTable {
    // 1.08 USD, 1.47 CAD, 0.87 GBP and 160 JPY per euro, in millionths.
    RateTable::new(1_080_000, 1_470_000, 870_000, 160_000_000).unwrap()
}

#[test]
fn rate_table_rejects_zero_and_huge_rates() {
    assert!(RateTable::new(0, 1_470_000, 870_000, 160_000_000).is_none());
    assert!(RateTable::new(1_080_000, 1_470_000, 870_000, 2_000_000_000_000).is_none());
    let t = rates();
    assert_eq!(t.rate(Currency::EUR), 1_000_000);
    assert_eq!(t.rate(Currency::USD), 1_080_000);
}

#[test]
fn convert_identity_is_exact() {
    let t = rates();
    let a = Amount::Finite(12345);
    assert_eq!(Currency::USD.convert_amount(a, Currency::USD, &t), a);
    let odd = Amount::Finite(-1);
    assert_eq!(Currency::JPY.convert_amount(odd, Currency::JPY, &t), odd);
}

#[test]
fn convert_passes_non_finite_through() {
    let t = rates();
    let a = Amount::NonFinite;
    assert_eq!(Currency::USD.convert_amount(a, Currency::EUR, &t), a);
    assert_eq!(Currency::JPY.convert_amount(a, Currency::GBP, &t), a);
}

#[test]
fn normalize_non_finite_to_zero() {
    assert_eq!(Currency::USD.normalize_amount(Amount::NonFinite), Amount::Finite(0));
    assert_eq!(Currency::JPY.normalize_amount(Amount::NonFinite), Amount::Finite(0));
}

#[test]
fn normalize_rounds_yen_to_whole_units() {
    assert_eq!(Currency::JPY.normalize_amount(Amount::Finite(150)), Amount::Finite(200));
    assert_eq!(Currency::JPY.normalize_amount(Amount::Finite(-150)), Amount::Finite(-200));
    assert_eq!(Currency::JPY.normalize_amount(Amount::Finite(149)), Amount::Finite(100));
    assert_eq!(Currency::USD.normalize_amount(Amount::Finite(149)), Amount::Finite(149));
}

#[test]
fn convert_scales_and_rounds() {
    let t = rates();
    // 100.00 USD -> EUR: 10000 * 1.0 / 1.08 = 9259.26 -> 9259 cents.
    assert_eq!(
        Currency::USD.convert_amount(Amount::Finite(10000), Currency::EUR, &t),
        Amount::Finite(9259)
    );
    // 50.00 GBP -> EUR: 5000 / 0.87 = 5747.13 -> 5747 cents.
    assert_eq!(
        Currency::GBP.convert_amount(Amount::Finite(5000), Currency::EUR, &t),
        Amount::Finite(5747)
    );
    // 10.00 EUR -> JPY: 1000 * 160 = 160000 cents, already whole yen.
    assert_eq!(
        Currency::EUR.convert_amount(Amount::Finite(1000), Currency::JPY, &t),
        Amount::Finite(160000)
    );
    // 10.05 EUR -> JPY: 1608 yen exactly; the yen grid swallows the cents.
    assert_eq!(
        Currency::EUR.convert_amount(Amount::Finite(1005), Currency::JPY, &t),
        Amount::Finite(160800)
    );
}

#[test]
fn convert_round_trip_stays_within_one_unit() {
    let t = rates();
    for cents in [1i64, 37, 9999, 10000, -12345, 123456789] {
        let there = Currency::USD.convert_amount(Amount::Finite(cents), Currency::EUR, &t);
        let back = match there {
            Amount::Finite(v) => Currency::EUR.convert_amount(Amount::Finite(v), Currency::USD, &t),
            Amount::NonFinite => panic!("conversion lost the value"),
        };
        match back {
            Amount::Finite(v) => assert!((v - cents).abs() <= 1, "{} came back as {}", cents, v),
            Amount::NonFinite => panic!("conversion lost the value"),
        }
    }
    // A whole-yen amount survives JPY -> EUR -> JPY within one yen.
    let yen = Amount::Finite(80_00);
    let there = Currency::JPY.convert_amount(yen, Currency::EUR, &t);
    let back = match there {
        Amount::Finite(v) => Currency::EUR.convert_amount(Amount::Finite(v), Currency::JPY, &t),
        Amount::NonFinite => panic!("conversion lost the value"),
    };
    match back {
        Amount::Finite(v) => assert!((v - 80_00).abs() <= 100),
        Amount::NonFinite => panic!("conversion lost the value"),
    }
}

#[test]
fn convert_overflow_has_no_magnitude() {
    let t = rates();
    let r = Currency::EUR.convert_amount(Amount::Finite(i64::MAX), Currency::JPY, &t);
    assert_eq!(r, Amount::NonFinite);
}

#[test]
fn format_non_finite_as_na() {
    assert_eq!(Currency::USD.format_amount(Amount::NonFinite), "N/A");
}

#[test]
fn format_two_decimals_with_symbol() {
    assert_eq!(Currency::USD.format_amount(Amount::Finite(7000)), "$70.00");
    assert_eq!(Currency::USD.format_amount(Amount::Finite(-7050)), "-$70.50");
    assert_eq!(Currency::EUR.format_amount(Amount::Finite(5)), "€0.05");
    assert_eq!(Currency::GBP.format_amount(Amount::Finite(123456789)), "£1 234 567.89");
    assert_eq!(Currency::CAD.format_amount(Amount::Finite(100000)), "$1 000.00");
}

#[test]
fn format_yen_without_symbol_or_decimals() {
    assert_eq!(Currency::JPY.format_amount(Amount::Finite(123456)), "1 235");
    assert_eq!(Currency::JPY.format_amount(Amount::Finite(-100)), "-1");
    assert_eq!(Currency::JPY.format_amount(Amount::Finite(0)), "0");
}

#[test]
fn scale_multiplies_and_saturates() {
    assert_eq!(Amount::Finite(250).scale(3), Amount::Finite(750));
    assert_eq!(Amount::Finite(-40).scale(0), Amount::Finite(0));
    assert_eq!(Amount::NonFinite.scale(5), Amount::NonFinite);
    assert_eq!(Amount::Finite(i64::MAX).scale(2), Amount::NonFinite);
}

#[test]
fn currency_metadata() {
    assert_eq!(Currency::count(), 5);
    assert_eq!(Currency::as_slice().len(), 5);
    assert!(Currency::USD.is_default());
    assert!(!Currency::EUR.is_default());
    assert_eq!(Currency::USD.as_symbol(), "$");
    assert_eq!(Currency::JPY.as_symbol(), "¥");
    assert_eq!(Currency::GBP.as_short_str(), "GBP");
    assert_eq!(Currency::CAD.as_long_str(), "Canadian Dollar");
    assert_eq!(Currency::default(), Currency::USD);
}

#[test]
fn currency_codes_parse_loosely() {
    assert_eq!(Currency::parse_code("USD"), Some(Currency::USD));
    assert_eq!(Currency::parse_code(" usd "), Some(Currency::USD));
    assert_eq!(Currency::parse_code("eUr"), Some(Currency::EUR));
    assert_eq!(Currency::parse_code("jpy"), Some(Currency::JPY));
    assert_eq!(Currency::parse_code("CHF"), None);
    assert_eq!(Currency::parse_code(""), None);
    assert_eq!(Currency::parse_code("USDX"), None);
}
