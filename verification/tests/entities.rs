use moneybook::amount::Amount;
use moneybook::nav::NavigationAction;
use moneybook::ui::AlertButtonType;
use moneybook::currency::Currency;
use moneybook::cycle::Cycle;
use moneybook::data::Data;
use moneybook::date::Date;
use moneybook::files::{contains_str, has_valid_extension, has_valid_filename};
use moneybook::ids::IdGenerator;
use moneybook::transaction::{RecordError, Transaction};
use moneybook::wallet::Wallet;

fn d(year: u32, month: u8, day: u8) -> Date {
    Date { year, month, day }
}

fn txn(name: &str, cents: i64) -> Transaction {
    Transaction {
        id: 0,
        name: String::from(name),
        description: None,
        amount: Amount::Finite(cents),
        cycle: Cycle::OneTime,
        start_date: d(2024, 3, 15),
        end_date: None,
    }
}

fn wallet(name: &str, currency: Currency, transactions: Vec<Transaction>) -> Wallet {
    Wallet { id: 0, name: String::from(name), description: None, currency, transactions }
}

#[test]
fn draft_promotion_is_idempotent() {
    let mut gen = IdGenerator::new();
    let t = txn("rent", -5000).assign_global_id(&mut gen);
    assert!(t.id > 0);
    assert!(t.is_created());
    let id = t.id;
    let t = t.assign_global_id(&mut gen);
    assert_eq!(t.id, id);
    let w = wallet("main", Currency::USD, vec![]).assign_global_id(&mut gen);
    assert!(w.id > 0);
    let wid = w.id;
    let w = w.assign_global_id(&mut gen);
    assert_eq!(w.id, wid);
}

#[test]
fn generator_never_repeats() {
    let mut gen = IdGenerator::new();
    let a = gen.fresh();
    let b = gen.fresh();
    let c = gen.fresh();
    assert_eq!((a, b, c), (1, 2, 3));
}

#[test]
fn transaction_validation_rules() {
    assert!(txn("groceries", -4000).is_valid());
    assert!(!txn("", 100).is_valid());
    assert!(!txn("   ", 100).is_valid());
    assert!(!txn(&"x".repeat(101), 100).is_valid());
    assert!(txn(&"x".repeat(100), 100).is_valid());
    assert!(!txn("zero", 0).is_valid());
    let mut t = txn("desc", 100);
    t.description = Some("y".repeat(500));
    assert!(t.is_valid());
    t.description = Some("y".repeat(501));
    assert!(!t.is_valid());
    let mut t = txn("dates", 100);
    t.end_date = Some(d(2024, 3, 14));
    assert!(!t.is_valid());
    t.end_date = Some(d(2024, 3, 15));
    assert!(t.is_valid());
    let mut t = txn("bad date", 100);
    t.start_date = d(2024, 2, 30);
    assert!(!t.is_valid());
}

#[test]
fn wallet_validation_rules() {
    assert!(wallet("main", Currency::USD, vec![txn("a", 1)]).is_valid());
    assert!(!wallet("", Currency::USD, vec![]).is_valid());
    assert!(!wallet("main", Currency::USD, vec![txn("bad", 0)]).is_valid());
    assert!(wallet("main", Currency::USD, vec![]).is_valid());
}

#[test]
fn transaction_difference_ignores_id() {
    let a = txn("a", 100);
    let mut b = txn("a", 100);
    b.id = 42;
    assert!(!a.is_different(&b));
    b.amount = Amount::Finite(101);
    assert!(a.is_different(&b));
    let mut c = txn("a", 100);
    c.cycle = Cycle::Monthly;
    assert!(a.is_different(&c));
}

#[test]
fn wallet_difference_compares_common_prefix() {
    let a = wallet("w", Currency::USD, vec![txn("a", 1)]);
    let b = wallet("w", Currency::USD, vec![txn("a", 1), txn("b", 2)]);
    // Only pairs at the same position are compared; the extra transaction is
    // not seen.
    assert!(!a.is_different(&b));
    let c = wallet("w", Currency::EUR, vec![txn("a", 1)]);
    assert!(a.is_different(&c));
    let e = wallet("w", Currency::USD, vec![txn("z", 1)]);
    assert!(a.is_different(&e));
}

#[test]
fn wallet_find_remove_update() {
    let mut gen = IdGenerator::new();
    let t1 = txn("one", 1).assign_global_id(&mut gen);
    let t2 = txn("two", 2).assign_global_id(&mut gen);
    let id1 = t1.id;
    let id2 = t2.id;
    let mut w = wallet("main", Currency::USD, vec![t1, t2]);
    assert_eq!(w.find_transaction_by_id(id1).unwrap().name, "one");
    assert!(w.find_transaction_by_id(999).is_none());
    let mut replacement = txn("two again", 22);
    replacement.id = id2;
    w.add_or_update_transaction(replacement);
    assert_eq!(w.transactions.len(), 2);
    assert_eq!(w.find_transaction_by_id(id2).unwrap().name, "two again");
    let t3 = txn("three", 3).assign_global_id(&mut gen);
    let id3 = t3.id;
    w.add_or_update_transaction(t3);
    assert_eq!(w.transactions.len(), 3);
    w.remove_transaction_by_id(id1);
    assert_eq!(w.transactions.len(), 2);
    assert!(w.find_transaction_by_id(id1).is_none());
    assert!(w.find_transaction_by_id(id3).is_some());
}

#[test]
fn data_find_remove_update() {
    let mut gen = IdGenerator::new();
    let w1 = wallet("cash", Currency::USD, vec![]).assign_global_id(&mut gen);
    let w2 = wallet("bank", Currency::EUR, vec![]).assign_global_id(&mut gen);
    let id1 = w1.id;
    let id2 = w2.id;
    let mut data = Data { wallets: vec![w1, w2], currency: Currency::EUR, period: moneybook::period::Period::All };
    assert_eq!(data.find_wallet_by_id(id2).unwrap().name, "bank");
    assert!(data.find_wallet_by_id(77).is_none());
    let mut replacement = wallet("bank 2", Currency::EUR, vec![]);
    replacement.id = id2;
    data.add_or_update_wallet(replacement);
    assert_eq!(data.wallets.len(), 2);
    assert_eq!(data.find_wallet_by_id(id2).unwrap().name, "bank 2");
    data.remove_wallet_by_id(id1);
    assert_eq!(data.wallets.len(), 1);
    assert!(data.find_wallet_by_id(id1).is_none());
}

#[test]
fn data_validity_and_emptiness() {
    let empty = Data::default();
    assert!(empty.is_empty());
    assert!(!empty.is_valid());
    assert_eq!(empty.currency, Currency::USD);
    assert_eq!(empty.period, moneybook::period::Period::All);
    let good = Data {
        wallets: vec![wallet("main", Currency::USD, vec![txn("a", 1)])],
        currency: Currency::USD,
        period: moneybook::period::Period::Month,
    };
    assert!(!good.is_empty());
    assert!(good.is_valid());
    let bad = Data {
        wallets: vec![wallet("", Currency::USD, vec![])],
        currency: Currency::USD,
        period: moneybook::period::Period::Month,
    };
    assert!(!bad.is_valid());
}

#[test]
fn records_parse_dates_and_draw_ids() {
    let mut gen = IdGenerator::new();
    let t = Transaction::from_record(
        String::from("rent"),
        Some(String::from("monthly rent")),
        Amount::Finite(-90000),
        Cycle::Monthly,
        "2024-01-31",
        None,
        &mut gen,
    )
    .unwrap();
    assert_eq!(t.id, 1);
    assert_eq!(t.start_date, d(2024, 1, 31));
    assert_eq!(t.end_date, None);
    let t2 = Transaction::from_record(
        String::from("gym"),
        None,
        Amount::Finite(-3000),
        Cycle::Monthly,
        "2024-01-01",
        Some("2024-06-30"),
        &mut gen,
    )
    .unwrap();
    assert_eq!(t2.id, 2);
    assert_eq!(t2.end_date, Some(d(2024, 6, 30)));
}

#[test]
fn records_report_each_error() {
    let mut gen = IdGenerator::new();
    let bad_start = Transaction::from_record(
        String::from("x"),
        None,
        Amount::Finite(1),
        Cycle::OneTime,
        "2024-1-1",
        None,
        &mut gen,
    );
    assert_eq!(bad_start.unwrap_err(), RecordError::InvalidStartDate);
    let bad_end = Transaction::from_record(
        String::from("x"),
        None,
        Amount::Finite(1),
        Cycle::OneTime,
        "2024-01-01",
        Some("not a date"),
        &mut gen,
    );
    assert_eq!(bad_end.unwrap_err(), RecordError::InvalidEndDate);
    let reversed = Transaction::from_record(
        String::from("x"),
        None,
        Amount::Finite(1),
        Cycle::OneTime,
        "2024-01-02",
        Some("2024-01-01"),
        &mut gen,
    );
    assert_eq!(reversed.unwrap_err(), RecordError::EndBeforeStart);
    // No identifier was consumed by the rejected records.
    assert_eq!(gen.fresh(), 1);
}

#[test]
fn wallet_records_draw_ids() {
    let mut gen = IdGenerator::new();
    let w = Wallet::from_record(
        String::from("cash"),
        None,
        Currency::GBP,
        vec![txn("a", 1)],
        &mut gen,
    );
    assert_eq!(w.id, 1);
    assert_eq!(w.currency, Currency::GBP);
    assert_eq!(w.transactions.len(), 1);
}

#[test]
fn navigation_actions_carry_their_targets() {
    assert!(NavigationAction::NavigateToPrevious.is_navigation_previous());
    assert!(!NavigationAction::NavigateToStatus.is_navigation_previous());
    assert!(NavigationAction::NavigateToCurrent.is_navigation_current());
    assert_eq!(
        NavigationAction::navigate_to_wallet(7),
        NavigationAction::NavigateToWallet { wallet: Some(7) }
    );
    assert_eq!(
        NavigationAction::navigate_to_new_wallet(),
        NavigationAction::NavigateToWallet { wallet: None }
    );
    assert_eq!(
        NavigationAction::navigate_to_transaction(7, 9),
        NavigationAction::NavigateToTransaction { wallet: 7, transaction: Some(9) }
    );
    assert_eq!(
        NavigationAction::navigate_to_new_transaction(7),
        NavigationAction::NavigateToTransaction { wallet: 7, transaction: None }
    );
}

#[test]
fn alert_button_labels() {
    assert_eq!(AlertButtonType::Okay.as_str(), "ok");
    assert_eq!(AlertButtonType::Cancel.as_str(), "cancel");
    assert_eq!(AlertButtonType::Remove.as_str(), "remove");
}

#[test]
fn document_file_names() {
    assert!(has_valid_extension("data.tracker.json"));
    assert!(has_valid_extension("a.json"));
    assert!(!has_valid_extension(".json"));
    assert!(!has_valid_extension("json"));
    assert!(!has_valid_extension("data.json.bak"));
    assert!(!has_valid_extension("data.JSON"));
    assert!(has_valid_filename("data.tracker.json", "tracker"));
    assert!(has_valid_filename("tracker", "tracker"));
    assert!(!has_valid_filename("data.other.json", "tracker"));
    assert!(!has_valid_filename("trk", "tracker"));
    assert!(contains_str("abcabd", "abd"));
    assert!(!contains_str("abcabc", "abd"));
    assert!(contains_str("anything", ""));
}

#[test]
fn default_transaction_is_an_epoch_draft() {
    let t = Transaction::default();
    assert_eq!(t.id, 0);
    assert_eq!(t.name, "");
    assert_eq!(t.description, None);
    assert_eq!(t.amount, Amount::Finite(0));
    assert_eq!(t.cycle, Cycle::OneTime);
    assert_eq!(t.start_date, d(1970, 1, 1));
    assert_eq!(t.end_date, None);
    assert!(!t.is_valid());
}
