//! A verified engine for a personal finance tracker.
//!
//! Wallets hold one-time or recurring transactions; the engine expands a
//! transaction's repeat cycle into concrete occurrence dates inside a
//! reporting period, folds occurrences into income/expense balances, and
//! converts amounts between currencies with a fixed-point rounding policy.

pub mod amount;
pub mod balance;
pub mod currency;
pub mod cycle;
pub mod data;
pub mod date;
pub mod files;
pub mod ids;
pub mod nav;
pub mod period;
pub mod text;
pub mod transaction;
pub mod ui;
pub mod wallet;
