//! Tags a front end uses to name its pages, rows and buttons.

use vstd::prelude::*;

verus! {

/// The pages of the application.
#[derive(Clone, Copy, Debug, PartialEq, Eq, Structural, Hash)]
pub enum Page {
    Status,
    Overview,
    Transaction,
    Wallet,
}

impl Default for Page {
    fn default() -> (r: Self)
        ensures
            r == Page::Status,
    {
        Page::Status
    }
}

/// What a row in the overview activates: a transaction within a wallet, or a
/// wallet itself.
#[derive(Clone, Copy, Debug, PartialEq, Eq, Structural)]
pub enum ActivateType {
    Transaction(usize, usize),
    Wallet(usize),
}

/// The buttons of the status page.
#[derive(Clone, Copy, Debug, PartialEq, Eq, Structural)]
pub enum ButtonClick {
    LoadPrevious,
    Load,
    Create,
    About,
}

/// The roles a button of an alert dialog can have.
#[derive(Clone, Copy, Debug, PartialEq, Eq, Structural)]
pub enum AlertButtonType {
    Okay,
    Cancel,
    Remove,
}

impl AlertButtonType {
    pub fn as_str(&self) -> (r: &'static str)
        ensures
            *self == AlertButtonType::Okay ==> r@ == "ok"@,
            *self == AlertButtonType::Cancel ==> r@ == "cancel"@,
            *self == AlertButtonType::Remove ==> r@ == "remove"@,
    {
        match self {
            AlertButtonType::Okay => "ok",
            AlertButtonType::Cancel => "cancel",
            AlertButtonType::Remove => "remove",
        }
    }
}

} // verus!
