//! Navigation requests a front end routes between its pages.

use vstd::prelude::*;

verus! {

/// Where the user asked to go; wallet and transaction identifiers of `None`
/// mean "a new one".
#[derive(Clone, Copy, Debug, PartialEq, Eq, Structural)]
pub enum NavigationAction {
    NavigateToStatus,
    NavigateToOverview,
    NavigateToWallet { wallet: Option<usize> },
    NavigateToTransaction { wallet: usize, transaction: Option<usize> },
    NavigateToPrevious,
    NavigateToCurrent,
}

impl NavigationAction {
    pub fn is_navigation_previous(&self) -> (r: bool)
        ensures
            r == (*self == NavigationAction::NavigateToPrevious),
    {
        match self {
            NavigationAction::NavigateToPrevious => true,
            _ => false,
        }
    }

    pub fn is_navigation_current(&self) -> (r: bool)
        ensures
            r == (*self == NavigationAction::NavigateToCurrent),
    {
        match self {
            NavigationAction::NavigateToCurrent => true,
            _ => false,
        }
    }

    pub fn navigate_to_new_wallet() -> (r: Self)
        ensures
            r == (NavigationAction::NavigateToWallet { wallet: None }),
    {
        NavigationAction::NavigateToWallet { wallet: None }
    }

    pub fn navigate_to_wallet(wallet: usize) -> (r: Self)
        ensures
            r == (NavigationAction::NavigateToWallet { wallet: Some(wallet) }),
    {
        NavigationAction::NavigateToWallet { wallet: Some(wallet) }
    }

    pub fn navigate_to_new_transaction(wallet: usize) -> (r: Self)
        ensures
            r == (NavigationAction::NavigateToTransaction { wallet, transaction: None }),
    {
        NavigationAction::NavigateToTransaction { wallet, transaction: None }
    }

    pub fn navigate_to_transaction(wallet: usize, transaction: usize) -> (r: Self)
        ensures
            r == (NavigationAction::NavigateToTransaction {
                wallet,
                transaction: Some(transaction),
            }),
    {
        NavigationAction::NavigateToTransaction { wallet, transaction: Some(transaction) }
    }
}

} // verus!
