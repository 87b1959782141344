//! Who pays for a hop.

use vstd::prelude::*;
use vstd::string::StringExecFns;

verus! {

/// The identity of a payer. A hop that carries one is billable; a hop
/// without one is served only where service is free.
#[derive(Debug, PartialEq, Eq)]
pub struct Wallet {
    pub address: String,
}

impl View for Wallet {
    type V = Seq<char>;

    open spec fn view(&self) -> Seq<char> {
        self.address@
    }
}

impl Clone for Wallet {
    fn clone(&self) -> (copy: Self)
        ensures
            copy@ == self@,
    {
        Wallet { address: self.address.clone() }
    }
}

impl Wallet {
    pub fn new(address: &str) -> (wallet: Wallet)
        ensures
            wallet@ == address@,
    {
        Wallet { address: String::from_str(address) }
    }
}

/// The view of a wallet that may be absent.
pub open spec fn wallet_view(wallet: Option<Wallet>) -> Option<Seq<char>> {
    match wallet {
        Some(w) => Some(w@),
        None => None,
    }
}

/// Copies a wallet that may be absent.
pub fn clone_wallet(wallet: &Option<Wallet>) -> (copy: Option<Wallet>)
    ensures
        wallet_view(copy) == wallet_view(*wallet),
{
    match wallet {
        Some(w) => Some(w.clone()),
        None => None,
    }
}

} // verus!
