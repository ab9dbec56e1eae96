//! Onboarding of new users, around the ledger they start with.

use vstd::prelude::*;
use crate::ledger::Ledger;

verus! {

/// Guides a new user through initial setup.
pub struct Onboarding {
    pub ledger: Ledger,
}

impl Onboarding {
    /// Onboarding around `ledger`.
    pub fn new(ledger: Ledger) -> (r: Self)
        ensures
            r.ledger == ledger,
    {
        Onboarding { ledger }
    }
}

} // verus!
