//! A ready-made sample wallet, and addresses with the upper-case prefix.

use vstd::prelude::*;
use crate::explorer::TriadExplorer;
use crate::ledger::Ledger;
use crate::token::WaclaniumToken;
use crate::digest::append_str;
use crate::wallet::{Wallet, is_alphanumeric, random_alphanumeric};

verus! {

/// The number of random characters after the upper-case prefix.
pub const SHORT_ADDRESS_RANDOM_LEN: usize = 29;

/// A wallet over a token of initial supply 1000 and maximum 10000, a ledger and an
/// explorer keeping 100 records each, with 500 tokens minted to "user1".
pub fn create_sample_wallet() -> (r: Wallet)
    ensures
        r.wf(),
        r.token.balance_of("user1"@) == 500,
        r.token.balance_of("genesis"@) == 1000,
        r.token.total_supply == 1500,
        r.addresses.view() == Map::<Seq<char>, String>::empty(),
        r.ledger.transactions@.len() == 0,
        r.explorer.activities@.len() == 0,
{
    proof {
        reveal_strlit("user1");
        reveal_strlit("genesis");
        assert("user1"@ != "genesis"@) by {
            assert("user1"@[0] != "genesis"@[0]);
        }
    }
    let token = WaclaniumToken::new(1000, 10000, 1);
    let ledger = Ledger::new(100);
    let explorer = TriadExplorer::new(100);
    let mut wallet = Wallet::new(token, ledger, explorer);
    let minted = wallet.token.mint("user1", 500);
    assert(minted is Ok);
    wallet
}

impl Wallet {
    /// Creates a new address for `user_id`: "W" and twenty-nine random letters or
    /// digits. Nothing is recorded.
    pub fn create_address_with_w(&mut self, user_id: String) -> (r: String)
        requires
            old(self).wf(),
        ensures
            final(self).wf(),
            r@.len() == SHORT_ADDRESS_RANDOM_LEN + 1,
            r@[0] == 'W',
            forall|i: int| 1 <= i < r@.len() ==> is_alphanumeric(#[trigger] r@[i]),
            final(self).addresses.view() == old(self).addresses.view().insert(r@, user_id),
            final(self).token == old(self).token,
            final(self).ledger == old(self).ledger,
            final(self).explorer == old(self).explorer,
    {
        let suffix = random_alphanumeric(SHORT_ADDRESS_RANDOM_LEN);
        let mut address = "W".to_owned();
        proof {
            reveal_strlit("W");
        }
        append_str(&mut address, suffix.as_str());
        assert forall|i: int| 1 <= i < address@.len() implies is_alphanumeric(#[trigger] address@[i]) by {
            assert(address@[i] == suffix@[i - 1]);
        }
        self.addresses.insert(address.clone(), user_id);
        address
    }
}

} // verus!
