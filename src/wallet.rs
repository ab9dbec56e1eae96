//! Wallets: addresses mapped to token users, with transfers recorded on the ledger
//! and reported to the explorer.

use vstd::prelude::*;
use crate::explorer::{TriadActivity, TriadExplorer};
use crate::digest::append_str;
use crate::history::bounded_push;
use crate::ledger::{Ledger, LedgerTransaction};
use crate::string_map::StringMap;
use crate::token::{TokenError, WaclaniumToken, amount_of};
use crate::triad::Transaction;

verus! {

/// `std::time::SystemTime`, the wall-clock time of a record; opaque.
#[verifier::external_type_specification]
#[verifier::external_body]
pub struct ExSystemTime(std::time::SystemTime);

/// Relies on `std::time::SystemTime::now`: the current system time.
#[verifier::external_body]
pub(crate) fn system_now() -> std::time::SystemTime {
    std::time::SystemTime::now()
}

/// Relies on `std::time::SystemTime::duration_since` with `UNIX_EPOCH`: whole
/// seconds since the epoch, zero for a time before it.
#[verifier::external_body]
pub(crate) fn secs_since_epoch(t: &std::time::SystemTime) -> u64 {
    match t.duration_since(std::time::UNIX_EPOCH) {
        Ok(d) => d.as_secs(),
        Err(_) => 0,
    }
}

/// A letter or digit of ASCII.
pub open spec fn is_alphanumeric(c: char) -> bool {
    ('A' <= c && c <= 'Z') || ('a' <= c && c <= 'z') || ('0' <= c && c <= '9')
}

/// Relies on `rand::thread_rng` sampled with `rand::distributions::Alphanumeric`:
/// `len` characters, each an ASCII letter or digit.
#[verifier::external_body]
pub(crate) fn random_alphanumeric(len: usize) -> (r: String)
    ensures
        r@.len() == len,
        forall|i: int| 0 <= i < r@.len() ==> is_alphanumeric(#[trigger] r@[i]),
{
    rand::Rng::sample_iter(rand::thread_rng(), &rand::distributions::Alphanumeric).take(len).map(char::from).collect()
}

/// The number of random characters after the prefix of an address.
pub const ADDRESS_RANDOM_LEN: usize = 30;

/// Why a wallet transfer was refused.
#[derive(Debug, Clone, Copy, PartialEq, Eq, Structural)]
pub enum WalletError {
    /// The sending address is unknown.
    InvalidFromAddress,
    /// The receiving address is unknown.
    InvalidToAddress,
    /// The token refused the transfer.
    Token(TokenError),
}

impl WalletError {
    /// A description of the refusal.
    pub fn message(&self) -> String {
        match self {
            WalletError::InvalidFromAddress => "Invalid from address".to_string(),
            WalletError::InvalidToAddress => "Invalid to address".to_string(),
            WalletError::Token(e) => e.message(),
        }
    }
}

/// The transfers of `txs` that involve `address`, in order.
pub open spec fn involving(txs: Seq<LedgerTransaction>, address: Seq<char>) -> Seq<LedgerTransaction>
    decreases txs.len(),
{
    if txs.len() == 0 {
        Seq::empty()
    } else {
        let rest = involving(txs.drop_last(), address);
        if txs.last().from@ == address || txs.last().to@ == address {
            rest.push(txs.last())
        } else {
            rest
        }
    }
}

/// What a wallet transfer of `amount` from address `from` to address `to` does.
/// Unknown sender, then unknown receiver, then a balance below the amount refuse it,
/// and a refusal changes nothing. Otherwise the balances of the users behind the
/// addresses move by the amount, and the ledger and the explorer each record one
/// entry for it.
pub open spec fn transfer_outcome(
    before: Wallet,
    after: Wallet,
    from: Seq<char>,
    to: Seq<char>,
    amount: u64,
    r: Result<(), WalletError>,
) -> bool {
    &&& after.addresses == before.addresses
    &&& before.user_of(from) is None ==> r == Err::<(), WalletError>(WalletError::InvalidFromAddress)
    &&& before.user_of(from) is Some && before.user_of(to) is None ==> r == Err::<(), WalletError>(
        WalletError::InvalidToAddress,
    )
    &&& before.user_of(from) is Some && before.user_of(to) is Some ==> {
        &&& (r is Ok <==> before.token.balance_of(before.user_of(from)->Some_0@) >= amount)
        &&& r is Err ==> r == Err::<(), WalletError>(WalletError::Token(TokenError::InsufficientBalance))
    }
    &&& r is Err ==> after.token == before.token && after.ledger == before.ledger && after.explorer
        == before.explorer
    &&& r is Ok ==> {
        let from_user = before.user_of(from)->Some_0;
        let to_user = before.user_of(to)->Some_0;
        let m1 = before.token.balances.view().insert(
            from_user@,
            (before.token.balance_of(from_user@) - amount) as u64,
        );
        let record = after.ledger.transactions@.last();
        &&& before.user_of(from) is Some && before.user_of(to) is Some
        &&& after.token.balances.view() == m1.insert(to_user@, (amount_of(m1, to_user@) + amount) as u64)
        &&& after.token.stakes == before.token.stakes
        &&& after.token.total_supply == before.token.total_supply
        &&& after.ledger.max_history == before.ledger.max_history
        &&& after.ledger.transactions@ == bounded_push(
            before.ledger.transactions@,
            record,
            before.ledger.max_history as nat,
        )
        &&& record.from@ == from && record.to@ == to && record.amount == amount
        &&& after.explorer.max_history == before.explorer.max_history
        &&& after.explorer.activities@ == bounded_push(
            before.explorer.activities@,
            after.explorer.activities@.last(),
            before.explorer.max_history as nat,
        )
        &&& match after.explorer.activities@.last() {
            TriadActivity::TransactionAdded(t) => t.sender@ == from && t.receiver@ == to && t.amount == amount
                && t.timestamp == record.timestamp,
            _ => false,
        }
    }
}

/// Addresses of token users, the token, and where transfers are recorded.
pub struct Wallet {
    /// The user behind each address.
    pub addresses: StringMap<String>,
    pub token: WaclaniumToken,
    pub ledger: Ledger,
    pub explorer: TriadExplorer,
}

impl Wallet {
    /// The address map and the token are well formed.
    pub open spec fn wf(&self) -> bool {
        self.addresses.wf() && self.token.wf()
    }

    /// The user behind `address`, if it is known.
    pub open spec fn user_of(&self, address: Seq<char>) -> Option<String> {
        if self.addresses.view().contains_key(address) {
            Some(self.addresses.view()[address])
        } else {
            None
        }
    }

    /// A wallet with no addresses over the given token, ledger and explorer.
    pub fn new(token: WaclaniumToken, ledger: Ledger, explorer: TriadExplorer) -> (r: Self)
        ensures
            r.addresses.wf(),
            r.addresses.view() == Map::<Seq<char>, String>::empty(),
            r.token == token,
            r.ledger == ledger,
            r.explorer == explorer,
    {
        Wallet { addresses: StringMap::new(), token, ledger, explorer }
    }

    /// Maps `address` to `user_id` and records the creation at `timestamp` on the
    /// ledger, as a zero transfer from "system", and on the explorer.
    pub fn register_address(&mut self, address: String, user_id: String, timestamp: u64)
        requires
            old(self).wf(),
        ensures
            final(self).wf(),
            final(self).addresses.view() == old(self).addresses.view().insert(address@, user_id),
            final(self).ledger.transactions@.len() > 0,
            final(self).ledger.transactions@.last().from@ == "system"@,
            final(self).ledger.transactions@.last().to@ == address@,
            final(self).ledger.transactions@.last().amount == 0,
            final(self).ledger.transactions@.last().timestamp == timestamp,
            final(self).ledger.max_history == old(self).ledger.max_history,
            final(self).explorer.activities@.len() > 0,
            final(self).explorer.activities@.last() == TriadActivity::Other(
                final(self).explorer.activities@.last()->Other_0,
            ),
            final(self).explorer.activities@.last()->Other_0@ == "Wallet created: "@ + address@,
            final(self).token == old(self).token,
    {
        let mut note = "Wallet created: ".to_owned();
        append_str(&mut note, address.as_str());
        let tx = LedgerTransaction { from: "system".to_owned(), to: address.clone(), amount: 0, timestamp };
        self.addresses.insert(address, user_id);
        self.ledger.add_transaction(tx);
        self.explorer.add_activity(TriadActivity::Other(note));
    }

    /// Creates a new address for `user_id`: "w" and thirty random letters or digits.
    /// The creation is recorded with the current time.
    pub fn create_address(&mut self, user_id: String) -> (r: String)
        requires
            old(self).wf(),
        ensures
            final(self).wf(),
            r@.len() == ADDRESS_RANDOM_LEN + 1,
            r@[0] == 'w',
            forall|i: int| 1 <= i < r@.len() ==> is_alphanumeric(#[trigger] r@[i]),
            final(self).addresses.view() == old(self).addresses.view().insert(r@, user_id),
            final(self).token == old(self).token,
    {
        let suffix = random_alphanumeric(ADDRESS_RANDOM_LEN);
        let mut address = "w".to_owned();
        proof {
            reveal_strlit("w");
        }
        append_str(&mut address, suffix.as_str());
        assert forall|i: int| 1 <= i < address@.len() implies is_alphanumeric(#[trigger] address@[i]) by {
            assert(address@[i] == suffix@[i - 1]);
        }
        let timestamp = secs_since_epoch(&system_now());
        self.register_address(address.clone(), user_id, timestamp);
        address
    }

    /// The token balance of the user behind `address`; zero for an unknown address.
    pub fn get_balance(&self, address: &str) -> (r: u64)
        requires
            self.wf(),
        ensures
            r == match self.user_of(address@) {
                Some(u) => self.token.balance_of(u@),
                None => 0,
            },
    {
        match self.addresses.get(address) {
            Some(user_id) => self.token.get_balance(user_id.as_str()),
            None => 0,
        }
    }

    /// Transfers `amount` between the users behind two addresses and records it at
    /// `timestamp` on the ledger and the explorer. Refused for an unknown sender,
    /// then an unknown receiver, then as the token refuses.
    pub fn transfer_at(&mut self, from_address: &str, to_address: &str, amount: u64, timestamp: u64) -> (r: Result<(), WalletError>)
        requires
            old(self).wf(),
        ensures
            final(self).wf(),
            transfer_outcome(*old(self), *final(self), from_address@, to_address@, amount, r),
            r is Ok ==> final(self).ledger.transactions@.last().timestamp == timestamp,
    {
        let from_user = match self.addresses.get(from_address) {
            Some(u) => u.clone(),
            None => {
                return Err(WalletError::InvalidFromAddress);
            },
        };
        let to_user = match self.addresses.get(to_address) {
            Some(u) => u.clone(),
            None => {
                return Err(WalletError::InvalidToAddress);
            },
        };
        match self.token.transfer(from_user.as_str(), to_user.as_str(), amount) {
            Ok(()) => {},
            Err(e) => {
                return Err(WalletError::Token(e));
            },
        }
        let tx = LedgerTransaction {
            from: from_address.to_owned(),
            to: to_address.to_owned(),
            amount,
            timestamp,
        };
        let explorer_tx = Transaction {
            sender: from_address.to_owned(),
            receiver: to_address.to_owned(),
            amount,
            timestamp,
        };
        self.ledger.add_transaction(tx);
        self.explorer.add_activity(TriadActivity::TransactionAdded(explorer_tx));
        Ok(())
    }

    /// Transfers as `transfer_at` does, stamped with the current time.
    pub fn transfer(&mut self, from_address: &str, to_address: &str, amount: u64) -> (r: Result<(), WalletError>)
        requires
            old(self).wf(),
        ensures
            final(self).wf(),
            transfer_outcome(*old(self), *final(self), from_address@, to_address@, amount, r),
    {
        let timestamp = secs_since_epoch(&system_now());
        self.transfer_at(from_address, to_address, amount, timestamp)
    }

    /// The recorded transfers from or to `address`, oldest first.
    pub fn get_transaction_history(&self, address: &str) -> (r: Vec<LedgerTransaction>)
        ensures
            r@ == involving(self.ledger.transactions@, address@),
    {
        let txs = self.ledger.get_recent_transactions();
        let key = address.to_owned();
        let mut out: Vec<LedgerTransaction> = Vec::new();
        let mut i: usize = 0;
        while i < txs.len()
            invariant
                key@ == address@,
                i <= txs@.len(),
                out@ == involving(txs@.subrange(0, i as int), address@),
            decreases txs@.len() - i,
        {
            assert(txs@.subrange(0, i + 1).drop_last() =~= txs@.subrange(0, i as int));
            if txs[i].from == key || txs[i].to == key {
                out.push(txs[i].clone());
            }
            i = i + 1;
        }
        assert(txs@.subrange(0, i as int) =~= txs@);
        out
    }
}

} // verus!
