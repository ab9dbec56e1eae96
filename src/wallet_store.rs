//! The wallets that the HTTP service keeps: one address per user, each with a
//! balance.

use vstd::prelude::*;
use crate::string_map::StringMap;
use crate::digest::append_str;

verus! {

/// The address of a user's service wallet: "wallet_" and the user id.
pub open spec fn store_address(user_id: Seq<char>) -> Seq<char> {
    "wallet_"@ + user_id
}

/// Why a service transfer was refused.
#[derive(Debug, Clone, Copy, PartialEq, Eq, Structural)]
pub enum StoreError {
    SenderNotFound,
    InsufficientBalance,
    RecipientNotFound,
}

impl StoreError {
    /// A description of the refusal.
    pub fn message(&self) -> String {
        match self {
            StoreError::SenderNotFound => "Sender wallet not found".to_string(),
            StoreError::InsufficientBalance => "Insufficient balance".to_string(),
            StoreError::RecipientNotFound => "Recipient wallet not found".to_string(),
        }
    }
}

/// A service wallet: its address and balance.
#[derive(Debug)]
pub struct StoredWallet {
    pub address: String,
    pub balance: u64,
}

impl Clone for StoredWallet {
    fn clone(&self) -> (r: Self)
        ensures
            r == *self,
    {
        StoredWallet { address: self.address.clone(), balance: self.balance }
    }
}

/// A transfer between service wallets.
#[derive(Debug)]
pub struct ServiceTransaction {
    pub from_address: String,
    pub to_address: String,
    pub amount: u64,
}

impl Clone for ServiceTransaction {
    fn clone(&self) -> (r: Self)
        ensures
            r == *self,
    {
        ServiceTransaction {
            from_address: self.from_address.clone(),
            to_address: self.to_address.clone(),
            amount: self.amount,
        }
    }
}

/// Service wallets by address.
pub struct WalletStore {
    pub wallets: StringMap<StoredWallet>,
}

impl WalletStore {
    /// The map is well formed.
    pub open spec fn wf(&self) -> bool {
        self.wallets.wf()
    }

    /// No wallets.
    pub fn new() -> (r: Self)
        ensures
            r.wf(),
            r.wallets.view() == Map::<Seq<char>, StoredWallet>::empty(),
    {
        WalletStore { wallets: StringMap::new() }
    }

    /// Creates, or resets to a zero balance, the wallet of `user_id` and returns it.
    pub fn create_wallet(&mut self, user_id: &str) -> (r: StoredWallet)
        requires
            old(self).wf(),
        ensures
            final(self).wf(),
            r.address@ == store_address(user_id@),
            r.balance == 0,
            final(self).wallets.view() == old(self).wallets.view().insert(r.address@, r),
    {
        let mut address = "wallet_".to_owned();
        append_str(&mut address, user_id);
        let wallet = StoredWallet { address: address.clone(), balance: 0 };
        self.wallets.insert(address, wallet.clone());
        wallet
    }

    /// A copy of the wallet at `address`.
    pub fn get_wallet(&self, address: &str) -> (r: Option<StoredWallet>)
        requires
            self.wf(),
        ensures
            match r {
                Some(w) => self.wallets.view().contains_key(address@) && w == self.wallets.view()[address@],
                None => !self.wallets.view().contains_key(address@),
            },
    {
        match self.wallets.get(address) {
            Some(w) => Some(w.clone()),
            None => None,
        }
    }

    /// Moves `amount` between two wallets. Refused when the sender is unknown, then
    /// when its balance is lower, then when the recipient is unknown.
    pub fn send_transaction(&mut self, from: &str, to: &str, amount: u64) -> (r: Result<(), StoreError>)
        requires
            old(self).wf(),
            old(self).wallets.view().contains_key(to@) && from@ != to@ ==> old(self).wallets.view()[to@].balance
                + amount <= u64::MAX,
        ensures
            final(self).wf(),
            !old(self).wallets.view().contains_key(from@) ==> r == Err::<(), StoreError>(StoreError::SenderNotFound),
            old(self).wallets.view().contains_key(from@) && old(self).wallets.view()[from@].balance < amount ==> r
                == Err::<(), StoreError>(StoreError::InsufficientBalance),
            old(self).wallets.view().contains_key(from@) && old(self).wallets.view()[from@].balance >= amount
                && !old(self).wallets.view().contains_key(to@) ==> r == Err::<(), StoreError>(
                StoreError::RecipientNotFound,
            ),
            old(self).wallets.view().contains_key(from@) && old(self).wallets.view()[from@].balance >= amount
                && old(self).wallets.view().contains_key(to@) ==> r is Ok,
            r is Err ==> final(self).wallets == old(self).wallets,
            r is Ok ==> old(self).wallets.view().contains_key(from@) && old(self).wallets.view().contains_key(to@)
                && old(self).wallets.view()[from@].balance >= amount && final(self).wallets.view()[from@].balance
                == if from@ == to@ {
                old(self).wallets.view()[from@].balance
            } else {
                (old(self).wallets.view()[from@].balance - amount) as u64
            } && (from@ != to@ ==> final(self).wallets.view()[to@].balance == old(self).wallets.view()[to@].balance
                + amount) && final(self).wallets.view().dom() == old(self).wallets.view().dom(),
    {
        let from_wallet = match self.wallets.get(from) {
            Some(w) => w.clone(),
            None => {
                return Err(StoreError::SenderNotFound);
            },
        };
        if from_wallet.balance < amount {
            return Err(StoreError::InsufficientBalance);
        }
        let to_wallet = match self.wallets.get(to) {
            Some(w) => w.clone(),
            None => {
                return Err(StoreError::RecipientNotFound);
            },
        };
        if from.to_owned() == to.to_owned() {
            return Ok(());
        }
        let debited = StoredWallet { address: from_wallet.address.clone(), balance: from_wallet.balance - amount };
        let credited = StoredWallet { address: to_wallet.address.clone(), balance: to_wallet.balance + amount };
        self.wallets.insert(from.to_owned(), debited);
        self.wallets.insert(to.to_owned(), credited);
        Ok(())
    }

    /// The recent service transactions; the service keeps none.
    pub fn recent_transactions(&self) -> (r: Vec<ServiceTransaction>)
        ensures
            r@.len() == 0,
    {
        Vec::new()
    }
}

} // verus!
