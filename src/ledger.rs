//! The ledger: a bounded record of value transfers and state changes.

use vstd::prelude::*;
use crate::explorer::clone_all;
use crate::history::{bounded_push, push_bounded};

verus! {

/// One recorded transfer.
#[derive(Debug)]
pub struct LedgerTransaction {
    pub from: String,
    pub to: String,
    pub amount: u64,
    pub timestamp: u64,
}

impl Clone for LedgerTransaction {
    fn clone(&self) -> (r: Self)
        ensures
            r == *self,
    {
        LedgerTransaction {
            from: self.from.clone(),
            to: self.to.clone(),
            amount: self.amount,
            timestamp: self.timestamp,
        }
    }
}

/// The most recent transfers, oldest first, at most `max_history` of them once full.
pub struct Ledger {
    pub transactions: Vec<LedgerTransaction>,
    pub max_history: usize,
}

impl Ledger {
    /// An empty ledger of capacity `max_history`.
    pub fn new(max_history: usize) -> (r: Self)
        ensures
            r.transactions@.len() == 0,
            r.max_history == max_history,
    {
        Ledger { transactions: Vec::new(), max_history }
    }

    /// Records a transfer, dropping the oldest one when the ledger is full.
    pub fn add_transaction(&mut self, tx: LedgerTransaction)
        ensures
            final(self).transactions@ == bounded_push(old(self).transactions@, tx, old(self).max_history as nat),
            final(self).max_history == old(self).max_history,
    {
        push_bounded(&mut self.transactions, tx, self.max_history);
    }

    /// A copy of the recorded transfers, oldest first.
    pub fn get_recent_transactions(&self) -> (r: Vec<LedgerTransaction>)
        ensures
            r@ == self.transactions@,
    {
        clone_all(&self.transactions)
    }

    /// Forgets every transfer.
    pub fn clear_transactions(&mut self)
        ensures
            final(self).transactions@.len() == 0,
            final(self).max_history == old(self).max_history,
    {
        self.transactions.clear();
    }
}

} // verus!
