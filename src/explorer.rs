//! The Triad explorer: a bounded history of activities around Triads.

use vstd::prelude::*;
use crate::history::{bounded_push, push_bounded};
use crate::triad::Transaction;

verus! {

/// Something that happened to a Triad.
#[derive(Debug, PartialEq)]
pub enum TriadActivity {
    /// A transaction was added to a Triad.
    TransactionAdded(Transaction),
    /// Consensus was reached, with a description or id.
    ConsensusReached(String),
    /// The puzzle was solved with this nonce.
    ProofOfFractalSolved(u64),
    /// Anything else, described.
    Other(String),
}

impl Clone for TriadActivity {
    fn clone(&self) -> (r: Self)
        ensures
            r == *self,
    {
        match self {
            TriadActivity::TransactionAdded(t) => TriadActivity::TransactionAdded(t.clone()),
            TriadActivity::ConsensusReached(s) => TriadActivity::ConsensusReached(s.clone()),
            TriadActivity::ProofOfFractalSolved(n) => TriadActivity::ProofOfFractalSolved(*n),
            TriadActivity::Other(s) => TriadActivity::Other(s.clone()),
        }
    }
}

/// A copy of every element of `v`, in order.
pub(crate) fn clone_all<T: Clone>(v: &Vec<T>) -> (r: Vec<T>)
    requires
        forall|a: T, b: T| #[trigger] call_ensures(T::clone, (&a,), b) ==> a == b,
    ensures
        r@ == v@,
{
    let mut out: Vec<T> = Vec::new();
    let mut i: usize = 0;
    while i < v.len()
        invariant
            forall|a: T, b: T| #[trigger] call_ensures(T::clone, (&a,), b) ==> a == b,
            i <= v@.len(),
            out@ == v@.subrange(0, i as int),
        decreases v@.len() - i,
    {
        out.push(v[i].clone());
        assert(v@.subrange(0, i + 1) =~= v@.subrange(0, i as int).push(v@[i as int]));
        i = i + 1;
    }
    assert(v@.subrange(0, i as int) =~= v@);
    out
}

/// The most recent activities, oldest first, at most `max_history` of them once full.
pub struct TriadExplorer {
    pub activities: Vec<TriadActivity>,
    pub max_history: usize,
}

impl TriadExplorer {
    /// An empty history of capacity `max_history`.
    pub fn new(max_history: usize) -> (r: Self)
        ensures
            r.activities@.len() == 0,
            r.max_history == max_history,
    {
        TriadExplorer { activities: Vec::new(), max_history }
    }

    /// Records an activity, dropping the oldest one when the history is full.
    pub fn add_activity(&mut self, activity: TriadActivity)
        ensures
            final(self).activities@ == bounded_push(old(self).activities@, activity, old(self).max_history as nat),
            final(self).max_history == old(self).max_history,
    {
        push_bounded(&mut self.activities, activity, self.max_history);
    }

    /// A copy of the recorded activities, oldest first.
    pub fn get_recent_activities(&self) -> (r: Vec<TriadActivity>)
        ensures
            r@ == self.activities@,
    {
        clone_all(&self.activities)
    }

    /// Forgets every activity.
    pub fn clear_activities(&mut self)
        ensures
            final(self).activities@.len() == 0,
            final(self).max_history == old(self).max_history,
    {
        self.activities.clear();
    }
}

} // verus!
