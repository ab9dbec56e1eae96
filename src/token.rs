//! The WAC token: balances, stakes, a capped supply, and stake-weighted
//! governance proposals.

use vstd::prelude::*;
use crate::string_map::{StringMap, lemma_map_of_lookup};

verus! {

/// Why a token operation was refused.
#[derive(Debug, Clone, Copy, PartialEq, Eq, Structural)]
pub enum TokenError {
    /// No proposal has this id.
    ProposalNotFound,
    /// The voter has nothing staked.
    NoStake,
    /// The voter already voted on this proposal.
    AlreadyVoted,
    /// The balance is below the amount.
    InsufficientBalance,
    /// The stake is below the amount.
    InsufficientStake,
    /// Minting would pass the maximum supply.
    ExceedsMaxSupply,
}

impl TokenError {
    /// A description of the refusal.
    pub fn message(&self) -> String {
        match self {
            TokenError::ProposalNotFound => "Proposal does not exist".to_string(),
            TokenError::NoStake => "User has no stake to vote".to_string(),
            TokenError::AlreadyVoted => "User has already voted".to_string(),
            TokenError::InsufficientBalance => "Insufficient balance".to_string(),
            TokenError::InsufficientStake => "Insufficient stake to unstake".to_string(),
            TokenError::ExceedsMaxSupply => "Minting amount exceeds max supply".to_string(),
        }
    }
}

/// The sum of the values of a list of entries.
pub open spec fn sum_values(s: Seq<(String, u64)>) -> int
    decreases s.len(),
{
    if s.len() == 0 {
        0
    } else {
        sum_values(s.drop_last()) + s.last().1
    }
}

/// The amount held under `user`, zero when there is no entry.
pub open spec fn amount_of(m: Map<Seq<char>, u64>, user: Seq<char>) -> u64 {
    if m.contains_key(user) {
        m[user]
    } else {
        0
    }
}

/// Whether one of `names` is `user`.
pub open spec fn names_contain(names: Seq<String>, user: Seq<char>) -> bool {
    exists|i: int| 0 <= i < names.len() && (#[trigger] names[i])@ == user
}

/// `after` is `before` with `user` added to the side it voted for.
pub open spec fn ballot_after(before: Ballot, after: Ballot, user: Seq<char>, vote_for: bool) -> bool {
    if vote_for {
        &&& after.voters_for@.len() == before.voters_for@.len() + 1
        &&& after.voters_for@.drop_last() == before.voters_for@
        &&& after.voters_for@.last()@ == user
        &&& after.voters_against == before.voters_against
    } else {
        &&& after.voters_against@.len() == before.voters_against@.len() + 1
        &&& after.voters_against@.drop_last() == before.voters_against@
        &&& after.voters_against@.last()@ == user
        &&& after.voters_for == before.voters_for
    }
}

/// The integer square root: the largest `r` with `r * r <= n`.
pub open spec fn is_isqrt(n: u64, r: u64) -> bool {
    r * r <= n && n < (r + 1) * (r + 1)
}

/// The floor of the square root of `n`.
pub open spec fn sqrt_floor(n: u64) -> u64 {
    choose|r: u64| is_isqrt(n, r)
}

/// A number capped at the largest `u64`.
pub open spec fn saturate(x: int) -> u64 {
    if x > u64::MAX {
        u64::MAX
    } else {
        x as u64
    }
}

/// Only one number is the integer square root.
proof fn lemma_isqrt_unique(n: u64, a: u64, b: u64)
    requires
        is_isqrt(n, a),
        is_isqrt(n, b),
    ensures
        a == b,
{
    if a < b {
        assert((a + 1) * (a + 1) <= b * b) by (nonlinear_arith)
            requires a + 1 <= b;
    } else if b < a {
        assert((b + 1) * (b + 1) <= a * a) by (nonlinear_arith)
            requires b + 1 <= a;
    }
}

/// Each entry's value is at most the sum.
proof fn lemma_entry_le_sum(s: Seq<(String, u64)>, i: int)
    requires
        0 <= i < s.len(),
    ensures
        s[i].1 <= sum_values(s),
        0 <= sum_values(s),
    decreases s.len(),
{
    lemma_sum_nonneg(s.drop_last());
    if i < s.len() - 1 {
        lemma_entry_le_sum(s.drop_last(), i);
    }
}

proof fn lemma_sum_nonneg(s: Seq<(String, u64)>)
    ensures
        0 <= sum_values(s),
    decreases s.len(),
{
    if s.len() > 0 {
        lemma_sum_nonneg(s.drop_last());
    }
}

/// Replacing one entry's value changes the sum by the difference.
proof fn lemma_sum_update(s: Seq<(String, u64)>, i: int, e: (String, u64))
    requires
        0 <= i < s.len(),
    ensures
        sum_values(s.update(i, e)) == sum_values(s) - s[i].1 + e.1,
    decreases s.len(),
{
    let u = s.update(i, e);
    if i == s.len() - 1 {
        assert(u.drop_last() =~= s.drop_last());
    } else {
        assert(u.drop_last() =~= s.drop_last().update(i, e));
        lemma_sum_update(s.drop_last(), i, e);
    }
}

/// Sets the amount of `user` to `value` and says how the sum moves.
fn set_amount(m: &mut StringMap<u64>, user: &str, value: u64)
    requires
        old(m).wf(),
    ensures
        final(m).wf(),
        final(m).view() == old(m).view().insert(user@, value),
        sum_values(final(m).entries@) == sum_values(old(m).entries@) - amount_of(old(m).view(), user@) + value,
{
    let ghost s0 = m.entries@;
    let key = user.to_owned();
    let had = m.contains_key(user);
    m.insert(key, value);
    proof {
        if had {
            let i = choose|i: int|
                0 <= i < s0.len() && (#[trigger] s0[i]).0@ == user@ && m.entries@ == s0.update(i, (key, value));
            lemma_map_of_lookup(s0, i);
            lemma_sum_update(s0, i, (key, value));
        } else {
            assert(m.entries@.drop_last() =~= s0);
        }
    }
}

/// The amount of `user`, zero when absent.
fn amount_in(m: &StringMap<u64>, user: &str) -> (r: u64)
    requires
        m.wf(),
    ensures
        r == amount_of(m.view(), user@),
        r <= sum_values(m.entries@),
{
    match m.find(user) {
        Some(i) => {
            proof {
                lemma_map_of_lookup(m.entries@, i as int);
                lemma_entry_le_sum(m.entries@, i as int);
            }
            m.entries[i].1
        },
        None => {
            proof {
                lemma_sum_nonneg(m.entries@);
            }
            0
        },
    }
}

/// Whether `user` is one of `names`.
fn contains_name(names: &Vec<String>, user: &str) -> (r: bool)
    ensures
        r == names_contain(names@, user@),
{
    let k = user.to_owned();
    let mut i: usize = 0;
    while i < names.len()
        invariant
            k@ == user@,
            i <= names@.len(),
            forall|j: int| 0 <= j < i ==> (#[trigger] names@[j])@ != user@,
        decreases names@.len() - i,
    {
        if names[i] == k {
            return true;
        }
        i = i + 1;
    }
    false
}

/// The integer square root of `n`.
pub fn isqrt(n: u64) -> (r: u64)
    ensures
        is_isqrt(n, r),
        r == sqrt_floor(n),
{
    let mut lo: u64 = 0;
    let mut hi: u64 = 4294967296;
    assert(n < hi * hi) by (nonlinear_arith)
        requires hi == 4294967296u64;
    while hi - lo > 1
        invariant
            lo < hi <= 4294967296,
            lo * lo <= n,
            n < hi * hi,
        decreases hi - lo,
    {
        let mid = lo + (hi - lo) / 2;
        assert(mid * mid <= 4294967296u64 * 4294967296u64 - 1) by (nonlinear_arith)
            requires mid < 4294967296u64;
        if (mid as u128) * (mid as u128) <= n as u128 {
            lo = mid;
        } else {
            hi = mid;
        }
    }
    assert(hi == lo + 1);
    proof {
        assert(is_isqrt(n, lo));
        lemma_isqrt_unique(n, lo, sqrt_floor(n));
    }
    lo
}

/// The voting power of `names`, summed.
pub open spec fn power_sum(stakes: Map<Seq<char>, u64>, names: Seq<String>) -> int
    decreases names.len(),
{
    if names.len() == 0 {
        0
    } else {
        power_sum(stakes, names.drop_last()) + sqrt_floor(amount_of(stakes, names.last()@))
    }
}

/// The voters for and against one proposal.
pub struct Ballot {
    pub voters_for: Vec<String>,
    pub voters_against: Vec<String>,
}

/// Balances, stakes and governance of the token.
pub struct WaclaniumToken {
    /// Token balance per user.
    pub balances: StringMap<u64>,
    /// Staked amount per user.
    pub stakes: StringMap<u64>,
    /// Tokens in circulation, staked or not.
    pub total_supply: u64,
    /// The cap on minting.
    pub max_supply: u64,
    /// Proposal descriptions; proposal `i + 1` is at index `i`.
    pub governance_proposals: Vec<String>,
    /// The ballot of each proposal, by the same index.
    pub votes: Vec<Ballot>,
    /// The id that the next proposal gets.
    pub next_proposal_id: u64,
    /// The transaction fee.
    pub fee: u64,
}

impl WaclaniumToken {
    /// The maps are well formed, every token is either held or staked, and proposal
    /// ids run from one without gaps.
    pub open spec fn wf(&self) -> bool {
        &&& self.balances.wf()
        &&& self.stakes.wf()
        &&& sum_values(self.balances.entries@) + sum_values(self.stakes.entries@) == self.total_supply
        &&& self.votes@.len() == self.governance_proposals@.len()
        &&& self.next_proposal_id == self.governance_proposals@.len() + 1
    }

    /// The balance of `user`.
    pub open spec fn balance_of(&self, user: Seq<char>) -> u64 {
        amount_of(self.balances.view(), user)
    }

    /// The stake of `user`.
    pub open spec fn stake_of(&self, user: Seq<char>) -> u64 {
        amount_of(self.stakes.view(), user)
    }

    /// Whether `id` names a proposal.
    pub open spec fn has_proposal(&self, id: u64) -> bool {
        1 <= id < self.next_proposal_id
    }

    /// Whether `user` voted on proposal `id`.
    pub open spec fn voted(&self, user: Seq<char>, id: u64) -> bool {
        self.has_proposal(id) && (names_contain(self.votes@[id - 1].voters_for@, user) || names_contain(
            self.votes@[id - 1].voters_against@,
            user,
        ))
    }

    /// A token whose initial supply belongs to "genesis".
    pub fn new(initial_supply: u64, max_supply: u64, fee: u64) -> (r: Self)
        ensures
            r.wf(),
            r.balances.view() == Map::<Seq<char>, u64>::empty().insert("genesis"@, initial_supply),
            r.stakes.view() == Map::<Seq<char>, u64>::empty(),
            r.total_supply == initial_supply,
            r.max_supply == max_supply,
            r.fee == fee,
            r.governance_proposals@.len() == 0,
            r.next_proposal_id == 1,
    {
        let mut balances: StringMap<u64> = StringMap::new();
        balances.insert("genesis".to_owned(), initial_supply);
        proof {
            assert(balances.entries@.len() == 1);
            assert(balances.entries@.drop_last() =~= Seq::<(String, u64)>::empty());
            assert(sum_values(balances.entries@.drop_last()) == 0);
            assert(balances.entries@.last().1 == initial_supply);
            assert(sum_values(balances.entries@) == initial_supply);
        }
        WaclaniumToken {
            balances,
            stakes: StringMap::new(),
            total_supply: initial_supply,
            max_supply,
            governance_proposals: Vec::new(),
            votes: Vec::new(),
            next_proposal_id: 1,
            fee,
        }
    }

    /// The balances by user.
    pub fn balances(&self) -> (r: &StringMap<u64>)
        ensures
            r == &self.balances,
    {
        &self.balances
    }

    /// The stakes by user.
    pub fn stakes(&self) -> (r: &StringMap<u64>)
        ensures
            r == &self.stakes,
    {
        &self.stakes
    }

    /// The amount of tokens in circulation.
    pub fn total_supply(&self) -> (r: u64)
        ensures
            r == self.total_supply,
    {
        self.total_supply
    }

    /// Opens a proposal with no votes and returns its id.
    pub fn create_proposal(&mut self, description: String) -> (r: u64)
        requires
            old(self).wf(),
            old(self).next_proposal_id < u64::MAX,
        ensures
            final(self).wf(),
            r == old(self).next_proposal_id,
            final(self).next_proposal_id == r + 1,
            final(self).governance_proposals@ == old(self).governance_proposals@.push(description),
            final(self).votes@.len() == old(self).votes@.len() + 1,
            final(self).votes@.subrange(0, old(self).votes@.len() as int) == old(self).votes@,
            final(self).votes@.last().voters_for@.len() == 0,
            final(self).votes@.last().voters_against@.len() == 0,
            final(self).balances == old(self).balances,
            final(self).stakes == old(self).stakes,
            final(self).total_supply == old(self).total_supply,
            final(self).max_supply == old(self).max_supply,
            final(self).fee == old(self).fee,
    {
        let proposal_id = self.next_proposal_id;
        self.governance_proposals.push(description);
        self.votes.push(Ballot { voters_for: Vec::new(), voters_against: Vec::new() });
        self.next_proposal_id = self.next_proposal_id + 1;
        assert(self.votes@.subrange(0, old(self).votes@.len() as int) =~= old(self).votes@);
        proposal_id
    }

    /// Records the vote of `user` on proposal `proposal_id`. Refused when there is no
    /// such proposal, when the user has no stake, or when the user already voted.
    pub fn cast_vote(&mut self, user: &str, proposal_id: u64, vote_for: bool) -> (r: Result<(), TokenError>)
        requires
            old(self).wf(),
        ensures
            final(self).wf(),
            !old(self).has_proposal(proposal_id) ==> r == Err::<(), TokenError>(TokenError::ProposalNotFound),
            old(self).has_proposal(proposal_id) && old(self).stake_of(user@) == 0 ==> r == Err::<(), TokenError>(
                TokenError::NoStake,
            ),
            old(self).has_proposal(proposal_id) && old(self).stake_of(user@) > 0 && old(self).voted(user@, proposal_id)
                ==> r == Err::<(), TokenError>(TokenError::AlreadyVoted),
            old(self).has_proposal(proposal_id) && old(self).stake_of(user@) > 0 && !old(self).voted(user@, proposal_id)
                ==> r is Ok,
            r is Err ==> final(self).votes == old(self).votes,
            r is Ok ==> final(self).votes@.len() == old(self).votes@.len() && ballot_after(
                old(self).votes@[proposal_id - 1],
                final(self).votes@[proposal_id - 1],
                user@,
                vote_for,
            ) && (forall|j: int|
                0 <= j < old(self).votes@.len() && j != proposal_id - 1 ==> #[trigger] final(self).votes@[j]
                    == old(self).votes@[j]),
            final(self).balances == old(self).balances,
            final(self).stakes == old(self).stakes,
            final(self).total_supply == old(self).total_supply,
            final(self).governance_proposals == old(self).governance_proposals,
            final(self).next_proposal_id == old(self).next_proposal_id,
            final(self).max_supply == old(self).max_supply,
            final(self).fee == old(self).fee,
    {
        if proposal_id == 0 || proposal_id >= self.next_proposal_id {
            return Err(TokenError::ProposalNotFound);
        }
        let stake = amount_in(&self.stakes, user);
        if stake == 0 {
            return Err(TokenError::NoStake);
        }
        let n = self.votes.len();
        assert(proposal_id - 1 < n);
        let idx = (proposal_id - 1) as usize;
        if contains_name(&self.votes[idx].voters_for, user) || contains_name(&self.votes[idx].voters_against, user) {
            return Err(TokenError::AlreadyVoted);
        }
        let mut ballot = self.votes.remove(idx);
        if vote_for {
            ballot.voters_for.push(user.to_owned());
        } else {
            ballot.voters_against.push(user.to_owned());
        }
        self.votes.insert(idx, ballot);
        if vote_for {
            assert(self.votes@[idx as int].voters_for@.drop_last() =~= old(self).votes@[idx as int].voters_for@);
        } else {
            assert(self.votes@[idx as int].voters_against@.drop_last() =~= old(self).votes@[idx as int].voters_against@);
        }
        Ok(())
    }
}

impl WaclaniumToken {
    /// Whether `user` voted on proposal `proposal_id`.
    pub fn has_voted(&self, user: &str, proposal_id: u64) -> (r: bool)
        requires
            self.wf(),
        ensures
            r == self.voted(user@, proposal_id),
    {
        if proposal_id == 0 || proposal_id >= self.next_proposal_id {
            return false;
        }
        let n = self.votes.len();
        assert(proposal_id - 1 < n);
        let idx = (proposal_id - 1) as usize;
        contains_name(&self.votes[idx].voters_for, user) || contains_name(&self.votes[idx].voters_against, user)
    }

    /// Moves `amount` from `from` to `to`; refused when `from` holds less.
    pub fn transfer(&mut self, from: &str, to: &str, amount: u64) -> (r: Result<(), TokenError>)
        requires
            old(self).wf(),
        ensures
            final(self).wf(),
            r is Ok <==> old(self).balance_of(from@) >= amount,
            r is Err ==> r == Err::<(), TokenError>(TokenError::InsufficientBalance) && final(self).balances
                == old(self).balances,
            r is Ok ==> {
                let m1 = old(self).balances.view().insert(from@, (old(self).balance_of(from@) - amount) as u64);
                final(self).balances.view() == m1.insert(to@, (amount_of(m1, to@) + amount) as u64)
            },
            final(self).stakes == old(self).stakes,
            final(self).total_supply == old(self).total_supply,
            final(self).max_supply == old(self).max_supply,
            final(self).votes == old(self).votes,
            final(self).next_proposal_id == old(self).next_proposal_id,
            final(self).governance_proposals == old(self).governance_proposals,
            final(self).fee == old(self).fee,
    {
        let from_balance = amount_in(&self.balances, from);
        if from_balance < amount {
            return Err(TokenError::InsufficientBalance);
        }
        set_amount(&mut self.balances, from, from_balance - amount);
        let to_balance = amount_in(&self.balances, to);
        proof {
            lemma_sum_nonneg(self.stakes.entries@);
        }
        set_amount(&mut self.balances, to, to_balance + amount);
        Ok(())
    }

    /// Moves `amount` of `user`'s balance into their stake; refused when the balance
    /// is lower.
    pub fn stake(&mut self, user: &str, amount: u64) -> (r: Result<(), TokenError>)
        requires
            old(self).wf(),
        ensures
            final(self).wf(),
            r is Ok <==> old(self).balance_of(user@) >= amount,
            r is Err ==> r == Err::<(), TokenError>(TokenError::InsufficientBalance) && final(self).balances
                == old(self).balances && final(self).stakes == old(self).stakes,
            r is Ok ==> final(self).balances.view() == old(self).balances.view().insert(
                user@,
                (old(self).balance_of(user@) - amount) as u64,
            ) && final(self).stakes.view() == old(self).stakes.view().insert(
                user@,
                (old(self).stake_of(user@) + amount) as u64,
            ),
            final(self).total_supply == old(self).total_supply,
            final(self).max_supply == old(self).max_supply,
            final(self).votes == old(self).votes,
            final(self).next_proposal_id == old(self).next_proposal_id,
            final(self).governance_proposals == old(self).governance_proposals,
            final(self).fee == old(self).fee,
    {
        let balance = amount_in(&self.balances, user);
        if balance < amount {
            return Err(TokenError::InsufficientBalance);
        }
        set_amount(&mut self.balances, user, balance - amount);
        let staked = amount_in(&self.stakes, user);
        proof {
            lemma_sum_nonneg(self.balances.entries@);
        }
        set_amount(&mut self.stakes, user, staked + amount);
        Ok(())
    }

    /// Moves `amount` of `user`'s stake back into their balance; refused when the
    /// stake is lower.
    pub fn unstake(&mut self, user: &str, amount: u64) -> (r: Result<(), TokenError>)
        requires
            old(self).wf(),
        ensures
            final(self).wf(),
            r is Ok <==> old(self).stake_of(user@) >= amount,
            r is Err ==> r == Err::<(), TokenError>(TokenError::InsufficientStake) && final(self).balances
                == old(self).balances && final(self).stakes == old(self).stakes,
            r is Ok ==> final(self).stakes.view() == old(self).stakes.view().insert(
                user@,
                (old(self).stake_of(user@) - amount) as u64,
            ) && final(self).balances.view() == old(self).balances.view().insert(
                user@,
                (old(self).balance_of(user@) + amount) as u64,
            ),
            final(self).total_supply == old(self).total_supply,
            final(self).max_supply == old(self).max_supply,
            final(self).votes == old(self).votes,
            final(self).next_proposal_id == old(self).next_proposal_id,
            final(self).governance_proposals == old(self).governance_proposals,
            final(self).fee == old(self).fee,
    {
        let staked = amount_in(&self.stakes, user);
        if staked < amount {
            return Err(TokenError::InsufficientStake);
        }
        set_amount(&mut self.stakes, user, staked - amount);
        let balance = amount_in(&self.balances, user);
        proof {
            lemma_sum_nonneg(self.stakes.entries@);
        }
        set_amount(&mut self.balances, user, balance + amount);
        Ok(())
    }

    /// Creates `amount` new tokens for `to`; refused when the supply would pass the
    /// maximum.
    pub fn mint(&mut self, to: &str, amount: u64) -> (r: Result<(), TokenError>)
        requires
            old(self).wf(),
        ensures
            final(self).wf(),
            r is Ok <==> old(self).total_supply + amount <= old(self).max_supply,
            r is Err ==> r == Err::<(), TokenError>(TokenError::ExceedsMaxSupply) && final(self).balances
                == old(self).balances && final(self).total_supply == old(self).total_supply,
            r is Ok ==> final(self).balances.view() == old(self).balances.view().insert(
                to@,
                (old(self).balance_of(to@) + amount) as u64,
            ) && final(self).total_supply == old(self).total_supply + amount,
            final(self).stakes == old(self).stakes,
            final(self).max_supply == old(self).max_supply,
            final(self).votes == old(self).votes,
            final(self).next_proposal_id == old(self).next_proposal_id,
            final(self).governance_proposals == old(self).governance_proposals,
            final(self).fee == old(self).fee,
    {
        if self.total_supply > self.max_supply || amount > self.max_supply - self.total_supply {
            return Err(TokenError::ExceedsMaxSupply);
        }
        let balance = amount_in(&self.balances, to);
        proof {
            lemma_sum_nonneg(self.stakes.entries@);
        }
        set_amount(&mut self.balances, to, balance + amount);
        self.total_supply = self.total_supply + amount;
        Ok(())
    }

    /// The balance of `user`, zero when unknown.
    pub fn get_balance(&self, user: &str) -> (r: u64)
        requires
            self.wf(),
        ensures
            r == self.balance_of(user@),
    {
        amount_in(&self.balances, user)
    }

    /// The stake of `user`, zero when unknown.
    pub fn get_stake(&self, user: &str) -> (r: u64)
        requires
            self.wf(),
        ensures
            r == self.stake_of(user@),
    {
        amount_in(&self.stakes, user)
    }

    /// The voting power of `user`: the integer square root of their stake.
    pub fn get_voting_power(&self, user: &str) -> (r: u64)
        requires
            self.wf(),
        ensures
            r == sqrt_floor(self.stake_of(user@)),
    {
        isqrt(self.get_stake(user))
    }

    /// The voting power of `names`, summed and capped at the largest `u64`.
    fn sum_power(&self, names: &Vec<String>) -> (r: u64)
        requires
            self.wf(),
        ensures
            r == saturate(power_sum(self.stakes.view(), names@)),
    {
        let mut acc: u64 = 0;
        let mut i: usize = 0;
        while i < names.len()
            invariant
                self.wf(),
                i <= names@.len(),
                acc == saturate(power_sum(self.stakes.view(), names@.subrange(0, i as int))),
                power_sum(self.stakes.view(), names@.subrange(0, i as int)) >= 0,
            decreases names@.len() - i,
        {
            let p = self.get_voting_power(names[i].as_str());
            assert(names@.subrange(0, i + 1).drop_last() =~= names@.subrange(0, i as int));
            acc = acc.saturating_add(p);
            i = i + 1;
        }
        assert(names@.subrange(0, i as int) =~= names@);
        acc
    }

    /// The voting power for and against proposal `proposal_id`, each capped at the
    /// largest `u64`; `None` when there is no such proposal.
    pub fn tally_votes(&self, proposal_id: u64) -> (r: Option<(u64, u64)>)
        requires
            self.wf(),
        ensures
            !self.has_proposal(proposal_id) ==> r is None,
            self.has_proposal(proposal_id) ==> r == Some(
                (
                    saturate(power_sum(self.stakes.view(), self.votes@[proposal_id - 1].voters_for@)),
                    saturate(power_sum(self.stakes.view(), self.votes@[proposal_id - 1].voters_against@)),
                ),
            ),
    {
        if proposal_id == 0 || proposal_id >= self.next_proposal_id {
            return None;
        }
        let n = self.votes.len();
        assert(proposal_id - 1 < n);
        let idx = (proposal_id - 1) as usize;
        let votes_for = self.sum_power(&self.votes[idx].voters_for);
        let votes_against = self.sum_power(&self.votes[idx].voters_against);
        Some((votes_for, votes_against))
    }

    /// Whether the power for proposal `proposal_id` exceeds the power against it;
    /// `None` when there is no such proposal.
    pub fn proposal_passed(&self, proposal_id: u64) -> (r: Option<bool>)
        requires
            self.wf(),
        ensures
            !self.has_proposal(proposal_id) ==> r is None,
            self.has_proposal(proposal_id) ==> r == Some(
                saturate(power_sum(self.stakes.view(), self.votes@[proposal_id - 1].voters_for@))
                    > saturate(power_sum(self.stakes.view(), self.votes@[proposal_id - 1].voters_against@)),
            ),
    {
        match self.tally_votes(proposal_id) {
            Some((votes_for, votes_against)) => Some(votes_for > votes_against),
            None => None,
        }
    }
}

} // verus!
