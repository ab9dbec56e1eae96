//! Hierarchical recursive consensus: a node set split recursively into up to three
//! groups, leaf rounds gated by the puzzle and recorded into the security layer,
//! and child results joined by unanimous agreement.

use vstd::prelude::*;
use vstd::utf8::encode_utf8;
use crate::proof_of_fractal::{ProofOfFractal, NonceSource, difficulty_for, MAX_DIFFICULTY};
use crate::redundant_paths::{RedundantPathSecurity, id_digest};

verus! {

/// One node's vote in a leaf round.
#[derive(Debug, Clone, Copy, PartialEq, Eq, Structural)]
pub enum Vote {
    Accept,
    Fault,
}

/// Relies on `rand::Rng::gen_ratio`: true with probability `numerator / denominator`;
/// it panics unless `0 < denominator` and `numerator <= denominator`.
#[verifier::external_body]
fn rng_gen_ratio(rng: &mut rand::rngs::StdRng, numerator: u32, denominator: u32) -> bool
    requires
        0 < denominator,
        numerator <= denominator,
{
    rand::Rng::gen_ratio(rng, numerator, denominator)
}

/// Accept votes drawn at random come with this numerator ...
pub const ACCEPT_NUMERATOR: u32 = 9;

/// ... over this denominator.
pub const ACCEPT_DENOMINATOR: u32 = 10;

/// The payload that each leaf round proves work on.
pub const PROPOSAL: &'static str = "block_data";

/// The triad count that every consensus puzzle is calibrated for.
pub const CALIBRATION_COUNT: u64 = 1000;

/// A source of per-node votes for leaf rounds.
pub trait VoteSource {
    /// The vote that `node` casts in the current round.
    fn draw_vote(&mut self, node: &String) -> Vote;
}

impl VoteSource for rand::rngs::StdRng {
    /// Accepts with probability nine in ten, whoever the node is.
    fn draw_vote(&mut self, _node: &String) -> Vote {
        if rng_gen_ratio(self, ACCEPT_NUMERATOR, ACCEPT_DENOMINATOR) {
            Vote::Accept
        } else {
            Vote::Fault
        }
    }
}

/// The payload bytes of a leaf round.
pub open spec fn proposal_bytes() -> Seq<u8> {
    encode_utf8(PROPOSAL@)
}

/// `s` with the vote of `k` set to `v`: the entry of `k` replaced, or a new entry
/// appended.
pub open spec fn upsert(s: Seq<(String, Vote)>, k: String, v: Vote) -> Seq<(String, Vote)>
    decreases s.len(),
{
    if s.len() == 0 {
        seq![(k, v)]
    } else if s[0].0@ == k@ {
        s.update(0, (k, v))
    } else {
        seq![s[0]] + upsert(s.drop_first(), k, v)
    }
}

/// The record after the first `n` votes were entered in order.
pub open spec fn record_votes(s: Seq<(String, Vote)>, nodes: Seq<String>, votes: Seq<Vote>, n: nat) -> Seq<(String, Vote)>
    decreases n,
{
    if n == 0 {
        s
    } else {
        upsert(record_votes(s, nodes, votes, (n - 1) as nat), nodes[n - 1], votes[n - 1])
    }
}

/// The active paths after the first `n` votes: an accept activates the node's path,
/// a fault deactivates it.
pub open spec fn apply_paths(paths: Set<Seq<u8>>, nodes: Seq<String>, votes: Seq<Vote>, n: nat) -> Set<Seq<u8>>
    decreases n,
{
    if n == 0 {
        paths
    } else {
        let p = apply_paths(paths, nodes, votes, (n - 1) as nat);
        if votes[n - 1] == Vote::Accept {
            p.insert(id_digest(nodes[n - 1]@))
        } else {
            p.remove(id_digest(nodes[n - 1]@))
        }
    }
}

/// How many entries of a record hold the vote `v`.
pub open spec fn count_votes(s: Seq<(String, Vote)>, v: Vote) -> nat
    decreases s.len(),
{
    if s.len() == 0 {
        0
    } else {
        count_votes(s.drop_last(), v) + if s.last().1 == v {
            1nat
        } else {
            0nat
        }
    }
}

/// The size of each group when `len` nodes are split: a third of them, rounded down.
pub open spec fn group_size(len: nat) -> nat {
    len / 3
}

/// The number of groups when `len` nodes are split: three, or none when fewer than
/// three nodes leave the groups empty.
pub open spec fn group_count(len: nat) -> nat {
    if group_size(len) == 0 {
        0
    } else {
        3
    }
}

/// The `i`-th contiguous group of `nodes`: `nodes[i * k .. (i + 1) * k]` with
/// `k = len / 3`. The last `len % 3` nodes fall in no group.
pub open spec fn group(nodes: Seq<String>, i: int) -> Seq<String> {
    let k = group_size(nodes.len()) as int;
    nodes.subrange(i * k, (i + 1) * k)
}

/// A consensus tree instance: its nodes, their votes, its own puzzle and security
/// state, and its child groups.
pub struct HierarchicalRecursiveConsensus {
    pub nodes: Vec<String>,
    pub state: Vec<(String, Vote)>,
    pub fault_tolerance: usize,
    pub proof: ProofOfFractal,
    pub security: RedundantPathSecurity,
    pub children: Vec<HierarchicalRecursiveConsensus>,
    /// How many levels of groups lie below this instance at most.
    pub depth: u32,
}

impl HierarchicalRecursiveConsensus {
    /// Every security instance in the tree is well formed.
    pub open spec fn tree_wf(&self) -> bool
        decreases self,
    {
        &&& self.security.wf()
        &&& forall|i: int|
            0 <= i < self.children@.len() ==> (#[trigger] self.children@[i]).depth < self.depth
                && self.children@[i].tree_wf()
    }

    /// The leaf conditions: faults within the tolerance, a live path, a quorum of
    /// accepts, and a sub-fractal that validates.
    pub open spec fn leaf_agreed(&self) -> bool {
        &&& count_votes(self.state@, Vote::Fault) <= self.fault_tolerance
        &&& self.security.paths() != Set::<Seq<u8>>::empty()
        &&& count_votes(self.state@, Vote::Accept) >= 2 * self.fault_tolerance + 1
        &&& self.subfractal_valid()
    }

    /// Enough nodes to tolerate the faults, and a stored solution that checks.
    pub open spec fn subfractal_valid(&self) -> bool {
        self.nodes@.len() >= 3 * self.fault_tolerance + 1 && self.proof.is_solved(proposal_bytes())
    }

    /// A leaf agrees by its own round; an inner instance when all children agree.
    pub open spec fn agreed(&self) -> bool
        decreases self, 1nat, 0nat,
    {
        if self.children@.len() == 0 {
            self.leaf_agreed()
        } else {
            self.first_children_agree(self.children@.len() as nat)
        }
    }

    /// The first `n` children all agree.
    pub open spec fn first_children_agree(&self, n: nat) -> bool
        decreases self, 0nat, n,
    {
        if n == 0 {
            true
        } else if n > self.children@.len() {
            false
        } else {
            self.children@[n - 1].agreed() && self.first_children_agree((n - 1) as nat)
        }
    }

    /// No instance of the tree has recorded a vote yet, as construction leaves it.
    pub open spec fn no_votes(&self) -> bool
        decreases self, 1nat, 0nat,
    {
        self.state@.len() == 0 && self.first_children_no_votes(self.children@.len() as nat)
    }

    /// None of the first `n` children has recorded a vote.
    pub open spec fn first_children_no_votes(&self, n: nat) -> bool
        decreases self, 0nat, n,
    {
        if n == 0 {
            true
        } else if n > self.children@.len() {
            false
        } else {
            self.children@[n - 1].no_votes() && self.first_children_no_votes((n - 1) as nat)
        }
    }

    /// The tree that construction builds from `nodes` at `depth`.
    pub open spec fn built(&self, nodes: Seq<String>, f: usize, depth: nat) -> bool
        decreases depth,
    {
        &&& self.nodes@ == nodes
        &&& self.fault_tolerance == f
        &&& self.depth == depth
        &&& self.state@.len() == 0
        &&& self.proof.difficulty == difficulty_for(CALIBRATION_COUNT)
        &&& self.proof.nonce == 0
        &&& self.security.wf()
        &&& self.security.paths() == Set::<Seq<u8>>::empty()
        &&& self.security.promoted() == Set::<Seq<u8>>::empty()
        &&& if depth == 0 || group_count(nodes.len()) == 0 {
            self.children@.len() == 0
        } else {
            &&& self.children@.len() == 3
            &&& self.children@[0].built(group(nodes, 0), f, (depth - 1) as nat)
            &&& self.children@[1].built(group(nodes, 1), f, (depth - 1) as nat)
            &&& self.children@[2].built(group(nodes, 2), f, (depth - 1) as nat)
        }
    }
}

/// A copy of `nodes[start..end]`.
fn copy_range(nodes: &Vec<String>, start: usize, end: usize) -> (r: Vec<String>)
    requires
        start <= end <= nodes@.len(),
    ensures
        r@ == nodes@.subrange(start as int, end as int),
{
    let mut out: Vec<String> = Vec::new();
    let mut i: usize = start;
    while i < end
        invariant
            start <= i <= end,
            end <= nodes@.len(),
            out@ == nodes@.subrange(start as int, i as int),
        decreases end - i,
    {
        out.push(nodes[i].clone());
        assert(nodes@.subrange(start as int, i + 1) == nodes@.subrange(start as int, i as int).push(nodes@[i as int]));
        i = i + 1;
    }
    out
}

/// Sets the vote of `node` in the record, replacing its entry or appending one.
fn upsert_vote(state: &mut Vec<(String, Vote)>, node: &String, vote: Vote)
    ensures
        final(state)@ == upsert(old(state)@, *node, vote),
{
    let ghost s0 = state@;
    let mut i: usize = 0;
    assert(s0.subrange(0, 0) + upsert(s0.subrange(0, s0.len() as int), *node, vote) =~= upsert(s0, *node, vote)) by {
        assert(s0.subrange(0, s0.len() as int) =~= s0);
    }
    while i < state.len()
        invariant
            state@ == s0,
            s0 == old(state)@,
            i <= s0.len(),
            forall|k: int| 0 <= k < i ==> (#[trigger] s0[k]).0@ != node@,
            upsert(s0, *node, vote) == s0.subrange(0, i as int) + upsert(s0.subrange(i as int, s0.len() as int), *node, vote),
        decreases s0.len() - i,
    {
        if state[i].0 == *node {
            proof {
                let rest = s0.subrange(i as int, s0.len() as int);
                assert(rest[0].0@ == node@);
                assert(upsert(rest, *node, vote) == rest.update(0, (*node, vote)));
                assert(s0.subrange(0, i as int) + rest.update(0, (*node, vote)) =~= s0.update(i as int, (*node, vote)));
            }
            state.set(i, (node.clone(), vote));
            return;
        }
        proof {
            let rest = s0.subrange(i as int, s0.len() as int);
            assert(rest.drop_first() =~= s0.subrange(i + 1, s0.len() as int));
            assert(s0.subrange(0, i as int) + (seq![rest[0]] + rest.drop_first()) =~= s0.subrange(0, i + 1) + rest.drop_first());
        }
        i = i + 1;
    }
    proof {
        assert(s0.subrange(0, i as int) =~= s0);
        assert(s0.subrange(i as int, s0.len() as int) =~= Seq::<(String, Vote)>::empty());
    }
    state.push((node.clone(), vote));
}

/// How many entries of the record hold `vote`.
fn count_in(state: &Vec<(String, Vote)>, vote: Vote) -> (r: usize)
    ensures
        r == count_votes(state@, vote),
{
    let mut n: usize = 0;
    let mut i: usize = 0;
    while i < state.len()
        invariant
            i <= state@.len(),
            n == count_votes(state@.subrange(0, i as int), vote),
            n <= i,
        decreases state@.len() - i,
    {
        assert(state@.subrange(0, i + 1).drop_last() =~= state@.subrange(0, i as int));
        if state[i].1 == vote {
            n = n + 1;
        }
        i = i + 1;
    }
    assert(state@.subrange(0, i as int) =~= state@);
    n
}

impl HierarchicalRecursiveConsensus {
    /// Builds the tree for `nodes`. Above depth zero the nodes are split into three
    /// contiguous groups of `len / 3` nodes, each with a subtree of its own; the last
    /// `len % 3` nodes join no group, and with fewer than three nodes the instance
    /// is a leaf. Every instance owns a puzzle calibrated for the standard count, an
    /// empty vote record and an empty security state.
    pub fn new(nodes: Vec<String>, fault_tolerance: usize, difficulty: u32, depth: u32) -> (r: Self)
        requires
            difficulty <= MAX_DIFFICULTY,
        ensures
            r.built(nodes@, fault_tolerance, depth as nat),
            r.tree_wf(),
            r.no_votes(),
        decreases depth,
    {
        let mut proof = ProofOfFractal::new(difficulty);
        proof.adjust_difficulty(CALIBRATION_COUNT);
        let mut children: Vec<HierarchicalRecursiveConsensus> = Vec::new();
        let k: usize = nodes.len() / 3;
        if depth > 0 && k > 0 {
            assert(3 * k <= nodes@.len());
            let first = copy_range(&nodes, 0, k);
            let second = copy_range(&nodes, k, 2 * k);
            let third = copy_range(&nodes, 2 * k, 3 * k);
            assert(first@ == group(nodes@, 0));
            assert(second@ == group(nodes@, 1));
            assert(third@ == group(nodes@, 2));
            children.push(HierarchicalRecursiveConsensus::new(first, fault_tolerance, difficulty, depth - 1));
            children.push(HierarchicalRecursiveConsensus::new(second, fault_tolerance, difficulty, depth - 1));
            children.push(HierarchicalRecursiveConsensus::new(third, fault_tolerance, difficulty, depth - 1));
        }
        let r = HierarchicalRecursiveConsensus {
            nodes,
            state: Vec::new(),
            fault_tolerance,
            proof,
            security: RedundantPathSecurity::new(),
            children,
            depth,
        };
        proof {
            lemma_first_children_no_votes(r, r.children@.len() as nat);
        }
        r
    }

    /// True iff the group has at least `3f + 1` nodes and the stored nonce solves the
    /// puzzle for the round's payload.
    pub fn validate_subfractal(&self) -> (r: bool)
        ensures
            r == self.subfractal_valid(),
    {
        let n = self.nodes.len();
        let f = self.fault_tolerance;
        let enough = n > 0 && f <= (n - 1) / 3;
        assert(enough == (n >= 3 * f + 1));
        enough && self.proof.verify_solution(PROPOSAL.as_bytes())
    }
}

impl HierarchicalRecursiveConsensus {
    /// Enters one leaf round's votes, one per node in order: each vote is recorded
    /// and an accept activates the node's path, a fault deactivates it. The round
    /// succeeds iff faults stay within the tolerance, a path is active, the accepts
    /// reach `2f + 1` and the sub-fractal validates.
    pub fn record_round(&mut self, votes: &Vec<Vote>) -> (r: bool)
        requires
            old(self).security.wf(),
            votes@.len() == old(self).nodes@.len(),
        ensures
            final(self).security.wf(),
            final(self).state@ == record_votes(old(self).state@, old(self).nodes@, votes@, votes@.len()),
            final(self).security.paths() == apply_paths(
                old(self).security.paths(),
                old(self).nodes@,
                votes@,
                votes@.len(),
            ),
            final(self).security.promoted() == old(self).security.promoted(),
            final(self).nodes == old(self).nodes,
            final(self).fault_tolerance == old(self).fault_tolerance,
            final(self).proof == old(self).proof,
            final(self).children == old(self).children,
            final(self).depth == old(self).depth,
            r == final(self).leaf_agreed(),
    {
        let mut i: usize = 0;
        while i < votes.len()
            invariant
                i <= votes@.len(),
                votes@.len() == self.nodes@.len(),
                self.security.wf(),
                self.state@ == record_votes(old(self).state@, self.nodes@, votes@, i as nat),
                self.security.paths() == apply_paths(old(self).security.paths(), self.nodes@, votes@, i as nat),
                self.security.promoted() == old(self).security.promoted(),
                self.nodes == old(self).nodes,
                self.fault_tolerance == old(self).fault_tolerance,
                self.proof == old(self).proof,
                self.children == old(self).children,
                self.depth == old(self).depth,
            decreases votes@.len() - i,
        {
            let vote = votes[i];
            upsert_vote(&mut self.state, &self.nodes[i], vote);
            match vote {
                Vote::Accept => {
                    self.security.add_path(self.nodes[i].as_str());
                },
                Vote::Fault => {
                    self.security.remove_path(self.nodes[i].as_str());
                },
            }
            i = i + 1;
        }
        let faults = count_in(&self.state, Vote::Fault);
        let accepts = count_in(&self.state, Vote::Accept);
        if faults > self.fault_tolerance || !self.security.validate_paths() {
            return false;
        }
        let quorum: u128 = 2 * (self.fault_tolerance as u128) + 1;
        (accepts as u128) >= quorum && self.validate_subfractal()
    }

    /// Runs a round over the tree. An inner instance runs every child and agrees iff
    /// all of them do. A leaf first solves the puzzle on the round's payload, failing
    /// at once if that times out; it then draws one vote per node from `rng` and
    /// decides as `record_round` does.
    pub fn run_consensus<R: NonceSource + VoteSource>(&mut self, rng: &mut R) -> (r: bool)
        requires
            old(self).tree_wf(),
        ensures
            final(self).tree_wf(),
            r ==> final(self).agreed(),
            final(self).nodes == old(self).nodes,
            final(self).fault_tolerance == old(self).fault_tolerance,
            final(self).depth == old(self).depth,
            final(self).children@.len() == old(self).children@.len(),
            old(self).children@.len() > 0 ==> final(self).state == old(self).state && final(self).security
                == old(self).security,
            old(self).children@.len() == 0 ==> (!r && final(self).state == old(self).state && final(self).security
                == old(self).security) || (final(self).proof.is_solved(proposal_bytes()) && r
                == final(self).leaf_agreed() && exists|votes: Seq<Vote>|
                votes.len() == old(self).nodes@.len() && #[trigger] record_votes(
                    old(self).state@,
                    old(self).nodes@,
                    votes,
                    votes.len(),
                ) == final(self).state@ && final(self).security.paths() == apply_paths(
                    old(self).security.paths(),
                    old(self).nodes@,
                    votes,
                    votes.len(),
                )),
            final(self).security.promoted() == old(self).security.promoted(),
            old(self).children@.len() > 0 ==> final(self).proof == old(self).proof,
            old(self).no_votes() ==> r == final(self).agreed(),
        decreases old(self).depth,
    {
        if self.children.len() > 0 {
            let mut pending: Vec<HierarchicalRecursiveConsensus> = Vec::new();
            std::mem::swap(&mut self.children, &mut pending);
            let ghost orig = pending@;
            proof {
                lemma_first_children_no_votes(*old(self), orig.len() as nat);
            }
            let mut done: Vec<HierarchicalRecursiveConsensus> = Vec::new();
            let mut all = true;
            while pending.len() > 0
                invariant
                    orig == old(self).children@,
                    old(self).no_votes() ==> forall|k: int| 0 <= k < orig.len() ==> (#[trigger] orig[k]).no_votes(),
                    old(self).no_votes() ==> (all <==> forall|k: int| 0 <= k < done@.len() ==> (#[trigger] done@[k]).agreed()),
                    done@.len() + pending@.len() == orig.len(),
                    pending@ == orig.subrange(done@.len() as int, orig.len() as int),
                    forall|k: int| 0 <= k < orig.len() ==> (#[trigger] orig[k]).depth < old(self).depth && orig[k].tree_wf(),
                    forall|k: int|
                        0 <= k < done@.len() ==> (#[trigger] done@[k]).depth == orig[k].depth
                            && done@[k].tree_wf(),
                    all ==> forall|k: int| 0 <= k < done@.len() ==> (#[trigger] done@[k]).agreed(),
                decreases pending@.len(),
            {
                let mut child = pending.remove(0);
                assert(child == orig[done@.len() as int]);
                let ghost done_before = done@;
                let ok = child.run_consensus(rng);
                done.push(child);
                let ghost all_before = all;
                all = all && ok;
                proof {
                    if old(self).no_votes() {
                        assert(orig[done_before.len() as int].no_votes());
                        assert(ok == done@[done_before.len() as int].agreed());
                        assert forall|k: int| 0 <= k < done_before.len() implies #[trigger] done@[k] == done_before[k] by {}
                        if all {
                            assert forall|k: int| 0 <= k < done@.len() implies (#[trigger] done@[k]).agreed() by {
                                if k < done_before.len() {
                                    assert(done_before[k].agreed());
                                }
                            }
                        } else if all_before {
                            assert(!done@[done_before.len() as int].agreed());
                        } else {
                            let j = choose|j: int| 0 <= j < done_before.len() && !(#[trigger] done_before[j]).agreed();
                            assert(!done@[j].agreed());
                        }
                    }
                }
            }
            self.children = done;
            proof {
                lemma_first_children_agree(*self, self.children@.len() as nat);
            }
            return all;
        }
        if !self.proof.solve_puzzle(PROPOSAL.as_bytes(), rng) {
            assert(count_votes(self.state@, Vote::Accept) == 0 || !old(self).no_votes());
            return false;
        }
        let mut votes: Vec<Vote> = Vec::new();
        let mut i: usize = 0;
        while i < self.nodes.len()
            invariant
                i <= self.nodes@.len(),
                votes@.len() == i,
            decreases self.nodes@.len() - i,
        {
            let v = rng.draw_vote(&self.nodes[i]);
            votes.push(v);
            i = i + 1;
        }
        let ghost before = *self;
        let r = self.record_round(&votes);
        assert(record_votes(before.state@, before.nodes@, votes@, votes@.len()) == self.state@);
        r
    }
}

/// A group of fewer than `3f + 1` nodes never validates, whatever `f` is.
pub proof fn lemma_undersized_group_invalid(t: HierarchicalRecursiveConsensus)
    requires
        t.nodes@.len() < 3 * t.fault_tolerance + 1,
    ensures
        !t.subfractal_valid(),
{
}

/// The first `n` children agree exactly when each of them does.
pub proof fn lemma_first_children_agree(t: HierarchicalRecursiveConsensus, n: nat)
    requires
        n <= t.children@.len(),
    ensures
        t.first_children_agree(n) <==> forall|k: int| 0 <= k < n ==> #[trigger] t.children@[k].agreed(),
    decreases n,
{
    if n > 0 {
        lemma_first_children_agree(t, (n - 1) as nat);
        assert(t.first_children_agree(n) == (t.children@[n - 1].agreed() && t.first_children_agree((n - 1) as nat)));
        if forall|k: int| 0 <= k < n ==> #[trigger] t.children@[k].agreed() {
            assert(t.children@[n - 1].agreed());
            assert forall|k: int| 0 <= k < n - 1 implies #[trigger] t.children@[k].agreed() by {}
        }
        if t.first_children_agree(n) {
            assert forall|k: int| 0 <= k < n implies #[trigger] t.children@[k].agreed() by {
                if k < n - 1 {
                } else {
                    assert(k == n - 1);
                }
            }
        }
    }
}

/// The first `n` children have recorded no vote exactly when none of them has.
pub proof fn lemma_first_children_no_votes(t: HierarchicalRecursiveConsensus, n: nat)
    requires
        n <= t.children@.len(),
    ensures
        t.first_children_no_votes(n) <==> forall|k: int| 0 <= k < n ==> #[trigger] t.children@[k].no_votes(),
    decreases n,
{
    if n > 0 {
        lemma_first_children_no_votes(t, (n - 1) as nat);
        assert(t.first_children_no_votes(n) == (t.children@[n - 1].no_votes() && t.first_children_no_votes(
            (n - 1) as nat,
        )));
        if forall|k: int| 0 <= k < n ==> #[trigger] t.children@[k].no_votes() {
            assert(t.children@[n - 1].no_votes());
            assert forall|k: int| 0 <= k < n - 1 implies #[trigger] t.children@[k].no_votes() by {}
        }
        if t.first_children_no_votes(n) {
            assert forall|k: int| 0 <= k < n implies #[trigger] t.children@[k].no_votes() by {
                if k < n - 1 {
                } else {
                    assert(k == n - 1);
                }
            }
        }
    }
}

/// Agreement is unanimous: a child leaf whose record holds more faults than the
/// tolerance keeps the whole instance from agreeing, whatever its siblings did.
pub proof fn lemma_faulty_leaf_vetoes(t: HierarchicalRecursiveConsensus, i: int)
    requires
        0 <= i < t.children@.len(),
        t.children@[i].children@.len() == 0,
        count_votes(t.children@[i].state@, Vote::Fault) > t.children@[i].fault_tolerance,
    ensures
        !t.children@[i].agreed(),
        !t.agreed(),
{
    lemma_first_children_agree(t, t.children@.len() as nat);
}

/// How many of `votes` are `v`.
pub open spec fn tally(votes: Seq<Vote>, v: Vote) -> nat
    decreases votes.len(),
{
    if votes.len() == 0 {
        0
    } else {
        tally(votes.drop_last(), v) + if votes.last() == v {
            1nat
        } else {
            0nat
        }
    }
}

/// No two of `nodes` have the same id.
pub open spec fn distinct_ids(nodes: Seq<String>) -> bool {
    forall|i: int, j: int| 0 <= i < nodes.len() && 0 <= j < nodes.len() && i != j ==> #[trigger] nodes[i]@ != #[trigger] nodes[j]@
}

/// A vote for a node with no entry yet is appended.
proof fn lemma_upsert_absent(s: Seq<(String, Vote)>, k: String, v: Vote)
    requires
        forall|i: int| 0 <= i < s.len() ==> (#[trigger] s[i]).0@ != k@,
    ensures
        upsert(s, k, v) == s.push((k, v)),
    decreases s.len(),
{
    if s.len() > 0 {
        assert(s[0].0@ != k@);
        let d = s.drop_first();
        assert forall|i: int| 0 <= i < d.len() implies (#[trigger] d[i]).0@ != k@ by {
            assert(d[i] == s[i + 1]);
        }
        lemma_upsert_absent(d, k, v);
        assert(seq![s[0]] + d.push((k, v)) =~= s.push((k, v)));
    }
}

/// From an empty record, the votes of distinct nodes are entered one entry each, in order.
proof fn lemma_fresh_record(nodes: Seq<String>, votes: Seq<Vote>, n: nat)
    requires
        distinct_ids(nodes),
        votes.len() == nodes.len(),
        n <= nodes.len(),
    ensures
        record_votes(Seq::empty(), nodes, votes, n) =~= Seq::new(n, |i: int| (nodes[i], votes[i])),
    decreases n,
{
    if n > 0 {
        let m = (n - 1) as nat;
        lemma_fresh_record(nodes, votes, m);
        let prev = Seq::new(m, |i: int| (nodes[i], votes[i]));
        assert forall|i: int| 0 <= i < prev.len() implies (#[trigger] prev[i]).0@ != nodes[m as int]@ by {
            assert(nodes[i]@ != nodes[m as int]@);
        }
        lemma_upsert_absent(prev, nodes[m as int], votes[m as int]);
    }
}

/// The entries of a record built in order count the votes.
proof fn lemma_count_entries(nodes: Seq<String>, votes: Seq<Vote>, n: nat, v: Vote)
    requires
        votes.len() == nodes.len(),
        n <= nodes.len(),
    ensures
        count_votes(Seq::new(n, |i: int| (nodes[i], votes[i])), v) == tally(votes.subrange(0, n as int), v),
    decreases n,
{
    if n > 0 {
        let m = (n - 1) as nat;
        lemma_count_entries(nodes, votes, m, v);
        assert(Seq::new(n, |i: int| (nodes[i], votes[i])).drop_last() =~= Seq::new(m, |i: int| (nodes[i], votes[i])));
        assert(votes.subrange(0, n as int).drop_last() =~= votes.subrange(0, m as int));
    }
}

/// A first round over distinct nodes records one entry per node, and the record
/// holds as many accepts and faults as were cast.
pub proof fn lemma_first_round_counts(nodes: Seq<String>, votes: Seq<Vote>)
    requires
        distinct_ids(nodes),
        votes.len() == nodes.len(),
    ensures
        record_votes(Seq::empty(), nodes, votes, votes.len()).len() == nodes.len(),
        count_votes(record_votes(Seq::empty(), nodes, votes, votes.len()), Vote::Accept) == tally(votes, Vote::Accept),
        count_votes(record_votes(Seq::empty(), nodes, votes, votes.len()), Vote::Fault) == tally(votes, Vote::Fault),
{
    lemma_fresh_record(nodes, votes, votes.len());
    lemma_count_entries(nodes, votes, votes.len(), Vote::Accept);
    lemma_count_entries(nodes, votes, votes.len(), Vote::Fault);
    assert(votes.subrange(0, votes.len() as int) =~= votes);
}

} // verus!
