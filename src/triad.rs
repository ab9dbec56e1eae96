//! The Triad: a ternary block unit holding a transaction batch, up to three owned
//! child Triads and the Merkle root of its batch.

use vstd::prelude::*;
use vstd::utf8::encode_utf8;
use crate::digest::{sha256, sha256_of, zero_digest, zero32, u64_le, push_bytes, push_u64_le};

verus! {

/// A value transfer. Its hash is the digest of its fields in a fixed order.
#[derive(Debug, PartialEq, Eq)]
pub struct Transaction {
    pub sender: String,
    pub receiver: String,
    pub amount: u64,
    pub timestamp: u64,
}

/// Puzzle metadata carried by each Triad.
pub struct ProofOfFractalData {
    pub nonce: u64,
    pub difficulty: u32,
    pub hash: [u8; 32],
}

/// Misuse of a Triad's child slots.
#[derive(Debug, Clone, Copy, PartialEq, Eq, Structural)]
pub enum TriadError {
    /// The slot index is not 0, 1 or 2.
    InvalidChildSlot,
    /// The slot already holds a child.
    DuplicateChildSlot,
    /// The slot holds no child.
    NoSuchChild,
}

/// A ternary Merkle-tree block.
pub struct Triad {
    pub transactions: Vec<Transaction>,
    pub child_references: [Option<Box<Triad>>; 3],
    pub merkle_root: [u8; 32],
    pub proof_of_fractal_data: ProofOfFractalData,
    pub parent_hash: [u8; 32],
}

/// The bytes that a transaction's hash covers: sender, receiver, amount and
/// timestamp, the integers little-endian.
pub open spec fn tx_bytes(t: Transaction) -> Seq<u8> {
    encode_utf8(t.sender@) + encode_utf8(t.receiver@) + u64_le(t.amount) + u64_le(t.timestamp)
}

/// The hash of one transaction.
pub open spec fn tx_digest(t: Transaction) -> Seq<u8> {
    sha256_of(tx_bytes(t))
}

/// The digest of two adjacent digests of one level.
pub open spec fn pair_digest(left: Seq<u8>, right: Seq<u8>) -> Seq<u8> {
    sha256_of(left + right)
}

/// The right partner of the `i`-th pair of a level: the next digest, or the left
/// one again when the level has odd length.
pub open spec fn right_of(h: Seq<Seq<u8>>, i: int) -> Seq<u8> {
    if 2 * i + 1 < h.len() {
        h[2 * i + 1]
    } else {
        h[2 * i]
    }
}

/// The level above `h`: adjacent digests combined pairwise.
pub open spec fn next_level(h: Seq<Seq<u8>>) -> Seq<Seq<u8>> {
    Seq::new(((h.len() + 1) / 2) as nat, |i: int| pair_digest(h[2 * i], right_of(h, i)))
}

/// Combines a level until a single digest is left; the empty level gives zeros.
pub open spec fn reduce_levels(h: Seq<Seq<u8>>) -> Seq<u8>
    decreases h.len(),
{
    if h.len() == 0 {
        zero_digest()
    } else if h.len() == 1 {
        h[0]
    } else {
        reduce_levels(next_level(h))
    }
}

/// The leaf digests of a batch.
pub open spec fn leaf_digests(txs: Seq<Transaction>) -> Seq<Seq<u8>> {
    txs.map_values(|t: Transaction| tx_digest(t))
}

/// The Merkle root of a batch.
pub open spec fn merkle_root_of(txs: Seq<Transaction>) -> Seq<u8> {
    reduce_levels(leaf_digests(txs))
}

/// The digests held in a vector of arrays.
pub open spec fn digests_view(v: Seq<[u8; 32]>) -> Seq<Seq<u8>> {
    v.map_values(|a: [u8; 32]| a@)
}

/// Whether a slot holds exactly `t`.
pub open spec fn slot_holds(slot: Option<Box<Triad>>, t: Triad) -> bool {
    match slot {
        Some(b) => *b == t,
        None => false,
    }
}

/// The 64 bytes of two digests side by side.
fn concat_pair(left: &[u8; 32], right: &[u8; 32]) -> (r: Vec<u8>)
    ensures
        r@ == left@ + right@,
{
    let mut buf: Vec<u8> = Vec::new();
    push_bytes(&mut buf, left.as_slice());
    push_bytes(&mut buf, right.as_slice());
    buf
}

impl Clone for Transaction {
    fn clone(&self) -> (r: Self)
        ensures
            r == *self,
    {
        Transaction {
            sender: self.sender.clone(),
            receiver: self.receiver.clone(),
            amount: self.amount,
            timestamp: self.timestamp,
        }
    }
}

impl Transaction {
    /// The SHA-256 digest of sender, receiver, amount and timestamp.
    pub fn hash(&self) -> (r: [u8; 32])
        ensures
            r@ == tx_digest(*self),
    {
        let mut buf: Vec<u8> = Vec::new();
        push_bytes(&mut buf, self.sender.as_str().as_bytes());
        push_bytes(&mut buf, self.receiver.as_str().as_bytes());
        push_u64_le(&mut buf, self.amount);
        push_u64_le(&mut buf, self.timestamp);
        sha256(buf.as_slice())
    }
}

/// One level up: each pair of adjacent digests hashed together.
fn combine_level(hashes: &Vec<[u8; 32]>) -> (r: Vec<[u8; 32]>)
    ensures
        digests_view(r@) == next_level(digests_view(hashes@)),
        r@.len() == (hashes@.len() + 1) / 2,
{
    let ghost h = digests_view(hashes@);
    let mut out: Vec<[u8; 32]> = Vec::new();
    let n: usize = hashes.len() / 2 + hashes.len() % 2;
    let mut j: usize = 0;
    while j < n
        invariant
            h == digests_view(hashes@),
            n == (hashes@.len() + 1) / 2,
            j <= n,
            out@.len() == j,
            forall|k: int| 0 <= k < out@.len() ==> #[trigger] out@[k]@ == next_level(h)[k],
        decreases n - j,
    {
        let len = hashes.len();
        assert(2 * j < len);
        let i: usize = 2 * j;
        let left = hashes[i];
        let right = if i + 1 < hashes.len() {
            hashes[i + 1]
        } else {
            left
        };
        let buf = concat_pair(&left, &right);
        let d = sha256(buf.as_slice());
        out.push(d);
        assert(out@[j as int]@ == next_level(h)[j as int]);
        j = j + 1;
    }
    assert(digests_view(out@) =~= next_level(h));
    out
}

/// The root of a batch: its leaf digests reduced level by level.
fn merkle_root(transactions: &Vec<Transaction>) -> (r: [u8; 32])
    ensures
        r@ == merkle_root_of(transactions@),
{
    let mut hashes: Vec<[u8; 32]> = Vec::new();
    let mut i: usize = 0;
    while i < transactions.len()
        invariant
            i <= transactions@.len(),
            hashes@.len() == i,
            forall|k: int| 0 <= k < i ==> #[trigger] hashes@[k]@ == tx_digest(transactions@[k]),
        decreases transactions@.len() - i,
    {
        let d = transactions[i].hash();
        hashes.push(d);
        i = i + 1;
    }
    assert(digests_view(hashes@) =~= leaf_digests(transactions@));
    while hashes.len() > 1
        invariant
            reduce_levels(digests_view(hashes@)) == merkle_root_of(transactions@),
        decreases hashes@.len(),
    {
        hashes = combine_level(&hashes);
    }
    if hashes.len() == 1 {
        hashes[0]
    } else {
        zero32()
    }
}

impl Triad {
    /// An empty block: no transactions, no children, zero root and parent hash.
    pub fn new() -> (r: Self)
        ensures
            r.transactions@.len() == 0,
            r.child_references@ == seq![None::<Box<Triad>>, None, None],
            r.merkle_root@ == zero_digest(),
            r.parent_hash@ == zero_digest(),
            r.proof_of_fractal_data.is_fresh(),
    {
        Triad {
            transactions: Vec::new(),
            child_references: [None, None, None],
            merkle_root: zero32(),
            proof_of_fractal_data: ProofOfFractalData::new(),
            parent_hash: zero32(),
        }
    }

    /// The first block of a ledger, with an optional initial batch and its root.
    pub fn genesis(initial_transactions: Option<Vec<Transaction>>) -> (r: Self)
        ensures
            r.transactions@ == match initial_transactions {
                Some(v) => v@,
                None => Seq::empty(),
            },
            r.merkle_root@ == merkle_root_of(r.transactions@),
            r.child_references@ == seq![None::<Box<Triad>>, None, None],
            r.parent_hash@ == zero_digest(),
            r.proof_of_fractal_data.is_fresh(),
    {
        let transactions = match initial_transactions {
            Some(v) => v,
            None => Vec::new(),
        };
        let mut triad = Triad {
            transactions,
            child_references: [None, None, None],
            merkle_root: zero32(),
            proof_of_fractal_data: ProofOfFractalData::new(),
            parent_hash: zero32(),
        };
        triad.calculate_merkle_root();
        triad
    }

    /// Recomputes the Merkle root from the current transactions.
    pub fn calculate_merkle_root(&mut self)
        ensures
            final(self).merkle_root@ == merkle_root_of(old(self).transactions@),
            final(self).transactions == old(self).transactions,
            final(self).child_references == old(self).child_references,
            final(self).proof_of_fractal_data == old(self).proof_of_fractal_data,
            final(self).parent_hash == old(self).parent_hash,
    {
        self.merkle_root = merkle_root(&self.transactions);
    }

    /// Appends a transaction and recomputes the root.
    pub fn insert_transaction(&mut self, transaction: Transaction)
        ensures
            final(self).transactions@ == old(self).transactions@.push(transaction),
            final(self).merkle_root@ == merkle_root_of(final(self).transactions@),
            final(self).child_references == old(self).child_references,
            final(self).proof_of_fractal_data == old(self).proof_of_fractal_data,
            final(self).parent_hash == old(self).parent_hash,
    {
        self.transactions.push(transaction);
        self.calculate_merkle_root();
    }

    /// Puts `child` into the empty slot `index`.
    pub fn add_child(&mut self, index: usize, child: Triad) -> (r: Result<(), TriadError>)
        ensures
            index >= 3 ==> r == Err::<(), TriadError>(TriadError::InvalidChildSlot),
            index < 3 && old(self).child_references[index as int].is_some() ==> r == Err::<
                (),
                TriadError,
            >(TriadError::DuplicateChildSlot),
            index < 3 && old(self).child_references[index as int].is_none() ==> r == Ok::<
                (),
                TriadError,
            >(()),
            r is Ok ==> slot_holds(final(self).child_references[index as int], child)
                && final(self).child_references@ == old(self).child_references@.update(
                index as int,
                final(self).child_references[index as int],
            ),
            r is Err ==> final(self).child_references == old(self).child_references,
            final(self).transactions == old(self).transactions,
            final(self).merkle_root == old(self).merkle_root,
            final(self).parent_hash == old(self).parent_hash,
            final(self).proof_of_fractal_data == old(self).proof_of_fractal_data,
    {
        if index >= 3 {
            return Err(TriadError::InvalidChildSlot);
        }
        if self.child_references[index].is_some() {
            return Err(TriadError::DuplicateChildSlot);
        }
        self.child_references[index] = Some(Box::new(child));
        Ok(())
    }

    /// Empties the occupied slot `index`.
    pub fn remove_child(&mut self, index: usize) -> (r: Result<(), TriadError>)
        ensures
            index >= 3 ==> r == Err::<(), TriadError>(TriadError::InvalidChildSlot),
            index < 3 && old(self).child_references[index as int].is_none() ==> r == Err::<
                (),
                TriadError,
            >(TriadError::NoSuchChild),
            index < 3 && old(self).child_references[index as int].is_some() ==> r == Ok::<
                (),
                TriadError,
            >(()),
            r is Ok ==> final(self).child_references@ == old(self).child_references@.update(
                index as int,
                None,
            ),
            r is Err ==> final(self).child_references == old(self).child_references,
            final(self).transactions == old(self).transactions,
            final(self).merkle_root == old(self).merkle_root,
            final(self).parent_hash == old(self).parent_hash,
            final(self).proof_of_fractal_data == old(self).proof_of_fractal_data,
    {
        if index >= 3 {
            return Err(TriadError::InvalidChildSlot);
        }
        if self.child_references[index].is_none() {
            return Err(TriadError::NoSuchChild);
        }
        self.child_references[index] = None;
        Ok(())
    }

    /// The child in slot `index`, if the index is valid and the slot is occupied.
    pub fn get_child(&self, index: usize) -> (r: Option<&Triad>)
        ensures
            index >= 3 ==> r is None,
            index < 3 ==> match self.child_references[index as int] {
                Some(b) => r == Some(&*b),
                None => r is None,
            },
    {
        if index >= 3 {
            return None;
        }
        match &self.child_references[index] {
            Some(b) => Some(&**b),
            None => None,
        }
    }

    /// The transactions in order of insertion.
    pub fn get_all_transactions(&self) -> (r: &Vec<Transaction>)
        ensures
            r == &self.transactions,
    {
        &self.transactions
    }

    /// Empties the batch and resets the root to zeros.
    pub fn clear_transactions(&mut self)
        ensures
            final(self).transactions@.len() == 0,
            final(self).merkle_root@ == zero_digest(),
            final(self).merkle_root@ == merkle_root_of(final(self).transactions@),
            final(self).child_references == old(self).child_references,
            final(self).proof_of_fractal_data == old(self).proof_of_fractal_data,
            final(self).parent_hash == old(self).parent_hash,
    {
        self.transactions.clear();
        self.merkle_root = zero32();
    }
}

impl ProofOfFractalData {
    /// The metadata of a block that has not been mined: nonce 0, difficulty 1, zero hash.
    pub open spec fn is_fresh(&self) -> bool {
        self.nonce == 0 && self.difficulty == 1 && self.hash@ == zero_digest()
    }

    /// Fresh puzzle metadata.
    pub fn new() -> (r: Self)
        ensures
            r.is_fresh(),
    {
        ProofOfFractalData { nonce: 0, difficulty: 1, hash: zero32() }
    }
}

/// The Merkle root is fixed by the batch alone: equal batches give equal roots, the
/// empty batch gives the all-zero digest, and a batch of one transaction has that
/// transaction's hash as its root.
pub proof fn lemma_merkle_root_determined(a: Seq<Transaction>, b: Seq<Transaction>, t: Transaction)
    requires
        a == b,
    ensures
        merkle_root_of(a) == merkle_root_of(b),
        merkle_root_of(Seq::<Transaction>::empty()) == zero_digest(),
        merkle_root_of(seq![t]) == tx_digest(t),
{
    assert(leaf_digests(Seq::<Transaction>::empty()).len() == 0);
    assert(leaf_digests(seq![t]) =~= seq![tx_digest(t)]);
}

} // verus!
