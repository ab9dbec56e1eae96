//! The Proof-of-Fractal admission puzzle: adaptive difficulty, nonce search and
//! the self-similar pattern predicate on digests.

use rand::RngCore;
use vstd::prelude::*;
use vstd::std_specs::bits::u64_leading_zeros;
use crate::digest::{
    append_str, decimal_of, hex_encode, hex_of, push_bytes, push_u64_le, render_u64, sha256, sha256_of, u64_le,
    zero32, zero_digest,
};

verus! {

/// `rand::rngs::StdRng`, the seedable generator behind nonce and vote draws; opaque.
#[verifier::external_type_specification]
#[verifier::external_body]
pub struct ExStdRng(rand::rngs::StdRng);

/// `std::time::Instant`, where a search started; opaque.
#[verifier::external_type_specification]
#[verifier::external_body]
pub struct ExInstant(std::time::Instant);

/// Relies on `rand::RngCore::next_u64` of `StdRng`: the next 64-bit output of the
/// generator, which advances it.
#[verifier::external_body]
pub(crate) fn rng_next_u64(rng: &mut rand::rngs::StdRng) -> u64 {
    rng.next_u64()
}

/// Relies on `std::time::Instant::now`: the current instant of a monotonic clock.
#[verifier::external_body]
fn clock_now() -> std::time::Instant {
    std::time::Instant::now()
}

/// Relies on `std::time::Instant::elapsed`: the time since `start`, in nanoseconds.
#[verifier::external_body]
fn elapsed_nanos(start: &std::time::Instant) -> u128 {
    start.elapsed().as_nanos()
}

/// A source of candidate nonces for the puzzle search.
pub trait NonceSource {
    /// Draws the next candidate nonce.
    fn next_nonce(&mut self) -> u64;
}

impl NonceSource for rand::rngs::StdRng {
    fn next_nonce(&mut self) -> u64 {
        rng_next_u64(self)
    }
}

/// The highest difficulty.
pub const MAX_DIFFICULTY: u32 = 32;

/// The difficulty that every calibration starts from.
pub const BASE_DIFFICULTY: u32 = 4;

/// The longest repeated pattern, in bytes.
pub const MAX_PATTERN_LENGTH: u32 = 8;

/// The number of bits needed to write `n`: the position of its highest set bit plus one.
pub open spec fn bit_length(n: nat) -> nat
    decreases n,
{
    if n == 0 {
        0
    } else {
        1 + bit_length(n / 2)
    }
}

/// The difficulty calibrated for a fractal of `count` triads.
pub open spec fn difficulty_for(count: u64) -> u32 {
    let d = BASE_DIFFICULTY + bit_length(count as nat);
    if d < MAX_DIFFICULTY {
        d as u32
    } else {
        MAX_DIFFICULTY
    }
}

/// The length of the pattern that a digest must repeat at a given difficulty.
pub open spec fn pattern_length(difficulty: u32) -> int {
    if difficulty < MAX_PATTERN_LENGTH {
        difficulty as int
    } else {
        MAX_PATTERN_LENGTH as int
    }
}

/// Whether the aligned chunk number `k` of `h` equals the first `pl` bytes of `h`.
pub open spec fn chunk_repeats(h: Seq<u8>, pl: int, k: int) -> bool {
    h.subrange(k * pl, (k + 1) * pl) == h.subrange(0, pl)
}

/// The validity predicate: either the pattern is empty, or some aligned chunk of
/// pattern length at a non-zero offset repeats the digest's first bytes.
pub open spec fn meets_pattern(h: Seq<u8>, difficulty: u32) -> bool {
    let pl = pattern_length(difficulty);
    pl == 0 || exists|k: int| 1 <= k && (k + 1) * pl <= h.len() && #[trigger] chunk_repeats(h, pl, k)
}

/// The digest tested for a nonce: SHA-256 of the payload followed by the nonce,
/// little-endian.
pub open spec fn solution_hash(data: Seq<u8>, nonce: u64) -> Seq<u8> {
    sha256_of(data + u64_le(nonce))
}

/// Whether `nonce` solves the puzzle for `data` at `difficulty`.
pub open spec fn is_solution(data: Seq<u8>, nonce: u64, difficulty: u32) -> bool {
    meets_pattern(solution_hash(data, nonce), difficulty)
}

/// Byte `i` of the numeric target for a difficulty: `difficulty` leading zero bits,
/// then ones.
pub open spec fn target_byte(difficulty: u32, i: int) -> u8 {
    let byte_count = (difficulty / 8) as int;
    if i < byte_count {
        0u8
    } else if i == byte_count {
        (0xffu8 >> ((difficulty % 8) as u8)) as u8
    } else {
        0xffu8
    }
}

/// The numeric target for a difficulty.
pub open spec fn target_of(difficulty: u32) -> Seq<u8> {
    Seq::new(32, |i: int| target_byte(difficulty, i))
}

/// The search timeout in seconds: the difficulty squared, kept within 30 and 300.
pub open spec fn timeout_of(difficulty: u32) -> u64 {
    let sq = difficulty as int * difficulty as int;
    if sq < 30 {
        30
    } else if sq > 300 {
        300
    } else {
        sq as u64
    }
}

/// The puzzle state: the difficulty, its numeric target, and the last solution.
pub struct ProofOfFractal {
    pub nonce: u64,
    pub difficulty: u32,
    pub target: [u8; 32],
    pub hash: [u8; 32],
}

impl ProofOfFractal {
    /// Whether the stored nonce solves the puzzle for `data` at the stored difficulty.
    pub open spec fn is_solved(&self, data: Seq<u8>) -> bool {
        is_solution(data, self.nonce, self.difficulty)
    }

    /// A puzzle at `difficulty` with no solution yet.
    pub fn new(difficulty: u32) -> (r: Self)
        requires
            difficulty <= MAX_DIFFICULTY,
        ensures
            r.difficulty == difficulty,
            r.target@ == target_of(difficulty),
            r.nonce == 0,
            r.hash@ == zero_digest(),
    {
        let target = ProofOfFractal::calculate_target(difficulty);
        ProofOfFractal { nonce: 0, difficulty, target, hash: zero32() }
    }

    /// Recalibrates the difficulty to `min(32, 4 + bit_length(triad_count))`.
    pub fn adjust_difficulty(&mut self, triad_count: u64)
        ensures
            final(self).difficulty == difficulty_for(triad_count),
            final(self).target@ == target_of(final(self).difficulty),
            final(self).nonce == old(self).nonce,
            final(self).hash == old(self).hash,
    {
        proof {
            lemma_bit_length_leading_zeros(triad_count);
        }
        let bits: u32 = 64 - triad_count.leading_zeros();
        let adjusted: u32 = BASE_DIFFICULTY + bits;
        let new_difficulty = if adjusted < MAX_DIFFICULTY {
            adjusted
        } else {
            MAX_DIFFICULTY
        };
        self.difficulty = new_difficulty;
        self.target = ProofOfFractal::calculate_target(new_difficulty);
    }

    /// The numeric target: `difficulty` leading zero bits, then ones.
    fn calculate_target(difficulty: u32) -> (r: [u8; 32])
        requires
            difficulty <= MAX_DIFFICULTY,
        ensures
            r@ == target_of(difficulty),
    {
        let mut target = [0xffu8; 32];
        let byte_count = (difficulty / 8) as usize;
        let bit_count = (difficulty % 8) as u8;
        let mut i: usize = 0;
        while i < byte_count
            invariant
                byte_count == difficulty / 8,
                byte_count <= 4,
                i <= byte_count,
                forall|k: int| 0 <= k < i ==> #[trigger] target@[k] == 0u8,
                forall|k: int| i <= k < 32 ==> #[trigger] target@[k] == 0xffu8,
            decreases byte_count - i,
        {
            target[i] = 0u8;
            i = i + 1;
        }
        if byte_count < 32 {
            target[byte_count] = 0xffu8 >> bit_count;
        }
        assert(target@ =~= target_of(difficulty));
        target
    }

    /// Whether `hash` shows the self-similar pattern that `difficulty` asks for.
    pub fn hash_meets_target(hash: &[u8; 32], difficulty: u32) -> (r: bool)
        ensures
            r == meets_pattern(hash@, difficulty),
    {
        let pat_len: usize = if difficulty < MAX_PATTERN_LENGTH {
            difficulty as usize
        } else {
            MAX_PATTERN_LENGTH as usize
        };
        if pat_len == 0 {
            return true;
        }
        let ghost pl = pat_len as int;
        let mut i: usize = pat_len;
        let mut k: usize = 1;
        while i + pat_len <= 32
            invariant
                pl == pat_len as int,
                pl == pattern_length(difficulty),
                1 <= pl <= 8,
                1 <= k <= i,
                i == k * pl,
                i <= 40,
                forall|j: int| 1 <= j < k ==> !#[trigger] chunk_repeats(hash@, pl, j),
            decreases 40 - i,
        {
            let mut same = true;
            let mut m: usize = 0;
            while m < pat_len
                invariant
                    pl == pat_len as int,
                    1 <= pl <= 8,
                    i == k * pl,
                    i + pl <= 32,
                    m <= pl,
                    same == forall|n: int| 0 <= n < m ==> hash@[i + n] == #[trigger] hash@[n],
                decreases pl - m,
            {
                if hash[i + m] != hash[m] {
                    same = false;
                }
                m = m + 1;
            }
            proof {
                assert(i + pl == (k + 1) * pl) by (nonlinear_arith)
                    requires i == k * pl;
                let a = hash@.subrange(k * pl, (k + 1) * pl);
                let b = hash@.subrange(0, pl);
                if same {
                    assert(a =~= b);
                    assert(chunk_repeats(hash@, pl, k as int));
                    assert((k + 1) * pl <= hash@.len());
                } else {
                    let n = choose|n: int| 0 <= n < pl && hash@[i + n] != #[trigger] hash@[n];
                    assert(a[n] != b[n]);
                }
            }
            if same {
                return true;
            }
            i = i + pat_len;
            k = k + 1;
        }
        proof {
            assert forall|j: int| 1 <= j && (j + 1) * pl <= hash@.len() implies !#[trigger] chunk_repeats(
                hash@,
                pl,
                j,
            ) by {
                if j >= k {
                    assert((j + 1) * pl >= (k + 1) * pl) by (nonlinear_arith)
                        requires j >= k, pl >= 1;
                    assert((k + 1) * pl == i + pl) by (nonlinear_arith)
                        requires i == k * pl;
                }
            }
        }
        false
    }

    /// Whether `nonce` solves the puzzle for `data` at `difficulty`; anyone holding
    /// these three values can check a solution.
    pub fn check_solution(data: &[u8], nonce: u64, difficulty: u32) -> (r: bool)
        ensures
            r == is_solution(data@, nonce, difficulty),
    {
        let h = ProofOfFractal::candidate_hash(data, nonce);
        ProofOfFractal::hash_meets_target(&h, difficulty)
    }

    /// The digest of `data` followed by the little-endian `nonce`.
    fn candidate_hash(data: &[u8], nonce: u64) -> (r: [u8; 32])
        ensures
            r@ == solution_hash(data@, nonce),
    {
        let mut buf: Vec<u8> = Vec::new();
        push_bytes(&mut buf, data);
        push_u64_le(&mut buf, nonce);
        sha256(buf.as_slice())
    }

    /// Tests one candidate nonce; on success stores it and its digest.
    pub fn try_nonce(&mut self, data: &[u8], candidate: u64) -> (r: bool)
        ensures
            r == is_solution(data@, candidate, old(self).difficulty),
            r ==> final(self).nonce == candidate && final(self).hash@ == solution_hash(data@, candidate),
            !r ==> final(self).nonce == old(self).nonce && final(self).hash == old(self).hash,
            final(self).difficulty == old(self).difficulty,
            final(self).target == old(self).target,
    {
        let h = ProofOfFractal::candidate_hash(data, candidate);
        if ProofOfFractal::hash_meets_target(&h, self.difficulty) {
            self.nonce = candidate;
            self.hash = h;
            true
        } else {
            false
        }
    }

    /// The search timeout for the current difficulty, in seconds.
    pub fn timeout_secs(&self) -> (r: u64)
        ensures
            r == timeout_of(self.difficulty),
    {
        let d = self.difficulty as u64;
        assert(d * d <= 0xffff_ffffu64 * 0xffff_ffffu64) by (nonlinear_arith)
            requires d <= 0xffff_ffffu64;
        let sq = d * d;
        if sq < 30 {
            30
        } else if sq > 300 {
            300
        } else {
            sq
        }
    }

    /// Whether a search that has run for `elapsed` nanoseconds is past the timeout.
    pub fn timed_out(&self, elapsed: u128) -> (r: bool)
        ensures
            r == (elapsed > timeout_of(self.difficulty) as int * 1_000_000_000),
    {
        elapsed > self.timeout_secs() as u128 * 1_000_000_000u128
    }

    /// Draws nonces from `rng` until one solves the puzzle for `data` or the timeout
    /// passes (the search also gives up after `u64::MAX` draws). On success the nonce
    /// and its digest are stored; on failure nothing changes.
    pub fn solve_puzzle<R: NonceSource>(&mut self, data: &[u8], rng: &mut R) -> (r: bool)
        ensures
            r ==> final(self).is_solved(data@) && final(self).hash@ == solution_hash(
                data@,
                final(self).nonce,
            ),
            !r ==> final(self).nonce == old(self).nonce && final(self).hash == old(self).hash,
            final(self).difficulty == old(self).difficulty,
            final(self).target == old(self).target,
    {
        let start = clock_now();
        let mut attempts: u64 = 0;
        while attempts < u64::MAX
            invariant
                self.nonce == old(self).nonce,
                self.hash == old(self).hash,
                self.difficulty == old(self).difficulty,
                self.target == old(self).target,
            decreases u64::MAX - attempts,
        {
            if self.timed_out(elapsed_nanos(&start)) {
                return false;
            }
            let candidate = rng.next_nonce();
            if self.try_nonce(data, candidate) {
                return true;
            }
            attempts = attempts + 1;
        }
        false
    }

    /// Whether the stored nonce solves the puzzle for `data` at the current difficulty.
    pub fn verify_solution(&self, data: &[u8]) -> (r: bool)
        ensures
            r == self.is_solved(data@),
    {
        ProofOfFractal::check_solution(data, self.nonce, self.difficulty)
    }

    /// Forgets the last solution; the difficulty stays.
    pub fn reset(&mut self)
        ensures
            final(self).nonce == 0,
            final(self).hash@ == zero_digest(),
            final(self).difficulty == old(self).difficulty,
            final(self).target == old(self).target,
    {
        self.nonce = 0;
        self.hash = zero32();
    }

    /// The stored digest in lower-case hexadecimal.
    pub fn hash_hex(&self) -> (r: String)
        ensures
            r@ == hex_of(self.hash@),
    {
        hex_encode(self.hash.as_slice())
    }
}

impl ProofOfFractal {
    /// The state in words: "PoF(nonce: N, difficulty: D, hash: H)" with the numbers in
    /// decimal and the hash in hexadecimal.
    pub fn describe(&self) -> (r: String)
        ensures
            r@ == "PoF(nonce: "@ + decimal_of(self.nonce as nat) + ", difficulty: "@ + decimal_of(
                self.difficulty as nat,
            ) + ", hash: "@ + hex_of(self.hash@) + ")"@,
    {
        let mut s = "PoF(nonce: ".to_owned();
        append_str(&mut s, render_u64(self.nonce).as_str());
        append_str(&mut s, ", difficulty: ");
        append_str(&mut s, render_u64(self.difficulty as u64).as_str());
        append_str(&mut s, ", hash: ");
        append_str(&mut s, self.hash_hex().as_str());
        append_str(&mut s, ")");
        s
    }
}

/// The bit length of `n` is 64 less its leading zeros.
proof fn lemma_bit_length_leading_zeros(n: u64)
    ensures
        bit_length(n as nat) == 64 - u64_leading_zeros(n),
        bit_length(n as nat) <= 64,
    decreases n,
{
    reveal(u64_leading_zeros);
    vstd::std_specs::bits::axiom_u64_leading_zeros(n);
    if n != 0 {
        lemma_bit_length_leading_zeros(n / 2);
    }
}

/// Bit length never decreases as the number grows.
proof fn lemma_bit_length_monotone(a: nat, b: nat)
    requires
        a <= b,
    ensures
        bit_length(a) <= bit_length(b),
    decreases b,
{
    if a != 0 {
        lemma_bit_length_monotone(a / 2, b / 2);
    }
}

/// Calibration is monotone in the triad count and never exceeds the highest
/// difficulty.
pub proof fn lemma_difficulty_monotone(a: u64, b: u64)
    requires
        a <= b,
    ensures
        difficulty_for(a) <= difficulty_for(b),
        difficulty_for(b) <= MAX_DIFFICULTY,
{
    lemma_bit_length_monotone(a as nat, b as nat);
}

/// At difficulty zero the pattern is empty, so every nonce solves the puzzle.
pub proof fn lemma_zero_difficulty_always_solved(data: Seq<u8>, nonce: u64)
    ensures
        is_solution(data, nonce, 0),
{
}

/// A successful search leaves a solution that a later check accepts, and that
/// anyone can check again from the payload, the stored nonce and the difficulty.
pub proof fn lemma_solution_replayable(before: ProofOfFractal, after: ProofOfFractal, data: Seq<u8>)
    requires
        after.is_solved(data),
        after.difficulty == before.difficulty,
    ensures
        is_solution(data, after.nonce, before.difficulty),
        after.is_solved(data) == is_solution(data, after.nonce, after.difficulty),
{
}

} // verus!
