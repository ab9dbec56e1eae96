use rand::rngs::StdRng;
use rand::SeedableRng;
use seirchain::proof_of_fractal::{NonceSource, ProofOfFractal};

struct Counter {
    next: u64,
    draws: u64,
}

impl NonceSource for Counter {
    fn next_nonce(&mut self) -> u64 {
        let n = self.next;
        self.next += 1;
        self.draws += 1;
        n
    }
}

#[test]
fn test_new_proof_of_fractal() {
    let pof = ProofOfFractal::new(4);
    assert_eq!(pof.difficulty, 4);
}

#[test]
fn test_adjust_difficulty() {
    let mut pof = ProofOfFractal::new(4);
    pof.adjust_difficulty(1000);
    let difficulty = pof.difficulty;
    assert!(difficulty > 4);
}

#[test]
fn test_solve_and_verify() {
    let mut pof = ProofOfFractal::new(2);
    let data = b"test data";
    let mut rng = StdRng::seed_from_u64(7);
    assert!(pof.solve_puzzle(data, &mut rng));
    assert!(pof.verify_solution(data));
}

#[test]
fn test_reset() {
    let mut pof = ProofOfFractal::new(4);
    pof.try_nonce(b"test", 7);
    pof.reset();
    assert_eq!(pof.nonce, 0);
    assert_eq!(pof.hash, [0u8; 32]);
}

#[test]
fn test_hash_meets_target_valid() {
    let mut hash = [0u8; 32];
    hash[0..2].copy_from_slice(&[1, 2]);
    hash[2..4].copy_from_slice(&[1, 2]);
    assert!(ProofOfFractal::hash_meets_target(&hash, 2));
}

#[test]
fn test_hash_meets_target_invalid() {
    let mut hash = [0u8; 32];
    hash[0..2].copy_from_slice(&[1, 2]);
    hash[2..4].copy_from_slice(&[3, 4]);
    assert!(!ProofOfFractal::hash_meets_target(&hash, 2));
}

#[test]
fn calibration_values() {
    let mut pof = ProofOfFractal::new(4);
    pof.adjust_difficulty(0);
    assert_eq!(pof.difficulty, 4);
    pof.adjust_difficulty(1);
    assert_eq!(pof.difficulty, 5);
    pof.adjust_difficulty(1000);
    assert_eq!(pof.difficulty, 14);
    pof.adjust_difficulty(u64::MAX);
    assert_eq!(pof.difficulty, 32);
}

#[test]
fn calibration_is_monotone_and_capped() {
    let mut pof = ProofOfFractal::new(0);
    let mut last = 0;
    for count in [0u64, 1, 2, 3, 7, 8, 1000, 1 << 20, 1 << 27, 1 << 28, 1 << 40, u64::MAX] {
        pof.adjust_difficulty(count);
        assert!(pof.difficulty >= last);
        assert!(pof.difficulty <= 32);
        last = pof.difficulty;
    }
}

#[test]
fn target_has_difficulty_leading_zero_bits() {
    let pof = ProofOfFractal::new(12);
    assert_eq!(pof.target[0], 0x00);
    assert_eq!(pof.target[1], 0x0f);
    assert_eq!(pof.target[2], 0xff);
    let pof = ProofOfFractal::new(32);
    assert_eq!(&pof.target[0..4], &[0, 0, 0, 0]);
    assert_eq!(pof.target[4], 0xff);
}

#[test]
fn pattern_at_last_aligned_chunk_counts() {
    let mut hash = [0u8; 32];
    hash[0] = 9;
    hash[31] = 9;
    assert!(ProofOfFractal::hash_meets_target(&hash, 1));
    let mut hash = [7u8; 32];
    hash[0] = 1;
    assert!(!ProofOfFractal::hash_meets_target(&hash, 1));
    assert!(ProofOfFractal::hash_meets_target(&hash, 0));
}

#[test]
fn pattern_length_is_capped_at_eight() {
    let mut hash = [0u8; 32];
    for i in 0..8 {
        hash[i] = i as u8 + 1;
        hash[24 + i] = i as u8 + 1;
    }
    assert!(ProofOfFractal::hash_meets_target(&hash, 20));
    hash[31] = 0;
    assert!(!ProofOfFractal::hash_meets_target(&hash, 20));
}

#[test]
fn low_difficulty_search_is_deterministic_and_short() {
    let mut pof = ProofOfFractal::new(1);
    let mut counter = Counter { next: 0, draws: 0 };
    assert!(pof.solve_puzzle(b"test data", &mut counter));
    assert_eq!(pof.nonce, 7);
    assert_eq!(counter.draws, 8);
    assert!(pof.verify_solution(b"test data"));
    let mut again = ProofOfFractal::new(1);
    let mut counter = Counter { next: 0, draws: 0 };
    assert!(again.solve_puzzle(b"test data", &mut counter));
    assert_eq!(again.nonce, pof.nonce);
    assert_eq!(again.hash, pof.hash);
}

#[test]
fn seeded_search_is_reproducible() {
    let mut a = ProofOfFractal::new(1);
    let mut b = ProofOfFractal::new(1);
    assert!(a.solve_puzzle(b"payload", &mut StdRng::seed_from_u64(42)));
    assert!(b.solve_puzzle(b"payload", &mut StdRng::seed_from_u64(42)));
    assert_eq!(a.nonce, b.nonce);
    assert!(ProofOfFractal::check_solution(b"payload", a.nonce, 1));
}

#[test]
fn solution_replays_from_data_nonce_and_difficulty() {
    let mut pof = ProofOfFractal::new(2);
    assert!(pof.solve_puzzle(b"test data", &mut StdRng::seed_from_u64(3)));
    assert!(pof.verify_solution(b"test data"));
    assert!(pof.verify_solution(b"test data"));
    assert!(ProofOfFractal::check_solution(b"test data", pof.nonce, pof.difficulty));
    assert!(ProofOfFractal::check_solution(b"test data", 3629, 2));
    assert!(!ProofOfFractal::check_solution(b"test data", 3628, 2));
}

#[test]
fn failed_candidate_leaves_state() {
    let mut pof = ProofOfFractal::new(1);
    assert!(!pof.try_nonce(b"test data", 6));
    assert_eq!(pof.nonce, 0);
    assert_eq!(pof.hash, [0u8; 32]);
    assert!(pof.try_nonce(b"test data", 7));
    assert_eq!(pof.nonce, 7);
    assert_ne!(pof.hash, [0u8; 32]);
}

#[test]
fn hash_hex_encodes_stored_digest() {
    let mut pof = ProofOfFractal::new(0);
    assert_eq!(pof.hash_hex(), "0".repeat(64));
    assert!(pof.try_nonce(b"abc", 0));
    let hex_form = pof.hash_hex();
    assert_eq!(hex_form, hex::encode(pof.hash));
    assert_ne!(hex_form, "0".repeat(64));
}

#[test]
fn timeout_is_difficulty_squared_within_bounds() {
    assert_eq!(ProofOfFractal::new(1).timeout_secs(), 30);
    assert_eq!(ProofOfFractal::new(6).timeout_secs(), 36);
    assert_eq!(ProofOfFractal::new(14).timeout_secs(), 196);
    assert_eq!(ProofOfFractal::new(32).timeout_secs(), 300);
}

#[test]
fn describe_renders_nonce_difficulty_and_hash() {
    let mut pof = ProofOfFractal::new(1);
    assert_eq!(pof.describe(), format!("PoF(nonce: 0, difficulty: 1, hash: {})", "0".repeat(64)));
    assert!(pof.try_nonce(b"test data", 7));
    assert_eq!(
        pof.describe(),
        format!("PoF(nonce: 7, difficulty: 1, hash: {})", hex::encode(pof.hash))
    );
}
