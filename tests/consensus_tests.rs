use rand::rngs::StdRng;
use rand::SeedableRng;
use seirchain::hierarchical::{HierarchicalRecursiveConsensus, Vote, VoteSource};
use seirchain::proof_of_fractal::NonceSource;

fn names(n: usize) -> Vec<String> {
    (1..=n).map(|i| format!("node{}", i)).collect()
}

fn lower_difficulty(hrc: &mut HierarchicalRecursiveConsensus, difficulty: u32) {
    hrc.proof.difficulty = difficulty;
    for child in hrc.children.iter_mut() {
        lower_difficulty(child, difficulty);
    }
}

/// Counts nonces up from zero and lets every node listed in `faulty` vote fault.
struct Scripted {
    next: u64,
    faulty: Vec<String>,
}

impl NonceSource for Scripted {
    fn next_nonce(&mut self) -> u64 {
        self.next += 1;
        self.next - 1
    }
}

impl VoteSource for Scripted {
    fn draw_vote(&mut self, node: &String) -> Vote {
        if self.faulty.contains(node) {
            Vote::Fault
        } else {
            Vote::Accept
        }
    }
}

#[test]
fn test_hierarchical_recursive_consensus() {
    let nodes = names(12);
    let mut hrc = HierarchicalRecursiveConsensus::new(nodes, 1, 4, 1);
    lower_difficulty(&mut hrc, 1);
    let mut rng = StdRng::seed_from_u64(1);
    assert!(hrc.run_consensus(&mut rng));
}

#[test]
fn test_leaf_consensus() {
    let nodes = names(4);
    let mut hrc = HierarchicalRecursiveConsensus::new(nodes, 1, 4, 0);
    lower_difficulty(&mut hrc, 1);
    let mut rng = StdRng::seed_from_u64(1);
    assert!(hrc.run_consensus(&mut rng));
    assert!(hrc.validate_subfractal());
}

#[test]
fn construction_calibrates_every_puzzle() {
    let hrc = HierarchicalRecursiveConsensus::new(names(12), 1, 4, 1);
    assert_eq!(hrc.proof.difficulty, 14);
    assert!(hrc.children.iter().all(|c| c.proof.difficulty == 14));
    assert!(!hrc.security.validate_paths());
    assert!(hrc.state.is_empty());
}

#[test]
fn twelve_nodes_split_into_three_leaves_of_four() {
    let hrc = HierarchicalRecursiveConsensus::new(names(12), 1, 4, 1);
    assert_eq!(hrc.children.len(), 3);
    for (i, child) in hrc.children.iter().enumerate() {
        assert_eq!(child.nodes, names(12)[i * 4..i * 4 + 4].to_vec());
        assert!(child.children.is_empty());
        assert_eq!(child.fault_tolerance, 1);
    }
}

#[test]
fn uneven_groups_take_a_third_rounded_down() {
    let hrc = HierarchicalRecursiveConsensus::new(names(10), 1, 4, 1);
    let groups: Vec<Vec<String>> = hrc.children.iter().map(|c| c.nodes.clone()).collect();
    assert_eq!(groups, vec![names(10)[0..3].to_vec(), names(10)[3..6].to_vec(), names(10)[6..9].to_vec()]);
    let hrc = HierarchicalRecursiveConsensus::new(names(13), 1, 4, 1);
    let sizes: Vec<usize> = hrc.children.iter().map(|c| c.nodes.len()).collect();
    assert_eq!(sizes, vec![4, 4, 4]);
    let hrc = HierarchicalRecursiveConsensus::new(names(2), 0, 4, 1);
    assert!(hrc.children.is_empty());
    let hrc = HierarchicalRecursiveConsensus::new(Vec::new(), 0, 4, 2);
    assert!(hrc.children.is_empty());
}

#[test]
fn two_levels_split_each_group_again() {
    let hrc = HierarchicalRecursiveConsensus::new(names(9), 0, 4, 2);
    assert_eq!(hrc.children.len(), 3);
    for child in &hrc.children {
        assert_eq!(child.children.len(), 3);
        assert!(child.children.iter().all(|g| g.nodes.len() == 1 && g.children.is_empty()));
    }
}

#[test]
fn timeout_is_checked_against_difficulty_squared() {
    let mut hrc = HierarchicalRecursiveConsensus::new(names(4), 1, 4, 0);
    hrc.proof.difficulty = 32;
    assert!(hrc.proof.timed_out(300_000_000_001));
    assert!(!hrc.proof.timed_out(300_000_000_000));
    assert!(hrc.state.is_empty());
}

#[test]
fn one_faulty_leaf_vetoes_the_tree() {
    let mut hrc = HierarchicalRecursiveConsensus::new(names(12), 1, 4, 1);
    lower_difficulty(&mut hrc, 1);
    let mut source = Scripted { next: 0, faulty: names(4) };
    assert!(!hrc.run_consensus(&mut source));
    let mut hrc = HierarchicalRecursiveConsensus::new(names(12), 1, 4, 1);
    lower_difficulty(&mut hrc, 1);
    let mut source = Scripted { next: 0, faulty: Vec::new() };
    assert!(hrc.run_consensus(&mut source));
}

#[test]
fn scripted_leaf_with_one_fault_reaches_quorum() {
    let mut hrc = HierarchicalRecursiveConsensus::new(names(4), 1, 4, 0);
    lower_difficulty(&mut hrc, 1);
    let mut source = Scripted { next: 0, faulty: vec!["node2".to_string()] };
    assert!(hrc.run_consensus(&mut source));
    assert_eq!(hrc.state.len(), 4);
    assert!(hrc.state.iter().any(|(n, v)| n == "node2" && *v == Vote::Fault));
}

#[test]
fn recorded_round_decides_on_faults_and_quorum() {
    let mut hrc = HierarchicalRecursiveConsensus::new(names(4), 1, 4, 0);
    lower_difficulty(&mut hrc, 1);
    assert!(hrc.proof.try_nonce(b"block_data", 0));
    assert!(hrc.record_round(&vec![Vote::Accept, Vote::Accept, Vote::Fault, Vote::Accept]));
    assert!(!hrc.record_round(&vec![Vote::Fault, Vote::Fault, Vote::Accept, Vote::Accept]));
    assert!(!hrc.record_round(&vec![Vote::Fault, Vote::Fault, Vote::Fault, Vote::Fault]));
    assert!(!hrc.security.validate_paths());
}

#[test]
fn undersized_group_fails_validation() {
    let mut hrc = HierarchicalRecursiveConsensus::new(names(3), 1, 4, 0);
    lower_difficulty(&mut hrc, 1);
    assert!(hrc.proof.try_nonce(b"block_data", 0));
    assert!(!hrc.validate_subfractal());
    assert!(!hrc.record_round(&vec![Vote::Accept, Vote::Accept, Vote::Accept]));
    let mut hrc = HierarchicalRecursiveConsensus::new(names(1), 0, 4, 0);
    lower_difficulty(&mut hrc, 1);
    assert!(hrc.proof.try_nonce(b"block_data", 0));
    assert!(hrc.validate_subfractal());
}
