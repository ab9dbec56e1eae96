//! A fractal (ternary-tree) ledger consensus engine: the Triad block tree with its
//! Merkle root, the adaptive Proof-of-Fractal puzzle, the hashed-identity security
//! layer and hierarchical recursive consensus, with the token, ledger, explorer,
//! wallet, routing and contract-state components built around them.

pub mod digest;
pub mod string_map;
pub mod triad;
pub mod proof_of_fractal;
pub mod redundant_paths;
pub mod hierarchical;
pub mod token;
pub mod history;
pub mod explorer;
pub mod ledger;
pub mod onboarding;
pub mod routing;
pub mod svm;
pub mod wallet;
pub mod create_wallet;
pub mod p2p;
pub mod wallet_store;
