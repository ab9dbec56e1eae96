//! What peers report about themselves.

use vstd::prelude::*;

verus! {

/// A peer's status: its id, chain height and accumulated difficulty.
#[derive(Debug)]
pub struct NodeStatus {
    pub node_id: String,
    pub block_height: u64,
    pub total_difficulty: u64,
}

impl Clone for NodeStatus {
    fn clone(&self) -> (r: Self)
        ensures
            r == *self,
    {
        NodeStatus {
            node_id: self.node_id.clone(),
            block_height: self.block_height,
            total_difficulty: self.total_difficulty,
        }
    }
}

} // verus!
