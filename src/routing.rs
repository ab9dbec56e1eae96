//! Multi-path fractal routing: node paths per ternary coordinate, and per-node
//! load used to steer traffic.

use vstd::prelude::*;
use crate::explorer::clone_all;
use crate::string_map::StringMap;

verus! {

/// Nodes whose load reaches this value are passed over when routing.
pub const LOAD_THRESHOLD: u32 = 100;

/// Whether a node may take traffic: its load is unknown or below the threshold.
pub open spec fn is_available(loads: Map<Seq<char>, u32>, node: Seq<char>) -> bool {
    !loads.contains_key(node) || loads[node] < LOAD_THRESHOLD
}

/// The nodes of `nodes` that may take traffic, in order.
pub open spec fn available_nodes(nodes: Seq<String>, loads: Map<Seq<char>, u32>) -> Seq<String>
    decreases nodes.len(),
{
    if nodes.len() == 0 {
        Seq::empty()
    } else if is_available(loads, nodes.last()@) {
        available_nodes(nodes.drop_last(), loads).push(nodes.last())
    } else {
        available_nodes(nodes.drop_last(), loads)
    }
}

/// A load moved by `delta` and kept within the range of `u32`.
pub open spec fn shifted_load(current: u32, delta: i32) -> u32 {
    let v = current as int + delta as int;
    if v < 0 {
        0
    } else if v > u32::MAX {
        u32::MAX
    } else {
        v as u32
    }
}

/// The routing table and the load of each node.
pub struct MultiPathFractalRouting {
    /// Node paths per coordinate.
    pub routing_table: StringMap<Vec<String>>,
    /// Load per node.
    pub load_metrics: StringMap<u32>,
}

impl MultiPathFractalRouting {
    /// Both maps are well formed.
    pub open spec fn wf(&self) -> bool {
        self.routing_table.wf() && self.load_metrics.wf()
    }

    /// No routes and no loads.
    pub fn new() -> (r: Self)
        ensures
            r.wf(),
            r.routing_table.view() == Map::<Seq<char>, Vec<String>>::empty(),
            r.load_metrics.view() == Map::<Seq<char>, u32>::empty(),
    {
        MultiPathFractalRouting { routing_table: StringMap::new(), load_metrics: StringMap::new() }
    }

    /// The nodes to route a transaction at `coordinate` through: those that may take
    /// traffic, or all of the coordinate's nodes when none may; `None` for an unknown
    /// coordinate.
    pub fn route_transaction(&self, coordinate: &str) -> (r: Option<Vec<String>>)
        requires
            self.wf(),
        ensures
            !self.routing_table.view().contains_key(coordinate@) ==> r is None,
            self.routing_table.view().contains_key(coordinate@) ==> {
                let nodes = self.routing_table.view()[coordinate@]@;
                let avail = available_nodes(nodes, self.load_metrics.view());
                &&& r is Some
                &&& avail.len() > 0 ==> r->Some_0@ == avail
                &&& avail.len() == 0 ==> r->Some_0@ == nodes
            },
    {
        match self.routing_table.get(coordinate) {
            None => None,
            Some(nodes) => {
                let mut filtered: Vec<String> = Vec::new();
                let mut i: usize = 0;
                while i < nodes.len()
                    invariant
                        self.wf(),
                        i <= nodes@.len(),
                        filtered@ == available_nodes(nodes@.subrange(0, i as int), self.load_metrics.view()),
                    decreases nodes@.len() - i,
                {
                    let node = &nodes[i];
                    let keep = match self.load_metrics.get(node.as_str()) {
                        Some(load) => *load < LOAD_THRESHOLD,
                        None => true,
                    };
                    assert(nodes@.subrange(0, i + 1).drop_last() =~= nodes@.subrange(0, i as int));
                    if keep {
                        filtered.push(node.clone());
                    }
                    i = i + 1;
                }
                assert(nodes@.subrange(0, i as int) =~= nodes@);
                if filtered.len() > 0 {
                    Some(filtered)
                } else {
                    Some(clone_all(nodes))
                }
            },
        }
    }

    /// Sets the nodes that serve `coordinate`.
    pub fn insert_route(&mut self, coordinate: String, nodes: Vec<String>)
        requires
            old(self).wf(),
        ensures
            final(self).wf(),
            final(self).routing_table.view() == old(self).routing_table.view().insert(coordinate@, nodes),
            final(self).load_metrics == old(self).load_metrics,
    {
        self.routing_table.insert(coordinate, nodes);
    }

    /// Moves the load of `node_id` by `delta`, within the range of `u32`; a zero
    /// delta changes nothing.
    pub fn update_load(&mut self, node_id: String, delta: i32)
        requires
            old(self).wf(),
        ensures
            final(self).wf(),
            final(self).routing_table == old(self).routing_table,
            delta == 0 ==> final(self).load_metrics == old(self).load_metrics,
            delta != 0 ==> final(self).load_metrics.view() == old(self).load_metrics.view().insert(
                node_id@,
                shifted_load(
                    if old(self).load_metrics.view().contains_key(node_id@) {
                        old(self).load_metrics.view()[node_id@]
                    } else {
                        0
                    },
                    delta,
                ),
            ),
    {
        if delta == 0 {
            return;
        }
        let current: u32 = match self.load_metrics.get(node_id.as_str()) {
            Some(load) => *load,
            None => 0,
        };
        let v: i64 = current as i64 + delta as i64;
        let new_load: u32 = if v < 0 {
            0
        } else if v > u32::MAX as i64 {
            u32::MAX
        } else {
            v as u32
        };
        self.load_metrics.insert(node_id, new_load);
    }

    /// The first node, in order of insertion, with the lowest load; `None` when no
    /// load is known.
    pub fn load_balance(&self) -> (r: Option<String>)
        requires
            self.wf(),
        ensures
            self.load_metrics.entries@.len() == 0 <==> r is None,
            r is Some ==> exists|i: int|
                0 <= i < self.load_metrics.entries@.len() && (#[trigger] self.load_metrics.entries@[i]).0
                    == r->Some_0 && (forall|j: int|
                    0 <= j < self.load_metrics.entries@.len() ==> self.load_metrics.entries@[i].1
                        <= #[trigger] self.load_metrics.entries@[j].1) && (forall|j: int|
                    0 <= j < i ==> self.load_metrics.entries@[i].1 < #[trigger] self.load_metrics.entries@[j].1),
    {
        let entries = &self.load_metrics.entries;
        if entries.len() == 0 {
            return None;
        }
        let mut best: usize = 0;
        let mut i: usize = 1;
        while i < entries.len()
            invariant
                entries@.len() > 0,
                1 <= i <= entries@.len(),
                best < i,
                forall|j: int| 0 <= j < i ==> entries@[best as int].1 <= #[trigger] entries@[j].1,
                forall|j: int| 0 <= j < best ==> entries@[best as int].1 < #[trigger] entries@[j].1,
            decreases entries@.len() - i,
        {
            if entries[i].1 < entries[best].1 {
                best = i;
            }
            i = i + 1;
        }
        let name = entries[best].0.clone();
        assert(entries@[best as int].0 == name);
        Some(name)
    }

    /// Drops the routes of `coordinate`; true if it had any.
    pub fn remove_node(&mut self, coordinate: &str) -> (r: bool)
        requires
            old(self).wf(),
        ensures
            final(self).wf(),
            r == old(self).routing_table.view().contains_key(coordinate@),
            final(self).routing_table.view() == old(self).routing_table.view().remove(coordinate@),
            final(self).load_metrics == old(self).load_metrics,
    {
        self.routing_table.remove(coordinate).is_some()
    }

    /// Drops every route and every load.
    pub fn clear_routing_table(&mut self)
        ensures
            final(self).wf(),
            final(self).routing_table.view() == Map::<Seq<char>, Vec<String>>::empty(),
            final(self).load_metrics.view() == Map::<Seq<char>, u32>::empty(),
    {
        self.routing_table.clear();
        self.load_metrics.clear();
    }

    /// The load of `node_id`, if known.
    pub fn get_load(&self, node_id: &str) -> (r: Option<&u32>)
        requires
            self.wf(),
        ensures
            match r {
                Some(v) => self.load_metrics.view().contains_key(node_id@) && *v == self.load_metrics.view()[node_id@],
                None => !self.load_metrics.view().contains_key(node_id@),
            },
    {
        self.load_metrics.get(node_id)
    }

    /// The coordinates of the routing table, in order of insertion.
    pub fn list_nodes(&self) -> (r: Vec<&String>)
        requires
            self.wf(),
        ensures
            r@.len() == self.routing_table.entries@.len(),
            forall|i: int| 0 <= i < r@.len() ==> *(#[trigger] r@[i]) == self.routing_table.entries@[i].0,
    {
        let mut out: Vec<&String> = Vec::new();
        let mut i: usize = 0;
        while i < self.routing_table.entries.len()
            invariant
                i <= self.routing_table.entries@.len(),
                out@.len() == i,
                forall|k: int| 0 <= k < i ==> *(#[trigger] out@[k]) == self.routing_table.entries@[k].0,
            decreases self.routing_table.entries@.len() - i,
        {
            out.push(&self.routing_table.entries[i].0);
            i = i + 1;
        }
        out
    }
}

} // verus!
