//! Contract state of the SeirChain virtual machine: states per contract,
//! dependencies between contracts, and shard assignment.

use vstd::prelude::*;
use vstd::utf8::encode_utf8;
use crate::explorer::clone_all;
use crate::string_map::StringMap;

verus! {

/// Why a contract execution was refused.
#[derive(Debug, Clone, Copy, PartialEq, Eq, Structural)]
pub enum SvmError {
    /// The contract id is empty.
    EmptyContractId,
}

impl SvmError {
    /// A description of the refusal.
    pub fn message(&self) -> String {
        match self {
            SvmError::EmptyContractId => "Contract ID cannot be empty".to_string(),
        }
    }
}

/// One step of the shard hash: the hash times 33 plus the byte, wrapping.
pub open spec fn shard_hash_step(h: u64, b: u8) -> u64 {
    ((h * 33 + b) % 0x1_0000_0000_0000_0000) as u64
}

/// The shard hash of a byte string.
pub open spec fn shard_hash(bytes: Seq<u8>) -> u64
    decreases bytes.len(),
{
    if bytes.len() == 0 {
        0
    } else {
        shard_hash_step(shard_hash(bytes.drop_last()), bytes.last())
    }
}

/// Whether every one of `deps` has a state in `states`.
pub open spec fn all_present(deps: Seq<String>, states: Map<Seq<char>, Vec<u8>>) -> bool {
    forall|i: int| 0 <= i < deps.len() ==> states.contains_key((#[trigger] deps[i])@)
}

/// `deps` followed by those of `extra` that are not yet among them, each once.
pub open spec fn merge_deps(deps: Seq<String>, extra: Seq<String>) -> Seq<String>
    decreases extra.len(),
{
    if extra.len() == 0 {
        deps
    } else {
        let m = merge_deps(deps, extra.drop_last());
        if exists|i: int| 0 <= i < m.len() && (#[trigger] m[i])@ == extra.last()@ {
            m
        } else {
            m.push(extra.last())
        }
    }
}

/// A copy of a byte vector.
fn copy_bytes(v: &[u8]) -> (r: Vec<u8>)
    ensures
        r@ == v@,
{
    let mut out: Vec<u8> = Vec::new();
    let mut i: usize = 0;
    while i < v.len()
        invariant
            i <= v@.len(),
            out@ == v@.subrange(0, i as int),
        decreases v@.len() - i,
    {
        out.push(v[i]);
        assert(v@.subrange(0, i + 1) =~= v@.subrange(0, i as int).push(v@[i as int]));
        i = i + 1;
    }
    assert(v@.subrange(0, i as int) =~= v@);
    out
}

/// Whether `names` holds `name`.
fn holds_name(names: &Vec<String>, name: &String) -> (r: bool)
    ensures
        r == exists|i: int| 0 <= i < names@.len() && (#[trigger] names@[i])@ == name@,
{
    let mut i: usize = 0;
    while i < names.len()
        invariant
            i <= names@.len(),
            forall|j: int| 0 <= j < i ==> (#[trigger] names@[j])@ != name@,
        decreases names@.len() - i,
    {
        if names[i] == *name {
            return true;
        }
        i = i + 1;
    }
    false
}

/// Contract states, queued executions, dependencies and the shard count.
pub struct SvmExecutor {
    /// State bytes per contract id.
    pub contract_states: StringMap<Vec<u8>>,
    /// Queued executions: contract id and input.
    pub execution_queue: Vec<(String, Vec<u8>)>,
    /// The contracts each contract waits for.
    pub dependencies: StringMap<Vec<String>>,
    /// The number of shards.
    pub num_shards: usize,
}

impl SvmExecutor {
    /// Both maps are well formed.
    pub open spec fn wf(&self) -> bool {
        self.contract_states.wf() && self.dependencies.wf()
    }

    /// An executor with no contracts over `num_shards` shards.
    pub fn new(num_shards: usize) -> (r: Self)
        ensures
            r.wf(),
            r.contract_states.view() == Map::<Seq<char>, Vec<u8>>::empty(),
            r.dependencies.view() == Map::<Seq<char>, Vec<String>>::empty(),
            r.execution_queue@.len() == 0,
            r.num_shards == num_shards,
    {
        SvmExecutor {
            contract_states: StringMap::new(),
            execution_queue: Vec::new(),
            dependencies: StringMap::new(),
            num_shards,
        }
    }

    /// The shard of a contract: its id's shard hash modulo the shard count.
    pub fn get_shard_id(&self, contract_id: &str) -> (r: usize)
        requires
            self.num_shards > 0,
        ensures
            r as int == shard_hash(encode_utf8(contract_id@)) as int % self.num_shards as int,
    {
        let bytes = contract_id.as_bytes();
        let mut hash: u64 = 0;
        let mut i: usize = 0;
        while i < bytes.len()
            invariant
                i <= bytes@.len(),
                hash == shard_hash(bytes@.subrange(0, i as int)),
            decreases bytes@.len() - i,
        {
            assert(bytes@.subrange(0, i + 1).drop_last() =~= bytes@.subrange(0, i as int));
            hash = hash.wrapping_mul(33).wrapping_add(bytes[i] as u64);
            i = i + 1;
        }
        assert(bytes@.subrange(0, i as int) =~= bytes@);
        (hash % self.num_shards as u64) as usize
    }
}

impl SvmExecutor {
    /// The dependencies registered for `contract_id`, empty when none are.
    pub open spec fn deps_of(&self, contract_id: Seq<char>) -> Seq<String> {
        if self.dependencies.view().contains_key(contract_id) {
            self.dependencies.view()[contract_id]@
        } else {
            Seq::empty()
        }
    }

    /// Starts an execution of `contract_id`: adds `deps` to the contracts it waits
    /// for and returns its shard. Refused for an empty id.
    pub fn begin_execution(&mut self, contract_id: &str, deps: Vec<String>) -> (r: Result<usize, SvmError>)
        requires
            old(self).wf(),
            old(self).num_shards > 0,
        ensures
            final(self).wf(),
            contract_id@.len() == 0 <==> r is Err,
            r is Err ==> r == Err::<usize, SvmError>(SvmError::EmptyContractId) && final(self).dependencies
                == old(self).dependencies,
            r is Ok ==> r->Ok_0 as int == shard_hash(encode_utf8(contract_id@)) as int % old(self).num_shards as int,
            r is Ok ==> final(self).dependencies.view() == old(self).dependencies.view().insert(
                contract_id@,
                final(self).dependencies.view()[contract_id@],
            ) && final(self).dependencies.view()[contract_id@]@ == merge_deps(old(self).deps_of(contract_id@), deps@),
            final(self).contract_states == old(self).contract_states,
            final(self).execution_queue == old(self).execution_queue,
            final(self).num_shards == old(self).num_shards,
    {
        if contract_id.is_empty() {
            return Err(SvmError::EmptyContractId);
        }
        let shard = self.get_shard_id(contract_id);
        let mut entry: Vec<String> = match self.dependencies.get(contract_id) {
            Some(existing) => clone_all(existing),
            None => Vec::new(),
        };
        let ghost base = entry@;
        let mut i: usize = 0;
        while i < deps.len()
            invariant
                i <= deps@.len(),
                entry@ == merge_deps(base, deps@.subrange(0, i as int)),
            decreases deps@.len() - i,
        {
            let dep = &deps[i];
            assert(deps@.subrange(0, i + 1).drop_last() =~= deps@.subrange(0, i as int));
            if !holds_name(&entry, dep) {
                entry.push(dep.clone());
            }
            i = i + 1;
        }
        assert(deps@.subrange(0, i as int) =~= deps@);
        self.dependencies.insert(contract_id.to_owned(), entry);
        Ok(shard)
    }

    /// True iff every contract that `contract_id` waits for has a state.
    pub fn dependencies_met(&self, contract_id: &str) -> (r: bool)
        requires
            self.wf(),
        ensures
            r == all_present(self.deps_of(contract_id@), self.contract_states.view()),
    {
        match self.dependencies.get(contract_id) {
            None => true,
            Some(deps) => {
                let mut i: usize = 0;
                while i < deps.len()
                    invariant
                        self.wf(),
                        deps@ == self.deps_of(contract_id@),
                        i <= deps@.len(),
                        forall|j: int| 0 <= j < i ==> self.contract_states.view().contains_key((#[trigger] deps@[j])@),
                    decreases deps@.len() - i,
                {
                    if !self.contract_states.contains_key(deps[i].as_str()) {
                        assert(!self.contract_states.view().contains_key(deps@[i as int]@));
                        return false;
                    }
                    i = i + 1;
                }
                true
            },
        }
    }

    /// Finishes an execution: the input becomes the contract's state and is returned.
    pub fn complete_execution(&mut self, contract_id: &str, input: &[u8]) -> (r: Vec<u8>)
        requires
            old(self).wf(),
        ensures
            final(self).wf(),
            r@ == input@,
            final(self).contract_states.view() == old(self).contract_states.view().insert(
                contract_id@,
                final(self).contract_states.view()[contract_id@],
            ),
            final(self).contract_states.view()[contract_id@]@ == input@,
            final(self).dependencies == old(self).dependencies,
            final(self).execution_queue == old(self).execution_queue,
            final(self).num_shards == old(self).num_shards,
    {
        let state = copy_bytes(input);
        self.contract_states.insert(contract_id.to_owned(), state);
        copy_bytes(input)
    }

    /// A copy of the state of `contract_id`, if it has one.
    pub fn get_contract_state(&self, contract_id: &str) -> (r: Option<Vec<u8>>)
        requires
            self.wf(),
        ensures
            match r {
                Some(v) => self.contract_states.view().contains_key(contract_id@)
                    && v@ == self.contract_states.view()[contract_id@]@,
                None => !self.contract_states.view().contains_key(contract_id@),
            },
    {
        match self.contract_states.get(contract_id) {
            Some(v) => Some(copy_bytes(v.as_slice())),
            None => None,
        }
    }

    /// Drops the state of `contract_id`; true if it had one.
    pub fn remove_contract_state(&mut self, contract_id: &str) -> (r: bool)
        requires
            old(self).wf(),
        ensures
            final(self).wf(),
            r == old(self).contract_states.view().contains_key(contract_id@),
            final(self).contract_states.view() == old(self).contract_states.view().remove(contract_id@),
            final(self).dependencies == old(self).dependencies,
            final(self).execution_queue == old(self).execution_queue,
            final(self).num_shards == old(self).num_shards,
    {
        self.contract_states.remove(contract_id).is_some()
    }

    /// Drops every state, queued execution and dependency.
    pub fn clear_contract_states(&mut self)
        ensures
            final(self).wf(),
            final(self).contract_states.view() == Map::<Seq<char>, Vec<u8>>::empty(),
            final(self).dependencies.view() == Map::<Seq<char>, Vec<String>>::empty(),
            final(self).execution_queue@.len() == 0,
            final(self).num_shards == old(self).num_shards,
    {
        self.contract_states.clear();
        self.execution_queue.clear();
        self.dependencies.clear();
    }

    /// Whether `contract_id` has a state.
    pub fn contract_exists(&self, contract_id: &str) -> (r: bool)
        requires
            self.wf(),
        ensures
            r == self.contract_states.view().contains_key(contract_id@),
    {
        self.contract_states.contains_key(contract_id)
    }
}

} // verus!
