//! Hashed-identity membership sets: active validation paths and promoted nodes.
//! Only the SHA-256 digests of identifiers are kept.

use vstd::prelude::*;
use vstd::utf8::encode_utf8;
use crate::digest::{sha256, sha256_of, hex_of, hex_encode};

verus! {

/// The digest under which an identifier is stored.
pub open spec fn id_digest(id: Seq<char>) -> Seq<u8> {
    sha256_of(encode_utf8(id))
}

/// The digests held in a vector, as a set.
pub open spec fn digest_set(v: Seq<[u8; 32]>) -> Set<Seq<u8>> {
    Set::new(|s: Seq<u8>| exists|i: int| 0 <= i < v.len() && #[trigger] v[i]@ == s)
}

/// No digest occurs twice.
pub open spec fn unique_digests(v: Seq<[u8; 32]>) -> bool {
    forall|i: int, j: int| 0 <= i < v.len() && 0 <= j < v.len() && i != j ==> #[trigger] v[i]@ != #[trigger] v[j]@
}

/// Whether two digests are equal, byte by byte.
fn digest_eq(a: &[u8; 32], b: &[u8; 32]) -> (r: bool)
    ensures
        r == (a@ == b@),
{
    let mut i: usize = 0;
    while i < 32
        invariant
            i <= 32,
            forall|k: int| 0 <= k < i ==> a@[k] == b@[k],
        decreases 32 - i,
    {
        if a[i] != b[i] {
            return false;
        }
        i = i + 1;
    }
    assert(a@ =~= b@);
    true
}

/// The position of `d` in `v`, if it is there.
fn find_digest(v: &Vec<[u8; 32]>, d: &[u8; 32]) -> (r: Option<usize>)
    ensures
        match r {
            Some(i) => i < v@.len() && v@[i as int]@ == d@,
            None => !digest_set(v@).contains(d@),
        },
{
    let mut i: usize = 0;
    while i < v.len()
        invariant
            i <= v@.len(),
            forall|k: int| 0 <= k < i ==> #[trigger] v@[k]@ != d@,
        decreases v@.len() - i,
    {
        if digest_eq(&v[i], d) {
            return Some(i);
        }
        i = i + 1;
    }
    None
}

/// Adds `d` to a duplicate-free vector; true if it was not there.
fn insert_digest(v: &mut Vec<[u8; 32]>, d: [u8; 32]) -> (r: bool)
    requires
        unique_digests(old(v)@),
    ensures
        r == !digest_set(old(v)@).contains(d@),
        digest_set(final(v)@) == digest_set(old(v)@).insert(d@),
        unique_digests(final(v)@),
{
    match find_digest(v, &d) {
        Some(i) => {
            assert(digest_set(v@).contains(d@));
            assert(digest_set(v@) =~= digest_set(v@).insert(d@));
            false
        },
        None => {
            let ghost old_v = v@;
            v.push(d);
            assert(v@[old_v.len() as int]@ == d@);
            assert forall|s: Seq<u8>| #[trigger] digest_set(v@).contains(s) == digest_set(old_v).insert(d@).contains(s) by {
                if digest_set(old_v).contains(s) {
                    let i = choose|i: int| 0 <= i < old_v.len() && #[trigger] old_v[i]@ == s;
                    assert(v@[i]@ == s);
                }
                if digest_set(v@).contains(s) && s != d@ {
                    let i = choose|i: int| 0 <= i < v@.len() && #[trigger] v@[i]@ == s;
                    assert(old_v[i]@ == s);
                }
            }
            assert(digest_set(v@) =~= digest_set(old_v).insert(d@));
            true
        },
    }
}

/// Removes `d` from a duplicate-free vector; true if it was there.
fn remove_digest(v: &mut Vec<[u8; 32]>, d: [u8; 32]) -> (r: bool)
    requires
        unique_digests(old(v)@),
    ensures
        r == digest_set(old(v)@).contains(d@),
        digest_set(final(v)@) == digest_set(old(v)@).remove(d@),
        unique_digests(final(v)@),
{
    match find_digest(v, &d) {
        Some(i) => {
            let ghost old_v = v@;
            v.remove(i);
            assert(v@ =~= old_v.remove(i as int));
            assert(digest_set(old_v).contains(d@));
            assert forall|s: Seq<u8>| #[trigger] digest_set(v@).contains(s) == digest_set(old_v).remove(d@).contains(s) by {
                if digest_set(old_v).contains(s) && s != d@ {
                    let j = choose|j: int| 0 <= j < old_v.len() && #[trigger] old_v[j]@ == s;
                    if j < i {
                        assert(v@[j]@ == s);
                    } else {
                        assert(v@[j - 1]@ == s);
                    }
                }
                if digest_set(v@).contains(s) {
                    let j = choose|j: int| 0 <= j < v@.len() && #[trigger] v@[j]@ == s;
                    if j < i {
                        assert(old_v[j]@ == s);
                    } else {
                        assert(old_v[j + 1]@ == s);
                    }
                }
            }
            assert(digest_set(v@) =~= digest_set(old_v).remove(d@));
            true
        },
        None => {
            assert(digest_set(v@) =~= digest_set(v@).remove(d@));
            false
        },
    }
}

/// The hex form of each digest of `v`, in order.
fn hex_list(v: &Vec<[u8; 32]>) -> (r: Vec<String>)
    ensures
        r@.len() == v@.len(),
        forall|i: int| 0 <= i < v@.len() ==> #[trigger] r@[i]@ == hex_of(v@[i]@),
{
    let mut out: Vec<String> = Vec::new();
    let mut i: usize = 0;
    while i < v.len()
        invariant
            i <= v@.len(),
            out@.len() == i,
            forall|k: int| 0 <= k < i ==> #[trigger] out@[k]@ == hex_of(v@[k]@),
        decreases v@.len() - i,
    {
        out.push(hex_encode(v[i].as_slice()));
        i = i + 1;
    }
    out
}

/// Active path digests and promoted node digests.
pub struct RedundantPathSecurity {
    /// Digests of the active redundant paths, each once.
    pub active_paths: Vec<[u8; 32]>,
    /// Digests of the promoted nodes, each once.
    pub promoted_nodes: Vec<[u8; 32]>,
}

impl RedundantPathSecurity {
    /// Neither list holds a digest twice.
    pub open spec fn wf(&self) -> bool {
        unique_digests(self.active_paths@) && unique_digests(self.promoted_nodes@)
    }

    /// The set of active path digests.
    pub open spec fn paths(&self) -> Set<Seq<u8>> {
        digest_set(self.active_paths@)
    }

    /// The set of promoted node digests.
    pub open spec fn promoted(&self) -> Set<Seq<u8>> {
        digest_set(self.promoted_nodes@)
    }

    /// No paths and no promoted nodes.
    pub fn new() -> (r: Self)
        ensures
            r.wf(),
            r.paths() == Set::<Seq<u8>>::empty(),
            r.promoted() == Set::<Seq<u8>>::empty(),
    {
        let r = RedundantPathSecurity { active_paths: Vec::new(), promoted_nodes: Vec::new() };
        assert(r.paths() =~= Set::<Seq<u8>>::empty());
        assert(r.promoted() =~= Set::<Seq<u8>>::empty());
        r
    }

    /// The SHA-256 digest of an identifier's UTF-8 bytes.
    fn hash_id(id: &str) -> (r: [u8; 32])
        ensures
            r@ == id_digest(id@),
    {
        sha256(id.as_bytes())
    }

    /// True iff at least one path is active.
    pub fn validate_paths(&self) -> (r: bool)
        ensures
            r == (self.paths() != Set::<Seq<u8>>::empty()),
    {
        let r = self.active_paths.len() > 0;
        if r {
            assert(self.paths().contains(self.active_paths@[0]@));
        } else {
            assert(self.paths() =~= Set::<Seq<u8>>::empty());
        }
        r
    }

    /// Activates the path `path_id`; true if it was not active.
    pub fn add_path(&mut self, path_id: &str) -> (r: bool)
        requires
            old(self).wf(),
        ensures
            final(self).wf(),
            r == !old(self).paths().contains(id_digest(path_id@)),
            final(self).paths() == old(self).paths().insert(id_digest(path_id@)),
            final(self).promoted() == old(self).promoted(),
    {
        let h = RedundantPathSecurity::hash_id(path_id);
        insert_digest(&mut self.active_paths, h)
    }

    /// Deactivates the path `path_id`; true if it was active.
    pub fn remove_path(&mut self, path_id: &str) -> (r: bool)
        requires
            old(self).wf(),
        ensures
            final(self).wf(),
            r == old(self).paths().contains(id_digest(path_id@)),
            final(self).paths() == old(self).paths().remove(id_digest(path_id@)),
            final(self).promoted() == old(self).promoted(),
    {
        let h = RedundantPathSecurity::hash_id(path_id);
        remove_digest(&mut self.active_paths, h)
    }

    /// Promotes the node `node_id`; true if it was not promoted.
    pub fn promote_node(&mut self, node_id: &str) -> (r: bool)
        requires
            old(self).wf(),
        ensures
            final(self).wf(),
            r == !old(self).promoted().contains(id_digest(node_id@)),
            final(self).promoted() == old(self).promoted().insert(id_digest(node_id@)),
            final(self).paths() == old(self).paths(),
    {
        let h = RedundantPathSecurity::hash_id(node_id);
        insert_digest(&mut self.promoted_nodes, h)
    }

    /// Withdraws the promotion of `node_id`; true if it was promoted.
    pub fn remove_promoted_node(&mut self, node_id: &str) -> (r: bool)
        requires
            old(self).wf(),
        ensures
            final(self).wf(),
            r == old(self).promoted().contains(id_digest(node_id@)),
            final(self).promoted() == old(self).promoted().remove(id_digest(node_id@)),
            final(self).paths() == old(self).paths(),
    {
        let h = RedundantPathSecurity::hash_id(node_id);
        remove_digest(&mut self.promoted_nodes, h)
    }

    /// Whether `node_id` is promoted.
    pub fn is_node_promoted(&self, node_id: &str) -> (r: bool)
        ensures
            r == self.promoted().contains(id_digest(node_id@)),
    {
        let h = RedundantPathSecurity::hash_id(node_id);
        find_digest(&self.promoted_nodes, &h).is_some()
    }

    /// The active path digests in hexadecimal.
    pub fn list_active_paths(&self) -> (r: Vec<String>)
        ensures
            r@.len() == self.active_paths@.len(),
            forall|i: int| 0 <= i < r@.len() ==> #[trigger] r@[i]@ == hex_of(self.active_paths@[i]@),
    {
        hex_list(&self.active_paths)
    }

    /// The promoted node digests in hexadecimal.
    pub fn list_promoted_nodes(&self) -> (r: Vec<String>)
        ensures
            r@.len() == self.promoted_nodes@.len(),
            forall|i: int| 0 <= i < r@.len() ==> #[trigger] r@[i]@ == hex_of(self.promoted_nodes@[i]@),
    {
        hex_list(&self.promoted_nodes)
    }
}

/// Adding a path to a fresh instance and then removing it leaves no active path,
/// so path validation fails.
pub proof fn lemma_add_remove_path_empty(
    fresh: RedundantPathSecurity,
    added: RedundantPathSecurity,
    removed: RedundantPathSecurity,
    id: Seq<char>,
)
    requires
        fresh.paths() == Set::<Seq<u8>>::empty(),
        added.paths() == fresh.paths().insert(id_digest(id)),
        removed.paths() == added.paths().remove(id_digest(id)),
    ensures
        removed.paths() == Set::<Seq<u8>>::empty(),
        !(removed.paths() != Set::<Seq<u8>>::empty()),
{
    assert(removed.paths() =~= Set::<Seq<u8>>::empty());
}

} // verus!
