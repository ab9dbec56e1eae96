//! Bounded histories: once full, the oldest record makes room for the newest.

use vstd::prelude::*;

verus! {

/// `s` after recording `x` in a history of capacity `max`: when the history holds
/// exactly `max` records the oldest one is dropped first.
pub open spec fn bounded_push<T>(s: Seq<T>, x: T, max: nat) -> Seq<T> {
    if s.len() == max && s.len() > 0 {
        s.drop_first().push(x)
    } else {
        s.push(x)
    }
}

/// Records `x` in the history `v` of capacity `max`.
pub fn push_bounded<T>(v: &mut Vec<T>, x: T, max: usize)
    ensures
        final(v)@ == bounded_push(old(v)@, x, max as nat),
{
    if v.len() == max && v.len() > 0 {
        v.remove(0);
    }
    v.push(x);
    proof {
        if old(v)@.len() == max && old(v)@.len() > 0 {
            assert(old(v)@.remove(0) =~= old(v)@.drop_first());
        }
    }
}

} // verus!
