//! A per-node monotonic local-id allocator that stripes an integer space by
//! node index: node `k` of `n` nodes draws `k`, `k + n`, `k + 2n`, ..., so
//! no two nodes ever draw the same id and one node never repeats itself.

use vstd::prelude::*;

verus! {

/// The allocator's state: the stripe width (the cluster size) and the next
/// id to hand out.
pub struct SeedData {
    pub node_count: usize,
    pub current_id: usize,
}

/// How `take_one` changes the allocator: it hands out the current id and
/// steps by the stripe width.
pub open spec fn took_one(pre: SeedData, post: SeedData, r: usize) -> bool {
    &&& r == pre.current_id
    &&& post.current_id == pre.current_id + pre.node_count
    &&& post.node_count == pre.node_count
}

impl SeedData {
    /// Start the stripe of node `node_id` in a cluster of `node_count` nodes.
    pub fn new(node_id: usize, node_count: usize) -> (s: SeedData)
        ensures
            s.node_count == node_count,
            s.current_id == node_id,
    {
        Self { node_count, current_id: node_id }
    }

    /// Draw the next id of this node's stripe.
    pub fn take_one(&mut self) -> (r: usize)
        requires
            old(self).current_id + old(self).node_count <= usize::MAX,
        ensures
            took_one(*old(self), *final(self), r),
    {
        let result = self.current_id;
        self.current_id = self.current_id + self.node_count;
        result
    }
}

/// In a cluster of at least one node, the ids one allocator draws strictly
/// increase, so one node never hands out the same id twice; and every id it
/// draws keeps the node's residue modulo the cluster size, so two different
/// nodes' stripes never meet.
pub proof fn lemma_ids_never_repeat(pre: SeedData, post: SeedData, r: usize)
    requires
        took_one(pre, post, r),
        pre.node_count > 0,
    ensures
        post.current_id > r,
        post.current_id as int % (pre.node_count as int) == r as int % (pre.node_count as int),
{
    let n = pre.node_count as int;
    assert((r as int + n) % n == r as int % n) by {
        vstd::arithmetic::div_mod::lemma_mod_add_multiples_vanish(r as int, n);
    }
}

} // verus!
