//! The node's local replica state: the append-only value store with
//! duplicate suppression, the per-neighbour delivery cursor table, and the
//! neighbour list assigned by the topology.

use vstd::prelude::*;
use std::collections::{HashMap, HashSet};

verus! {

broadcast use vstd::std_specs::hash::group_hash_axioms;

/// The shared replica state of one node.
///
/// `messages` and `messages_list` hold the same values: the set gives O(1)
/// duplicate detection, the list fixes the arrival order that the cursors
/// index into. `already_send` maps a neighbour to the count of the earliest
/// values of `messages_list` confirmed transmitted to it; a missing entry
/// means nothing was confirmed yet.
pub struct State {
    pub messages: HashSet<u64>,
    pub messages_list: Vec<u64>,
    pub already_send: HashMap<u64, usize>,
    pub neighbours: Vec<u64>,
}

impl State {
    /// The values this node knows, in first-insertion order.
    pub open spec fn order(self) -> Seq<u64> {
        self.messages_list@
    }

    /// The set of values this node knows.
    pub open spec fn seen(self) -> Set<u64> {
        self.messages@
    }

    /// The watermark for a neighbour: how many of the earliest values of
    /// `order()` were confirmed transmitted to it. A neighbour without an
    /// entry has watermark 0.
    pub open spec fn cursor(self, neighbour: u64) -> int {
        if self.already_send@.contains_key(neighbour) {
            self.already_send@[neighbour] as int
        } else {
            0
        }
    }

    /// The neighbour list assigned by the topology.
    pub open spec fn peers(self) -> Seq<u64> {
        self.neighbours@
    }

    /// The unsent suffix of the value log for a neighbour.
    pub open spec fn delta(self, neighbour: u64) -> Seq<u64> {
        self.order().subrange(self.cursor(neighbour), self.order().len() as int)
    }

    /// Well-formedness: the set and the list hold the same values, the list
    /// is duplicate-free, and every watermark lies within the list.
    pub open spec fn wf(self) -> bool {
        &&& self.seen() == self.order().to_set()
        &&& self.order().no_duplicates()
        &&& forall|n: u64| #[trigger] self.cursor(n) <= self.order().len()
    }

    /// How `insert` changes the state: the value joins the seen set, it is
    /// appended to the arrival order only if it is new, and the cursors and
    /// neighbour list stay as they were.
    pub open spec fn inserted(pre: State, post: State, value: u64) -> bool {
        &&& post.seen() == pre.seen().insert(value)
        &&& post.order() == if pre.seen().contains(value) {
            pre.order()
        } else {
            pre.order().push(value)
        }
        &&& forall|n: u64| #[trigger] post.cursor(n) == pre.cursor(n)
        &&& post.peers() == pre.peers()
    }

    /// How `update_node` changes the state: only the one neighbour's
    /// watermark moves, and only when it still equals the watermark the
    /// delta was computed from.
    pub open spec fn advanced(
        pre: State,
        post: State,
        neighbour: u64,
        prev_len: int,
        len: int,
    ) -> bool {
        &&& post.order() == pre.order()
        &&& post.seen() == pre.seen()
        &&& post.peers() == pre.peers()
        &&& post.cursor(neighbour) == if pre.cursor(neighbour) == prev_len {
            prev_len + len
        } else {
            pre.cursor(neighbour)
        }
        &&& forall|m: u64| m != neighbour ==> #[trigger] post.cursor(m) == pre.cursor(m)
    }

    /// One value absorbed into an arrival order: appended only if new.
    pub open spec fn absorb_one(order: Seq<u64>, v: u64) -> Seq<u64> {
        if order.contains(v) {
            order
        } else {
            order.push(v)
        }
    }

    /// A whole payload absorbed into an arrival order, value by value in
    /// payload order, each appended only at its first occurrence ever.
    pub open spec fn absorbed(order: Seq<u64>, values: Seq<u64>) -> Seq<u64>
        decreases values.len(),
    {
        if values.len() == 0 {
            order
        } else {
            State::absorbed(State::absorb_one(order, values[0]), values.drop_first())
        }
    }

    /// An empty replica: no values, every watermark 0, no neighbours.
    pub fn new() -> (s: State)
        ensures
            s.wf(),
            s.order() =~= Seq::<u64>::empty(),
            s.seen() =~= Set::<u64>::empty(),
            forall|n: u64| #[trigger] s.cursor(n) == 0,
            s.peers() =~= Seq::<u64>::empty(),
    {
        let s = State {
            messages: HashSet::new(),
            messages_list: Vec::new(),
            already_send: HashMap::new(),
            neighbours: Vec::new(),
        };
        proof {
            assert(s.seen() =~= s.order().to_set());
        }
        s
    }

    /// Record a value, ignoring one already seen, so that a value keeps the
    /// arrival position of its first insertion.
    pub fn insert(&mut self, value: u64)
        requires
            old(self).wf(),
        ensures
            final(self).wf(),
            State::inserted(*old(self), *final(self), value),
    {
        if self.messages.contains(&value) {
            proof {
                assert(old(self).seen().insert(value) =~= old(self).seen());
            }
            return;
        }
        self.messages.insert(value);
        self.messages_list.push(value);
        proof {
            let s0 = old(self).order();
            let s1 = self.order();
            assert(!s0.contains(value)) by {
                assert(s0.to_set().contains(value) == s0.contains(value));
            }
            assert(s1.to_set() == s0.to_set().insert(value)) by {
                s0.lemma_push_to_set_commute(value);
            }
            assert(s1.no_duplicates()) by {
                assert forall|i: int, j: int| 0 <= i < j < s1.len() implies s1[i] != s1[j] by {
                    if j < s0.len() {
                        assert(s0[i] != s0[j]);
                    } else {
                        assert(s1[j] == value);
                        if s0[i] == value {
                            assert(s0.contains(value));
                        }
                    }
                }
            }
            assert forall|n: u64| #[trigger] self.cursor(n) <= self.order().len() by {
                assert(old(self).cursor(n) <= s0.len());
            }
        }
    }

    /// A snapshot copy of every value known, in arrival order.
    pub fn take_all(&self) -> (r: Vec<u64>)
        ensures
            r@ == self.order(),
    {
        vstd::slice::slice_to_vec(self.messages_list.as_slice())
    }

    /// The suffix of the value log from position `from`, together with
    /// `from` itself for the caller's bookkeeping. A position beyond the
    /// current length yields an empty slice, never an error.
    pub fn slice_from(&self, from: usize) -> (r: (usize, Vec<u64>))
        ensures
            r.0 == from,
            from <= self.order().len() ==> r.1@ == self.order().subrange(
                from as int,
                self.order().len() as int,
            ),
            from > self.order().len() ==> r.1@ == Seq::<u64>::empty(),
    {
        let len = self.messages_list.len();
        let start = if from < len {
            from
        } else {
            len
        };
        let whole = self.messages_list.as_slice();
        let slice = vstd::slice::slice_subrange(whole, start, len);
        proof {
            if from > self.order().len() {
                assert(slice@ =~= Seq::<u64>::empty());
            }
        }
        (from, vstd::slice::slice_to_vec(slice))
    }

    /// The atomic snapshot a propagation round works from: the neighbour's
    /// watermark together with the unsent suffix of the log that starts at
    /// that watermark.
    pub fn take_node(&self, node_id: u64) -> (r: (usize, Vec<u64>))
        requires
            self.wf(),
        ensures
            r.0 == self.cursor(node_id),
            r.1@ == self.delta(node_id),
    {
        let drop_first: usize = match self.already_send.get(&node_id) {
            Some(v) => *v,
            None => 0,
        };
        proof {
            assert(drop_first == self.cursor(node_id));
            assert(self.cursor(node_id) <= self.order().len());
        }
        self.slice_from(drop_first)
    }

    /// Compare-and-swap advance of a neighbour's watermark: it moves to
    /// `prev_len + len` only if it still equals `prev_len`, the watermark the
    /// transmitted delta was computed from; otherwise a concurrent round
    /// already advanced it and this update is skipped, to be recomputed from
    /// the current watermark in the next round.
    pub fn update_node(&mut self, node_id: u64, prev_len: usize, len: usize)
        requires
            old(self).wf(),
            prev_len + len <= old(self).order().len(),
        ensures
            final(self).wf(),
            State::advanced(*old(self), *final(self), node_id, prev_len as int, len as int),
    {
        proof {
            vstd::std_specs::vec::axiom_spec_len(&self.messages_list);
        }
        let entry: Option<usize> = match self.already_send.get(&node_id) {
            Some(v) => Some(*v),
            None => None,
        };
        match entry {
            Some(v) => {
                if v == prev_len {
                    self.already_send.insert(node_id, prev_len + len);
                }
            }
            None => {
                if prev_len == 0 {
                    self.already_send.insert(node_id, len);
                }
            }
        }
        proof {
            assert forall|n: u64| #[trigger] self.cursor(n) <= self.order().len() by {
                assert(old(self).cursor(n) <= old(self).order().len());
                if n != node_id {
                    assert(self.cursor(n) == old(self).cursor(n));
                }
            }
        }
    }

    /// Record a whole received delta: every value is inserted independently
    /// and idempotently, in payload order, so the seen set grows by exactly
    /// the payload's values and the prior arrival order is kept as a prefix,
    /// extended by the payload's genuinely new values.
    pub fn insert_all(&mut self, values: &Vec<u64>)
        requires
            old(self).wf(),
        ensures
            final(self).wf(),
            final(self).order() == State::absorbed(old(self).order(), values@),
            final(self).seen() == old(self).seen().union(values@.to_set()),
            old(self).order().is_prefix_of(final(self).order()),
            forall|n: u64| #[trigger] final(self).cursor(n) == old(self).cursor(n),
            final(self).peers() == old(self).peers(),
    {
        let ghost pre = *old(self);
        let n = values.len();
        let mut i: usize = 0;
        while i < n
            invariant
                n == values@.len(),
                0 <= i <= n,
                self.wf(),
                self.order() == State::absorbed(pre.order(), values@.take(i as int)),
                self.seen() == pre.seen().union(values@.take(i as int).to_set()),
                pre.order().is_prefix_of(self.order()),
                forall|m: u64| #[trigger] self.cursor(m) == pre.cursor(m),
                self.peers() == pre.peers(),
            decreases n - i,
        {
            let ghost before = *self;
            self.insert(values[i]);
            proof {
                let v = values@[i as int];
                assert(values@.take(i + 1) =~= values@.take(i as int).push(v));
                assert(values@.take(i + 1).to_set()
                    == values@.take(i as int).to_set().insert(v)) by {
                    values@.take(i as int).lemma_push_to_set_commute(v);
                }
                assert(self.seen() =~= pre.seen().union(values@.take(i + 1).to_set()));
                assert(before.seen().contains(v) == before.order().contains(v)) by {
                    assert(before.order().to_set().contains(v) == before.order().contains(v));
                }
                assert(self.order() == State::absorb_one(before.order(), v));
                lemma_absorbed_push(pre.order(), values@.take(i as int), v);
                if !before.seen().contains(v) {
                    assert(pre.order().is_prefix_of(self.order())) by {
                        assert(pre.order()
                            =~= self.order().subrange(0, pre.order().len() as int));
                    }
                }
            }
            i = i + 1;
        }
        proof {
            assert(values@.take(n as int) =~= values@);
        }
    }

    /// Install the neighbour list taken from a topology assignment; repeated
    /// calls overwrite the prior list and touch nothing else.
    pub fn set_neighbours(&mut self, neighbours: Vec<u64>)
        requires
            old(self).wf(),
        ensures
            final(self).wf(),
            final(self).peers() == neighbours@,
            final(self).order() == old(self).order(),
            final(self).seen() == old(self).seen(),
            forall|n: u64| #[trigger] final(self).cursor(n) == old(self).cursor(n),
    {
        self.neighbours = neighbours;
        proof {
            assert forall|n: u64| #[trigger] self.cursor(n) <= self.order().len() by {
                assert(old(self).cursor(n) <= old(self).order().len());
            }
        }
    }
}

proof fn lemma_absorbed_push(order: Seq<u64>, values: Seq<u64>, v: u64)
    ensures
        State::absorbed(order, values.push(v))
            == State::absorb_one(State::absorbed(order, values), v),
    decreases values.len(),
{
    if values.len() == 0 {
        assert(values.push(v)[0] == v);
        assert(values.push(v).drop_first() =~= Seq::<u64>::empty());
        assert(State::absorbed(order, values.push(v))
            == State::absorbed(State::absorb_one(order, v), Seq::<u64>::empty()));
        assert(State::absorbed(State::absorb_one(order, v), Seq::<u64>::empty())
            == State::absorb_one(order, v));
        assert(State::absorbed(order, values) == order);
    } else {
        assert(values.push(v)[0] == values[0]);
        assert(values.push(v).drop_first() =~= values.drop_first().push(v));
        assert(State::absorbed(order, values.push(v))
            == State::absorbed(State::absorb_one(order, values[0]), values.drop_first().push(v)));
        assert(State::absorbed(order, values)
            == State::absorbed(State::absorb_one(order, values[0]), values.drop_first()));
        lemma_absorbed_push(State::absorb_one(order, values[0]), values.drop_first(), v);
    }
}

/// Idempotent insert: inserting a value a second time changes neither the
/// set of values seen nor the arrival order, so the value keeps the
/// position its first insertion gave it.
pub proof fn lemma_insert_idempotent(s0: State, s1: State, s2: State, value: u64)
    requires
        State::inserted(s0, s1, value),
        State::inserted(s1, s2, value),
    ensures
        s2.order() == s1.order(),
        s2.seen() == s1.seen(),
        forall|n: u64| #[trigger] s2.cursor(n) == s1.cursor(n),
{
    assert(s1.seen().contains(value));
    assert(s2.seen() =~= s1.seen());
}

} // verus!
