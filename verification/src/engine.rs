//! The propagation engine's decision logic and the round synchronization
//! primitive.
//!
//! A propagation round is driven from outside: the runtime takes a
//! [`Transfer`] plan per neighbour from [`plan_transfer`], issues the
//! transfer RPCs concurrently, and hands every outcome back through
//! [`reconcile_transfer`]. Once every outcome is reconciled it advances the
//! [`Generation`] counter and releases the waiters for which
//! [`round_wait_done`] has become true. The network calls themselves happen
//! between these functions and never inside them.

use vstd::prelude::*;
use crate::store::State;

verus! {

/// The process-wide round generation counter: incremented by exactly one at
/// the end of every completed propagation round, starting at 0.
pub struct Generation {
    pub value: u64,
}

impl Generation {
    pub fn new() -> (g: Generation)
        ensures
            g.value == 0,
    {
        Generation { value: 0 }
    }

    /// The current generation.
    pub fn generation(&self) -> (r: u64)
        ensures
            r == self.value,
    {
        self.value
    }

    /// Mark one more completed round: the counter moves up by exactly one,
    /// and the new value is returned for waiter notification.
    pub fn next_generation(&mut self) -> (r: u64)
        requires
            old(self).value < u64::MAX,
        ensures
            final(self).value == old(self).value + 1,
            r == final(self).value,
    {
        self.value = self.value + 1;
        self.value
    }
}

/// When a wait registered at `baseline` may be released: only once the
/// generation counter strictly exceeds the baseline.
pub open spec fn wait_released(generation: u64, baseline: u64) -> bool {
    generation > baseline
}

/// The release test for a round wait, evaluated against each generation the
/// waiter observes: true exactly when the counter strictly exceeds the
/// baseline read before the wait began.
pub fn round_wait_done(generation: u64, baseline: u64) -> (r: bool)
    ensures
        r == wait_released(generation, baseline),
{
    generation > baseline
}

/// One planned transfer: the delta of the value log not yet confirmed
/// transmitted to `neighbour`, together with the watermark it was computed
/// from, kept for the compare-and-swap advance after the RPC resolves.
pub struct Transfer {
    pub neighbour: u64,
    pub prev_len: usize,
    pub messages: Vec<u64>,
}

/// What a plan taken from state `s` looks like: the recorded watermark is
/// the neighbour's cursor and the payload is exactly the unsent suffix of
/// the log from that watermark.
pub open spec fn planned(s: State, t: Transfer) -> bool {
    &&& t.prev_len == s.cursor(t.neighbour)
    &&& t.messages@ == s.delta(t.neighbour)
}

/// Snapshot the transfer for one neighbour: its watermark and the delta
/// from that watermark, read under one consistent view of the state.
pub fn plan_transfer(state: &State, neighbour: u64) -> (t: Transfer)
    requires
        state.wf(),
    ensures
        t.neighbour == neighbour,
        planned(*state, t),
        t.prev_len + t.messages@.len() == state.order().len(),
{
    let (prev_len, messages) = state.take_node(neighbour);
    Transfer { neighbour, prev_len, messages }
}

/// Snapshot one transfer per neighbour, in neighbour-list order, all under
/// the same view of the state.
pub fn plan_round(state: &State) -> (plans: Vec<Transfer>)
    requires
        state.wf(),
    ensures
        plans@.len() == state.peers().len(),
        forall|i: int| 0 <= i < plans@.len() ==> {
            &&& (#[trigger] plans@[i]).neighbour == state.peers()[i]
            &&& planned(*state, plans@[i])
        },
{
    let mut plans: Vec<Transfer> = Vec::new();
    let n = state.neighbours.len();
    let mut i: usize = 0;
    while i < n
        invariant
            n == state.peers().len(),
            0 <= i <= n,
            state.wf(),
            plans@.len() == i,
            forall|j: int| 0 <= j < i ==> {
                &&& (#[trigger] plans@[j]).neighbour == state.peers()[j]
                &&& planned(*state, plans@[j])
            },
        decreases n - i,
    {
        let neighbour = state.neighbours[i];
        let t = plan_transfer(state, neighbour);
        plans.push(t);
        i = i + 1;
    }
    plans
}

/// Reconcile one transfer RPC outcome. On success the neighbour's watermark
/// is advanced by the compare-and-swap discipline of
/// [`State::update_node`]; on failure the state is left untouched, so the
/// same delta (or its growth) is re-included in the next round.
pub fn reconcile_transfer(state: &mut State, t: &Transfer, success: bool)
    requires
        old(state).wf(),
        t.prev_len + t.messages@.len() <= old(state).order().len(),
    ensures
        final(state).wf(),
        success ==> State::advanced(
            *old(state),
            *final(state),
            t.neighbour,
            t.prev_len as int,
            t.messages@.len() as int,
        ),
        !success ==> *final(state) == *old(state),
{
    if success {
        state.update_node(t.neighbour, t.prev_len, t.messages.len());
    }
}

/// No duplication in transfer: once a transfer planned at watermark
/// `t.prev_len` is confirmed, the neighbour's cursor stands at the end of
/// the confirmed delta, and in any later state whose log extends the
/// confirmed one and whose cursor has not moved back, the next delta to
/// that neighbour covers only log positions beyond the confirmed delta —
/// no position is ever carried by two confirmed transfers.
pub proof fn lemma_no_duplicate_transfer(pre: State, post: State, t: Transfer, later: State)
    requires
        pre.wf(),
        planned(pre, t),
        State::advanced(pre, post, t.neighbour, t.prev_len as int, t.messages@.len() as int),
        later.wf(),
        later.cursor(t.neighbour) >= post.cursor(t.neighbour),
    ensures
        post.cursor(t.neighbour) == t.prev_len + t.messages@.len(),
        later.cursor(t.neighbour) >= t.prev_len + t.messages@.len(),
{
}

/// Retry on failure: if a transfer to a neighbour fails, its cursor is left
/// where it was, so the delta planned in any later state whose log extends
/// the earlier one starts at the same position — the failed delta is a
/// prefix of the retried one, which adds exactly the values inserted in
/// between.
pub proof fn lemma_retry_superset(s1: State, s2: State, n: u64)
    requires
        s1.wf(),
        s2.wf(),
        s2.cursor(n) == s1.cursor(n),
        s1.order().is_prefix_of(s2.order()),
    ensures
        s1.delta(n).is_prefix_of(s2.delta(n)),
        s2.delta(n).len() == s1.delta(n).len() + s2.order().len() - s1.order().len(),
{
    assert(s1.delta(n) =~= s2.delta(n).subrange(0, s1.delta(n).len() as int)) by {
        assert forall|i: int| 0 <= i < s1.delta(n).len()
            implies s1.delta(n)[i] == s2.delta(n)[i] by {
            assert(s1.order()[s1.cursor(n) + i]
                == s2.order().subrange(0, s1.order().len() as int)[s1.cursor(n) + i]);
        }
    }
}

/// Round-wait correctness, release side: a wait registered at `baseline`
/// is released only by a generation strictly greater than the baseline.
pub proof fn lemma_wait_needs_newer_generation(generation: u64, baseline: u64)
    requires
        wait_released(generation, baseline),
    ensures
        generation > baseline,
{
}

/// Round-wait correctness, progress side: one completed round after the
/// baseline was read is enough to release the wait — the counter moves up
/// by one at the end of every round, so it then strictly exceeds every
/// baseline read before that round completed.
pub proof fn lemma_wait_released_after_round(baseline: u64, g_before: u64, g_after: u64)
    requires
        baseline <= g_before,
        g_after == g_before + 1,
    ensures
        wait_released(g_after, baseline),
{
}

/// One successful exchange carries everything across: if a receiver already
/// knows the sender's log below the planned watermark (in particular, a
/// watermark of 0 asks nothing) and then records the planned delta, it
/// knows every value the sender knew when the delta was planned. Repeated
/// over the edges of a connected topology, this is the step by which every
/// value reaches every reachable node.
pub proof fn lemma_transfer_delivers(sender: State, t: Transfer, rec_pre: State, rec_post: State)
    requires
        sender.wf(),
        planned(sender, t),
        forall|i: int| 0 <= i < t.prev_len ==> rec_pre.seen().contains(#[trigger] sender.order()[i]),
        rec_post.seen() == rec_pre.seen().union(t.messages@.to_set()),
    ensures
        forall|v: u64| sender.seen().contains(v) ==> rec_post.seen().contains(v),
{
    assert forall|v: u64| sender.seen().contains(v) implies rec_post.seen().contains(v) by {
        assert(sender.order().contains(v));
        let i = choose|i: int| 0 <= i < sender.order().len() && sender.order()[i] == v;
        if i < t.prev_len {
            assert(rec_pre.seen().contains(v));
        } else {
            assert(t.messages@[i - t.prev_len] == v);
            assert(t.messages@.contains(v));
            assert(t.messages@.to_set().contains(v));
        }
    }
}

/// Multi-hop coverage: one exchange never crosses more than one edge, but
/// exchanges compose. `seen` are the value sets of the nodes along a path
/// through the topology, each taken after that node absorbed a full
/// exchange from its predecessor (so it contains everything the
/// predecessor held, by [`lemma_transfer_delivers`]): a value known at the
/// head of the path is then known at its end. With a connected topology and
/// rounds that keep completing, every node reachable from a submission's
/// node eventually lies at the end of such a path.
pub proof fn lemma_relay_along_path(seen: Seq<Set<u64>>, v: u64)
    requires
        seen.len() >= 1,
        seen[0].contains(v),
        forall|i: int, x: u64|
            0 <= i < seen.len() - 1 && #[trigger] seen[i].contains(x) ==> seen[i + 1].contains(x),
    ensures
        seen[seen.len() - 1].contains(v),
    decreases seen.len(),
{
    if seen.len() > 1 {
        let rest = seen.drop_first();
        assert(rest[0].contains(v));
        assert forall|i: int, x: u64|
            0 <= i < rest.len() - 1 && #[trigger] rest[i].contains(x)
            implies rest[i + 1].contains(x) by {
            assert(seen[i + 1].contains(x));
        }
        lemma_relay_along_path(rest, v);
    }
}

} // verus!
