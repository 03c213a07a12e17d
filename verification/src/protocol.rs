//! The request dispatch logic of the broadcast node.
//!
//! The runtime decodes an incoming message into a [`Request`], hands it to
//! [`handle_request`] together with the generation read before the call, and
//! then carries out the returned [`Step`]: reply at once, reply after the
//! round wait is released, or stay silent. Node identifiers are the node's
//! numeric index in the cluster; the runtime converts its textual names to
//! and from these indices at the boundary.

use vstd::prelude::*;
use crate::store::State;

verus! {

/// A decoded client- or peer-request, one per message kind the node serves.
pub enum Request {
    /// Cluster initialization; carries nothing the core needs.
    Init,
    /// A client submits one value.
    Broadcast { message: u64 },
    /// A peer transfers a delta of its value log.
    Update { messages: Vec<u64> },
    /// A client asks for every value this node knows.
    Read,
    /// The controller assigns the topology: each node's neighbour list.
    Topology { topology: Vec<(u64, Vec<u64>)> },
}

/// The reply carried back for a handled request.
pub enum Response {
    BroadcastOk,
    ReadOk { messages: Vec<u64> },
    UpdateOk,
    TopologyOk,
}

/// What the runtime must do after the state was updated.
pub enum Step {
    /// No reply is owed (initialization).
    NoReply,
    /// Reply at once.
    Reply { response: Response },
    /// Reply once the generation counter strictly exceeds `baseline`: the
    /// submitted value was then attempted for propagation at least once.
    AwaitRound { baseline: u64, response: Response },
}

/// Whether some entry of the topology assignment names this node.
pub open spec fn topology_has(t: Seq<(u64, Vec<u64>)>, me: u64) -> bool {
    exists|i: int| 0 <= i < t.len() && (#[trigger] t[i]).0 == me
}

/// The neighbour list of the first entry that names this node.
pub open spec fn topology_entry(t: Seq<(u64, Vec<u64>)>, me: u64) -> Seq<u64>
    decreases t.len(),
{
    if t.len() == 0 {
        Seq::empty()
    } else if t[0].0 == me {
        t[0].1@
    } else {
        topology_entry(t.drop_first(), me)
    }
}

proof fn lemma_topology_entry_at(t: Seq<(u64, Vec<u64>)>, me: u64, i: int)
    requires
        0 <= i < t.len(),
        t[i].0 == me,
        forall|j: int| 0 <= j < i ==> (#[trigger] t[j]).0 != me,
    ensures
        topology_entry(t, me) == t[i].1@,
    decreases i,
{
    if i > 0 {
        lemma_topology_entry_at(t.drop_first(), me, i - 1);
    }
}

/// Find this node's own entry in a topology assignment: the neighbour list
/// of the first entry naming it, or `None` when no entry does.
pub fn extract_neighbours(topology: &Vec<(u64, Vec<u64>)>, me: u64) -> (r: Option<Vec<u64>>)
    ensures
        match r {
            Some(ns) => topology_has(topology@, me) && ns@ == topology_entry(topology@, me),
            None => !topology_has(topology@, me),
        },
{
    let n = topology.len();
    let mut i: usize = 0;
    while i < n
        invariant
            n == topology@.len(),
            0 <= i <= n,
            forall|j: int| 0 <= j < i ==> (#[trigger] topology@[j]).0 != me,
        decreases n - i,
    {
        if topology[i].0 == me {
            let ns = vstd::slice::slice_to_vec(topology[i].1.as_slice());
            proof {
                lemma_topology_entry_at(topology@, me, i as int);
            }
            return Some(ns);
        }
        i = i + 1;
    }
    None
}

/// Dispatch one decoded request against the replica state.
///
/// `generation` is the generation counter read before the call; a broadcast
/// submission uses it as the baseline of its round wait, so the client is
/// acknowledged only after at least one further propagation round completed.
/// A topology assignment must name this node, as the cluster controller
/// always does; the runtime rejects one that does not before calling here.
pub fn handle_request(state: &mut State, generation: u64, me: u64, req: Request) -> (step: Step)
    requires
        old(state).wf(),
        req matches Request::Topology { topology } ==> topology_has(topology@, me),
    ensures
        final(state).wf(),
        match req {
            Request::Init => {
                &&& *final(state) == *old(state)
                &&& step is NoReply
            },
            Request::Broadcast { message } => {
                &&& State::inserted(*old(state), *final(state), message)
                &&& step matches Step::AwaitRound { baseline, response }
                    && baseline == generation && response is BroadcastOk
            },
            Request::Update { messages } => {
                &&& final(state).order() == State::absorbed(old(state).order(), messages@)
                &&& final(state).seen() == old(state).seen().union(messages@.to_set())
                &&& old(state).order().is_prefix_of(final(state).order())
                &&& forall|n: u64| #[trigger] final(state).cursor(n) == old(state).cursor(n)
                &&& final(state).peers() == old(state).peers()
                &&& step matches Step::Reply { response } && response is UpdateOk
            },
            Request::Read => {
                &&& *final(state) == *old(state)
                &&& step matches Step::Reply { response: Response::ReadOk { messages } }
                    && messages@ == old(state).order()
            },
            Request::Topology { topology } => {
                &&& final(state).peers() == topology_entry(topology@, me)
                &&& final(state).order() == old(state).order()
                &&& final(state).seen() == old(state).seen()
                &&& forall|n: u64| #[trigger] final(state).cursor(n) == old(state).cursor(n)
                &&& step matches Step::Reply { response } && response is TopologyOk
            },
        },
{
    match req {
        Request::Init => Step::NoReply,
        Request::Broadcast { message } => {
            state.insert(message);
            Step::AwaitRound { baseline: generation, response: Response::BroadcastOk }
        }
        Request::Update { messages } => {
            state.insert_all(&messages);
            Step::Reply { response: Response::UpdateOk }
        }
        Request::Read => {
            let messages = state.take_all();
            Step::Reply { response: Response::ReadOk { messages } }
        }
        Request::Topology { topology } => {
            let ns = extract_neighbours(&topology, me);
            match ns {
                Some(ns) => {
                    state.set_neighbours(ns);
                }
                None => {}
            }
            Step::Reply { response: Response::TopologyOk }
        }
    }
}

} // verus!
