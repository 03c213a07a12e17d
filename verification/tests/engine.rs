use gossip_broadcast::engine::{
    plan_round, plan_transfer, reconcile_transfer, round_wait_done, Generation,
};
use gossip_broadcast::protocol::{handle_request, Request, Response, Step};
use gossip_broadcast::store::State;

#[test]
fn generation_counts_completed_rounds() {
    let mut g = Generation::new();
    assert_eq!(g.generation(), 0);
    assert_eq!(g.next_generation(), 1);
    assert_eq!(g.next_generation(), 2);
    assert_eq!(g.generation(), 2);
}

#[test]
fn round_wait_releases_only_on_strictly_newer_generation() {
    assert!(!round_wait_done(3, 3));
    assert!(!round_wait_done(2, 3));
    assert!(round_wait_done(4, 3));
}

#[test]
fn submit_then_wait_needs_one_round() {
    // a submission reads the generation as its baseline; the wait must not
    // release before the round that follows completes
    let mut g = Generation::new();
    let baseline = g.generation();
    assert!(!round_wait_done(g.generation(), baseline));
    let released = g.next_generation();
    assert!(round_wait_done(released, baseline));
}

#[test]
fn cursor_advances_only_on_success() {
    let mut s = State::new();
    s.insert(7);
    s.insert(9);
    let t = plan_transfer(&s, 3);
    assert_eq!(t.prev_len, 0);
    assert_eq!(t.messages, vec![7, 9]);
    reconcile_transfer(&mut s, &t, false);
    assert_eq!(s.take_node(3).0, 0);
    reconcile_transfer(&mut s, &t, true);
    assert_eq!(s.take_node(3).0, 2);
}

#[test]
fn fifty_clean_rounds_never_resend_a_value() {
    // instrument the transfer payloads to one neighbour across 50 rounds
    // with no failures: no value may appear in two different deltas
    let mut s = State::new();
    s.set_neighbours(vec![1]);
    let mut sent: Vec<Vec<u64>> = Vec::new();
    for round in 0..50u64 {
        s.insert(1000 + round);
        if round % 3 == 0 {
            s.insert(2000 + round);
        }
        let t = plan_transfer(&s, 1);
        sent.push(t.messages.clone());
        reconcile_transfer(&mut s, &t, true);
    }
    for a in 0..sent.len() {
        for b in 0..sent.len() {
            if a != b {
                for v in &sent[a] {
                    assert!(!sent[b].contains(v), "value {v} sent twice to neighbour 1");
                }
            }
        }
    }
    // everything was confirmed: nothing is left to send
    assert_eq!(plan_transfer(&s, 1).messages, Vec::<u64>::new());
}

#[test]
fn failed_transfer_is_retried_as_prefix_of_next_delta() {
    let mut s = State::new();
    s.insert(7);
    let failed = plan_transfer(&s, 1);
    assert_eq!(failed.messages, vec![7]);
    reconcile_transfer(&mut s, &failed, false);
    s.insert(8);
    let retried = plan_transfer(&s, 1);
    // the next delta is the failed delta plus the values inserted since
    assert_eq!(retried.prev_len, failed.prev_len);
    assert_eq!(retried.messages[..failed.messages.len()], failed.messages[..]);
    assert_eq!(retried.messages, vec![7, 8]);
}

fn run_round(node: &mut State, peers: &mut [(u64, &mut State)]) {
    let plans = plan_round(node);
    for t in plans {
        // deliver the transfer to the peer as a received update
        let mut delivered = false;
        for (id, peer) in peers.iter_mut() {
            if *id == t.neighbour {
                let step =
                    handle_request(&mut **peer, 0, *id, Request::Update { messages: t.messages.clone() });
                assert!(matches!(step, Step::Reply { response: Response::UpdateOk }));
                delivered = true;
            }
        }
        reconcile_transfer(node, &t, delivered);
    }
}

#[test]
fn three_node_round_spreads_a_submission() {
    // 3-node fully-connected topology; submit 7 at node a; no failures:
    // after one round, a read at nodes b and c contains 7
    let mut a = State::new();
    let mut b = State::new();
    let mut c = State::new();
    let topology = vec![(0, vec![1, 2]), (1, vec![0, 2]), (2, vec![0, 1])];
    for (me, node) in [(0, &mut a), (1, &mut b), (2, &mut c)] {
        let step = handle_request(node, 0, me, Request::Topology { topology: topology.clone() });
        assert!(matches!(step, Step::Reply { response: Response::TopologyOk }));
    }
    let step = handle_request(&mut a, 0, 0, Request::Broadcast { message: 7 });
    assert!(matches!(step, Step::AwaitRound { baseline: 0, response: Response::BroadcastOk }));
    run_round(&mut a, &mut [(1, &mut b), (2, &mut c)]);
    assert!(b.take_all().contains(&7));
    assert!(c.take_all().contains(&7));
}

#[test]
fn unreachable_neighbour_recovers_without_duplicates() {
    // neighbour b is unreachable for 2 rounds, then recovers; value 9
    // submitted at a during the outage appears at b after the 3rd round,
    // with no duplicate entries at b
    let mut a = State::new();
    let mut b = State::new();
    a.set_neighbours(vec![1]);
    b.insert(1);
    handle_request(&mut a, 0, 0, Request::Broadcast { message: 9 });
    for _ in 0..2 {
        let t = plan_transfer(&a, 1);
        // the RPC times out: nothing is delivered, the cursor stays
        reconcile_transfer(&mut a, &t, false);
        assert!(!b.take_all().contains(&9));
    }
    let t = plan_transfer(&a, 1);
    handle_request(&mut b, 0, 1, Request::Update { messages: t.messages.clone() });
    reconcile_transfer(&mut a, &t, true);
    let at_b = b.take_all();
    assert!(at_b.contains(&9));
    assert_eq!(at_b.iter().filter(|&&v| v == 9).count(), 1);
    // a retransmission of the same delta would still leave b duplicate-free
    handle_request(&mut b, 0, 1, Request::Update { messages: t.messages.clone() });
    assert_eq!(b.take_all().iter().filter(|&&v| v == 9).count(), 1);
}
