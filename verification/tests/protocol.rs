use gossip_broadcast::protocol::{extract_neighbours, handle_request, Request, Response, Step};
use gossip_broadcast::store::State;

#[test]
fn read_returns_everything_known() {
    let mut s = State::new();
    handle_request(&mut s, 0, 0, Request::Broadcast { message: 4 });
    handle_request(&mut s, 1, 0, Request::Update { messages: vec![5, 4] });
    let step = handle_request(&mut s, 1, 0, Request::Read);
    match step {
        Step::Reply { response: Response::ReadOk { messages } } => {
            assert_eq!(messages, vec![4, 5]);
        }
        _ => panic!("read must reply with the known values"),
    }
}

#[test]
fn broadcast_waits_on_the_generation_read_before_it() {
    let mut s = State::new();
    let step = handle_request(&mut s, 6, 0, Request::Broadcast { message: 11 });
    match step {
        Step::AwaitRound { baseline, response } => {
            assert_eq!(baseline, 6);
            assert!(matches!(response, Response::BroadcastOk));
        }
        _ => panic!("a submission must wait for the next round"),
    }
    assert_eq!(s.take_all(), vec![11]);
}

#[test]
fn init_changes_nothing_and_stays_silent() {
    let mut s = State::new();
    s.insert(3);
    let step = handle_request(&mut s, 0, 0, Request::Init);
    assert!(matches!(step, Step::NoReply));
    assert_eq!(s.take_all(), vec![3]);
}

#[test]
fn topology_installs_own_entry() {
    let mut s = State::new();
    let topology = vec![(0, vec![1]), (1, vec![0, 2]), (2, vec![1])];
    let step = handle_request(&mut s, 0, 1, Request::Topology { topology });
    assert!(matches!(step, Step::Reply { response: Response::TopologyOk }));
    assert_eq!(s.neighbours, vec![0, 2]);
}

#[test]
fn extract_neighbours_takes_first_matching_entry() {
    let topology = vec![(2, vec![7]), (1, vec![0]), (2, vec![9])];
    assert_eq!(extract_neighbours(&topology, 2), Some(vec![7]));
    assert_eq!(extract_neighbours(&topology, 1), Some(vec![0]));
    assert_eq!(extract_neighbours(&topology, 5), None);
}
