use gossip_broadcast::names::parse_node_index;
use gossip_broadcast::seed::SeedData;

#[test]
fn stripes_the_id_space_by_node_index() {
    let mut s = SeedData::new(2, 3);
    assert_eq!(s.take_one(), 2);
    assert_eq!(s.take_one(), 5);
    assert_eq!(s.take_one(), 8);
}

#[test]
fn different_nodes_draw_disjoint_ids() {
    let mut a = SeedData::new(0, 2);
    let mut b = SeedData::new(1, 2);
    let mut drawn = Vec::new();
    for _ in 0..10 {
        drawn.push(a.take_one());
        drawn.push(b.take_one());
    }
    let mut deduped = drawn.clone();
    deduped.sort_unstable();
    deduped.dedup();
    assert_eq!(deduped.len(), drawn.len());
}

#[test]
fn parses_well_formed_node_names() {
    assert_eq!(parse_node_index(b"n0"), Some(0));
    assert_eq!(parse_node_index(b"n7"), Some(7));
    assert_eq!(parse_node_index(b"n25"), Some(25));
    assert_eq!(parse_node_index(b"n007"), Some(7));
}

#[test]
fn rejects_malformed_node_names() {
    assert_eq!(parse_node_index(b""), None);
    assert_eq!(parse_node_index(b"n"), None);
    assert_eq!(parse_node_index(b"x5"), None);
    assert_eq!(parse_node_index(b"n1a"), None);
    assert_eq!(parse_node_index(b"5"), None);
    assert_eq!(parse_node_index(b"n99999999999999999999999999999"), None);
}
