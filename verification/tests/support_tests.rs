use dht_storage::claims::Claims;
use dht_storage::hashing::HashRing;
use dht_storage::network::CommunicationServer;

#[test]
fn server_keeps_its_address() {
    let server = CommunicationServer::new("127.0.0.1:8080");
    assert_eq!(server.address(), "127.0.0.1:8080");
}

#[test]
fn claims_authorize_the_exact_role() {
    let claims = Claims { sub: "alice".to_string(), role: "admin".to_string(), exp: 1_700_000_000 };
    assert!(claims.authorize("admin"));
    assert!(!claims.authorize("user"));
    assert!(!claims.authorize("Admin"));
    assert!(!claims.authorize(""));
}

#[test]
fn ring_remembers_added_nodes() {
    let mut ring = HashRing::new();
    assert!(!ring.remove_node(7));
    let first = ring.add_node(7);
    let second = ring.add_node(7);
    assert_eq!(first, second);
    assert!(ring.remove_node(7));
    assert!(!ring.remove_node(7));
}

#[test]
fn ring_hashes_different_nodes_differently() {
    let mut ring = HashRing::new();
    assert_ne!(ring.add_node(1), ring.add_node(2));
}

#[test]
fn ring_loads_nodes_line_by_line() {
    let mut ring = HashRing::new();
    let lines: Vec<String> =
        ["1", "two", "3", "", "+4", "18446744073709551616"].iter().map(|l| l.to_string()).collect();
    let rejected = ring.load_nodes(&lines);
    assert_eq!(rejected, vec!["two".to_string(), String::new(), "18446744073709551616".to_string()]);
    assert!(ring.remove_node(1));
    assert!(ring.remove_node(3));
    assert!(ring.remove_node(4));
    assert!(!ring.remove_node(2));
}

#[test]
fn ring_records_the_given_hash() {
    let mut ring = HashRing::new();
    ring.add_node_with_hash(9, 99);
    assert!(ring.remove_node(9));
}
