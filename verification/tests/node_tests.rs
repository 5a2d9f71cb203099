use dht_storage::chunk::Record;
use dht_storage::node::{AccessError, DhtRequest, Node, PutFileError, Quorum};
use dht_storage::signing::{sign_message, KeyFile, Signed};

fn signed_by(seed: u8, key: &str) -> Signed {
    sign_message(KeyFile::Contents(vec![seed; 32]), key).unwrap()
}

fn node_permitting(key: &str, public_key: &[u8]) -> Node {
    let mut node = Node::new("peer".to_string());
    node.user_manager.add_key_permission(key, public_key);
    node
}

#[test]
fn new_node_keeps_its_peer_id() {
    let node = Node::new("12D3KooW".to_string());
    assert_eq!(node.peer_id, "12D3KooW");
    assert!(!node.user_manager.check_key_permission("foo", &[1]));
}

#[test]
fn put_by_an_authorized_signer_is_a_write_with_quorum_three() {
    let signed = signed_by(1, "foo");
    let node = node_permitting("foo", &signed.public_key);
    let request =
        node.put("foo".to_string(), b"hello".to_vec(), signed.public_key, signed.signature);
    assert_eq!(
        request,
        Ok(DhtRequest::Put {
            record: Record { key: b"foo".to_vec(), value: b"hello".to_vec() },
            quorum: Quorum::N(3),
        })
    );
}

#[test]
fn put_without_permission_is_denied() {
    let signed = signed_by(1, "bar");
    let node = node_permitting("foo", &signed.public_key);
    let request = node.put("bar".to_string(), b"v".to_vec(), signed.public_key, signed.signature);
    assert_eq!(request, Err(AccessError::PermissionDenied));
}

#[test]
fn put_with_a_signature_over_another_key_fails_authentication() {
    let signed = signed_by(1, "other");
    let node = node_permitting("foo", &signed.public_key);
    let request = node.put("foo".to_string(), b"v".to_vec(), signed.public_key, signed.signature);
    assert_eq!(request, Err(AccessError::AuthenticationFailed));
}

#[test]
fn authentication_is_checked_before_permission() {
    let signed = signed_by(1, "other");
    let node = Node::new("peer".to_string());
    assert_eq!(
        node.authorize("foo", &signed.public_key, &signed.signature),
        Err(AccessError::AuthenticationFailed)
    );
    let valid = signed_by(1, "foo");
    assert_eq!(
        node.authorize("foo", &valid.public_key, &valid.signature),
        Err(AccessError::PermissionDenied)
    );
}

#[test]
fn get_by_an_authorized_signer_is_a_lookup_with_quorum_one() {
    let signed = signed_by(2, "foo");
    let node = node_permitting("foo", &signed.public_key);
    let request = node.get("foo".to_string(), signed.public_key, signed.signature);
    assert_eq!(request, Ok(DhtRequest::Get { key: b"foo".to_vec(), quorum: Quorum::One }));
}

#[test]
fn get_is_turned_away_like_put() {
    let signed = signed_by(2, "foo");
    let node = Node::new("peer".to_string());
    let request = node.get("foo".to_string(), signed.public_key.clone(), signed.signature.clone());
    assert_eq!(request, Err(AccessError::PermissionDenied));
    let request = node.get("bar".to_string(), signed.public_key, signed.signature);
    assert_eq!(request, Err(AccessError::AuthenticationFailed));
}

#[test]
fn get_file_looks_the_total_record_up() {
    let signed = signed_by(3, "doc");
    let node = node_permitting("doc", &signed.public_key);
    let request = node.get_file("doc".to_string(), signed.public_key, signed.signature);
    assert_eq!(request, Ok(DhtRequest::Get { key: b"doc_total".to_vec(), quorum: Quorum::One }));
}

#[test]
fn get_file_without_permission_is_denied() {
    let signed = signed_by(3, "doc");
    let node = Node::new("peer".to_string());
    let request = node.get_file("doc".to_string(), signed.public_key, signed.signature);
    assert_eq!(request, Err(AccessError::PermissionDenied));
}

#[test]
fn put_file_writes_each_chunk_and_then_the_total() {
    let signed = signed_by(4, "doc");
    let node = node_permitting("doc", &signed.public_key);
    let content = "a".repeat(500) + &"b".repeat(500) + &"c".repeat(200);
    let requests = node
        .put_file("doc".to_string(), Ok(content), signed.public_key, signed.signature)
        .unwrap();
    let expected = vec![
        (b"doc_0_3".to_vec(), "a".repeat(500).into_bytes()),
        (b"doc_1_3".to_vec(), "b".repeat(500).into_bytes()),
        (b"doc_2_3".to_vec(), "c".repeat(200).into_bytes()),
        (b"doc_total".to_vec(), b"3".to_vec()),
    ];
    assert_eq!(requests.len(), 4);
    for (request, (key, value)) in requests.into_iter().zip(expected) {
        assert_eq!(
            request,
            DhtRequest::Put { record: Record { key, value }, quorum: Quorum::N(3) }
        );
    }
}

#[test]
fn put_file_of_an_unreadable_file_says_why() {
    let signed = signed_by(4, "doc");
    let node = node_permitting("doc", &signed.public_key);
    let outcome = node.put_file(
        "doc".to_string(),
        Err("No such file".to_string()),
        signed.public_key,
        signed.signature,
    );
    assert_eq!(outcome, Err(PutFileError::Unreadable("No such file".to_string())));
}

#[test]
fn put_file_is_turned_away_before_the_file_is_looked_at() {
    let signed = signed_by(4, "doc");
    let node = Node::new("peer".to_string());
    let outcome = node.put_file(
        "doc".to_string(),
        Err("No such file".to_string()),
        signed.public_key.clone(),
        signed.signature.clone(),
    );
    assert_eq!(outcome, Err(PutFileError::Access(AccessError::PermissionDenied)));
    let outcome = node.put_file(
        "other".to_string(),
        Ok("text".to_string()),
        signed.public_key,
        signed.signature,
    );
    assert_eq!(outcome, Err(PutFileError::Access(AccessError::AuthenticationFailed)));
}

#[test]
fn admitted_request_has_a_32_byte_key_and_a_64_byte_signature() {
    let signed = signed_by(5, "foo");
    let mut node = node_permitting("foo", &signed.public_key);
    assert_eq!(signed.public_key.len(), 32);
    assert_eq!(signed.signature.len(), 64);
    assert_eq!(node.authorize("foo", &signed.public_key, &signed.signature), Ok(()));
    let short_key = signed.public_key[..31].to_vec();
    node.user_manager.add_key_permission("foo", &short_key);
    assert_eq!(
        node.authorize("foo", &short_key, &signed.signature),
        Err(AccessError::AuthenticationFailed)
    );
    assert_eq!(
        node.authorize("foo", &signed.public_key, &signed.signature[..63]),
        Err(AccessError::AuthenticationFailed)
    );
}
