use dht_storage::auth::UserManager;
use dht_storage::hexcode::{decode_hex, encode_hex};
use dht_storage::signing::{private_key_path, sign_message, KeyFile, SignError};

fn vector_secret() -> Vec<u8> {
    decode_hex("9d61b19deffd5a60ba844af492ec2cc44449c5697b326919703bac031cae7f60").unwrap()
}

#[test]
fn private_key_path_is_under_private_keys() {
    assert_eq!(private_key_path("alice"), "./private_keys/alice.private_key");
    assert_eq!(private_key_path(""), "./private_keys/.private_key");
}

#[test]
fn sign_message_gives_the_known_public_key_and_signature() {
    let signed = sign_message(KeyFile::Contents(vector_secret()), "").unwrap();
    assert_eq!(
        encode_hex(&signed.public_key),
        "d75a980182b10ab7d54bfed3c964073a0ee172f3daa62325af021a68f707511a"
    );
    assert_eq!(
        encode_hex(&signed.signature),
        "e5564300c360ac729086e2cc806e828a84877f1eb8e5d974d873e06522490155\
         5fb8821590a33bacc61e39701cf9b46bd25bf5f0595bbe24655141438e7a100b"
    );
    assert_eq!(signed.message, Vec::<u8>::new());
}

#[test]
fn sign_message_returns_the_message_bytes() {
    let signed = sign_message(KeyFile::Contents(vec![7u8; 32]), "héllo").unwrap();
    assert_eq!(signed.message, "héllo".as_bytes().to_vec());
    assert_eq!(signed.public_key.len(), 32);
    assert_eq!(signed.signature.len(), 64);
}

#[test]
fn sign_then_authenticate_accepts() {
    let manager = UserManager::new();
    for message in ["foo", "", "doc_total", "a longer message with spaces"] {
        let signed = sign_message(KeyFile::Contents(vec![42u8; 32]), message).unwrap();
        assert!(manager.authenticate(&signed.public_key, &signed.signature, &signed.message));
    }
}

#[test]
fn authenticate_rejects_another_message() {
    let manager = UserManager::new();
    let signed = sign_message(KeyFile::Contents(vec![42u8; 32]), "other").unwrap();
    assert!(!manager.authenticate(&signed.public_key, &signed.signature, b"foo"));
}

#[test]
fn authenticate_rejects_another_key() {
    let manager = UserManager::new();
    let signed = sign_message(KeyFile::Contents(vec![1u8; 32]), "foo").unwrap();
    let other = sign_message(KeyFile::Contents(vec![2u8; 32]), "foo").unwrap();
    assert!(!manager.authenticate(&other.public_key, &signed.signature, b"foo"));
}

#[test]
fn authenticate_rejects_malformed_encodings() {
    let manager = UserManager::new();
    let signed = sign_message(KeyFile::Contents(vec![42u8; 32]), "foo").unwrap();
    assert!(!manager.authenticate(&signed.public_key[..31], &signed.signature, b"foo"));
    assert!(!manager.authenticate(&signed.public_key, &signed.signature[..63], b"foo"));
    assert!(!manager.authenticate(&[], &[], b"foo"));
    let mut high = signed.signature.clone();
    high[63] |= 0xe0;
    assert!(!manager.authenticate(&signed.public_key, &high, b"foo"));
    let mut flipped = signed.signature.clone();
    flipped[0] ^= 1;
    assert!(!manager.authenticate(&signed.public_key, &flipped, b"foo"));
}

#[test]
fn sign_message_without_a_key_file_is_not_registered() {
    let error = sign_message(KeyFile::Missing, "foo").unwrap_err();
    assert_eq!(error, SignError::NotRegistered);
    assert_eq!(error.message(), "This client is not registered");
}

#[test]
fn sign_message_with_an_unreadable_key_file_is_a_read_failure() {
    let error = sign_message(KeyFile::Unreadable("permission denied".to_string()), "foo")
        .unwrap_err();
    assert_eq!(error, SignError::PrivateKeyRead("permission denied".to_string()));
    assert_eq!(error.message(), "permission denied");
}

#[test]
fn sign_message_with_a_short_key_is_a_read_failure() {
    for len in [0usize, 31, 33, 64] {
        let error = sign_message(KeyFile::Contents(vec![1u8; len]), "foo").unwrap_err();
        assert_eq!(
            error,
            SignError::PrivateKeyRead(
                "signature error: SecretKey must be 32 bytes in length".to_string()
            )
        );
    }
}

#[test]
fn signing_twice_gives_the_same_result() {
    for key_file in [
        KeyFile::Missing,
        KeyFile::Unreadable("denied".to_string()),
        KeyFile::Contents(vec![9u8; 32]),
        KeyFile::Contents(vec![9u8; 5]),
    ] {
        assert_eq!(sign_message(key_file.clone(), "doc"), sign_message(key_file, "doc"));
    }
}
