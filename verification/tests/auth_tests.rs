use dht_storage::auth::{RegistrationError, UserManager};
use dht_storage::signing::{sign_message, KeyFile};

#[test]
fn new_manager_permits_nothing() {
    let manager = UserManager::new();
    assert!(!manager.check_key_permission("foo", &[1, 2, 3]));
    assert!(!manager.check_key_permission("", &[]));
}

#[test]
fn permission_holds_after_it_was_added() {
    let mut manager = UserManager::new();
    manager.add_key_permission("foo", &[1, 2, 3]);
    assert!(manager.check_key_permission("foo", &[1, 2, 3]));
}

#[test]
fn permission_is_for_one_key_and_one_public_key() {
    let mut manager = UserManager::new();
    manager.add_key_permission("foo", &[1, 2, 3]);
    assert!(!manager.check_key_permission("bar", &[1, 2, 3]));
    assert!(!manager.check_key_permission("foo", &[1, 2]));
    assert!(!manager.check_key_permission("foo", &[1, 2, 3, 4]));
    assert!(!manager.check_key_permission("fo", &[1, 2, 3]));
    assert!(!manager.check_key_permission("foo_total", &[1, 2, 3]));
}

#[test]
fn several_public_keys_on_one_key() {
    let mut manager = UserManager::new();
    manager.add_key_permission("foo", &[1]);
    manager.add_key_permission("bar", &[2]);
    manager.add_key_permission("foo", &[3]);
    assert!(manager.check_key_permission("foo", &[1]));
    assert!(manager.check_key_permission("foo", &[3]));
    assert!(manager.check_key_permission("bar", &[2]));
    assert!(!manager.check_key_permission("foo", &[2]));
    assert!(!manager.check_key_permission("bar", &[1]));
}

#[test]
fn adding_a_permission_twice_changes_no_answer() {
    let mut manager = UserManager::new();
    manager.add_key_permission("foo", &[1]);
    let once: Vec<bool> = probes().iter().map(|(k, p)| manager.check_key_permission(k, p)).collect();
    manager.add_key_permission("foo", &[1]);
    let twice: Vec<bool> =
        probes().iter().map(|(k, p)| manager.check_key_permission(k, p)).collect();
    assert_eq!(once, twice);
    assert_eq!(once, vec![true, false, false, false]);
}

fn probes() -> Vec<(&'static str, Vec<u8>)> {
    vec![("foo", vec![1]), ("foo", vec![2]), ("bar", vec![1]), ("", vec![])]
}

#[test]
fn register_user_prepares_a_fresh_key_pair() {
    let manager = UserManager::new();
    let pending = manager.register_user("alice", false).unwrap();
    assert_eq!(pending.username, "alice");
    assert!(!pending.is_admin);
    assert_eq!(pending.public_key.len(), 32);
    assert_eq!(pending.private_key.len(), 32);
    assert_eq!(pending.private_key_path, "./private_keys/alice.private_key");
    let signed = sign_message(KeyFile::Contents(pending.private_key.clone()), "foo").unwrap();
    assert_eq!(signed.public_key, pending.public_key);
}

#[test]
fn register_user_gives_different_keys_each_time() {
    let manager = UserManager::new();
    let first = manager.register_user("alice", false).unwrap();
    let second = manager.register_user("alice", true).unwrap();
    assert_ne!(first.public_key, second.public_key);
    assert_ne!(first.private_key, second.private_key);
    assert!(second.is_admin);
}

#[test]
fn completed_registration_returns_the_public_key() {
    let mut manager = UserManager::new();
    let pending = manager.register_user("alice", false).unwrap();
    let public_key = pending.public_key.clone();
    assert_eq!(manager.complete_registration(pending, Ok(())), Ok(public_key));
}

#[test]
fn registered_key_cannot_be_registered_again() {
    let mut manager = UserManager::new();
    let pending = manager.register_user("alice", false).unwrap();
    let private_key = pending.private_key.clone();
    let public_key = pending.public_key.clone();
    manager.complete_registration(pending, Ok(())).unwrap();
    let again = manager.prepare_registration("bob", false, private_key, public_key);
    assert_eq!(again, Err(RegistrationError::UserExists));
    assert_eq!(RegistrationError::UserExists.message(), "User already exists");
}

#[test]
fn completing_a_registration_twice_registers_once() {
    let mut manager = UserManager::new();
    let pending = manager.register_user("alice", false).unwrap();
    let mut again = pending.clone();
    again.username = "mallory".to_string();
    again.is_admin = true;
    manager.complete_registration(pending, Ok(())).unwrap();
    assert_eq!(manager.complete_registration(again, Ok(())), Err(RegistrationError::UserExists));
}

#[test]
fn failed_key_write_registers_nobody() {
    let mut manager = UserManager::new();
    let pending = manager.register_user("alice", false).unwrap();
    let private_key = pending.private_key.clone();
    let public_key = pending.public_key.clone();
    let outcome = manager.complete_registration(pending, Err("disk full".to_string()));
    assert_eq!(outcome, Err(RegistrationError::PrivateKeyStore("disk full".to_string())));
    assert_eq!(outcome.unwrap_err().message(), "disk full");
    assert!(manager.prepare_registration("alice", false, private_key, public_key).is_ok());
}

#[test]
fn registration_grants_no_permission() {
    let mut manager = UserManager::new();
    let pending = manager.register_user("alice", true).unwrap();
    let public_key = manager.complete_registration(pending, Ok(())).unwrap();
    assert!(!manager.check_key_permission("foo", &public_key));
}

#[test]
fn registration_on_an_empty_directory_succeeds() {
    for _ in 0..20 {
        let manager = UserManager::new();
        assert!(manager.register_user("alice", false).is_ok());
    }
}
