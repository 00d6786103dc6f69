use davoxide::UserStore;

#[test]
fn regenerated_token_verifies_and_wrong_token_fails() {
    let mut store = UserStore::new();
    store.create_if_not_exists("alice", "Alice");
    let token = store.regenerate_access_token("alice").unwrap();
    assert_eq!(token.len(), 36);
    let verified = store.verify_access_token("alice", &token).unwrap();
    assert_eq!(verified.username, "alice");
    assert!(store.verify_access_token("alice", "not-the-token").is_none());
}

#[test]
fn revocation_rejects_the_previously_valid_token() {
    let mut store = UserStore::new();
    store.create_if_not_exists("bob", "Bob");
    let token = store.regenerate_access_token("bob").unwrap();
    assert!(store.verify_access_token("bob", &token).is_some());
    store.revoke_access_token("bob").unwrap();
    assert!(store.verify_access_token("bob", &token).is_none());
}

#[test]
fn regeneration_invalidates_the_first_token() {
    let mut store = UserStore::new();
    store.create_if_not_exists("carol", "Carol");
    let first = store.regenerate_access_token("carol").unwrap();
    let second = store.regenerate_access_token("carol").unwrap();
    assert!(store.verify_access_token("carol", &first).is_none());
    assert!(store.verify_access_token("carol", &second).is_some());
}

#[test]
fn user_without_stored_hash_accepts_nothing() {
    let mut store = UserStore::new();
    store.create_if_not_exists("dave", "Dave");
    assert!(store.verify_access_token("dave", "").is_none());
    assert!(store.verify_access_token("dave", "anything").is_none());
    assert!(store.verify_access_token("nobody", "anything").is_none());
}
