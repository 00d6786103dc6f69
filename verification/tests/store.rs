use davoxide::{Action, UserStore};

#[test]
fn upsert_creates_then_updates_without_duplicates() {
    let mut store = UserStore::new();
    let created = store.create_if_not_exists("erin", "Erin");
    assert_eq!(created.username, "erin");
    assert_eq!(created.name, "Erin");
    assert_eq!(created.default_access, Action::Modify);
    assert!(created.access_token.is_none());

    let updated = store.create_if_not_exists("erin", "Erin Q.");
    assert_eq!(updated.username, "erin");
    assert_eq!(updated.name, "Erin Q.");

    let all = store.list();
    assert_eq!(all.len(), 1);
    assert_eq!(all[0].name, "Erin Q.");
}

#[test]
fn upsert_keeps_token_and_access_of_existing_row() {
    let mut store = UserStore::new();
    store.create_if_not_exists("faye", "Faye");
    store.set_default_action("faye", Action::Read).unwrap();
    let token = store.regenerate_access_token("faye").unwrap();

    let after = store.create_if_not_exists("faye", "Faye II");
    assert_eq!(after.default_access, Action::Read);
    assert!(after.access_token.is_some());
    assert!(store.verify_access_token("faye", &token).is_some());
}

#[test]
fn get_and_delete() {
    let mut store = UserStore::new();
    store.create_if_not_exists("gil", "Gil");
    store.create_if_not_exists("hal", "Hal");
    assert_eq!(store.get("gil").unwrap().name, "Gil");
    assert!(store.get("ivy").is_none());

    store.delete("gil").unwrap();
    assert!(store.get("gil").is_none());
    assert_eq!(store.list().len(), 1);

    store.delete("ivy").unwrap();
    assert_eq!(store.list().len(), 1);
}

#[test]
fn delete_is_refused_while_permission_rows_remain() {
    let mut store = UserStore::new();
    store.create_if_not_exists("oak", "Oak");
    let p = store.assign_permission("oak", "docs", Action::Read, false).unwrap();
    assert!(store.delete("oak").is_err());
    assert!(store.get("oak").is_some());

    store.remove_permission(p.id);
    store.delete("oak").unwrap();
    assert!(store.get("oak").is_none());
}

#[test]
fn assign_and_remove_permissions() {
    let mut store = UserStore::new();
    store.create_if_not_exists("jan", "Jan");

    let first = store.assign_permission("jan", "docs", Action::Read, true).unwrap();
    let second = store.assign_permission("jan", "music", Action::Deny, false).unwrap();
    assert_ne!(first.id, second.id);
    assert_eq!(first.applies_to, "jan");
    assert_eq!(first.path, "docs");
    assert_eq!(first.action, Action::Read);
    assert!(first.affects_children);

    let rows = store.permissions("jan");
    assert_eq!(rows.len(), 2);
    assert_eq!(rows[0].path, "docs");
    assert_eq!(rows[1].path, "music");

    store.remove_permission(first.id);
    let rows = store.permissions("jan");
    assert_eq!(rows.len(), 1);
    assert_eq!(rows[0].path, "music");

    assert!(store.assign_permission("nobody", "x", Action::Read, false).is_err());
}

#[test]
fn permissions_are_per_user_and_ordered() {
    let mut store = UserStore::new();
    store.create_if_not_exists("kim", "Kim");
    store.create_if_not_exists("lee", "Lee");
    store.assign_permission("kim", "a", Action::Read, false).unwrap();
    store.assign_permission("lee", "b", Action::Deny, false).unwrap();
    store.assign_permission("kim", "c", Action::Admin, true).unwrap();

    let kim = store.permissions("kim");
    assert_eq!(kim.len(), 2);
    assert_eq!(kim[0].path, "a");
    assert_eq!(kim[1].path, "c");
    assert_eq!(store.permissions("lee").len(), 1);
}

#[test]
fn set_default_action_changes_only_the_target() {
    let mut store = UserStore::new();
    store.create_if_not_exists("mia", "Mia");
    store.create_if_not_exists("ned", "Ned");
    store.set_default_action("mia", Action::Admin).unwrap();
    assert_eq!(store.get("mia").unwrap().default_access, Action::Admin);
    assert_eq!(store.get("ned").unwrap().default_access, Action::Modify);
    assert!(store.set_default_action("zoe", Action::Read).is_err());
}
