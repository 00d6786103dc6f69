use davoxide::{Action, Error, Mutation, Query, UserStore};

fn store_with_admin() -> UserStore {
    let mut store = UserStore::new();
    store.create_if_not_exists("root", "Root");
    store.set_default_action("root", Action::Admin).unwrap();
    store
}

#[test]
fn non_admin_is_denied_every_gated_operation() {
    let mut store = UserStore::new();
    let caller = store.create_if_not_exists("uma", "Uma");
    store.create_if_not_exists("vic", "Vic");

    assert_eq!(
        Mutation::update_default_permission(&mut store, &caller, "vic", Action::Admin),
        Err(Error::InvalidPermissions)
    );
    assert_eq!(
        Mutation::delete_user(&mut store, &caller, "vic"),
        Err(Error::InvalidPermissions)
    );
    assert_eq!(
        Mutation::assign_permission_to_user(&mut store, &caller, "vic", "/x", Action::Read, false),
        Err(Error::InvalidPermissions)
    );
    assert_eq!(
        Mutation::remove_permission(&mut store, &caller, 1),
        Err(Error::InvalidPermissions)
    );
    assert_eq!(
        Query::users(&store, &caller).unwrap_err(),
        Error::InvalidPermissions
    );
    assert_eq!(
        Query::user(&store, &caller, "vic").unwrap_err(),
        Error::InvalidPermissions
    );
}

#[test]
fn admin_manages_users_and_permissions() {
    let mut store = store_with_admin();
    let admin = store.get("root").unwrap();
    store.create_if_not_exists("wes", "Wes");

    let updated = Mutation::update_default_permission(&mut store, &admin, "wes", Action::Read)
        .unwrap();
    assert_eq!(updated.username, "wes");
    assert_eq!(store.get("wes").unwrap().default_access, Action::Read);

    let p = Mutation::assign_permission_to_user(
        &mut store,
        &admin,
        "wes",
        "/docs/",
        Action::Deny,
        true,
    )
    .unwrap();
    assert_eq!(p.path, "docs");
    assert_eq!(store.permissions("wes").len(), 1);

    assert_eq!(Mutation::remove_permission(&mut store, &admin, p.id), Ok(p.id));
    assert_eq!(store.permissions("wes").len(), 0);

    assert_eq!(
        Mutation::delete_user(&mut store, &admin, "wes"),
        Ok(String::from("wes"))
    );
    assert!(store.get("wes").is_none());
}

#[test]
fn self_deletion_is_forbidden() {
    let mut store = store_with_admin();
    let admin = store.get("root").unwrap();
    assert_eq!(
        Mutation::delete_user(&mut store, &admin, "root"),
        Err(Error::BadRequest)
    );
    assert!(store.get("root").is_some());
}

#[test]
fn assigned_paths_are_sanitized_at_write_time() {
    let mut store = store_with_admin();
    let admin = store.get("root").unwrap();
    store.create_if_not_exists("xan", "Xan");

    let p = Mutation::assign_permission_to_user(
        &mut store,
        &admin,
        "xan",
        "//a/./b/../c/",
        Action::Read,
        false,
    )
    .unwrap();
    assert_eq!(p.path, "a/c");

    assert_eq!(
        Mutation::assign_permission_to_user(&mut store, &admin, "xan", "../up", Action::Read, false),
        Err(Error::InvalidPermissions)
    );
    assert_eq!(
        Mutation::assign_permission_to_user(&mut store, &admin, "ghost", "ok", Action::Read, false),
        Err(Error::NotFound)
    );
}

#[test]
fn unknown_target_user_is_not_found() {
    let mut store = store_with_admin();
    let admin = store.get("root").unwrap();
    assert_eq!(
        Mutation::update_default_permission(&mut store, &admin, "ghost", Action::Read),
        Err(Error::NotFound)
    );
    assert_eq!(Query::user(&store, &admin, "ghost").unwrap_err(), Error::NotFound);
}

#[test]
fn self_token_operations_need_no_admin() {
    let mut store = UserStore::new();
    let caller = store.create_if_not_exists("yve", "Yve");
    let token = Mutation::regenerate_access_token(&mut store, &caller).unwrap();
    assert!(store.verify_access_token("yve", &token).is_some());

    let returned = Mutation::revoke_access_token(&mut store, &caller);
    assert_eq!(returned.username, "yve");
    assert!(store.verify_access_token("yve", &token).is_none());
}

#[test]
fn list_directory_sanitizes_and_checks_read() {
    let mut store = store_with_admin();
    store.create_if_not_exists("ada", "Ada");
    let admin = store.get("root").unwrap();
    Mutation::assign_permission_to_user(&mut store, &admin, "ada", "private", Action::Deny, true)
        .unwrap();
    let ada = store.get("ada").unwrap();

    let root_path = String::from("/");
    assert_eq!(Query::list_directory(&store, &ada, Some(&root_path)), Ok(String::new()));
    assert_eq!(Query::list_directory(&store, &ada, None), Ok(String::new()));

    let nested = String::from("/docs/../music/");
    assert_eq!(
        Query::list_directory(&store, &ada, Some(&nested)),
        Ok(String::from("music"))
    );

    let denied = String::from("private/file");
    assert_eq!(
        Query::list_directory(&store, &ada, Some(&denied)),
        Err(Error::InvalidPermissions)
    );

    let escape = String::from("../outside");
    assert_eq!(
        Query::list_directory(&store, &ada, Some(&escape)),
        Err(Error::InvalidPermissions)
    );
}

#[test]
fn query_me_and_users() {
    let mut store = store_with_admin();
    let admin = store.get("root").unwrap();
    store.create_if_not_exists("zed", "Zed");

    let me = Query::me(&admin);
    assert_eq!(me.username, "root");

    let users = Query::users(&store, &admin).unwrap();
    assert_eq!(users.len(), 2);
    assert_eq!(Query::user(&store, &admin, "zed").unwrap().name, "Zed");
}
