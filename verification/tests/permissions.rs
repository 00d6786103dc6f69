use davoxide::{Action, Error, Permission, User, check_permissions, effective_permission};

fn permission(path: &str, action: Action, children: bool) -> Permission {
    Permission {
        id: 1,
        applies_to: String::from("user"),
        path: String::from(path),
        action,
        affects_children: children,
    }
}

fn user_with(default_access: Action) -> User {
    User {
        username: String::from("user"),
        name: String::from("User"),
        access_token: None,
        default_access,
    }
}

#[test]
fn default_action() {
    let action = effective_permission(vec![], Action::Modify, "/");
    assert_eq!(action, Action::Modify);
}

#[test]
fn single_file() {
    let action = effective_permission(
        vec![permission("/test", Action::Read, false)],
        Action::Modify,
        "/test",
    );
    assert_eq!(action, Action::Read);
}

#[test]
fn folder_affecting_children() {
    let action = effective_permission(
        vec![permission("/abc", Action::Read, true)],
        Action::Modify,
        "/abc/def",
    );
    assert_eq!(action, Action::Read);
}

#[test]
fn file_in_folder_override() {
    let action = effective_permission(
        vec![
            permission("/abc", Action::Read, true),
            permission("/abc/def", Action::Modify, false),
        ],
        Action::Modify,
        "/abc/def",
    );
    assert_eq!(action, Action::Modify);
}

#[test]
fn deeply_nested_override() {
    let permissions = vec![
        permission("/folder", Action::Read, true),
        permission("/folder/sub/file", Action::Modify, false),
        permission("/folder/sub/no", Action::Deny, false),
    ];

    assert_eq!(
        effective_permission(permissions.clone(), Action::Modify, "/folder/abcdef"),
        Action::Read
    );
    assert_eq!(
        effective_permission(permissions.clone(), Action::Modify, "/folder/sub/no"),
        Action::Deny
    );
    assert_eq!(
        effective_permission(permissions.clone(), Action::Modify, "/folder/sub/file"),
        Action::Modify
    );
    assert_eq!(
        effective_permission(permissions, Action::Modify, "/folder/sub"),
        Action::Read
    );
}

#[test]
fn action_order_allows() {
    assert!(Action::Read.allows(Action::Deny));
    assert!(Action::Read.allows(Action::Read));
    assert!(!Action::Read.allows(Action::Modify));
    assert!(!Action::Read.allows(Action::Admin));
    assert!(Action::Admin.allows(Action::Modify));
    assert!(!Action::Deny.allows(Action::Read));
}

#[test]
fn no_rows_effective_is_default() {
    assert_eq!(
        effective_permission(vec![], Action::Modify, "anything/at/all"),
        Action::Modify
    );
    assert_eq!(effective_permission(vec![], Action::Modify, ""), Action::Modify);
}

#[test]
fn inherited_override() {
    let rows = vec![permission("/docs", Action::Read, true)];
    assert_eq!(
        effective_permission(rows.clone(), Action::Modify, "/docs/sub/file"),
        Action::Read
    );
    assert_eq!(effective_permission(rows.clone(), Action::Modify, "/docs"), Action::Read);
    assert_eq!(effective_permission(rows, Action::Modify, "/other"), Action::Modify);
}

#[test]
fn exact_beats_inherited_on_exact_path_only() {
    let rows = vec![
        permission("/docs", Action::Read, true),
        permission("/docs/sub", Action::Modify, false),
    ];
    assert_eq!(
        effective_permission(rows.clone(), Action::Modify, "/docs/sub"),
        Action::Modify
    );
    assert_eq!(
        effective_permission(rows, Action::Modify, "/docs/sub/x"),
        Action::Read
    );
}

#[test]
fn admin_bypasses_rows() {
    let admin = user_with(Action::Admin);
    let rows = vec![permission("/docs", Action::Deny, true)];
    assert_eq!(check_permissions(&admin, rows, "/docs/file", Action::Admin), Ok(()));
}

#[test]
fn check_permissions_allows_iff_effective_suffices() {
    let user = user_with(Action::Modify);
    let rows = vec![permission("/docs", Action::Read, true)];
    assert_eq!(
        check_permissions(&user, rows.clone(), "/docs/file", Action::Read),
        Ok(())
    );
    assert_eq!(
        check_permissions(&user, rows.clone(), "/docs/file", Action::Modify),
        Err(Error::InvalidPermissions)
    );
    assert_eq!(check_permissions(&user, rows, "/other", Action::Modify), Ok(()));
}

#[test]
fn sibling_prefix_is_not_a_descendant() {
    let rows = vec![permission("/abc", Action::Deny, true)];
    assert_eq!(
        effective_permission(rows, Action::Modify, "/abcdef"),
        Action::Modify
    );
}

#[test]
fn root_permission_governs_everything_when_inherited() {
    let rows = vec![Permission {
        id: 7,
        applies_to: String::from("user"),
        path: String::new(),
        action: Action::Deny,
        affects_children: true,
    }];
    assert_eq!(effective_permission(rows, Action::Modify, "any/path"), Action::Deny);
}
