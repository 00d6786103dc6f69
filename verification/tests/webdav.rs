use davoxide::{
    Action, DavMethod, Error, Permission, User, authorize_request, required_permission,
};

fn user_with(default_access: Action) -> User {
    User {
        username: String::from("user"),
        name: String::from("User"),
        access_token: None,
        default_access,
    }
}

fn permission(path: &str, action: Action, children: bool) -> Permission {
    Permission {
        id: 1,
        applies_to: String::from("user"),
        path: String::from(path),
        action,
        affects_children: children,
    }
}

#[test]
fn method_names_parse_exactly() {
    assert_eq!(DavMethod::from_name("GET"), Ok(DavMethod::Get));
    assert_eq!(DavMethod::from_name("PROPFIND"), Ok(DavMethod::PropFind));
    assert_eq!(DavMethod::from_name("PROPPATCH"), Ok(DavMethod::PropPatch));
    assert_eq!(DavMethod::from_name("UNLOCK"), Ok(DavMethod::Unlock));
    assert_eq!(DavMethod::from_name("get"), Err(Error::BadRequest));
    assert_eq!(DavMethod::from_name("TRACE"), Err(Error::BadRequest));
    assert_eq!(DavMethod::from_name(""), Err(Error::BadRequest));
}

#[test]
fn required_permission_maps_methods_to_actions() {
    assert_eq!(required_permission(DavMethod::Get), Action::Read);
    assert_eq!(required_permission(DavMethod::Head), Action::Read);
    assert_eq!(required_permission(DavMethod::Options), Action::Read);
    assert_eq!(required_permission(DavMethod::PropFind), Action::Read);
    assert_eq!(required_permission(DavMethod::Copy), Action::Modify);
    assert_eq!(required_permission(DavMethod::Delete), Action::Modify);
    assert_eq!(required_permission(DavMethod::MkCol), Action::Modify);
    assert_eq!(required_permission(DavMethod::Move), Action::Modify);
    assert_eq!(required_permission(DavMethod::Patch), Action::Modify);
    assert_eq!(required_permission(DavMethod::PropPatch), Action::Modify);
    assert_eq!(required_permission(DavMethod::Put), Action::Modify);
    assert_eq!(required_permission(DavMethod::Lock), Action::Admin);
    assert_eq!(required_permission(DavMethod::Unlock), Action::Admin);
}

#[test]
fn authorize_request_normalizes_and_checks() {
    let user = user_with(Action::Modify);
    let ok = authorize_request(&user, vec![], "/docs/./sub/../file.txt", DavMethod::Get);
    assert_eq!(ok, Ok(String::from("docs/file.txt")));
}

#[test]
fn percent_encoding_is_decoded_before_sanitizing() {
    let user = user_with(Action::Modify);
    let ok = authorize_request(&user, vec![], "/docs%2Fsub/../file", DavMethod::Get);
    assert_eq!(ok, Ok(String::from("docs/file")));
}

#[test]
fn escape_attempts_are_denied_opaquely() {
    let user = user_with(Action::Modify);
    assert_eq!(
        authorize_request(&user, vec![], "/../etc/passwd", DavMethod::Get),
        Err(Error::InvalidPermissions)
    );
    assert_eq!(
        authorize_request(&user, vec![], "/%2e%2e/etc", DavMethod::Get),
        Err(Error::InvalidPermissions)
    );
}

#[test]
fn insufficient_effective_permission_is_denied() {
    let user = user_with(Action::Modify);
    let rows = vec![permission("docs", Action::Read, true)];
    assert_eq!(
        authorize_request(&user, rows.clone(), "/docs/file", DavMethod::Put),
        Err(Error::InvalidPermissions)
    );
    assert_eq!(
        authorize_request(&user, rows, "/docs/file", DavMethod::Get),
        Ok(String::from("docs/file"))
    );
}

#[test]
fn lock_needs_admin() {
    let modify_user = user_with(Action::Modify);
    assert_eq!(
        authorize_request(&modify_user, vec![], "/x", DavMethod::Lock),
        Err(Error::InvalidPermissions)
    );
    let admin = user_with(Action::Admin);
    assert_eq!(
        authorize_request(&admin, vec![], "/x", DavMethod::Lock),
        Ok(String::from("x"))
    );
}
