use davoxide::{
    AuthRequest, BasicAuth, Credentials, Error, HeaderField, SSOAuth, UserInfo, UserStore,
};

fn header(value: &str) -> HeaderField {
    HeaderField { present: true, value: Some(String::from(value)) }
}

fn missing() -> HeaderField {
    HeaderField { present: false, value: None }
}

fn undecodable() -> HeaderField {
    HeaderField { present: true, value: None }
}

#[test]
fn proxy_headers_win_and_upsert_the_user() {
    let mut store = UserStore::new();
    let req = AuthRequest {
        remote_user: header("olga"),
        remote_name: header("Olga"),
        authorization_present: true,
        basic: Some(Credentials {
            username: String::from("olga"),
            password: String::from("ignored"),
        }),
    };
    let info = UserInfo::from_request(&mut store, &req).unwrap();
    assert_eq!(info.username, "olga");
    assert_eq!(info.display_name, "Olga");
    assert_eq!(store.list().len(), 1);
}

#[test]
fn concurrent_first_auth_never_duplicates_rows() {
    let mut store = UserStore::new();
    let first = AuthRequest {
        remote_user: header("pam"),
        remote_name: header("Pam"),
        authorization_present: false,
        basic: None,
    };
    let second = AuthRequest {
        remote_user: header("pam"),
        remote_name: header("Pamela"),
        authorization_present: false,
        basic: None,
    };
    UserInfo::from_request(&mut store, &first).unwrap();
    let info = UserInfo::from_request(&mut store, &second).unwrap();
    assert_eq!(store.list().len(), 1);
    assert_eq!(info.display_name, "Pamela");
    assert_eq!(store.get("pam").unwrap().name, "Pamela");
}

#[test]
fn undecodable_proxy_header_is_unauthorized_not_fallthrough() {
    let mut store = UserStore::new();
    let req = AuthRequest {
        remote_user: undecodable(),
        remote_name: header("Quinn"),
        authorization_present: false,
        basic: None,
    };
    assert_eq!(
        UserInfo::from_request(&mut store, &req),
        Err(Error::Unauthorized)
    );
    assert_eq!(store.list().len(), 0);
}

#[test]
fn basic_credentials_are_second_choice() {
    let mut store = UserStore::new();
    store.create_if_not_exists("ron", "Ron");
    let token = store.regenerate_access_token("ron").unwrap();

    let req = AuthRequest {
        remote_user: missing(),
        remote_name: missing(),
        authorization_present: true,
        basic: Some(Credentials { username: String::from("ron"), password: token.clone() }),
    };
    let info = UserInfo::from_request(&mut store, &req).unwrap();
    assert_eq!(info.username, "ron");

    let bad = AuthRequest {
        remote_user: missing(),
        remote_name: missing(),
        authorization_present: true,
        basic: Some(Credentials { username: String::from("ron"), password: String::from("no") }),
    };
    assert_eq!(
        UserInfo::from_request(&mut store, &bad),
        Err(Error::Unauthorized)
    );
}

#[test]
fn no_credentials_is_unauthorized() {
    let mut store = UserStore::new();
    let req = AuthRequest {
        remote_user: missing(),
        remote_name: missing(),
        authorization_present: false,
        basic: None,
    };
    assert_eq!(
        UserInfo::from_request(&mut store, &req),
        Err(Error::Unauthorized)
    );
}

#[test]
fn partial_proxy_headers_fall_through_to_basic() {
    let mut store = UserStore::new();
    store.create_if_not_exists("sam", "Sam");
    let token = store.regenerate_access_token("sam").unwrap();
    let req = AuthRequest {
        remote_user: header("sam"),
        remote_name: missing(),
        authorization_present: true,
        basic: Some(Credentials { username: String::from("sam"), password: token }),
    };
    let info = UserInfo::from_request(&mut store, &req).unwrap();
    assert_eq!(info.username, "sam");
}

#[test]
fn sso_extract_upserts_and_basic_extract_verifies() {
    let mut store = UserStore::new();
    let user = SSOAuth::extract(&mut store, &header("tia"), &header("Tia")).unwrap();
    assert_eq!(user.username, "tia");
    assert!(SSOAuth::extract(&mut store, &missing(), &header("Tia")).is_none());

    let token = store.regenerate_access_token("tia").unwrap();
    let creds = Some(Credentials { username: String::from("tia"), password: token });
    assert!(BasicAuth::extract(&store, &creds).is_some());
    let wrong = Some(Credentials { username: String::from("tia"), password: String::from("x") });
    assert!(BasicAuth::extract(&store, &wrong).is_none());
    assert!(BasicAuth::extract(&store, &None).is_none());
}
