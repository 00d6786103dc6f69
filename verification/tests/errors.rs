use davoxide::{Error, Type};

#[test]
fn status_codes_match_the_taxonomy() {
    assert_eq!(Error::Unauthorized.status_code(), 401);
    assert_eq!(Error::InvalidPermissions.status_code(), 403);
    assert_eq!(Error::NotFound.status_code(), 404);
    assert_eq!(Error::BadRequest.status_code(), 400);
    assert_eq!(Error::NotADirectory.status_code(), 400);
    assert_eq!(Error::NotAFile.status_code(), 400);
    assert_eq!(Error::Unexpected(String::from("cause")).status_code(), 500);
}

#[test]
fn public_messages_are_fixed_and_leak_nothing() {
    assert_eq!(Error::Unauthorized.public_message(), "unauthorized");
    assert_eq!(Error::InvalidPermissions.public_message(), "permission denied");
    assert_eq!(Error::NotFound.public_message(), "not found");
    assert_eq!(Error::BadRequest.public_message(), "bad request");
    assert_eq!(Error::NotADirectory.public_message(), "path is not a directory");
    assert_eq!(Error::NotAFile.public_message(), "path is not a file");
    assert_eq!(
        Error::Unexpected(String::from("secret database detail")).public_message(),
        "internal server error"
    );
}

#[test]
fn only_unauthorized_carries_a_basic_challenge() {
    assert!(Error::Unauthorized.requires_basic_challenge());
    assert!(!Error::InvalidPermissions.requires_basic_challenge());
    assert!(!Error::NotFound.requires_basic_challenge());
    assert!(!Error::Unexpected(String::new()).requires_basic_challenge());
}

#[test]
fn entry_types_classify_by_metadata() {
    assert_eq!(Type::classify(true, false), Type::Directory);
    assert_eq!(Type::classify(false, true), Type::File);
    assert_eq!(Type::classify(false, false), Type::Unknown);
    assert_eq!(Type::classify(true, true), Type::Directory);
}
