use davoxide::{Error, sanitize_path};

#[test]
fn keeps_plain_relative_paths() {
    assert_eq!(sanitize_path("docs/file.txt"), Ok(String::from("docs/file.txt")));
}

#[test]
fn strips_root_and_current_dir_markers() {
    assert_eq!(sanitize_path("/docs/./file"), Ok(String::from("docs/file")));
    assert_eq!(sanitize_path("./a/b"), Ok(String::from("a/b")));
    assert_eq!(sanitize_path("//a///b//"), Ok(String::from("a/b")));
}

#[test]
fn empty_and_root_collapse_to_empty() {
    assert_eq!(sanitize_path(""), Ok(String::new()));
    assert_eq!(sanitize_path("/"), Ok(String::new()));
    assert_eq!(sanitize_path("."), Ok(String::new()));
}

#[test]
fn parent_marker_pops_a_segment() {
    assert_eq!(sanitize_path("a/../b"), sanitize_path("b"));
    assert_eq!(sanitize_path("a/b/.."), sanitize_path("a"));
    assert_eq!(sanitize_path("a/../b"), Ok(String::from("b")));
    assert_eq!(sanitize_path("a/b/.."), Ok(String::from("a")));
}

#[test]
fn escape_attempts_are_rejected() {
    assert_eq!(sanitize_path(".."), Err(Error::InvalidPermissions));
    assert_eq!(sanitize_path("/.."), Err(Error::InvalidPermissions));
    assert_eq!(sanitize_path("../etc/passwd"), Err(Error::InvalidPermissions));
    assert_eq!(sanitize_path("a/../../b"), Err(Error::InvalidPermissions));
    assert_eq!(sanitize_path("a/b/../../../c"), Err(Error::InvalidPermissions));
}

#[test]
fn sanitize_is_idempotent_on_samples() {
    for raw in ["", "/", "a/../b", "/docs/./sub//file", "x/y/z/..", "..a/b..", "..."] {
        let once = sanitize_path(raw).unwrap();
        let twice = sanitize_path(&once).unwrap();
        assert_eq!(once, twice);
    }
}

#[test]
fn dot_prefixed_names_are_ordinary_segments() {
    assert_eq!(sanitize_path(".hidden"), Ok(String::from(".hidden")));
    assert_eq!(sanitize_path("..."), Ok(String::from("...")));
    assert_eq!(sanitize_path("..a"), Ok(String::from("..a")));
}
