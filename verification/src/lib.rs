//! Access-control core for a personal file server.
//!
//! The crate decides, for every request on a file-protocol endpoint or a
//! management API, whether the calling identity may perform the requested
//! action on the requested path: it normalizes untrusted path strings,
//! resolves an identity from proxy headers or Basic credentials, and folds a
//! default-plus-override permission hierarchy into one effective permission.

mod action;
mod authentication;
mod error;
mod fs;
mod management;
mod path;
mod permission;
mod permissions;
mod store;
mod token;
mod user;
mod webdav;

pub use action::Action;
pub use action::lemma_action_total_order;
pub use authentication::{
    AuthRequest, BasicAuth, Credentials, HeaderField, SSOAuth, UserInfo, ensure_authenticated,
};
pub use error::Error;
pub use fs::Type;
pub use management::{Mutation, Query};
pub use path::{
    apply_segment_spec, is_normal_segment, is_normal_stack, is_parent_segment, is_skip_segment,
    join_segments, lemma_escape_rejected, lemma_sanitize_idempotent, normalize_segments,
    sanitize_path, sanitize_spec, segment_has_no_sep, split_segments,
};
pub use permission::{Permission, PermissionView, views_of_permissions};
pub use permissions::{
    authorized, check_permissions, effective_access, effective_permission,
    effective_permission_spec, is_within, lemma_admin_bypass, lemma_authorized_iff_effective,
    lemma_no_rows_default, path_is_within, permission_matches, str_eq,
};
pub use store::{
    UserStore, default_user, lemma_concurrent_first_auth, lemma_lookup_username,
    lemma_regeneration_invalidation, lemma_revocation, lemma_set_token_noop_when_absent,
    lookup_user, removed_permission, removed_user, rows_for, set_access, set_token, upserted,
    usernames_unique, verify_spec,
};
pub use token::argon_verifies;
pub use user::{User, UserView, views_of_users};
pub use webdav::{
    DavMethod, authorize_request, method_for_name, percent_decoded_of, required_permission,
    required_permission_spec,
};
