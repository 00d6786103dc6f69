//! The management operations exposed to the API layer. Each one is gated on
//! the caller's default access being `Admin`, except the two operations a
//! caller performs on their own token.

use vstd::prelude::*;

use crate::action::Action;
use crate::error::Error;
use crate::path::{sanitize_path, sanitize_spec};
use crate::permission::{Permission, PermissionView};
use crate::store::{
    UserStore, lemma_set_token_noop_when_absent, lookup_user, removed_permission, removed_user,
    rows_for, set_access, set_token, verify_spec,
};
use crate::user::User;

verus! {

/// The mutating management operations.
pub struct Mutation;

impl Mutation {
    /// Re-generate the calling user's own access token; no admin gate. The
    /// fresh plaintext token is returned once and never stored.
    pub fn regenerate_access_token(store: &mut UserStore, current_user: &User) -> (r: Result<
        String,
        Error,
    >)
        requires
            old(store).wf(),
        ensures
            final(store).wf(),
            final(store).permissions_view() == old(store).permissions_view(),
            final(store).next_id() == old(store).next_id(),
            match r {
                Ok(t) => lookup_user(old(store).users_view(), current_user@.username) is Some
                    && t@.len() == 36 && verify_spec(
                    final(store).users_view(),
                    current_user@.username,
                    t@,
                ) is Some,
                Err(e) => final(store).users_view() == old(store).users_view() && (if lookup_user(
                    old(store).users_view(),
                    current_user@.username,
                ) is None {
                    e == Error::NotFound
                } else {
                    e is Unexpected
                }),
            },
    {
        store.regenerate_access_token(current_user.username.as_str())
    }

    /// Revoke the calling user's own access token; no admin gate. Every
    /// previously issued token stops verifying at once, and the identity
    /// from the request context is handed back unchanged.
    pub fn revoke_access_token(store: &mut UserStore, current_user: &User) -> (r: User)
        requires
            old(store).wf(),
        ensures
            final(store).wf(),
            final(store).permissions_view() == old(store).permissions_view(),
            final(store).next_id() == old(store).next_id(),
            final(store).users_view() == set_token(
                old(store).users_view(),
                current_user@.username,
                None,
            ),
            r@ == current_user@,
    {
        match store.revoke_access_token(current_user.username.as_str()) {
            Ok(()) => {}
            Err(_) => {
                proof {
                    lemma_set_token_noop_when_absent(
                        old(store).users_view(),
                        current_user@.username,
                        None,
                    );
                }
            }
        }
        current_user.clone()
    }

    /// Change another user's default access; admin only.
    pub fn update_default_permission(
        store: &mut UserStore,
        current_user: &User,
        username: &str,
        action: Action,
    ) -> (r: Result<User, Error>)
        requires
            old(store).wf(),
        ensures
            final(store).wf(),
            final(store).permissions_view() == old(store).permissions_view(),
            final(store).next_id() == old(store).next_id(),
            current_user@.default_access != Action::Admin ==> r == Err::<User, Error>(
                Error::InvalidPermissions,
            ) && final(store).users_view() == old(store).users_view(),
            current_user@.default_access == Action::Admin ==> match lookup_user(
                old(store).users_view(),
                username@,
            ) {
                Some(x) => r is Ok && r->Ok_0@ == x && final(store).users_view() == set_access(
                    old(store).users_view(),
                    username@,
                    action,
                ),
                None => r == Err::<User, Error>(Error::NotFound) && final(store).users_view()
                    == old(store).users_view(),
            },
    {
        if !current_user.is_admin() {
            return Err(Error::InvalidPermissions);
        }
        match store.get(username) {
            None => Err(Error::NotFound),
            Some(user) => {
                let set = store.set_default_action(username, action);
                match set {
                    Ok(()) => Ok(user),
                    Err(e) => Err(e),
                }
            }
        }
    }

    /// Permanently delete a user; admin only, and never oneself.
    pub fn delete_user(store: &mut UserStore, current_user: &User, username: &str) -> (r: Result<
        String,
        Error,
    >)
        requires
            old(store).wf(),
        ensures
            final(store).wf(),
            final(store).permissions_view() == old(store).permissions_view(),
            final(store).next_id() == old(store).next_id(),
            current_user@.default_access != Action::Admin ==> r == Err::<String, Error>(
                Error::InvalidPermissions,
            ) && final(store).users_view() == old(store).users_view(),
            current_user@.default_access == Action::Admin && current_user@.username == username@
                ==> r == Err::<String, Error>(Error::BadRequest) && final(store).users_view()
                == old(store).users_view(),
            current_user@.default_access == Action::Admin && current_user@.username != username@
                ==> (if rows_for(old(store).permissions_view(), username@).len() > 0 {
                r is Err && r->Err_0 is Unexpected && final(store).users_view() == old(
                    store,
                ).users_view()
            } else {
                r is Ok && r->Ok_0@ == username@ && final(store).users_view() == removed_user(
                    old(store).users_view(),
                    username@,
                )
            }),
    {
        if !current_user.is_admin() {
            return Err(Error::InvalidPermissions);
        }
        if crate::permissions::str_eq(current_user.username.as_str(), username) {
            return Err(Error::BadRequest);
        }
        match store.delete(username) {
            Ok(()) => Ok(username.to_owned()),
            Err(e) => Err(e),
        }
    }

    /// Assign a permission to a user; admin only. The path is sanitized at
    /// write time, so stored permission paths are always normalized and
    /// root-relative; a path that escapes the root is rejected outright.
    pub fn assign_permission_to_user(
        store: &mut UserStore,
        current_user: &User,
        username: &str,
        path: &str,
        action: Action,
        affects_children: bool,
    ) -> (r: Result<Permission, Error>)
        requires
            old(store).wf(),
        ensures
            final(store).wf(),
            final(store).users_view() == old(store).users_view(),
            current_user@.default_access != Action::Admin ==> r == Err::<Permission, Error>(
                Error::InvalidPermissions,
            ) && final(store).permissions_view() == old(store).permissions_view() && final(store).next_id() == old(store).next_id(),
            current_user@.default_access == Action::Admin ==> match sanitize_spec(path@) {
                None => r == Err::<Permission, Error>(Error::InvalidPermissions) && final(store).permissions_view() == old(store).permissions_view() && final(store).next_id()
                    == old(store).next_id(),
                Some(normalized) => match lookup_user(old(store).users_view(), username@) {
                    None => r == Err::<Permission, Error>(Error::NotFound) && final(store).permissions_view() == old(store).permissions_view() && final(store).next_id() == old(store).next_id(),
                    Some(_) => match r {
                        Ok(p) => old(store).next_id() < i32::MAX && p@ == (PermissionView {
                            id: old(store).next_id(),
                            applies_to: username@,
                            path: normalized,
                            action,
                            affects_children,
                        }) && final(store).permissions_view() == old(store).permissions_view().push(p@) && final(store).next_id() == old(store).next_id() + 1,
                        Err(e) => e is Unexpected && old(store).next_id() == i32::MAX && final(store).permissions_view() == old(store).permissions_view() && final(store).next_id() == old(store).next_id(),
                    },
                },
            },
    {
        if !current_user.is_admin() {
            return Err(Error::InvalidPermissions);
        }
        let normalized = match sanitize_path(path) {
            Ok(p) => p,
            Err(e) => {
                return Err(e);
            }
        };
        match store.get(username) {
            None => Err(Error::NotFound),
            Some(_) => store.assign_permission(
                username,
                normalized.as_str(),
                action,
                affects_children,
            ),
        }
    }

    /// Remove a permission by id; admin only.
    pub fn remove_permission(store: &mut UserStore, current_user: &User, permission_id: i32)
        -> (r: Result<i32, Error>)
        requires
            old(store).wf(),
        ensures
            final(store).wf(),
            final(store).users_view() == old(store).users_view(),
            final(store).next_id() == old(store).next_id(),
            current_user@.default_access != Action::Admin ==> r == Err::<i32, Error>(
                Error::InvalidPermissions,
            ) && final(store).permissions_view() == old(store).permissions_view(),
            current_user@.default_access == Action::Admin ==> r == Ok::<i32, Error>(permission_id)
                && final(store).permissions_view() == removed_permission(
                old(store).permissions_view(),
                permission_id,
            ),
    {
        if !current_user.is_admin() {
            return Err(Error::InvalidPermissions);
        }
        store.remove_permission(permission_id);
        Ok(permission_id)
    }
}

/// The read-only management operations.
pub struct Query;

impl Query {
    /// The calling user's own identity.
    pub fn me(current_user: &User) -> (r: User)
        ensures
            r@ == current_user@,
    {
        current_user.clone()
    }

    /// All users; admin only.
    pub fn users(store: &UserStore, current_user: &User) -> (r: Result<Vec<User>, Error>)
        ensures
            current_user@.default_access != Action::Admin ==> r == Err::<Vec<User>, Error>(
                Error::InvalidPermissions,
            ),
            current_user@.default_access == Action::Admin ==> r is Ok && crate::user::views_of_users(
                r->Ok_0@,
            ) == store.users_view(),
    {
        if !current_user.is_admin() {
            return Err(Error::InvalidPermissions);
        }
        Ok(store.list())
    }

    /// The decision half of the directory-listing endpoint: sanitize the
    /// requested path (absent meaning the root) and check that the caller
    /// may read it. The filesystem read belongs to a collaborator, which
    /// receives the normalized path this returns.
    pub fn list_directory(store: &UserStore, current_user: &User, path: Option<&String>) -> (r:
        Result<String, Error>)
        ensures
            ({
                let raw = match path {
                    Some(p) => p@,
                    None => Seq::<char>::empty(),
                };
                let rows = rows_for(store.permissions_view(), current_user@.username);
                match r {
                    Ok(p) => sanitize_spec(raw) == Some(p@) && crate::permissions::authorized(
                        current_user@,
                        rows,
                        p@,
                        Action::Read,
                    ),
                    Err(e) => e == Error::InvalidPermissions && (sanitize_spec(raw) is None
                        || !crate::permissions::authorized(
                        current_user@,
                        rows,
                        sanitize_spec(raw)->Some_0,
                        Action::Read,
                    )),
                }
            }),
    {
        let raw = match path {
            Some(p) => p.as_str(),
            None => "",
        };
        proof {
            reveal_strlit("");
            assert(""@ =~= Seq::<char>::empty());
        }
        let sanitized = match crate::path::sanitize_path(raw) {
            Ok(p) => p,
            Err(e) => {
                return Err(e);
            }
        };
        let rows = store.permissions(current_user.username.as_str());
        match crate::permissions::check_permissions(
            current_user,
            rows,
            sanitized.as_str(),
            Action::Read,
        ) {
            Ok(()) => Ok(sanitized),
            Err(e) => Err(e),
        }
    }

    /// One user by username; admin only.
    pub fn user(store: &UserStore, current_user: &User, username: &str) -> (r: Result<User, Error>)
        ensures
            current_user@.default_access != Action::Admin ==> r == Err::<User, Error>(
                Error::InvalidPermissions,
            ),
            current_user@.default_access == Action::Admin ==> match lookup_user(
                store.users_view(),
                username@,
            ) {
                Some(x) => r is Ok && r->Ok_0@ == x,
                None => r == Err::<User, Error>(Error::NotFound),
            },
    {
        if !current_user.is_admin() {
            return Err(Error::InvalidPermissions);
        }
        match store.get(username) {
            Some(user) => Ok(user),
            None => Err(Error::NotFound),
        }
    }
}

} // verus!
