//! The authorization engine: folds a user's default access and their
//! path-scoped permission rows into one effective permission, and decides
//! allow or deny.

use vstd::prelude::*;
use vstd::seq_lib::*;

use crate::action::Action;
use crate::error::Error;
use crate::permission::{Permission, PermissionView, views_of_permissions};
use crate::user::User;

verus! {

/// Whether `path` is `base` itself or a descendant of it, component-wise:
/// either the two are equal, or `base` is the root, or `base` is a proper
/// prefix of `path` ending at a separator.
pub open spec fn path_is_within(path: Seq<char>, base: Seq<char>) -> bool {
    ||| path == base
    ||| base.len() == 0
    ||| (path.len() > base.len() && path.subrange(0, base.len() as int) == base && path[base.len() as int] == '/')
}

/// Whether a permission row governs `path`: it names `path` exactly, or it
/// affects children and `path` lies at or beneath its path.
pub open spec fn permission_matches(p: PermissionView, path: Seq<char>) -> bool {
    (path_is_within(path, p.path) && p.affects_children) || path == p.path
}

/// The effective permission for `path`: the action of the last matching row,
/// or `default` if no row matches. Later rows overwrite earlier ones.
pub open spec fn effective_permission_spec(
    rows: Seq<PermissionView>,
    default: Action,
    path: Seq<char>,
) -> Action
    decreases rows.len(),
{
    if rows.len() == 0 {
        default
    } else if permission_matches(rows.last(), path) {
        rows.last().action
    } else {
        effective_permission_spec(rows.drop_last(), default, path)
    }
}

/// Whether a user may perform `required` on `path` given their permission
/// rows: admins bypass evaluation, everyone else needs an effective
/// permission at or above `required`.
pub open spec fn authorized(
    user: crate::user::UserView,
    rows: Seq<PermissionView>,
    path: Seq<char>,
    required: Action,
) -> bool {
    ||| user.default_access == Action::Admin
    ||| effective_permission_spec(rows, user.default_access, path).rank() >= required.rank()
}

/// The single effective permission of a user on a path: an `Admin` default
/// grants the highest access on every path unconditionally; anyone else
/// gets their default, overridden by their matching rows in stored order.
pub open spec fn effective_access(
    user: crate::user::UserView,
    rows: Seq<PermissionView>,
    path: Seq<char>,
) -> Action {
    if user.default_access == Action::Admin {
        Action::Admin
    } else {
        effective_permission_spec(rows, user.default_access, path)
    }
}

/// A request is authorized exactly when the effective permission reaches
/// the required action under the `Deny < Read < Modify < Admin` order.
pub proof fn lemma_authorized_iff_effective(
    user: crate::user::UserView,
    rows: Seq<PermissionView>,
    path: Seq<char>,
    required: Action,
)
    ensures
        authorized(user, rows, path, required) <==> effective_access(user, rows, path).rank()
            >= required.rank(),
{
    assert(required.rank() <= 3) by {
        match required {
            Action::Deny => {}
            Action::Read => {}
            Action::Modify => {}
            Action::Admin => {}
        }
    }
}

/// Whether `path` is `base` itself or a descendant of it.
pub fn is_within(path: &str, base: &str) -> (b: bool)
    ensures
        b == path_is_within(path@, base@),
{
    let path_len = path.unicode_len();
    let base_len = base.unicode_len();
    if base_len == 0 {
        return true;
    }
    if path_len < base_len {
        return false;
    }
    let mut i: usize = 0;
    while i < base_len
        invariant
            0 <= i <= base_len,
            base_len == base@.len(),
            path_len == path@.len(),
            base_len <= path_len,
            forall|j: int| 0 <= j < i ==> path@[j] == base@[j],
        decreases base_len - i,
    {
        if path.get_char(i) != base.get_char(i) {
            assert(path@[i as int] != base@[i as int]);
            assert(path@.subrange(0, base@.len() as int) != base@) by {
                assert(path@.subrange(0, base@.len() as int)[i as int] == path@[i as int]);
            }
            assert(path@ != base@) by {
                assert(path@.len() == base@.len() ==> path@[i as int] != base@[i as int]);
            }
            return false;
        }
        i += 1;
    }
    if path_len == base_len {
        assert(path@ =~= base@);
        true
    } else {
        assert(path@.subrange(0, base@.len() as int) =~= base@);
        let sep = path.get_char(base_len);
        sep == '/'
    }
}

/// Find the effective permission for the given path: the user's default,
/// overridden by each matching row in stored order, the last match winning.
pub fn effective_permission(permissions: Vec<Permission>, default: Action, path: &str) -> (eff:
    Action)
    ensures
        eff == effective_permission_spec(views_of_permissions(permissions@), default, path@),
{
    let mut effective = default;
    let mut i: usize = 0;
    assert(views_of_permissions(permissions@.take(0)) =~= Seq::<PermissionView>::empty());
    while i < permissions.len()
        invariant
            0 <= i <= permissions@.len(),
            effective == effective_permission_spec(
                views_of_permissions(permissions@.take(i as int)),
                default,
                path@,
            ),
        decreases permissions@.len() - i,
    {
        let p = &permissions[i];
        let matches_row = if is_within(path, p.path.as_str()) && p.affects_children {
            true
        } else {
            str_eq(path, p.path.as_str())
        };
        if matches_row {
            effective = p.action;
        }
        proof {
            let upto = views_of_permissions(permissions@.take(i as int));
            let next = views_of_permissions(permissions@.take(i as int + 1));
            assert(next =~= upto.push(permissions@[i as int]@));
            assert(next.drop_last() =~= upto);
            assert(next.last() == permissions@[i as int]@);
        }
        i += 1;
    }
    proof {
        assert(permissions@.take(permissions@.len() as int) =~= permissions@);
    }
    effective
}

/// Whether two path strings are equal character for character.
pub fn str_eq(a: &str, b: &str) -> (r: bool)
    ensures
        r == (a@ == b@),
{
    let a_len = a.unicode_len();
    let b_len = b.unicode_len();
    if a_len != b_len {
        return false;
    }
    let mut i: usize = 0;
    while i < a_len
        invariant
            0 <= i <= a_len,
            a_len == a@.len(),
            a@.len() == b@.len(),
            forall|j: int| 0 <= j < i ==> a@[j] == b@[j],
        decreases a_len - i,
    {
        if a.get_char(i) != b.get_char(i) {
            return false;
        }
        i += 1;
    }
    assert(a@ =~= b@);
    true
}

/// Check that the user's permissions are sufficient for the requested action
/// and path. Any denial reason collapses into the single
/// `Error::InvalidPermissions` outcome.
pub fn check_permissions(user: &User, permissions: Vec<Permission>, path: &str, required: Action)
    -> (r: Result<(), Error>)
    ensures
        r is Ok <==> authorized(user@, views_of_permissions(permissions@), path@, required),
        r is Err ==> r->Err_0 == Error::InvalidPermissions,
{
    if !user.is_admin() {
        let effective = effective_permission(permissions, user.default_access, path);
        if !effective.allows(required) {
            return Err(Error::InvalidPermissions);
        }
    }
    Ok(())
}

/// With no permission rows, the effective permission is the default, on
/// every path.
pub proof fn lemma_no_rows_default(default: Action, path: Seq<char>)
    ensures
        effective_permission_spec(Seq::empty(), default, path) == default,
{
}

/// A user whose default access is `Admin` is authorized for every action on
/// every path, regardless of their permission rows.
pub proof fn lemma_admin_bypass(
    user: crate::user::UserView,
    rows: Seq<PermissionView>,
    path: Seq<char>,
    required: Action,
)
    requires
        user.default_access == Action::Admin,
    ensures
        authorized(user, rows, path, required),
{
}

} // verus!
