//! A path-scoped permission row assigned to a user.

use vstd::prelude::*;

use crate::action::Action;

verus! {

/// The mathematical value of a [`Permission`] row.
pub ghost struct PermissionView {
    pub id: i32,
    pub applies_to: Seq<char>,
    pub path: Seq<char>,
    pub action: Action,
    pub affects_children: bool,
}

/// A permission granting `action` on `path` to the user named by
/// `applies_to`; with `affects_children` it also governs every descendant of
/// `path`.
#[derive(Debug, PartialEq)]
pub struct Permission {
    pub id: i32,
    pub applies_to: String,
    pub path: String,
    pub action: Action,
    pub affects_children: bool,
}

impl View for Permission {
    type V = PermissionView;

    open spec fn view(&self) -> PermissionView {
        PermissionView {
            id: self.id,
            applies_to: self.applies_to@,
            path: self.path@,
            action: self.action,
            affects_children: self.affects_children,
        }
    }
}

impl Clone for Permission {
    fn clone(&self) -> (r: Self)
        ensures
            r@ == self@,
    {
        Permission {
            id: self.id,
            applies_to: self.applies_to.clone(),
            path: self.path.clone(),
            action: self.action,
            affects_children: self.affects_children,
        }
    }
}

/// The views of a sequence of permission rows, in order.
pub open spec fn views_of_permissions(rows: Seq<Permission>) -> Seq<PermissionView> {
    rows.map_values(|p: Permission| p@)
}

} // verus!
