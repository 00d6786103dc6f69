//! An individual user with access to the application.

use vstd::prelude::*;

use crate::action::Action;

verus! {

/// The mathematical value of a [`User`] row.
pub ghost struct UserView {
    pub username: Seq<char>,
    pub name: Seq<char>,
    pub access_token: Option<Seq<char>>,
    pub default_access: Action,
}

/// An individual user with access to the application.
///
/// `username` is the stable identity key; `access_token` holds the salted
/// hash of the user's bearer token, never the token itself.
#[derive(Debug, PartialEq)]
pub struct User {
    pub username: String,
    pub name: String,
    pub access_token: Option<String>,
    pub default_access: Action,
}

impl View for User {
    type V = UserView;

    open spec fn view(&self) -> UserView {
        UserView {
            username: self.username@,
            name: self.name@,
            access_token: match self.access_token {
                Some(h) => Some(h@),
                None => None,
            },
            default_access: self.default_access,
        }
    }
}

impl Clone for User {
    fn clone(&self) -> (r: Self)
        ensures
            r@ == self@,
    {
        User {
            username: self.username.clone(),
            name: self.name.clone(),
            access_token: match &self.access_token {
                Some(h) => Some(h.clone()),
                None => None,
            },
            default_access: self.default_access,
        }
    }
}

impl User {
    /// Whether the user bypasses all permission evaluation.
    pub fn is_admin(&self) -> (b: bool)
        ensures
            b == (self.default_access == Action::Admin),
    {
        matches!(self.default_access, Action::Admin)
    }

    /// Check that the provided token verifies against the stored hash. A
    /// user without a stored hash accepts no token at all.
    pub fn access_token_valid(&self, token: &str) -> (ok: bool)
        ensures
            ok == match self@.access_token {
                Some(h) => crate::token::argon_verifies(h, token@),
                None => false,
            },
    {
        if let Some(hash) = &self.access_token {
            crate::token::verify_token_hash(hash.as_str(), token)
        } else {
            false
        }
    }
}

/// The views of a sequence of user rows, in order.
pub open spec fn views_of_users(users: Seq<User>) -> Seq<UserView> {
    users.map_values(|u: User| u@)
}

} // verus!
