//! An in-memory model of the persisted user and permission rows: the typed
//! accessor the rest of the core works against. Usernames are unique, and
//! every mutation is a single atomic step, so an insert-or-update can never
//! create duplicate rows.

use vstd::prelude::*;

use crate::action::Action;
use crate::error::Error;
use crate::permission::{Permission, PermissionView, views_of_permissions};
use crate::token::{argon_verifies, generate_token, hash_token};
use crate::user::{User, UserView, views_of_users};

verus! {

/// Whether no two rows share a username.
pub open spec fn usernames_unique(users: Seq<UserView>) -> bool {
    forall|i: int, j: int|
        0 <= i < j < users.len() ==> users[i].username != users[j].username
}

/// The first row with the given username, if any.
pub open spec fn lookup_user(users: Seq<UserView>, username: Seq<char>) -> Option<UserView>
    decreases users.len(),
{
    if users.len() == 0 {
        None
    } else if users[0].username == username {
        Some(users[0])
    } else {
        lookup_user(users.drop_first(), username)
    }
}

/// The row a first authentication creates: no token, and the persisted
/// default access of `Modify`.
pub open spec fn default_user(username: Seq<char>, name: Seq<char>) -> UserView {
    UserView { username, name, access_token: None, default_access: Action::Modify }
}

/// The rows after an insert-or-update: an existing row keeps everything but
/// its display name; otherwise a fresh row is appended.
pub open spec fn upserted(users: Seq<UserView>, username: Seq<char>, name: Seq<char>) -> Seq<
    UserView,
>
    decreases users.len(),
{
    if users.len() == 0 {
        seq![default_user(username, name)]
    } else if users[0].username == username {
        seq![UserView { name, ..users[0] }] + users.drop_first()
    } else {
        seq![users[0]] + upserted(users.drop_first(), username, name)
    }
}

/// The rows after the given user's stored token hash is replaced (or
/// cleared, with `None`); rows of other users are untouched.
pub open spec fn set_token(
    users: Seq<UserView>,
    username: Seq<char>,
    token: Option<Seq<char>>,
) -> Seq<UserView>
    decreases users.len(),
{
    if users.len() == 0 {
        users
    } else if users[0].username == username {
        seq![UserView { access_token: token, ..users[0] }] + users.drop_first()
    } else {
        seq![users[0]] + set_token(users.drop_first(), username, token)
    }
}

/// The rows after the given user's default access is changed.
pub open spec fn set_access(
    users: Seq<UserView>,
    username: Seq<char>,
    action: Action,
) -> Seq<UserView>
    decreases users.len(),
{
    if users.len() == 0 {
        users
    } else if users[0].username == username {
        seq![UserView { default_access: action, ..users[0] }] + users.drop_first()
    } else {
        seq![users[0]] + set_access(users.drop_first(), username, action)
    }
}

/// The rows after the given user is removed.
pub open spec fn removed_user(users: Seq<UserView>, username: Seq<char>) -> Seq<UserView>
    decreases users.len(),
{
    if users.len() == 0 {
        users
    } else if users[0].username == username {
        removed_user(users.drop_first(), username)
    } else {
        seq![users[0]] + removed_user(users.drop_first(), username)
    }
}

/// The permission rows owned by `owner`, in stored order.
pub open spec fn rows_for(rows: Seq<PermissionView>, owner: Seq<char>) -> Seq<PermissionView>
    decreases rows.len(),
{
    if rows.len() == 0 {
        rows
    } else {
        let rest = rows_for(rows.drop_last(), owner);
        if rows.last().applies_to == owner {
            rest.push(rows.last())
        } else {
            rest
        }
    }
}

/// The permission rows left after the row with the given id is removed.
pub open spec fn removed_permission(rows: Seq<PermissionView>, id: i32) -> Seq<PermissionView>
    decreases rows.len(),
{
    if rows.len() == 0 {
        rows
    } else {
        let rest = removed_permission(rows.drop_last(), id);
        if rows.last().id == id {
            rest
        } else {
            rest.push(rows.last())
        }
    }
}

/// What token verification returns: the user's row exactly when the user
/// exists, a hash is stored, and the presented token verifies against it;
/// `None` in every other case, with no distinction between the reasons.
pub open spec fn verify_spec(
    users: Seq<UserView>,
    username: Seq<char>,
    token: Seq<char>,
) -> Option<UserView> {
    match lookup_user(users, username) {
        None => None,
        Some(u) => match u.access_token {
            None => None,
            Some(h) => if argon_verifies(h, token) {
                Some(u)
            } else {
                None
            },
        },
    }
}

/// A row matched at index `i`, no earlier row matching, is what lookup
/// returns.
proof fn lemma_lookup_found(users: Seq<UserView>, username: Seq<char>, i: int)
    requires
        0 <= i < users.len(),
        users[i].username == username,
        forall|j: int| 0 <= j < i ==> users[j].username != username,
    ensures
        lookup_user(users, username) == Some(users[i]),
    decreases i,
{
    if i > 0 {
        lemma_lookup_found(users.drop_first(), username, i - 1);
    }
}

/// Lookup fails exactly when no row has the username.
proof fn lemma_lookup_absent(users: Seq<UserView>, username: Seq<char>)
    ensures
        lookup_user(users, username) is None <==> (forall|j: int|
            0 <= j < users.len() ==> users[j].username != username),
    decreases users.len(),
{
    if users.len() > 0 {
        lemma_lookup_absent(users.drop_first(), username);
        if users[0].username == username {
            assert(!(forall|j: int| 0 <= j < users.len() ==> users[j].username != username)) by {
                assert(users[0].username == username);
            }
        } else if lookup_user(users, username) is None {
            assert forall|j: int| 0 <= j < users.len() implies users[j].username != username by {
                if j > 0 {
                    assert(users.drop_first()[j - 1] == users[j]);
                }
            }
        } else {
            let j2 = choose|j2: int|
                0 <= j2 < users.drop_first().len() && users.drop_first()[j2].username == username;
            assert(users[j2 + 1].username == username);
        }
    }
}

/// An upsert that finds its row at index `i` is exactly an update of that
/// row's display name.
proof fn lemma_upserted_found(users: Seq<UserView>, username: Seq<char>, name: Seq<char>, i: int)
    requires
        0 <= i < users.len(),
        users[i].username == username,
        forall|j: int| 0 <= j < i ==> users[j].username != username,
    ensures
        upserted(users, username, name) == users.update(i, UserView { name, ..users[i] }),
    decreases i,
{
    if i == 0 {
        assert(seq![UserView { name, ..users[0] }] + users.drop_first() =~= users.update(
            0,
            UserView { name, ..users[0] },
        ));
    } else {
        lemma_upserted_found(users.drop_first(), username, name, i - 1);
        assert(seq![users[0]] + users.drop_first().update(
            i - 1,
            UserView { name, ..users[i] },
        ) =~= users.update(i, UserView { name, ..users[i] }));
    }
}

/// An upsert that finds no row appends a fresh one.
proof fn lemma_upserted_absent(users: Seq<UserView>, username: Seq<char>, name: Seq<char>)
    requires
        forall|j: int| 0 <= j < users.len() ==> users[j].username != username,
    ensures
        upserted(users, username, name) == users.push(default_user(username, name)),
    decreases users.len(),
{
    if users.len() == 0 {
        assert(upserted(users, username, name) =~= users.push(default_user(username, name)));
    } else {
        lemma_upserted_absent(users.drop_first(), username, name);
        assert(seq![users[0]] + users.drop_first().push(default_user(username, name))
            =~= users.push(default_user(username, name)));
    }
}

/// A token replacement that finds its row at index `i` is exactly an update
/// of that row's stored hash.
proof fn lemma_set_token_found(
    users: Seq<UserView>,
    username: Seq<char>,
    token: Option<Seq<char>>,
    i: int,
)
    requires
        0 <= i < users.len(),
        users[i].username == username,
        forall|j: int| 0 <= j < i ==> users[j].username != username,
    ensures
        set_token(users, username, token) == users.update(
            i,
            UserView { access_token: token, ..users[i] },
        ),
    decreases i,
{
    if i == 0 {
        assert(seq![UserView { access_token: token, ..users[0] }] + users.drop_first()
            =~= users.update(0, UserView { access_token: token, ..users[0] }));
    } else {
        lemma_set_token_found(users.drop_first(), username, token, i - 1);
        assert(seq![users[0]] + users.drop_first().update(
            i - 1,
            UserView { access_token: token, ..users[i] },
        ) =~= users.update(i, UserView { access_token: token, ..users[i] }));
    }
}

/// A token replacement for an absent user changes nothing.
proof fn lemma_set_token_absent(users: Seq<UserView>, username: Seq<char>, token: Option<Seq<char>>)
    requires
        forall|j: int| 0 <= j < users.len() ==> users[j].username != username,
    ensures
        set_token(users, username, token) == users,
    decreases users.len(),
{
    if users.len() > 0 {
        lemma_set_token_absent(users.drop_first(), username, token);
        assert(seq![users[0]] + users.drop_first() =~= users);
    }
}

/// An access change that finds its row at index `i` is exactly an update of
/// that row's default access.
proof fn lemma_set_access_found(
    users: Seq<UserView>,
    username: Seq<char>,
    action: Action,
    i: int,
)
    requires
        0 <= i < users.len(),
        users[i].username == username,
        forall|j: int| 0 <= j < i ==> users[j].username != username,
    ensures
        set_access(users, username, action) == users.update(
            i,
            UserView { default_access: action, ..users[i] },
        ),
    decreases i,
{
    if i == 0 {
        assert(seq![UserView { default_access: action, ..users[0] }] + users.drop_first()
            =~= users.update(0, UserView { default_access: action, ..users[0] }));
    } else {
        lemma_set_access_found(users.drop_first(), username, action, i - 1);
        assert(seq![users[0]] + users.drop_first().update(
            i - 1,
            UserView { default_access: action, ..users[i] },
        ) =~= users.update(i, UserView { default_access: action, ..users[i] }));
    }
}

/// Removing a user who is not there changes nothing.
proof fn lemma_removed_user_absent(users: Seq<UserView>, username: Seq<char>)
    requires
        forall|j: int| 0 <= j < users.len() ==> users[j].username != username,
    ensures
        removed_user(users, username) == users,
    decreases users.len(),
{
    if users.len() > 0 {
        lemma_removed_user_absent(users.drop_first(), username);
        assert(seq![users[0]] + users.drop_first() =~= users);
    }
}

/// With unique usernames, removing a user found at index `i` drops exactly
/// that row.
proof fn lemma_removed_user_found(users: Seq<UserView>, username: Seq<char>, i: int)
    requires
        0 <= i < users.len(),
        users[i].username == username,
        forall|j: int| 0 <= j < users.len() && j != i ==> users[j].username != username,
    ensures
        removed_user(users, username) == users.take(i) + users.skip(i + 1),
    decreases i,
{
    if i == 0 {
        assert(forall|j: int|
            0 <= j < users.drop_first().len() ==> users.drop_first()[j].username != username);
        lemma_removed_user_absent(users.drop_first(), username);
        assert(users.drop_first() =~= users.take(0) + users.skip(1));
    } else {
        lemma_removed_user_found(users.drop_first(), username, i - 1);
        assert(seq![users[0]] + (users.drop_first().take(i - 1) + users.drop_first().skip(i))
            =~= users.take(i) + users.skip(i + 1));
    }
}

/// The in-memory user and permission rows, with their invariants: usernames
/// are unique, permission ids are unique and below the next id to hand out.
pub struct UserStore {
    users: Vec<User>,
    permissions: Vec<Permission>,
    next_permission_id: i32,
}

impl UserStore {
    /// The user rows, as mathematical values, in stored order.
    pub closed spec fn users_view(&self) -> Seq<UserView> {
        views_of_users(self.users@)
    }

    /// The permission rows, as mathematical values, in stored order.
    pub closed spec fn permissions_view(&self) -> Seq<PermissionView> {
        views_of_permissions(self.permissions@)
    }

    /// The id the next assigned permission will get.
    pub closed spec fn next_id(&self) -> i32 {
        self.next_permission_id
    }

    /// The store's invariant: unique usernames, unique permission ids, all
    /// below the next id to hand out.
    pub open spec fn wf(&self) -> bool {
        &&& usernames_unique(self.users_view())
        &&& (forall|i: int, j: int|
            0 <= i < j < self.permissions_view().len() ==> self.permissions_view()[i].id
                != self.permissions_view()[j].id)
        &&& (forall|i: int|
            0 <= i < self.permissions_view().len() ==> self.permissions_view()[i].id
                < self.next_id())
    }

    /// An empty store.
    pub fn new() -> (s: UserStore)
        ensures
            s.wf(),
            s.users_view() == Seq::<UserView>::empty(),
            s.permissions_view() == Seq::<PermissionView>::empty(),
            s.next_id() == 1,
    {
        let s = UserStore { users: Vec::new(), permissions: Vec::new(), next_permission_id: 1 };
        proof {
            assert(s.users_view() =~= Seq::<UserView>::empty());
            assert(s.permissions_view() =~= Seq::<PermissionView>::empty());
        }
        s
    }

    /// The index of the row with the given username, if one exists.
    fn find_user_index(&self, username: &str) -> (r: Option<usize>)
        ensures
            match r {
                Some(i) => 0 <= i < self.users_view().len() && self.users_view()[i as int].username
                    == username@ && (forall|j: int|
                    0 <= j < i ==> self.users_view()[j].username != username@),
                None => forall|j: int|
                    0 <= j < self.users_view().len() ==> self.users_view()[j].username
                        != username@,
            },
    {
        let mut i: usize = 0;
        while i < self.users.len()
            invariant
                0 <= i <= self.users@.len(),
                forall|j: int| 0 <= j < i ==> self.users_view()[j].username != username@,
            decreases self.users@.len() - i,
        {
            if crate::permissions::str_eq(username, self.users[i].username.as_str()) {
                return Some(i);
            }
            i += 1;
        }
        None
    }

    /// Find a user by their username.
    pub fn get(&self, username: &str) -> (r: Option<User>)
        ensures
            match r {
                Some(u) => lookup_user(self.users_view(), username@) == Some(u@),
                None => lookup_user(self.users_view(), username@) is None,
            },
    {
        match self.find_user_index(username) {
            Some(i) => {
                proof {
                    lemma_lookup_found(self.users_view(), username@, i as int);
                }
                Some(self.users[i].clone())
            }
            None => {
                proof {
                    lemma_lookup_absent(self.users_view(), username@);
                }
                None
            }
        }
    }

    /// Get a list of all the users, in stored order.
    pub fn list(&self) -> (r: Vec<User>)
        ensures
            views_of_users(r@) == self.users_view(),
    {
        let mut out: Vec<User> = Vec::new();
        let mut i: usize = 0;
        while i < self.users.len()
            invariant
                0 <= i <= self.users@.len(),
                out@.len() == i,
                forall|j: int| 0 <= j < i ==> out@[j]@ == self.users@[j]@,
            decreases self.users@.len() - i,
        {
            out.push(self.users[i].clone());
            i += 1;
        }
        proof {
            assert(views_of_users(out@) =~= self.users_view());
        }
        out
    }

    /// Create a user if they do not already exist; an existing user keeps
    /// everything but their display name, which is updated. This is the
    /// single atomic insert-or-update step of a first authentication.
    pub fn create_if_not_exists(&mut self, username: &str, name: &str) -> (r: User)
        requires
            old(self).wf(),
        ensures
            final(self).wf(),
            final(self).users_view() == upserted(old(self).users_view(), username@, name@),
            final(self).permissions_view() == old(self).permissions_view(),
            final(self).next_id() == old(self).next_id(),
            r@ == match lookup_user(old(self).users_view(), username@) {
                Some(u) => UserView { name: name@, ..u },
                None => default_user(username@, name@),
            },
    {
        match self.find_user_index(username) {
            Some(i) => {
                let updated = User {
                    username: self.users[i].username.clone(),
                    name: name.to_owned(),
                    access_token: match &self.users[i].access_token {
                        Some(h) => Some(h.clone()),
                        None => None,
                    },
                    default_access: self.users[i].default_access,
                };
                let result = updated.clone();
                proof {
                    lemma_lookup_found(old(self).users_view(), username@, i as int);
                    lemma_upserted_found(old(self).users_view(), username@, name@, i as int);
                }
                self.users[i] = updated;
                proof {
                    assert(self.users_view() =~= old(self).users_view().update(
                        i as int,
                        UserView { name: name@, ..old(self).users_view()[i as int] },
                    ));
                    assert forall|a: int, b: int|
                        0 <= a < b < self.users_view().len() implies self.users_view()[a].username
                        != self.users_view()[b].username by {
                        assert(self.users_view()[a].username == old(self).users_view()[a].username);
                        assert(self.users_view()[b].username == old(self).users_view()[b].username);
                    }
                }
                result
            }
            None => {
                let created = User {
                    username: username.to_owned(),
                    name: name.to_owned(),
                    access_token: None,
                    default_access: Action::Modify,
                };
                let result = created.clone();
                proof {
                    lemma_lookup_absent(old(self).users_view(), username@);
                    lemma_upserted_absent(old(self).users_view(), username@, name@);
                }
                self.users.push(created);
                proof {
                    assert(self.users_view() =~= old(self).users_view().push(
                        default_user(username@, name@),
                    ));
                    assert forall|a: int, b: int|
                        0 <= a < b < self.users_view().len() implies self.users_view()[a].username
                        != self.users_view()[b].username by {
                        if b < self.users_view().len() - 1 {
                            assert(self.users_view()[a] == old(self).users_view()[a]);
                            assert(self.users_view()[b] == old(self).users_view()[b]);
                        } else {
                            assert(self.users_view()[a] == old(self).users_view()[a]);
                            assert(self.users_view()[b].username == username@);
                        }
                    }
                }
                result
            }
        }
    }

    /// Permanently delete a user. Permission rows reference their owner, so
    /// a user who still has rows cannot be deleted; deleting an unknown
    /// username changes nothing.
    pub fn delete(&mut self, username: &str) -> (r: Result<(), Error>)
        requires
            old(self).wf(),
        ensures
            final(self).wf(),
            final(self).permissions_view() == old(self).permissions_view(),
            final(self).next_id() == old(self).next_id(),
            if rows_for(old(self).permissions_view(), username@).len() > 0 {
                r is Err && r->Err_0 is Unexpected && final(self).users_view() == old(
                    self,
                ).users_view()
            } else {
                r is Ok && final(self).users_view() == removed_user(
                    old(self).users_view(),
                    username@,
                )
            },
    {
        let owned = self.permissions(username);
        if owned.len() > 0 {
            return Err(Error::Unexpected("user still has permission rows".to_owned()));
        }
        match self.find_user_index(username) {
            Some(i) => {
                proof {
                    assert forall|j: int|
                        0 <= j < old(self).users_view().len() && j != i as int implies old(self).users_view()[j].username != username@ by {
                        if j < i as int {
                        } else {
                            assert(old(self).users_view()[i as int].username != old(self).users_view()[j].username);
                        }
                    }
                    lemma_removed_user_found(old(self).users_view(), username@, i as int);
                }
                let _ = self.users.remove(i);
                proof {
                    let before = old(self).users_view();
                    assert(self.users_view() =~= before.take(i as int) + before.skip(i as int + 1));
                    assert forall|a: int, b: int|
                        0 <= a < b < self.users_view().len() implies self.users_view()[a].username
                        != self.users_view()[b].username by {
                        let a0: int = if a < i as int { a } else { a + 1 };
                        let b0: int = if b < i as int { b } else { b + 1 };
                        assert(self.users_view()[a] == before[a0]);
                        assert(self.users_view()[b] == before[b0]);
                    }
                }
            }
            None => {
                proof {
                    lemma_removed_user_absent(old(self).users_view(), username@);
                }
            }
        }
        Ok(())
    }

    /// Change the default action for the given user.
    pub fn set_default_action(&mut self, username: &str, action: Action) -> (r: Result<(), Error>)
        requires
            old(self).wf(),
        ensures
            final(self).wf(),
            final(self).permissions_view() == old(self).permissions_view(),
            final(self).next_id() == old(self).next_id(),
            match r {
                Ok(()) => lookup_user(old(self).users_view(), username@) is Some && final(self).users_view() == set_access(old(self).users_view(), username@, action),
                Err(e) => e == Error::NotFound && lookup_user(old(self).users_view(), username@)
                    is None && final(self).users_view() == old(self).users_view(),
            },
    {
        match self.find_user_index(username) {
            Some(i) => {
                let updated = User {
                    username: self.users[i].username.clone(),
                    name: self.users[i].name.clone(),
                    access_token: match &self.users[i].access_token {
                        Some(h) => Some(h.clone()),
                        None => None,
                    },
                    default_access: action,
                };
                proof {
                    lemma_lookup_found(old(self).users_view(), username@, i as int);
                    lemma_set_access_found(old(self).users_view(), username@, action, i as int);
                }
                self.users[i] = updated;
                proof {
                    self.lemma_row_update_wf(*old(self), i as int);
                }
                Ok(())
            }
            None => {
                proof {
                    lemma_lookup_absent(old(self).users_view(), username@);
                }
                Err(Error::NotFound)
            }
        }
    }

    /// Remove a user's access token: every previously issued token stops
    /// verifying at once.
    pub fn revoke_access_token(&mut self, username: &str) -> (r: Result<(), Error>)
        requires
            old(self).wf(),
        ensures
            final(self).wf(),
            final(self).permissions_view() == old(self).permissions_view(),
            final(self).next_id() == old(self).next_id(),
            match r {
                Ok(()) => lookup_user(old(self).users_view(), username@) is Some && final(self).users_view() == set_token(old(self).users_view(), username@, None),
                Err(e) => e == Error::NotFound && lookup_user(old(self).users_view(), username@)
                    is None && final(self).users_view() == old(self).users_view(),
            },
    {
        match self.find_user_index(username) {
            Some(i) => {
                let updated = User {
                    username: self.users[i].username.clone(),
                    name: self.users[i].name.clone(),
                    access_token: None,
                    default_access: self.users[i].default_access,
                };
                proof {
                    lemma_lookup_found(old(self).users_view(), username@, i as int);
                    lemma_set_token_found(old(self).users_view(), username@, None, i as int);
                }
                self.users[i] = updated;
                proof {
                    self.lemma_row_update_wf(*old(self), i as int);
                }
                Ok(())
            }
            None => {
                proof {
                    lemma_lookup_absent(old(self).users_view(), username@);
                }
                Err(Error::NotFound)
            }
        }
    }

    /// Re-generate a user's access token: a fresh random token is hashed
    /// with a fresh salt, only the hash is stored, and the plaintext is
    /// returned once. It verifies against the new state; whether any older
    /// token still verifies is decided by the new hash alone.
    pub fn regenerate_access_token(&mut self, username: &str) -> (r: Result<String, Error>)
        requires
            old(self).wf(),
        ensures
            final(self).wf(),
            final(self).permissions_view() == old(self).permissions_view(),
            final(self).next_id() == old(self).next_id(),
            match r {
                Ok(t) => lookup_user(old(self).users_view(), username@) is Some && t@.len() == 36
                    && (exists|h: Seq<char>|
                    final(self).users_view() == #[trigger] set_token(
                        old(self).users_view(),
                        username@,
                        Some(h),
                    ) && argon_verifies(h, t@)) && verify_spec(
                    final(self).users_view(),
                    username@,
                    t@,
                ) is Some,
                Err(e) => final(self).users_view() == old(self).users_view() && (if lookup_user(
                    old(self).users_view(),
                    username@,
                ) is None {
                    e == Error::NotFound
                } else {
                    e is Unexpected
                }),
            },
    {
        match self.find_user_index(username) {
            Some(i) => {
                let token = generate_token();
                match hash_token(token.as_str()) {
                    Some(hash) => {
                        let ghost hash_view = hash@;
                        let updated = User {
                            username: self.users[i].username.clone(),
                            name: self.users[i].name.clone(),
                            access_token: Some(hash),
                            default_access: self.users[i].default_access,
                        };
                        proof {
                            lemma_lookup_found(old(self).users_view(), username@, i as int);
                            lemma_set_token_found(
                                old(self).users_view(),
                                username@,
                                Some(hash_view),
                                i as int,
                            );
                        }
                        self.users[i] = updated;
                        proof {
                            self.lemma_row_update_wf(*old(self), i as int);
                            assert(self.users_view() =~= old(self).users_view().update(
                                i as int,
                                UserView {
                                    access_token: Some(hash_view),
                                    ..old(self).users_view()[i as int]
                                },
                            ));
                            assert(self.users_view() == set_token(
                                old(self).users_view(),
                                username@,
                                Some(hash_view),
                            ));
                            lemma_lookup_set_token(
                                old(self).users_view(),
                                username@,
                                Some(hash_view),
                            );
                        }
                        Ok(token)
                    }
                    None => {
                        proof {
                            lemma_lookup_found(old(self).users_view(), username@, i as int);
                        }
                        Err(Error::Unexpected("token hashing failed".to_owned()))
                    }
                }
            }
            None => {
                proof {
                    lemma_lookup_absent(old(self).users_view(), username@);
                }
                Err(Error::NotFound)
            }
        }
    }

    /// Check a user's access token: the user's row exactly when the user
    /// exists, a hash is stored, and the token verifies; `None` uniformly
    /// otherwise, never telling the reasons apart.
    pub fn verify_access_token(&self, username: &str, token: &str) -> (r: Option<User>)
        ensures
            match r {
                Some(u) => verify_spec(self.users_view(), username@, token@) == Some(u@),
                None => verify_spec(self.users_view(), username@, token@) is None,
            },
    {
        match self.get(username) {
            Some(user) => {
                if user.access_token_valid(token) {
                    Some(user)
                } else {
                    None
                }
            }
            None => None,
        }
    }

    /// Get all the permissions of the given user, in stored order.
    pub fn permissions(&self, username: &str) -> (r: Vec<Permission>)
        ensures
            views_of_permissions(r@) == rows_for(self.permissions_view(), username@),
    {
        let mut out: Vec<Permission> = Vec::new();
        let mut i: usize = 0;
        proof {
            assert(self.permissions_view().take(0) =~= Seq::<PermissionView>::empty());
            assert(views_of_permissions(out@) =~= Seq::<PermissionView>::empty());
        }
        while i < self.permissions.len()
            invariant
                0 <= i <= self.permissions@.len(),
                views_of_permissions(out@) == rows_for(
                    self.permissions_view().take(i as int),
                    username@,
                ),
            decreases self.permissions@.len() - i,
        {
            proof {
                let pv = self.permissions_view();
                assert(pv.take(i as int + 1).drop_last() =~= pv.take(i as int));
                assert(pv.take(i as int + 1).last() == pv[i as int]);
            }
            let ghost prev = views_of_permissions(out@);
            if crate::permissions::str_eq(self.permissions[i].applies_to.as_str(), username) {
                out.push(self.permissions[i].clone());
                proof {
                    assert(views_of_permissions(out@) =~= prev.push(self.permissions@[i as int]@));
                }
            }
            i += 1;
        }
        proof {
            assert(self.permissions_view().take(self.permissions@.len() as int)
                =~= self.permissions_view());
        }
        out
    }

    /// Assign a permission to a user: the row is appended with the next
    /// free id, so later rows override earlier ones during evaluation.
    pub fn assign_permission(
        &mut self,
        username: &str,
        path: &str,
        action: Action,
        affects_children: bool,
    ) -> (r: Result<Permission, Error>)
        requires
            old(self).wf(),
        ensures
            final(self).wf(),
            final(self).users_view() == old(self).users_view(),
            match r {
                Ok(p) => lookup_user(old(self).users_view(), username@) is Some && old(self).next_id() < i32::MAX && p@ == (PermissionView {
                    id: old(self).next_id(),
                    applies_to: username@,
                    path: path@,
                    action,
                    affects_children,
                }) && final(self).permissions_view() == old(self).permissions_view().push(p@)
                    && final(self).next_id() == old(self).next_id() + 1,
                Err(e) => final(self).permissions_view() == old(self).permissions_view() && final(self).next_id() == old(self).next_id() && (if lookup_user(
                    old(self).users_view(),
                    username@,
                ) is None {
                    e == Error::NotFound
                } else {
                    e is Unexpected && old(self).next_id() == i32::MAX
                }),
            },
    {
        match self.find_user_index(username) {
            None => {
                proof {
                    lemma_lookup_absent(old(self).users_view(), username@);
                }
                Err(Error::NotFound)
            }
            Some(i) => {
                proof {
                    lemma_lookup_found(old(self).users_view(), username@, i as int);
                }
                if self.next_permission_id == i32::MAX {
                    return Err(Error::Unexpected("permission id space exhausted".to_owned()));
                }
                let row = Permission {
                    id: self.next_permission_id,
                    applies_to: username.to_owned(),
                    path: path.to_owned(),
                    action,
                    affects_children,
                };
                let result = row.clone();
                self.permissions.push(row);
                self.next_permission_id = self.next_permission_id + 1;
                proof {
                    assert(self.permissions_view() =~= old(self).permissions_view().push(result@));
                    assert forall|a: int, b: int|
                        0 <= a < b < self.permissions_view().len() implies self.permissions_view()[a].id
                        != self.permissions_view()[b].id by {
                        if b < self.permissions_view().len() - 1 {
                            assert(self.permissions_view()[a] == old(self).permissions_view()[a]);
                            assert(self.permissions_view()[b] == old(self).permissions_view()[b]);
                        } else {
                            assert(self.permissions_view()[a] == old(self).permissions_view()[a]);
                        }
                    }
                }
                Ok(result)
            }
        }
    }

    /// Remove a permission by its id. Removing an unknown id changes
    /// nothing.
    #[verifier::rlimit(50)]
    pub fn remove_permission(&mut self, id: i32)
        requires
            old(self).wf(),
        ensures
            final(self).wf(),
            final(self).permissions_view() == removed_permission(old(self).permissions_view(), id),
            final(self).users_view() == old(self).users_view(),
            final(self).next_id() == old(self).next_id(),
    {
        let mut out: Vec<Permission> = Vec::new();
        let mut i: usize = 0;
        proof {
            assert(self.permissions_view().take(0) =~= Seq::<PermissionView>::empty());
            assert(views_of_permissions(out@) =~= Seq::<PermissionView>::empty());
        }
        while i < self.permissions.len()
            invariant
                0 <= i <= self.permissions@.len(),
                views_of_permissions(out@) == removed_permission(
                    self.permissions_view().take(i as int),
                    id,
                ),
            decreases self.permissions@.len() - i,
        {
            proof {
                let pv = self.permissions_view();
                assert(pv.take(i as int + 1).drop_last() =~= pv.take(i as int));
                assert(pv.take(i as int + 1).last() == pv[i as int]);
            }
            let ghost prev = views_of_permissions(out@);
            if self.permissions[i].id != id {
                out.push(self.permissions[i].clone());
                proof {
                    assert(views_of_permissions(out@) =~= prev.push(self.permissions@[i as int]@));
                }
            }
            i += 1;
        }
        proof {
            assert(self.permissions_view().take(self.permissions@.len() as int)
                =~= self.permissions_view());
            lemma_removed_permission_wf(old(self).permissions_view(), id, old(self).next_id());
        }
        self.permissions = out;
    }

    /// Updating one user row in place keeps the permission rows, the next
    /// id, and — when the row keeps its username — the uniqueness invariant.
    proof fn lemma_row_update_wf(&self, prev: UserStore, i: int)
        requires
            prev.wf(),
            0 <= i < prev.users_view().len(),
            self.users_view().len() == prev.users_view().len(),
            forall|k: int|
                0 <= k < self.users_view().len() ==> self.users_view()[k].username == prev.users_view()[k].username,
            self.permissions_view() == prev.permissions_view(),
            self.next_id() == prev.next_id(),
        ensures
            self.wf(),
    {
    }
}

/// Removing a permission row keeps ids unique and below any bound they were
/// below, since what is left is a selection of the original rows.
proof fn lemma_removed_permission_wf(rows: Seq<PermissionView>, id: i32, bound: i32)
    requires
        forall|i: int, j: int| 0 <= i < j < rows.len() ==> rows[i].id != rows[j].id,
        forall|i: int| 0 <= i < rows.len() ==> rows[i].id < bound,
    ensures
        forall|i: int, j: int|
            0 <= i < j < removed_permission(rows, id).len() ==> removed_permission(rows, id)[i].id
                != removed_permission(rows, id)[j].id,
        forall|i: int|
            0 <= i < removed_permission(rows, id).len() ==> removed_permission(rows, id)[i].id
                < bound,
        forall|k: int|
            0 <= k < removed_permission(rows, id).len() ==> exists|j: int|
                0 <= j < rows.len() && #[trigger] removed_permission(rows, id)[k].id == rows[j].id,
    decreases rows.len(),
{
    if rows.len() > 0 {
        lemma_removed_permission_wf(rows.drop_last(), id, bound);
        let rest = removed_permission(rows.drop_last(), id);
        if rows.last().id != id {
            let full = rest.push(rows.last());
            assert forall|k: int| 0 <= k < full.len() implies exists|j: int|
                0 <= j < rows.len() && #[trigger] full[k].id == rows[j].id by {
                if k < rest.len() {
                    let j = choose|j: int|
                        0 <= j < rows.drop_last().len() && rest[k].id == rows.drop_last()[j].id;
                    assert(full[k].id == rows[j].id);
                } else {
                    assert(full[k].id == rows[rows.len() - 1].id);
                }
            }
            assert forall|a: int, b: int| 0 <= a < b < full.len() implies full[a].id
                != full[b].id by {
                if b == full.len() - 1 {
                    let j = choose|j: int|
                        0 <= j < rows.drop_last().len() && rest[a].id == rows.drop_last()[j].id;
                    assert(rows[j].id != rows[rows.len() - 1].id);
                }
            }
        }
    }
}

/// Looking up the user whose token was just replaced finds the same row
/// with the new hash; an absent user stays absent.
proof fn lemma_lookup_set_token(users: Seq<UserView>, username: Seq<char>, token: Option<Seq<char>>)
    ensures
        lookup_user(set_token(users, username, token), username) == match lookup_user(
            users,
            username,
        ) {
            None => None,
            Some(u) => Some(UserView { access_token: token, ..u }),
        },
    decreases users.len(),
{
    if users.len() > 0 {
        if users[0].username == username {
            let row = UserView { access_token: token, ..users[0] };
            assert(set_token(users, username, token)[0] == row);
        } else {
            lemma_lookup_set_token(users.drop_first(), username, token);
            let rest = set_token(users.drop_first(), username, token);
            assert((seq![users[0]] + rest)[0] == users[0]);
            assert((seq![users[0]] + rest).drop_first() =~= rest);
        }
    }
}

/// Replacing a token hash twice is the same as replacing it once with the
/// second hash: the first replacement leaves no trace.
proof fn lemma_set_token_twice(
    users: Seq<UserView>,
    username: Seq<char>,
    a: Option<Seq<char>>,
    b: Option<Seq<char>>,
)
    ensures
        set_token(set_token(users, username, a), username, b) == set_token(users, username, b),
    decreases users.len(),
{
    if users.len() > 0 {
        if users[0].username == username {
            let once = set_token(users, username, a);
            assert(once[0] == UserView { access_token: a, ..users[0] });
            assert(once.drop_first() =~= users.drop_first());
            assert(set_token(once, username, b) =~= set_token(users, username, b));
        } else {
            lemma_set_token_twice(users.drop_first(), username, a, b);
            let once = set_token(users, username, a);
            assert(once[0] == users[0]);
            assert(once.drop_first() =~= set_token(users.drop_first(), username, a));
            assert(set_token(once, username, b) =~= set_token(users, username, b));
        }
    }
}

/// A found row carries the username it was looked up under.
pub proof fn lemma_lookup_username(users: Seq<UserView>, username: Seq<char>)
    requires
        lookup_user(users, username) is Some,
    ensures
        lookup_user(users, username)->Some_0.username == username,
    decreases users.len(),
{
    if users.len() > 0 && users[0].username != username {
        lemma_lookup_username(users.drop_first(), username);
    }
}

/// Replacing the token hash of an absent user changes nothing.
pub proof fn lemma_set_token_noop_when_absent(
    users: Seq<UserView>,
    username: Seq<char>,
    token: Option<Seq<char>>,
)
    requires
        lookup_user(users, username) is None,
    ensures
        set_token(users, username, token) == users,
{
    lemma_lookup_absent(users, username);
    lemma_set_token_absent(users, username, token);
}

/// Revocation: after a user's stored hash is cleared, verification returns
/// `None` for every presented token, the previously valid one included.
pub proof fn lemma_revocation(users: Seq<UserView>, username: Seq<char>, token: Seq<char>)
    ensures
        verify_spec(set_token(users, username, None), username, token) is None,
{
    lemma_lookup_set_token(users, username, None);
}

/// Regeneration invalidation: after two regenerations only the second
/// stored hash decides, and a token verifies exactly when it verifies
/// against that hash — so the most recent token verifies, and the first
/// issued one keeps no standing of its own.
pub proof fn lemma_regeneration_invalidation(
    users: Seq<UserView>,
    username: Seq<char>,
    h1: Seq<char>,
    h2: Seq<char>,
    token: Seq<char>,
)
    ensures
        verify_spec(
            set_token(set_token(users, username, Some(h1)), username, Some(h2)),
            username,
            token,
        ) == verify_spec(set_token(users, username, Some(h2)), username, token),
        lookup_user(users, username) is Some ==> (verify_spec(
            set_token(set_token(users, username, Some(h1)), username, Some(h2)),
            username,
            token,
        ) is Some <==> argon_verifies(h2, token)),
{
    lemma_set_token_twice(users, username, Some(h1), Some(h2));
    lemma_lookup_set_token(users, username, Some(h2));
}

/// The username each row of an upsert carries: existing rows keep theirs,
/// and only a final fresh row carries the upserted username.
proof fn lemma_upserted_usernames(users: Seq<UserView>, username: Seq<char>, name: Seq<char>)
    ensures
        forall|k: int|
            0 <= k < upserted(users, username, name).len()
                ==> #[trigger] upserted(users, username, name)[k].username == (if k < users.len() {
                users[k].username
            } else {
                username
            }),
    decreases users.len(),
{
    if users.len() > 0 && users[0].username != username {
        lemma_upserted_usernames(users.drop_first(), username, name);
        let rest = upserted(users.drop_first(), username, name);
        assert forall|k: int|
            0 <= k < upserted(users, username, name).len() implies #[trigger] upserted(
            users,
            username,
            name,
        )[k].username == (if k < users.len() {
            users[k].username
        } else {
            username
        }) by {
            if k > 0 {
                assert(upserted(users, username, name)[k] == rest[k - 1]);
            }
        }
    }
}

/// Looking up the upserted username finds the updated or created row, and
/// the row count grows only when the user was absent.
proof fn lemma_lookup_upserted(users: Seq<UserView>, username: Seq<char>, name: Seq<char>)
    ensures
        lookup_user(upserted(users, username, name), username) == Some(
            match lookup_user(users, username) {
                Some(u) => UserView { name, ..u },
                None => default_user(username, name),
            },
        ),
        upserted(users, username, name).len() == if lookup_user(users, username) is Some {
            users.len() as int
        } else {
            users.len() as int + 1
        },
    decreases users.len(),
{
    if users.len() == 0 {
    } else if users[0].username == username {
        assert(upserted(users, username, name)[0] == UserView { name, ..users[0] });
    } else {
        lemma_lookup_upserted(users.drop_first(), username, name);
        let rest = upserted(users.drop_first(), username, name);
        assert((seq![users[0]] + rest)[0] == users[0]);
        assert((seq![users[0]] + rest).drop_first() =~= rest);
    }
}

/// An upsert keeps usernames unique.
proof fn lemma_upsert_preserves_unique(users: Seq<UserView>, username: Seq<char>, name: Seq<char>)
    requires
        usernames_unique(users),
    ensures
        usernames_unique(upserted(users, username, name)),
{
    lemma_upserted_usernames(users, username, name);
    lemma_lookup_upserted(users, username, name);
    lemma_lookup_absent(users, username);
    let after = upserted(users, username, name);
    assert forall|a: int, b: int| 0 <= a < b < after.len() implies after[a].username
        != after[b].username by {
        if b < users.len() {
        } else {
            assert(lookup_user(users, username) is None);
            assert(after[a].username == users[a].username);
        }
    }
}

/// Concurrent first authentication: upserting one username twice never
/// creates two rows — the second upsert finds the first row and only
/// updates its display name.
pub proof fn lemma_concurrent_first_auth(
    users: Seq<UserView>,
    username: Seq<char>,
    n1: Seq<char>,
    n2: Seq<char>,
)
    requires
        usernames_unique(users),
    ensures
        usernames_unique(upserted(users, username, n1)),
        usernames_unique(upserted(upserted(users, username, n1), username, n2)),
        upserted(upserted(users, username, n1), username, n2).len() == upserted(
            users,
            username,
            n1,
        ).len(),
        lookup_user(upserted(upserted(users, username, n1), username, n2), username) == Some(
            UserView {
                name: n2,
                ..lookup_user(upserted(users, username, n1), username)->Some_0
            },
        ),
{
    lemma_lookup_upserted(users, username, n1);
    lemma_upsert_preserves_unique(users, username, n1);
    let s1 = upserted(users, username, n1);
    lemma_lookup_upserted(s1, username, n2);
    lemma_upsert_preserves_unique(s1, username, n2);
}

} // verus!
