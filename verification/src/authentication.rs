//! Identity resolution: extracts an authenticated identity from trusted
//! proxy headers or from HTTP Basic credentials, in that fixed priority
//! order, never combining the two within one request.

use vstd::prelude::*;

use crate::error::Error;
use crate::store::{UserStore, default_user, lemma_lookup_username, lookup_user, upserted, verify_spec};
use crate::user::{User, UserView};

verus! {

/// Decoded HTTP Basic credentials: the username, and the bearer token
/// presented as the password.
pub struct Credentials {
    pub username: String,
    pub password: String,
}

/// What a request carries for one header: whether the header is present at
/// all, and its text when it is present and decodes as text.
pub struct HeaderField {
    pub present: bool,
    pub value: Option<String>,
}

impl HeaderField {
    /// A header can only carry text if it is there.
    pub open spec fn wf(&self) -> bool {
        self.value is Some ==> self.present
    }

    /// The decoded text, as a mathematical value.
    pub open spec fn decoded(&self) -> Option<Seq<char>> {
        match self.value {
            Some(v) => Some(v@),
            None => None,
        }
    }
}

/// The authentication material of one request: the two trusted-proxy
/// headers, and the Authorization header with its decoded Basic credentials.
pub struct AuthRequest {
    pub remote_user: HeaderField,
    pub remote_name: HeaderField,
    pub authorization_present: bool,
    pub basic: Option<Credentials>,
}

impl AuthRequest {
    /// Credentials can only have been decoded from a present header.
    pub open spec fn wf(&self) -> bool {
        &&& self.remote_user.wf()
        &&& self.remote_name.wf()
        &&& (self.basic is Some ==> self.authorization_present)
    }
}

/// The resolved identity attached to request-scoped context.
#[derive(Debug, PartialEq)]
pub struct UserInfo {
    pub username: String,
    pub display_name: String,
}

impl From<User> for UserInfo {
    fn from(user: User) -> (r: UserInfo) {
        UserInfo { username: user.username, display_name: user.name }
    }
}

impl vstd::std_specs::convert::FromSpecImpl<User> for UserInfo {
    open spec fn obeys_from_spec() -> bool {
        true
    }

    open spec fn from_spec(user: User) -> UserInfo {
        UserInfo { username: user.username, display_name: user.name }
    }
}

impl UserInfo {
    /// Extract user information from the request. The strategies are tried
    /// in fixed order, stopping at the first whose headers are present:
    /// trusted-proxy headers first (upserting the user row atomically), then
    /// Basic credentials, and failing with `Unauthorized` when neither
    /// matches or the matched one does not pan out.
    pub fn from_request(store: &mut UserStore, req: &AuthRequest) -> (r: Result<UserInfo, Error>)
        requires
            old(store).wf(),
        ensures
            final(store).wf(),
            final(store).permissions_view() == old(store).permissions_view(),
            final(store).next_id() == old(store).next_id(),
            ({
                let users = old(store).users_view();
                if req.remote_user.present && req.remote_name.present {
                    match (req.remote_user.decoded(), req.remote_name.decoded()) {
                        (Some(u), Some(n)) => final(store).users_view() == upserted(users, u, n)
                            && r is Ok && r->Ok_0.username@ == u && r->Ok_0.display_name@ == n,
                        _ => r == Err::<UserInfo, Error>(Error::Unauthorized) && final(store).users_view() == users,
                    }
                } else if req.authorization_present {
                    final(store).users_view() == users && match req.basic {
                        Some(c) => match verify_spec(users, c.username@, c.password@) {
                            Some(u) => r is Ok && r->Ok_0.username@ == u.username
                                && r->Ok_0.display_name@ == u.name,
                            None => r == Err::<UserInfo, Error>(Error::Unauthorized),
                        },
                        None => r == Err::<UserInfo, Error>(Error::Unauthorized),
                    }
                } else {
                    r == Err::<UserInfo, Error>(Error::Unauthorized) && final(store).users_view()
                        == users
                }
            }),
    {
        if req.remote_user.present && req.remote_name.present {
            match (&req.remote_user.value, &req.remote_name.value) {
                (Some(username), Some(display_name)) => {
                    proof {
                        if lookup_user(old(store).users_view(), username@) is Some {
                            lemma_lookup_username(old(store).users_view(), username@);
                        }
                    }
                    let user = store.create_if_not_exists(
                        username.as_str(),
                        display_name.as_str(),
                    );
                    Ok(UserInfo::from(user))
                }
                _ => Err(Error::Unauthorized),
            }
        } else if req.authorization_present {
            match &req.basic {
                Some(credentials) => {
                    match store.verify_access_token(
                        credentials.username.as_str(),
                        credentials.password.as_str(),
                    ) {
                        Some(user) => Ok(UserInfo::from(user)),
                        None => Err(Error::Unauthorized),
                    }
                }
                None => Err(Error::Unauthorized),
            }
        } else {
            Err(Error::Unauthorized)
        }
    }
}

/// Check that there is an authenticated user attached to the request
/// context; without one the request is turned away with the Basic-auth
/// challenge.
pub fn ensure_authenticated(user: Option<&User>) -> (r: Result<(), Error>)
    ensures
        r is Ok <==> user is Some,
        r is Err ==> r->Err_0 == Error::Unauthorized,
{
    match user {
        Some(_) => Ok(()),
        None => Err(Error::Unauthorized),
    }
}

/// The trusted-proxy strategy: both identity headers must decode, and the
/// user row is created or updated atomically.
pub struct SSOAuth;

impl SSOAuth {
    /// Extract the user from the proxy identity headers; `None` when either
    /// header is missing or does not decode, with the store untouched.
    pub fn extract(store: &mut UserStore, remote_user: &HeaderField, remote_name: &HeaderField)
        -> (r: Option<User>)
        requires
            old(store).wf(),
        ensures
            final(store).wf(),
            final(store).permissions_view() == old(store).permissions_view(),
            final(store).next_id() == old(store).next_id(),
            match (remote_user.decoded(), remote_name.decoded()) {
                (Some(u), Some(n)) => final(store).users_view() == upserted(
                    old(store).users_view(),
                    u,
                    n,
                ) && r is Some && r->0@ == (match lookup_user(old(store).users_view(), u) {
                    Some(x) => UserView { name: n, ..x },
                    None => default_user(u, n),
                }),
                _ => r is None && final(store).users_view() == old(store).users_view(),
            },
    {
        match (&remote_user.value, &remote_name.value) {
            (Some(username), Some(display_name)) => {
                Some(store.create_if_not_exists(username.as_str(), display_name.as_str()))
            }
            _ => None,
        }
    }
}

/// The Basic-credential strategy: the password is a bearer token checked
/// against the stored hash.
pub struct BasicAuth;

impl BasicAuth {
    /// Extract the user from decoded Basic credentials; `None` uniformly on
    /// missing credentials, unknown user, missing hash, or mismatch.
    pub fn extract(store: &UserStore, credentials: &Option<Credentials>) -> (r: Option<User>)
        ensures
            match credentials {
                Some(c) => match verify_spec(store.users_view(), c.username@, c.password@) {
                    Some(u) => r is Some && r->0@ == u,
                    None => r is None,
                },
                None => r is None,
            },
    {
        match credentials {
            Some(c) => store.verify_access_token(c.username.as_str(), c.password.as_str()),
            None => None,
        }
    }
}

} // verus!
