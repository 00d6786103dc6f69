//! The protocol-facing decision core: maps a WebDAV method to the action it
//! requires, decodes and sanitizes the raw request path, and checks the
//! caller's permissions, handing back the normalized path a request may act
//! on.

use vstd::prelude::*;

use crate::action::Action;
use crate::error::Error;
use crate::path::{sanitize_path, sanitize_spec};
use crate::permission::{Permission, views_of_permissions};
use crate::permissions::{authorized, check_permissions};
use crate::user::User;

verus! {

/// The WebDAV methods the protocol front-end dispatches.
#[derive(Clone, Copy, Debug, PartialEq, Eq, Structural)]
pub enum DavMethod {
    Get,
    Head,
    Options,
    PropFind,
    Copy,
    Delete,
    MkCol,
    Move,
    Patch,
    PropPatch,
    Put,
    Lock,
    Unlock,
}

/// The method a given HTTP method token names, if any.
pub open spec fn method_for_name(name: Seq<char>) -> Option<DavMethod> {
    if name == "GET"@ {
        Some(DavMethod::Get)
    } else if name == "HEAD"@ {
        Some(DavMethod::Head)
    } else if name == "OPTIONS"@ {
        Some(DavMethod::Options)
    } else if name == "PROPFIND"@ {
        Some(DavMethod::PropFind)
    } else if name == "COPY"@ {
        Some(DavMethod::Copy)
    } else if name == "DELETE"@ {
        Some(DavMethod::Delete)
    } else if name == "MKCOL"@ {
        Some(DavMethod::MkCol)
    } else if name == "MOVE"@ {
        Some(DavMethod::Move)
    } else if name == "PATCH"@ {
        Some(DavMethod::Patch)
    } else if name == "PROPPATCH"@ {
        Some(DavMethod::PropPatch)
    } else if name == "PUT"@ {
        Some(DavMethod::Put)
    } else if name == "LOCK"@ {
        Some(DavMethod::Lock)
    } else if name == "UNLOCK"@ {
        Some(DavMethod::Unlock)
    } else {
        None
    }
}

impl DavMethod {
    /// Parse an HTTP method token; anything the protocol does not dispatch
    /// is a malformed request.
    pub fn from_name(name: &str) -> (r: Result<DavMethod, Error>)
        ensures
            match r {
                Ok(m) => method_for_name(name@) == Some(m),
                Err(e) => method_for_name(name@) is None && e == Error::BadRequest,
            },
    {
        if crate::permissions::str_eq(name, "GET") {
            Ok(DavMethod::Get)
        } else if crate::permissions::str_eq(name, "HEAD") {
            Ok(DavMethod::Head)
        } else if crate::permissions::str_eq(name, "OPTIONS") {
            Ok(DavMethod::Options)
        } else if crate::permissions::str_eq(name, "PROPFIND") {
            Ok(DavMethod::PropFind)
        } else if crate::permissions::str_eq(name, "COPY") {
            Ok(DavMethod::Copy)
        } else if crate::permissions::str_eq(name, "DELETE") {
            Ok(DavMethod::Delete)
        } else if crate::permissions::str_eq(name, "MKCOL") {
            Ok(DavMethod::MkCol)
        } else if crate::permissions::str_eq(name, "MOVE") {
            Ok(DavMethod::Move)
        } else if crate::permissions::str_eq(name, "PATCH") {
            Ok(DavMethod::Patch)
        } else if crate::permissions::str_eq(name, "PROPPATCH") {
            Ok(DavMethod::PropPatch)
        } else if crate::permissions::str_eq(name, "PUT") {
            Ok(DavMethod::Put)
        } else if crate::permissions::str_eq(name, "LOCK") {
            Ok(DavMethod::Lock)
        } else if crate::permissions::str_eq(name, "UNLOCK") {
            Ok(DavMethod::Unlock)
        } else {
            Err(Error::BadRequest)
        }
    }
}

/// The action a method requires: reading operations need `Read`, writing
/// ones `Modify`, and the locking pair `Admin`.
pub open spec fn required_permission_spec(method: DavMethod) -> Action {
    match method {
        DavMethod::Get | DavMethod::Head | DavMethod::Options | DavMethod::PropFind => Action::Read,
        DavMethod::Copy | DavMethod::Delete | DavMethod::MkCol | DavMethod::Move
            | DavMethod::Patch | DavMethod::PropPatch | DavMethod::Put => Action::Modify,
        DavMethod::Lock | DavMethod::Unlock => Action::Admin,
    }
}

/// Get the required permission for the requested method.
pub fn required_permission(method: DavMethod) -> (a: Action)
    ensures
        a == required_permission_spec(method),
{
    match method {
        DavMethod::Get | DavMethod::Head | DavMethod::Options | DavMethod::PropFind => Action::Read,
        DavMethod::Copy | DavMethod::Delete | DavMethod::MkCol | DavMethod::Move
            | DavMethod::Patch | DavMethod::PropPatch | DavMethod::Put => Action::Modify,
        DavMethod::Lock | DavMethod::Unlock => Action::Admin,
    }
}

/// What percent-decoding returns on a path string: a function of the input
/// alone, so the name stands for the decoded text.
pub uninterp spec fn percent_decoded_of(s: Seq<char>) -> Seq<char>;

/// Relies on percent_encoding's `percent_decode_str` followed by
/// `decode_utf8_lossy`: the decoded text depends on the input string alone.
#[verifier::external_body]
fn percent_decode(raw: &str) -> (r: String)
    ensures
        r@ == percent_decoded_of(raw@),
{
    percent_encoding::percent_decode_str(raw).decode_utf8_lossy().into_owned()
}

/// The decision core of one protocol request: percent-decode the raw path,
/// sanitize it, and check the user's permission rows against the action the
/// method requires. On success the normalized path the request may act on
/// is returned; every denial, a path-escape attempt included, is the single
/// opaque permission error.
pub fn authorize_request(
    user: &User,
    permissions: Vec<Permission>,
    raw_path: &str,
    method: DavMethod,
) -> (r: Result<String, Error>)
    ensures
        match r {
            Ok(p) => sanitize_spec(percent_decoded_of(raw_path@)) == Some(p@) && authorized(
                user@,
                views_of_permissions(permissions@),
                p@,
                required_permission_spec(method),
            ),
            Err(e) => e == Error::InvalidPermissions && (sanitize_spec(
                percent_decoded_of(raw_path@),
            ) is None || !authorized(
                user@,
                views_of_permissions(permissions@),
                sanitize_spec(percent_decoded_of(raw_path@))->Some_0,
                required_permission_spec(method),
            )),
        },
{
    let decoded = percent_decode(raw_path);
    let path = match sanitize_path(decoded.as_str()) {
        Ok(p) => p,
        Err(e) => {
            return Err(e);
        }
    };
    let required = required_permission(method);
    match check_permissions(user, permissions, path.as_str(), required) {
        Ok(()) => Ok(path),
        Err(e) => Err(e),
    }
}

} // verus!
