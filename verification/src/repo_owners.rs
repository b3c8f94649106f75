//! Whether a user may manage a repository's signals: the user's GitHub
//! login owns the repository, or GitHub reports the user as a member of the
//! owning organization or as a collaborator with write access. The calls to
//! GitHub are made by the caller; this module builds their URLs and reads
//! their answers.
use vstd::prelude::*;

use crate::error::ApiError;
use crate::text::{eq_ignore_ascii_case, int_decimal, lower_seq, owned, push_str, trim, trim_seq};

verus! {

/// The reason phrase `http` gives a status code: its canonical reason, or
/// `<unknown status code>`.
pub uninterp spec fn status_reason(code: u16) -> Seq<char>;

/// `http::StatusCode`'s display: the code, a space and its reason phrase.
#[verifier::external_body]
fn status_line(code: u16) -> (r: String)
    requires
        100 <= code <= 999,
    ensures
        r@ == int_decimal(code as int) + " "@ + status_reason(code),
{
    match http::StatusCode::from_u16(code) {
        Ok(status) => status.to_string(),
        Err(_) => String::new(),
    }
}

pub open spec fn status_line_spec(code: u16) -> Seq<char> {
    int_decimal(code as int) + " "@ + status_reason(code)
}

/// `https://api.github.com/orgs/{org}/public_members/{login}`, both trimmed.
pub fn public_member_url(org: &str, login: &str) -> (r: String)
    ensures
        r@ == "https://api.github.com/orgs/"@ + trim_seq(org@) + "/public_members/"@ + trim_seq(
            login@,
        ),
{
    let mut r = owned("https://api.github.com/orgs/");
    push_str(&mut r, trim(org).as_str());
    push_str(&mut r, "/public_members/");
    push_str(&mut r, trim(login).as_str());
    r
}

/// `https://api.github.com/orgs/{org}/memberships/{login}`, both trimmed.
pub fn private_member_url(org: &str, login: &str) -> (r: String)
    ensures
        r@ == "https://api.github.com/orgs/"@ + trim_seq(org@) + "/memberships/"@ + trim_seq(
            login@,
        ),
{
    let mut r = owned("https://api.github.com/orgs/");
    push_str(&mut r, trim(org).as_str());
    push_str(&mut r, "/memberships/");
    push_str(&mut r, trim(login).as_str());
    r
}

/// `https://api.github.com/repos/{owner}/{repo}/collaborators/{login}/permission`,
/// each part trimmed.
pub fn collaborator_permission_url(owner: &str, repo: &str, login: &str) -> (r: String)
    ensures
        r@ == "https://api.github.com/repos/"@ + trim_seq(owner@) + "/"@ + trim_seq(repo@)
            + "/collaborators/"@ + trim_seq(login@) + "/permission"@,
{
    let mut r = owned("https://api.github.com/repos/");
    push_str(&mut r, trim(owner).as_str());
    push_str(&mut r, "/");
    push_str(&mut r, trim(repo).as_str());
    push_str(&mut r, "/collaborators/");
    push_str(&mut r, trim(login).as_str());
    push_str(&mut r, "/permission");
    r
}

/// A stored GitHub login counts when it is not blank.
pub fn usable_login(login: Option<String>) -> (r: Option<String>)
    ensures
        match login {
            Some(l) => if trim_seq(l@).len() > 0 {
                r == Some(l)
            } else {
                r is None
            },
            None => r is None,
        },
{
    match login {
        Some(l) => {
            if crate::text::trim_chars(crate::text::chars_of(l.as_str()).as_slice()).len() > 0 {
                Some(l)
            } else {
                None
            }
        },
        None => None,
    }
}

/// The login owns the repository when it equals the owner, ignoring ASCII
/// case.
pub fn login_owns_repo(login: &str, owner: &str) -> (r: bool)
    ensures
        r == (lower_seq(login@) == lower_seq(owner@)),
{
    eq_ignore_ascii_case(login, owner)
}

pub const HTTP_OK: u16 = 200;
pub const HTTP_NO_CONTENT: u16 = 204;
pub const HTTP_UNAUTHORIZED: u16 = 401;
pub const HTTP_FORBIDDEN: u16 = 403;
pub const HTTP_NOT_FOUND: u16 = 404;
pub const HTTP_TOO_MANY_REQUESTS: u16 = 429;

/// A public membership answer: 204 is a member, 404 is not, 403 and 429
/// mean the lookup is unavailable, anything else is unexpected.
pub fn public_membership_verdict(status: u16) -> (r: Result<bool, ApiError>)
    requires
        100 <= status <= 999,
    ensures
        status == HTTP_NO_CONTENT ==> r == Ok::<bool, ApiError>(true),
        status == HTTP_NOT_FOUND ==> r == Ok::<bool, ApiError>(false),
        status == HTTP_FORBIDDEN || status == HTTP_TOO_MANY_REQUESTS ==> (r matches Err(e)
            && e.is_forbidden("GitHub org membership lookup is temporarily unavailable"@)),
        status != HTTP_NO_CONTENT && status != HTTP_NOT_FOUND && status != HTTP_FORBIDDEN
            && status != HTTP_TOO_MANY_REQUESTS ==> (r matches Err(e) && e.is_bad_request(
            "Unexpected GitHub org membership response: "@ + status_line_spec(status),
        )),
{
    if status == HTTP_NO_CONTENT {
        Ok(true)
    } else if status == HTTP_NOT_FOUND {
        Ok(false)
    } else if status == HTTP_FORBIDDEN || status == HTTP_TOO_MANY_REQUESTS {
        Err(ApiError::forbidden("GitHub org membership lookup is temporarily unavailable"))
    } else {
        let mut m = owned("Unexpected GitHub org membership response: ");
        push_str(&mut m, status_line(status).as_str());
        Err(ApiError::bad_request_owned(m))
    }
}

/// A private membership answer: 200 is a member, 404, 403 and 401 are not,
/// 429 means the lookup is unavailable, anything else is unexpected.
pub fn private_membership_verdict(status: u16) -> (r: Result<bool, ApiError>)
    requires
        100 <= status <= 999,
    ensures
        status == HTTP_OK ==> r == Ok::<bool, ApiError>(true),
        status == HTTP_NOT_FOUND || status == HTTP_FORBIDDEN || status == HTTP_UNAUTHORIZED
            ==> r == Ok::<bool, ApiError>(false),
        status == HTTP_TOO_MANY_REQUESTS ==> (r matches Err(e) && e.is_forbidden(
            "GitHub private org membership lookup is temporarily unavailable"@,
        )),
        status != HTTP_OK && status != HTTP_NOT_FOUND && status != HTTP_FORBIDDEN && status
            != HTTP_UNAUTHORIZED && status != HTTP_TOO_MANY_REQUESTS ==> (r matches Err(e)
            && e.is_bad_request(
            "Unexpected GitHub private membership response: "@ + status_line_spec(status),
        )),
{
    if status == HTTP_OK {
        Ok(true)
    } else if status == HTTP_NOT_FOUND || status == HTTP_FORBIDDEN || status == HTTP_UNAUTHORIZED {
        Ok(false)
    } else if status == HTTP_TOO_MANY_REQUESTS {
        Err(ApiError::forbidden("GitHub private org membership lookup is temporarily unavailable"))
    } else {
        let mut m = owned("Unexpected GitHub private membership response: ");
        push_str(&mut m, status_line(status).as_str());
        Err(ApiError::bad_request_owned(m))
    }
}

/// What a collaborator-permission answer leads to.
#[derive(Debug, Clone, Copy, PartialEq, Eq)]
pub enum CollaboratorLookup {
    /// The answer carries the user's permission: read it.
    ReadPermission,
    /// The user has no access.
    NoAccess,
}

/// A collaborator-permission answer: 200 carries the permission, 404, 403
/// and 401 mean no access, 429 means the lookup is unavailable, anything
/// else is unexpected.
pub fn collaborator_status_verdict(status: u16) -> (r: Result<CollaboratorLookup, ApiError>)
    requires
        100 <= status <= 999,
    ensures
        status == HTTP_OK ==> r == Ok::<CollaboratorLookup, ApiError>(
            CollaboratorLookup::ReadPermission,
        ),
        status == HTTP_NOT_FOUND || status == HTTP_FORBIDDEN || status == HTTP_UNAUTHORIZED
            ==> r == Ok::<CollaboratorLookup, ApiError>(CollaboratorLookup::NoAccess),
        status == HTTP_TOO_MANY_REQUESTS ==> (r matches Err(e) && e.is_forbidden(
            "GitHub collaborator permission lookup is temporarily unavailable"@,
        )),
        status != HTTP_OK && status != HTTP_NOT_FOUND && status != HTTP_FORBIDDEN && status
            != HTTP_UNAUTHORIZED && status != HTTP_TOO_MANY_REQUESTS ==> (r matches Err(e)
            && e.is_bad_request(
            "Unexpected GitHub collaborator permission response: "@ + status_line_spec(status),
        )),
{
    if status == HTTP_OK {
        Ok(CollaboratorLookup::ReadPermission)
    } else if status == HTTP_NOT_FOUND || status == HTTP_FORBIDDEN || status == HTTP_UNAUTHORIZED {
        Ok(CollaboratorLookup::NoAccess)
    } else if status == HTTP_TOO_MANY_REQUESTS {
        Err(ApiError::forbidden("GitHub collaborator permission lookup is temporarily unavailable"))
    } else {
        let mut m = owned("Unexpected GitHub collaborator permission response: ");
        push_str(&mut m, status_line(status).as_str());
        Err(ApiError::bad_request_owned(m))
    }
}

pub open spec fn opt_is(o: Option<&str>, s: Seq<char>) -> bool {
    match o {
        Some(x) => x@ == s,
        None => false,
    }
}

/// Write access: the permission is `admin` or `write`, or the role is
/// `admin`, `write` or `maintain`.
pub fn permission_grants_write(permission: Option<&str>, role_name: Option<&str>) -> (r: bool)
    ensures
        r == (opt_is(permission, "admin"@) || opt_is(permission, "write"@) || opt_is(
            role_name,
            "admin"@,
        ) || opt_is(role_name, "write"@) || opt_is(role_name, "maintain"@)),
{
    let p = match permission {
        Some(x) => crate::text::str_eq(x, "admin") || crate::text::str_eq(x, "write"),
        None => false,
    };
    let q = match role_name {
        Some(x) => crate::text::str_eq(x, "admin") || crate::text::str_eq(x, "write")
            || crate::text::str_eq(x, "maintain"),
        None => false,
    };
    p || q
}

} // verus!
