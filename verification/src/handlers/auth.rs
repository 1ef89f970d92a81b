//! The signed-in user of a request, and what the auth endpoints answer
//! about the administrator.

use vstd::prelude::*;
use crate::error::ApiError;
use crate::text::{chars_of, starts_with, starts_with_spec, string_from_chars};

verus! {

broadcast use vstd::string::group_string_axioms;

/// Whether an administrator exists.
pub struct AdminExistsResponse {
    pub exists: bool,
}

impl AdminExistsResponse {
    /// An administrator exists when there is at least one user.
    pub fn from_user_count(count: i64) -> (r: Self)
        ensures
            r.exists == (count > 0),
    {
        AdminExistsResponse { exists: count > 0 }
    }
}

/// The user a request was authenticated as.
pub struct AuthUser {
    pub user_id: i64,
    pub username: String,
}

/// The token of an `Authorization: Bearer <token>` header, or the answer
/// `Missing or invalid Authorization header` (401).
pub fn bearer_token(authorization: Option<&str>) -> (r: Result<String, ApiError>)
    ensures
        match authorization {
            Some(h) => if starts_with_spec(h@, "Bearer "@) {
                r matches Ok(t) && t@ == h@.skip(7)
            } else {
                r matches Err(e) && (e matches ApiError::Unauthorized(m) && m@
                    == "Missing or invalid Authorization header"@)
            },
            None => r matches Err(e) && (e matches ApiError::Unauthorized(m) && m@
                == "Missing or invalid Authorization header"@),
        },
{
    match authorization {
        Some(h) => {
            let hv = chars_of(h);
            let pv = chars_of("Bearer ");
            if starts_with(hv.as_slice(), pv.as_slice()) {
                proof {
                    reveal_strlit("Bearer ");
                }
                let t = string_from_chars(&hv.as_slice()[7..hv.len()]);
                proof {
                    assert(hv@.subrange(7, hv@.len() as int) =~= h@.skip(7));
                }
                Ok(t)
            } else {
                Err(ApiError::Unauthorized(String::from_str("Missing or invalid Authorization header")))
            }
        },
        None => Err(ApiError::Unauthorized(String::from_str("Missing or invalid Authorization header"))),
    }
}

/// The answer when a handler needs a signed-in user and the request has
/// none.
pub fn not_authenticated() -> (e: ApiError)
    ensures
        e matches ApiError::Unauthorized(m) && m@ == "Not authenticated"@,
{
    ApiError::Unauthorized(String::from_str("Not authenticated"))
}

} // verus!
