//! Users: how passwords are stored and checked.

use vstd::prelude::*;
use crate::error::ApiError;
use crate::mcp::auth::{argon2_hash_secret, verify_secret_spec, verify_secret};

verus! {

broadcast use vstd::string::group_string_axioms;

/// User queries.
pub struct UserRepository;

impl UserRepository {
    /// Checks `password` against the stored PHC string: the answer is an
    /// `InternalError("Password verification failed")` when the hash does
    /// not parse, else whether Argon2 accepts the password.
    pub fn verify_password(password: &str, password_hash: &str) -> (r: Result<bool, ApiError>)
        ensures
            match r {
                Ok(b) => verify_secret_spec(password@, password_hash@) == Some(b),
                Err(e) => verify_secret_spec(password@, password_hash@) is None && (e matches ApiError::InternalError(
                    m,
                ) && m@ == "Password verification failed"@),
            },
    {
        match verify_secret(password, password_hash) {
            Ok(b) => Ok(b),
            Err(_) => Err(ApiError::InternalError(String::from_str("Password verification failed"))),
        }
    }

    /// Stores `password` as an Argon2 PHC string with a fresh random salt;
    /// the stored string verifies the password.
    pub fn hash_password(password: &str) -> (r: Result<String, ApiError>)
        ensures
            match r {
                Ok(h) => verify_secret_spec(password@, h@) == Some(true),
                Err(e) => e matches ApiError::InternalError(m) && m@ == "Password hashing failed"@,
            },
    {
        match argon2_hash_secret(password) {
            Some(h) => Ok(h),
            None => Err(ApiError::InternalError(String::from_str("Password hashing failed"))),
        }
    }
}

} // verus!
