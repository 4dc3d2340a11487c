//! User request schemes.

use vstd::prelude::*;

verus! {

/// A sign-up request: username and password in clear.
pub struct UserCreationScheme {
    pub username: String,
    pub password: String,
}

/// A token re-validation request.
pub struct ValidateToken {
    pub jwt_token: String,
}

} // verus!
