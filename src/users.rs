//! Users and the identity that the engine is handed per call.
use vstd::prelude::*;

verus! {

/// Credentials of an account.
pub struct User {
    pub username: String,
    pub password: String,
}

/// An already-authenticated caller: its name and the namespace prefix under
/// which its objects are stored.
pub struct UserInfo {
    pub username: String,
    pub object_base_path: String,
}

/// Registration or login payload.
pub struct UserRequest {
    pub username: String,
    pub password: String,
}

impl User {
    /// The user that a request names.
    pub fn from_request(req: &UserRequest) -> (r: User)
        ensures
            r.username == req.username,
            r.password == req.password,
    {
        User { username: req.username.clone(), password: req.password.clone() }
    }
}

} // verus!
