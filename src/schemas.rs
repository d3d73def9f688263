//! Request and response bodies of the HTTP layer.
use vstd::prelude::*;
use vstd::string::*;

use crate::users::UserInfo;

verus! {

/// Page and page size asked for in a listing request.
pub struct PaginationParams {
    pub page: u32,
    pub limit: u32,
}

/// Page asked for when the request names none.
pub fn default_page() -> (r: u32)
    ensures
        r == 1,
{
    1
}

/// Page size asked for when the request names none.
pub fn default_limit() -> (r: u32)
    ensures
        r == 10,
{
    10
}

impl PaginationParams {
    /// The page and page size actually served: the page is at least 1 and
    /// the page size lies in `[1, 100]`.
    pub fn normalized(&self) -> (r: (u32, u32))
        ensures
            r.0 == if self.page >= 1 {
                self.page
            } else {
                1
            },
            r.1 == if self.limit < 1 {
                1
            } else if self.limit > 100 {
                100
            } else {
                self.limit
            },
            r.0 >= 1 && 1 <= r.1 <= 100,
    {
        let page = if self.page >= 1 {
            self.page
        } else {
            1
        };
        let limit = if self.limit < 1 {
            1
        } else if self.limit > 100 {
            100
        } else {
            self.limit
        };
        (page, limit)
    }
}

impl Default for PaginationParams {
    fn default() -> (r: PaginationParams)
        ensures
            r.page == 1 && r.limit == 10,
    {
        PaginationParams { page: default_page(), limit: default_limit() }
    }
}

/// New name for an image.
pub struct ImageRenameRequest {
    pub image_name: String,
}

/// Whether an update changed anything.
pub struct ImageUpdateResponse {
    pub updated: bool,
}

pub struct LoginResponse {
    pub user: UserInfo,
    pub access_token: String,
    pub refresh_token: String,
}

pub struct UserResponse {
    pub user: UserInfo,
}

pub struct RefreshTokenRequest {
    pub refresh_token: String,
}

pub struct RefreshTokenResponse {
    pub access_token: String,
    pub refresh_token: String,
}

pub struct LogoutResponse {
    pub message: String,
}

impl LogoutResponse {
    /// The response to a completed logout.
    pub fn success() -> (r: LogoutResponse)
        ensures
            r.message@ == "Logged out successfully"@,
    {
        LogoutResponse { message: String::from_str("Logged out successfully") }
    }
}

} // verus!
