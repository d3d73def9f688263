//! Token claims, token bodies, and the decisions of the refresh flow.
use vstd::prelude::*;
use vstd::string::*;


verus! {

/// Lifetime of an access token, in seconds.
pub const ACCESS_TOKEN_SECS: u64 = 900;

/// Lifetime of a refresh token, in seconds.
pub const REFRESH_TOKEN_SECS: u64 = 604800;

/// Claims carried by a token.
pub struct Claims {
    /// Subject: the username.
    pub sub: String,
    /// Expiry, in seconds since the epoch.
    pub exp: u64,
    /// Issue time, in seconds since the epoch.
    pub iat: u64,
}

impl Claims {
    /// Claims for `username` issued at `now`, valid for `lifetime` seconds.
    pub fn new(username: &str, now: u64, lifetime: u64) -> (r: Claims)
        requires
            now + lifetime <= u64::MAX,
        ensures
            r.sub@ == username@,
            r.iat == now,
            r.exp == now + lifetime,
    {
        Claims { sub: String::from_str(username), exp: now + lifetime, iat: now }
    }

    /// Claims for a short-lived access token.
    pub fn new_for_access(username: &str, now: u64) -> (r: Claims)
        requires
            now + ACCESS_TOKEN_SECS <= u64::MAX,
        ensures
            r.sub@ == username@,
            r.iat == now,
            r.exp == now + ACCESS_TOKEN_SECS,
    {
        Claims::new(username, now, ACCESS_TOKEN_SECS)
    }

    /// Claims for a long-lived refresh token.
    pub fn new_for_refresh(username: &str, now: u64) -> (r: Claims)
        requires
            now + REFRESH_TOKEN_SECS <= u64::MAX,
        ensures
            r.sub@ == username@,
            r.iat == now,
            r.exp == now + REFRESH_TOKEN_SECS,
    {
        Claims::new(username, now, REFRESH_TOKEN_SECS)
    }
}

/// Body returned by a successful authorization.
pub struct AuthBody {
    pub access_token: String,
    pub token_type: String,
}

impl AuthBody {
    /// A bearer-token body.
    pub fn new(access_token: String) -> (r: AuthBody)
        ensures
            r.access_token == access_token,
            r.token_type@ == "Bearer"@,
    {
        AuthBody { access_token, token_type: String::from_str("Bearer") }
    }
}

/// Client credentials presented for authorization.
pub struct AuthPayload {
    pub client_id: String,
    pub client_secret: String,
}

impl AuthPayload {
    /// Whether both the id and the secret are given.
    pub fn has_credentials(&self) -> (r: bool)
        ensures
            r == (self.client_id@.len() > 0 && self.client_secret@.len() > 0),
    {
        self.client_id.as_str().unicode_len() > 0 && self.client_secret.as_str().unicode_len() > 0
    }
}

/// A stored refresh token, as far as the refresh flow reads it.
pub struct RefreshTokenState {
    pub username: String,
    /// Expiry, in seconds since the epoch.
    pub expires_at: i64,
    pub is_used: bool,
}

/// What the refresh flow does with a presented refresh token.
#[derive(Clone, Copy, Debug, PartialEq, Eq, Structural)]
pub enum RefreshDecision {
    /// Unknown token: reject.
    Reject,
    /// Expired token: delete it, then reject.
    DeleteAndReject,
    /// A token used a second time: revoke all of its user's tokens, then reject.
    RevokeAllAndReject,
    /// Valid token: mark it used, then issue a new pair of tokens.
    MarkUsedAndIssue,
}

/// The refresh flow's decision for the stored token found (if any) at `now`.
pub open spec fn refresh_decision_of(token: Option<RefreshTokenState>, now: i64) -> RefreshDecision {
    match token {
        None => RefreshDecision::Reject,
        Some(t) => if now > t.expires_at {
            RefreshDecision::DeleteAndReject
        } else if t.is_used {
            RefreshDecision::RevokeAllAndReject
        } else {
            RefreshDecision::MarkUsedAndIssue
        },
    }
}

/// Decides what to do with a presented refresh token: expiry is checked
/// before reuse, so an expired token is only deleted.
pub fn refresh_decision(token: Option<&RefreshTokenState>, now: i64) -> (r: RefreshDecision)
    ensures
        r == refresh_decision_of(
            match token {
                Some(t) => Some(*t),
                None => None,
            },
            now,
        ),
{
    match token {
        None => RefreshDecision::Reject,
        Some(t) => if now > t.expires_at {
            RefreshDecision::DeleteAndReject
        } else if t.is_used {
            RefreshDecision::RevokeAllAndReject
        } else {
            RefreshDecision::MarkUsedAndIssue
        },
    }
}

/// An object-store error with its context.
pub struct S3Error(pub String);

impl S3Error {
    pub fn new(value: &str) -> (r: S3Error)
        ensures
            r.0@ == value@,
    {
        S3Error(String::from_str(value))
    }

    /// The error with `message` put in front of it.
    pub fn add_message(self, message: &str) -> (r: S3Error)
        ensures
            r.0@ == message@ + ": "@ + self.0@,
    {
        let mut m = String::from_str(message);
        m.append(": ");
        m.append(self.0.as_str());
        S3Error(m)
    }

    /// The error described by a service error's code and message; absent
    /// parts read `unknown code` and `?`.
    pub fn from_metadata(code: Option<&str>, message: Option<&str>) -> (r: S3Error)
        ensures
            r.0@ == match code {
                Some(c) => c@,
                None => "unknown code"@,
            } + ": "@ + match message {
                Some(m) => m@,
                None => "?"@,
            },
    {
        let mut m = match code {
            Some(c) => String::from_str(c),
            None => String::from_str("unknown code"),
        };
        m.append(": ");
        match message {
            Some(t) => m.append(t),
            None => m.append("?"),
        }
        S3Error(m)
    }

    /// The error's text.
    pub fn to_string(&self) -> (r: String)
        ensures
            r@ == self.0@,
    {
        self.0.clone()
    }
}

} // verus!
