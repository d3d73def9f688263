//! Errors of the image engine and of authentication, with the HTTP status
//! and message that the boundary layer reports for each.
use vstd::prelude::*;
use vstd::string::*;

verus! {

/// Failure of an image operation.
#[derive(Debug)]
pub enum ImageError {
    UploadFailure,
    MissingMultipartField,
    InvalidFileType,
    /// The payload could not be fully read from the object store.
    ReadFailure,
    /// An object-store operation failed; the text says which.
    S3OperationFailure(String),
    /// A metadata-store operation failed; the text says which.
    QueryFailure(String),
    /// No image with that id for that owner.
    NotFound,
    UserNotFound,
}

/// The message reported for an image error.
pub open spec fn image_error_message(e: ImageError) -> Seq<char> {
    match e {
        ImageError::UploadFailure => "Image upload failed"@,
        ImageError::MissingMultipartField => "Missing multipart field(s) in request"@,
        ImageError::InvalidFileType => "Invalid file type; not an image file"@,
        ImageError::ReadFailure => "Error reading image"@,
        ImageError::S3OperationFailure(e) => "S3 operation failed: "@ + e@,
        ImageError::QueryFailure(e) => "Database operation error: "@ + e@,
        ImageError::NotFound => "Image not found"@,
        ImageError::UserNotFound => "User not found"@,
    }
}

/// The HTTP status reported for an image error.
pub open spec fn image_error_status(e: ImageError) -> u16 {
    match e {
        ImageError::UploadFailure => 500,
        ImageError::MissingMultipartField => 400,
        ImageError::InvalidFileType => 400,
        ImageError::ReadFailure => 500,
        ImageError::S3OperationFailure(_) => 500,
        ImageError::QueryFailure(_) => 401,
        ImageError::NotFound => 404,
        ImageError::UserNotFound => 401,
    }
}

impl ImageError {
    /// HTTP status code of the error.
    pub fn status_code(&self) -> (r: u16)
        ensures
            r == image_error_status(*self),
    {
        match self {
            ImageError::UploadFailure => 500,
            ImageError::MissingMultipartField => 400,
            ImageError::InvalidFileType => 400,
            ImageError::ReadFailure => 500,
            ImageError::S3OperationFailure(_) => 500,
            ImageError::QueryFailure(_) => 401,
            ImageError::NotFound => 404,
            ImageError::UserNotFound => 401,
        }
    }

    /// Message reported to the client.
    pub fn message(&self) -> (r: String)
        ensures
            r@ == image_error_message(*self),
    {
        match self {
            ImageError::UploadFailure => String::from_str("Image upload failed"),
            ImageError::MissingMultipartField => String::from_str(
                "Missing multipart field(s) in request",
            ),
            ImageError::InvalidFileType => String::from_str("Invalid file type; not an image file"),
            ImageError::ReadFailure => String::from_str("Error reading image"),
            ImageError::S3OperationFailure(e) => {
                let mut m = String::from_str("S3 operation failed: ");
                m.append(e.as_str());
                m
            },
            ImageError::QueryFailure(e) => {
                let mut m = String::from_str("Database operation error: ");
                m.append(e.as_str());
                m
            },
            ImageError::NotFound => String::from_str("Image not found"),
            ImageError::UserNotFound => String::from_str("User not found"),
        }
    }
}

/// Failure of an authentication step.
#[derive(Clone, Copy, Debug, PartialEq, Eq, Structural)]
pub enum AuthError {
    MissingCredentials,
    InvalidCredentials,
    InvalidToken,
    TokenCreationFailure,
    RefreshTokenNotSaved,
    InvalidUserInput,
    UsernameTaken,
    UserCreationFailure,
    UserNotFound,
    BadOrMissingHeader,
    QueryFailure,
}

/// The HTTP status and message reported for an authentication error.
pub open spec fn auth_error_response(e: AuthError) -> (u16, Seq<char>) {
    match e {
        AuthError::MissingCredentials => (400, "Missing credentials"@),
        AuthError::InvalidCredentials => (401, "Invalid credentials"@),
        AuthError::InvalidToken => (401, "Invalid token"@),
        AuthError::TokenCreationFailure => (500, "Failed to generate access token"@),
        AuthError::RefreshTokenNotSaved => (500, "Failed to store refresh token"@),
        AuthError::InvalidUserInput => (400, "Invalid user info"@),
        AuthError::UsernameTaken => (409, "Username already in use"@),
        AuthError::UserCreationFailure => (500, "Failed to create user profile"@),
        AuthError::UserNotFound => (401, "User not found"@),
        AuthError::BadOrMissingHeader => (400, "Authorization header missing or malformed"@),
        AuthError::QueryFailure => (500, "Error querying data"@),
    }
}

impl AuthError {
    /// HTTP status code and message of the error.
    pub fn response_parts(&self) -> (r: (u16, String))
        ensures
            r.0 == auth_error_response(*self).0,
            r.1@ == auth_error_response(*self).1,
    {
        let (status, text): (u16, &str) = match self {
            AuthError::MissingCredentials => (400, "Missing credentials"),
            AuthError::InvalidCredentials => (401, "Invalid credentials"),
            AuthError::InvalidToken => (401, "Invalid token"),
            AuthError::TokenCreationFailure => (500, "Failed to generate access token"),
            AuthError::RefreshTokenNotSaved => (500, "Failed to store refresh token"),
            AuthError::InvalidUserInput => (400, "Invalid user info"),
            AuthError::UsernameTaken => (409, "Username already in use"),
            AuthError::UserCreationFailure => (500, "Failed to create user profile"),
            AuthError::UserNotFound => (401, "User not found"),
            AuthError::BadOrMissingHeader => (400, "Authorization header missing or malformed"),
            AuthError::QueryFailure => (500, "Error querying data"),
        };
        (status, String::from_str(text))
    }
}

} // verus!
