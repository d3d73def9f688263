use imgmesser::auth::{
    refresh_decision, AuthBody, AuthPayload, Claims, RefreshDecision, RefreshTokenState, S3Error,
};
use imgmesser::config::{listener_ip, parse_decimal, parse_port, ConfigError, DbConfig};
use imgmesser::errors::{AuthError, ImageError};
use imgmesser::schemas::{default_limit, default_page, LogoutResponse, PaginationParams};
use imgmesser::text::decimal_text;
use imgmesser::users::{User, UserRequest};

#[test]
fn db_config_parses_the_connection_limit() {
    let c = DbConfig::new("postgres://db", "5").ok().unwrap();
    assert_eq!(c.url, "postgres://db");
    assert_eq!(c.max_connections, 5);
    assert_eq!(DbConfig::new("u", "+7").ok().unwrap().max_connections, 7);
    assert_eq!(DbConfig::new("u", "4294967295").ok().unwrap().max_connections, u32::MAX);
    for bad in ["", "+", "-1", "4294967296", "5 ", "x5", "99999999999999999999"] {
        assert_eq!(DbConfig::new("u", bad).err(), Some(ConfigError::InvalidMaxConnections), "{}", bad);
        assert_eq!(bad.parse::<u32>().ok(), None);
    }
}

#[test]
fn decimal_parsing_agrees_with_std() {
    for s in ["0", "007", "+42", "65535", "65536", "", "+", "1_000", "12a"] {
        assert_eq!(parse_decimal(s, u16::MAX as u64), s.parse::<u16>().ok().map(|v| v as u64), "{}", s);
    }
    assert_eq!(parse_port("8080"), Ok(8080));
    assert_eq!(parse_port("70000"), Err(ConfigError::InvalidPort));
    assert_eq!(listener_ip(true), [0, 0, 0, 0]);
    assert_eq!(listener_ip(false), [127, 0, 0, 1]);
}

#[test]
fn decimal_text_of_numbers() {
    assert_eq!(decimal_text(0), "0");
    assert_eq!(decimal_text(907), "907");
    assert_eq!(decimal_text(u64::MAX), u64::MAX.to_string());
}

#[test]
fn pagination_params_are_normalized() {
    assert_eq!((default_page(), default_limit()), (1, 10));
    let d = PaginationParams::default();
    assert_eq!((d.page, d.limit), (1, 10));
    assert_eq!(PaginationParams { page: 0, limit: 0 }.normalized(), (1, 1));
    assert_eq!(PaginationParams { page: 3, limit: 500 }.normalized(), (3, 100));
    assert_eq!(PaginationParams { page: 2, limit: 25 }.normalized(), (2, 25));
}

#[test]
fn image_errors_map_to_status_and_message() {
    assert_eq!(ImageError::NotFound.status_code(), 404);
    assert_eq!(ImageError::NotFound.message(), "Image not found");
    assert_eq!(ImageError::InvalidFileType.status_code(), 400);
    assert_eq!(ImageError::QueryFailure("boom".to_string()).status_code(), 401);
    assert_eq!(ImageError::QueryFailure("boom".to_string()).message(), "Database operation error: boom");
    assert_eq!(ImageError::S3OperationFailure("x".to_string()).message(), "S3 operation failed: x");
    assert_eq!(ImageError::ReadFailure.status_code(), 500);
    assert_eq!(ImageError::UserNotFound.message(), "User not found");
    assert_eq!(ImageError::MissingMultipartField.status_code(), 400);
    assert_eq!(ImageError::UploadFailure.message(), "Image upload failed");
}

#[test]
fn auth_errors_map_to_status_and_message() {
    assert_eq!(AuthError::UsernameTaken.response_parts(), (409, "Username already in use".to_string()));
    assert_eq!(AuthError::InvalidToken.response_parts(), (401, "Invalid token".to_string()));
    assert_eq!(AuthError::QueryFailure.response_parts().0, 500);
    assert_eq!(AuthError::MissingCredentials.response_parts().0, 400);
}

#[test]
fn refresh_flow_decisions() {
    let t = RefreshTokenState { username: "u".to_string(), expires_at: 100, is_used: false };
    assert_eq!(refresh_decision(None, 0), RefreshDecision::Reject);
    assert_eq!(refresh_decision(Some(&t), 50), RefreshDecision::MarkUsedAndIssue);
    assert_eq!(refresh_decision(Some(&t), 101), RefreshDecision::DeleteAndReject);
    let used = RefreshTokenState { username: "u".to_string(), expires_at: 100, is_used: true };
    assert_eq!(refresh_decision(Some(&used), 100), RefreshDecision::RevokeAllAndReject);
    assert_eq!(refresh_decision(Some(&used), 200), RefreshDecision::DeleteAndReject);
}

#[test]
fn claims_and_bodies() {
    let c = Claims::new_for_access("ann", 1_000);
    assert_eq!((c.sub.as_str(), c.iat, c.exp), ("ann", 1_000, 1_900));
    let r = Claims::new_for_refresh("ann", 0);
    assert_eq!(r.exp, 604_800);
    let b = AuthBody::new("tok".to_string());
    assert_eq!((b.access_token.as_str(), b.token_type.as_str()), ("tok", "Bearer"));
    let p = AuthPayload { client_id: "id".to_string(), client_secret: String::new() };
    assert!(!p.has_credentials());
    let q = AuthPayload { client_id: "id".to_string(), client_secret: "s".to_string() };
    assert!(q.has_credentials());
    assert_eq!(LogoutResponse::success().message, "Logged out successfully");
    let u = User::from_request(&UserRequest { username: "n".to_string(), password: "p".to_string() });
    assert_eq!((u.username.as_str(), u.password.as_str()), ("n", "p"));
}

#[test]
fn s3_errors_carry_context() {
    let e = S3Error::new("NoSuchKey").add_message("get failed");
    assert_eq!(e.to_string(), "get failed: NoSuchKey");
    assert_eq!(S3Error::from_metadata(Some("E1"), None).to_string(), "E1: ?");
    assert_eq!(S3Error::from_metadata(None, Some("bad")).to_string(), "unknown code: bad");
}
