use falconeri::auth::{authenticate, parse_basic_auth, parse_credentials, AuthError, User};

#[test]
fn parses_basic_auth() {
    assert_eq!(
        parse_basic_auth("Basic ZmFsY29uZXJpOnNlY3JldA=="),
        Some(("falconeri".to_string(), "secret".to_string()))
    );
    assert_eq!(
        parse_basic_auth("Basic YTpiOmM="),
        Some(("a".to_string(), "b:c".to_string()))
    );
    assert_eq!(parse_basic_auth("Basic bm8tY29sb24="), None);
    assert_eq!(parse_basic_auth("Bearer ZmFsY29uZXJpOnNlY3JldA=="), None);
    assert_eq!(parse_basic_auth("Basic !!!"), None);
    assert_eq!(parse_basic_auth("Basic //46"), None);
    assert_eq!(parse_basic_auth(""), None);
}

#[test]
fn parses_credentials() {
    assert_eq!(
        parse_credentials(b"user:pass".to_vec()),
        Some(("user".to_string(), "pass".to_string()))
    );
    assert_eq!(
        parse_credentials(b":".to_vec()),
        Some((String::new(), String::new()))
    );
    assert_eq!(parse_credentials(b"nocolon".to_vec()), None);
    assert_eq!(parse_credentials(vec![0xff, 0x3a]), None);
}

#[test]
fn authenticates_admin() {
    assert_eq!(
        authenticate(Some("Basic ZmFsY29uZXJpOnNlY3JldA=="), "secret"),
        Ok(User)
    );
    assert_eq!(
        authenticate(Some("Basic ZmFsY29uZXJpOndyb25n"), "secret"),
        Err(AuthError::InvalidCredentials)
    );
    assert_eq!(
        authenticate(Some("Basic bm9ib2R5OnNlY3JldA=="), "secret"),
        Err(AuthError::InvalidCredentials)
    );
    assert_eq!(
        authenticate(Some("Basic bm8tY29sb24="), "secret"),
        Err(AuthError::InvalidAuthHeader)
    );
    assert_eq!(authenticate(None, "secret"), Err(AuthError::MissingAuth));
    assert_eq!(AuthError::MissingAuth.status_code(), 401);
    assert_eq!(AuthError::InvalidAuthHeader.status_code(), 400);
    assert_eq!(AuthError::InvalidCredentials.status_code(), 401);
}
