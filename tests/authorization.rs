use axum::http::HeaderValue;
use proxy_carousel::authorization::{
    authorize, authorize_header, extract_access_key_from_header, get_access_token_from_bearer,
    header_text, is_public_host, validate_access_key, AuthorizationError,
};

fn keys(ks: &[&str]) -> Vec<String> {
    ks.iter().map(|k| k.to_string()).collect()
}

#[test]
fn private_host_passes_every_request() {
    let allow = keys(&["abc"]);
    assert_eq!(authorize("127.0.0.1", &allow, None), Ok(()));
    assert_eq!(authorize("127.0.0.1", &allow, Some("Bearer xyz")), Ok(()));
    assert_eq!(authorize("localhost", &allow, Some("Token abc")), Ok(()));
}

#[test]
fn empty_allowlist_passes_every_request() {
    let allow: Vec<String> = Vec::new();
    assert_eq!(authorize("0.0.0.0", &allow, None), Ok(()));
    assert_eq!(authorize("0.0.0.0", &allow, Some("Token abc")), Ok(()));
    assert_eq!(authorize("127.0.0.1", &allow, Some("Bearer xyz")), Ok(()));
}

#[test]
fn public_host_with_allowlist_checks_bearer_token() {
    let allow = keys(&["abc"]);
    assert_eq!(authorize("0.0.0.0", &allow, Some("Bearer abc")), Ok(()));
    assert_eq!(
        authorize("0.0.0.0", &allow, Some("Bearer xyz")),
        Err(AuthorizationError::Unauthorized)
    );
    assert_eq!(
        authorize("0.0.0.0", &allow, Some("Token abc")),
        Err(AuthorizationError::InvalidAuthorizationScheme)
    );
    assert_eq!(
        authorize("0.0.0.0", &allow, None),
        Err(AuthorizationError::MissingAuthorizationHeader)
    );
}

#[test]
fn token_must_match_exactly() {
    let allow = keys(&["abc"]);
    assert_eq!(
        authorize("0.0.0.0", &allow, Some("Bearer ab")),
        Err(AuthorizationError::Unauthorized)
    );
    assert_eq!(
        authorize("0.0.0.0", &allow, Some("Bearer abcd")),
        Err(AuthorizationError::Unauthorized)
    );
    assert_eq!(
        authorize("0.0.0.0", &allow, Some("bearer abc")),
        Err(AuthorizationError::InvalidAuthorizationScheme)
    );
}

#[test]
fn every_error_is_a_401() {
    assert_eq!(AuthorizationError::MissingAuthorizationHeader.status(), 401);
    assert_eq!(AuthorizationError::InvalidAuthorizationScheme.status(), 401);
    assert_eq!(AuthorizationError::Unauthorized.status(), 401);
    assert_eq!(
        AuthorizationError::MissingAuthorizationHeader.message(),
        "Authorization header is missing"
    );
    assert_eq!(
        AuthorizationError::InvalidAuthorizationScheme.message(),
        "Invalid authorization scheme"
    );
    assert_eq!(AuthorizationError::Unauthorized.message(), "Access key is invalid or missing");
}

#[test]
fn bearer_token_extraction() {
    assert_eq!(get_access_token_from_bearer("Bearer abc"), Some("abc".to_string()));
    assert_eq!(get_access_token_from_bearer("Bearer "), Some(String::new()));
    assert_eq!(get_access_token_from_bearer("Bearer"), None);
    assert_eq!(get_access_token_from_bearer("Basic abc"), None);
    assert_eq!(get_access_token_from_bearer(""), None);
}

#[test]
fn validate_access_key_is_set_membership() {
    let allow = keys(&["one", "two"]);
    assert_eq!(validate_access_key("two", &allow).unwrap().key, "two");
    assert!(matches!(
        validate_access_key("tw", &allow),
        Err(AuthorizationError::Unauthorized)
    ));
    assert!(validate_access_key("", &keys(&[])).is_err());
}

#[test]
fn public_host_sentinel() {
    assert!(is_public_host("0.0.0.0"));
    assert!(!is_public_host("0.0.0.1"));
    assert!(!is_public_host("127.0.0.1"));
}

#[test]
fn header_value_extraction() {
    let v = HeaderValue::from_static("Bearer abc");
    assert_eq!(extract_access_key_from_header(v.as_bytes()), Some("abc".to_string()));
    let v = HeaderValue::from_static("Token abc");
    assert_eq!(extract_access_key_from_header(v.as_bytes()), None);
    let v = HeaderValue::from_bytes(b"Bearer \xffabc").unwrap();
    assert_eq!(extract_access_key_from_header(v.as_bytes()), None);
}

#[test]
fn guard_on_raw_header_values() {
    let allow = keys(&["abc"]);
    let good = HeaderValue::from_static("Bearer abc");
    let bad = HeaderValue::from_static("Bearer xyz");
    let opaque = HeaderValue::from_bytes(b"Bearer \xffabc").unwrap();
    assert_eq!(authorize_header("0.0.0.0", &allow, Some(good.as_bytes())), Ok(()));
    assert_eq!(
        authorize_header("0.0.0.0", &allow, Some(bad.as_bytes())),
        Err(AuthorizationError::Unauthorized)
    );
    assert_eq!(
        authorize_header("0.0.0.0", &allow, Some(opaque.as_bytes())),
        Err(AuthorizationError::InvalidAuthorizationScheme)
    );
    assert_eq!(
        authorize_header("0.0.0.0", &allow, None),
        Err(AuthorizationError::MissingAuthorizationHeader)
    );
    assert_eq!(authorize_header("127.0.0.1", &allow, Some(opaque.as_bytes())), Ok(()));
}

#[test]
fn raw_header_text_and_token() {
    assert_eq!(header_text(b"Bearer a\tb"), Some("Bearer a\tb".to_string()));
    assert_eq!(header_text(b""), Some(String::new()));
    assert_eq!(header_text(b"abc\x7f"), None);
    assert_eq!(header_text(b"abc\n"), None);
    assert_eq!(header_text("caf\u{e9}".as_bytes()), None);
    assert_eq!(extract_access_key_from_header(b"Bearer abc"), Some("abc".to_string()));
    assert_eq!(extract_access_key_from_header(b"bearer abc"), None);
    assert_eq!(extract_access_key_from_header(b"Bearerabc"), None);
    assert_eq!(extract_access_key_from_header(b"Token abc"), None);
    assert_eq!(extract_access_key_from_header(b"Bearer \x01abc"), None);
}
