use promptforge::auth::{bearer_credential, check_auth, secret_eq, AuthError};

#[test]
fn equal_secrets_match() {
    assert!(secret_eq(b"s3cret-token", b"s3cret-token"));
}

#[test]
fn unequal_secrets_do_not_match() {
    assert!(!secret_eq(b"s3cret-token", b"wrong-token"));
    assert!(!secret_eq(b"", b"nonempty"));
    assert!(!secret_eq(b"short", b"a-much-longer-token"));
}

#[test]
fn empty_matches_empty() {
    assert!(secret_eq(b"", b""));
}

#[test]
fn bearer_credential_strips_the_scheme() {
    assert_eq!(bearer_credential(Some("Bearer abc")), b"abc".to_vec());
    assert_eq!(bearer_credential(Some("Bearer ")), Vec::<u8>::new());
    assert_eq!(bearer_credential(Some("bearer abc")), Vec::<u8>::new());
    assert_eq!(bearer_credential(Some("Basic abc")), Vec::<u8>::new());
    assert_eq!(bearer_credential(Some("Bear")), Vec::<u8>::new());
    assert_eq!(bearer_credential(None), Vec::<u8>::new());
}

#[test]
fn check_auth_accepts_only_the_configured_key() {
    assert_eq!(check_auth(Some("Bearer key-1"), "key-1"), Ok(()));
    assert_eq!(check_auth(Some("Bearer key-2"), "key-1"), Err(AuthError::Unauthorized));
    assert_eq!(check_auth(Some("key-1"), "key-1"), Err(AuthError::Unauthorized));
    assert_eq!(check_auth(None, "key-1"), Err(AuthError::Unauthorized));
    // A missing header presents the empty credential.
    assert_eq!(check_auth(None, ""), Ok(()));
}
