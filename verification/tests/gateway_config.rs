use promptforge::gateway_config::{
    gateway_from_env, gateway_from_parts, EnvLookup, Gateway, GatewayError, Remote,
    GATEWAY_API_KEY_VAR, GATEWAY_URL_VAR,
};

#[test]
fn gateway_parsing_validates_url_and_key_combinations() {
    assert!(matches!(
        gateway_from_parts(None, None).expect("no credentials is local-only"),
        Gateway::LocalOnly
    ));
    assert!(matches!(
        gateway_from_parts(Some("http://gw/v1"), None).expect("url alone is local-only"),
        Gateway::LocalOnly
    ));
    assert!(matches!(
        gateway_from_parts(Some(""), Some("  ")).expect("blank key is local-only"),
        Gateway::LocalOnly
    ));

    match gateway_from_parts(Some("http://gw/v1"), Some("token")).expect("url plus key is remote") {
        Gateway::Remote(remote) => {
            assert_eq!(remote.endpoint(), "http://gw/v1");
            assert_eq!(remote.token(), "token");
        }
        other => panic!("expected remote, got {other:?}"),
    }

    // The formerly silent downgrade: a key with no usable URL (absent or
    // blank) must be an explicit error, not a local-only fallback.
    assert!(gateway_from_parts(None, Some("token")).is_err());
    assert!(gateway_from_parts(Some("   "), Some("token")).is_err());
}

#[test]
fn remote_values_are_trimmed() {
    match gateway_from_parts(Some("  http://gw/v1\n"), Some("\ttoken \u{a0}")).unwrap() {
        Gateway::Remote(remote) => {
            assert_eq!(remote.endpoint(), "http://gw/v1");
            assert_eq!(remote.token(), "token");
        }
        other => panic!("expected remote, got {other:?}"),
    }
}

#[test]
fn key_without_url_reports_both_variables() {
    let error = gateway_from_parts(Some("\u{3000}"), Some("token")).unwrap_err();
    assert_eq!(error, GatewayError::KeyWithoutUrl);
    let message = error.message();
    assert!(message.contains("PROMPTFORGE_GATEWAY_API_KEY"));
    assert!(message.contains("PROMPTFORGE_GATEWAY_URL"));
}

#[test]
fn remote_new_rejects_blank_parts() {
    assert_eq!(Remote::new(" ", "token").unwrap_err(), GatewayError::BlankRemote);
    assert_eq!(Remote::new("http://gw", "\n").unwrap_err(), GatewayError::BlankRemote);
    let remote = Remote::new(" http://gw ", " t ").unwrap();
    assert_eq!(remote.endpoint(), "http://gw");
    assert_eq!(remote.token(), "t");
}

#[test]
fn environment_lookups_validate_like_parts() {
    let gateway = gateway_from_env(
        EnvLookup::Present("http://gw/v1".to_string()),
        EnvLookup::Present("token".to_string()),
    )
    .unwrap();
    assert!(matches!(gateway, Gateway::Remote(_)));
    assert!(matches!(
        gateway_from_env(EnvLookup::NotPresent, EnvLookup::NotPresent).unwrap(),
        Gateway::LocalOnly
    ));
    assert_eq!(
        gateway_from_env(EnvLookup::NotPresent, EnvLookup::Present("token".to_string())).unwrap_err(),
        GatewayError::KeyWithoutUrl
    );
}

#[test]
fn non_unicode_variables_are_errors_naming_the_variable() {
    let error = gateway_from_env(EnvLookup::NotUnicode, EnvLookup::NotUnicode).unwrap_err();
    assert_eq!(error, GatewayError::NotUnicode { name: GATEWAY_URL_VAR.to_string() });
    assert_eq!(error.message(), "read environment variable PROMPTFORGE_GATEWAY_URL");
    let error = gateway_from_env(EnvLookup::NotPresent, EnvLookup::NotUnicode).unwrap_err();
    assert_eq!(error, GatewayError::NotUnicode { name: GATEWAY_API_KEY_VAR.to_string() });
}

#[test]
fn white_space_padding_keeps_the_outcome() {
    assert!(matches!(gateway_from_parts(Some(" \t"), Some("\u{3000}")), Ok(Gateway::LocalOnly)));
    assert!(matches!(
        gateway_from_parts(Some("\n \n"), Some("  token  ")),
        Err(GatewayError::KeyWithoutUrl)
    ));
    let plain = gateway_from_parts(Some("http://gw/v1"), Some("token")).unwrap();
    let padded = gateway_from_parts(Some("\u{2003}http://gw/v1 \r\n"), Some(" token\u{85}")).unwrap();
    match (plain, padded) {
        (Gateway::Remote(a), Gateway::Remote(b)) => {
            assert_eq!(a.endpoint(), b.endpoint());
            assert_eq!(a.token(), b.token());
        }
        other => panic!("expected two remotes, got {other:?}"),
    }
}
