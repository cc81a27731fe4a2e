use ws_messaging::config::{ConnectionConfig, Mode};
use ws_messaging::smap::StrMap;

fn opts(pairs: &[(&str, &str)]) -> StrMap<String> {
    let mut m = StrMap::new();
    for (k, v) in pairs {
        m.insert(k.to_string(), v.to_string());
    }
    m
}

#[test]
fn test_from_map_default() {
    let config = ConnectionConfig::from_map(&StrMap::new());
    assert_eq!(config.uri, "ws://127.0.0.1:8080");
    assert_eq!(config.connect_timeout_sec, 30);
    assert!(config.enable_session_tracking);
}

#[test]
fn test_from_map_custom() {
    let map = opts(&[
        ("URI", "wss://example.com/ws"),
        ("AUTH_TOKEN", "secret123"),
        ("CONNECT_TIMEOUT_SEC", "60"),
        ("HEADER_Authorization", "Bearer token"),
    ]);

    let config = ConnectionConfig::from_map(&map);
    assert_eq!(config.uri, "wss://example.com/ws");
    assert_eq!(config.auth_token, Some("secret123".to_string()));
    assert_eq!(config.connect_timeout_sec, 60);
    assert_eq!(
        config.custom_headers.get("Authorization"),
        Some(&"Bearer token".to_string())
    );
}

#[test]
fn test_merge() {
    let config1 = ConnectionConfig {
        uri: "ws://localhost:8080".to_string(),
        auth_token: Some("token1".to_string()),
        connect_timeout_sec: 30,
        enable_session_tracking: true,
        custom_headers: opts(&[("X-Custom", "value1")]),
        mode: Mode::Client,
    };

    let config2 = ConnectionConfig {
        uri: "wss://example.com".to_string(),
        auth_token: None,
        connect_timeout_sec: 60,
        enable_session_tracking: false,
        custom_headers: opts(&[("X-Other", "value2")]),
        mode: Mode::Client,
    };

    let merged = config1.merge(&config2);
    assert_eq!(merged.uri, "wss://example.com");
    assert_eq!(merged.auth_token, Some("token1".to_string()));
    assert_eq!(merged.connect_timeout_sec, 60);
    assert!(!merged.enable_session_tracking);
    assert_eq!(merged.custom_headers.len(), 2);
}

#[test]
fn test_merge_with_defaults_changes_nothing() {
    let base = ConnectionConfig {
        uri: "wss://somewhere/ws".to_string(),
        auth_token: Some("tok".to_string()),
        connect_timeout_sec: 7,
        enable_session_tracking: false,
        custom_headers: opts(&[("X-A", "1")]),
        mode: Mode::Server,
    };
    let merged = base.merge(&ConnectionConfig::default());
    assert_eq!(merged.uri, base.uri);
    assert_eq!(merged.auth_token, base.auth_token);
    assert_eq!(merged.connect_timeout_sec, base.connect_timeout_sec);
    assert_eq!(merged.enable_session_tracking, base.enable_session_tracking);
    assert_eq!(merged.mode, base.mode);
    assert_eq!(merged.custom_headers.len(), 1);
    assert_eq!(merged.custom_headers.get("X-A"), Some(&"1".to_string()));
}

#[test]
fn test_resolve_malformed_numerics_fall_back() {
    let config = ConnectionConfig::from_map(&opts(&[
        ("CONNECT_TIMEOUT_SEC", "abc"),
        ("ENABLE_SESSION_TRACKING", "yes"),
    ]));
    assert_eq!(config.connect_timeout_sec, 30);
    assert!(config.enable_session_tracking);

    let overflow = ConnectionConfig::from_map(&opts(&[(
        "CONNECT_TIMEOUT_SEC",
        "99999999999999999999999",
    )]));
    assert_eq!(overflow.connect_timeout_sec, 30);

    let plus = ConnectionConfig::from_map(&opts(&[("CONNECT_TIMEOUT_SEC", "+5")]));
    assert_eq!(plus.connect_timeout_sec, 5);

    let disabled = ConnectionConfig::from_map(&opts(&[("ENABLE_SESSION_TRACKING", "false")]));
    assert!(!disabled.enable_session_tracking);
}

#[test]
fn test_resolve_mode() {
    assert_eq!(ConnectionConfig::from_map(&StrMap::new()).mode, Mode::Client);
    assert_eq!(
        ConnectionConfig::from_map(&opts(&[("MODE", "server")])).mode,
        Mode::Server
    );
    assert_eq!(
        ConnectionConfig::from_map(&opts(&[("MODE", "client")])).mode,
        Mode::Client
    );
    assert_eq!(
        ConnectionConfig::from_map(&opts(&[("MODE", "banana")])).mode,
        Mode::Client
    );
}

#[test]
fn test_header_replacement_last_wins() {
    let config = ConnectionConfig::from_map(&opts(&[("HEADER_X", "a")]));
    let over = ConnectionConfig::from_map(&opts(&[("HEADER_X", "b"), ("HEADER_Y", "c")]));
    let merged = config.merge(&over);
    assert_eq!(merged.custom_headers.len(), 2);
    assert_eq!(merged.custom_headers.get("X"), Some(&"b".to_string()));
    assert_eq!(merged.custom_headers.get("Y"), Some(&"c".to_string()));
}
