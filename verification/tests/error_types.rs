use stargaze::error::ConfigError;

#[test]
fn test_config_error_display_invalid_codec() {
    let err = ConfigError::InvalidCodec("vp9".to_string());
    assert_eq!(err.to_string(), "Invalid codec: vp9. Supported: h265, av1");
}

#[test]
fn test_config_error_display_invalid_resolution() {
    let err = ConfigError::InvalidResolution("bad".to_string());
    assert_eq!(
        err.to_string(),
        "Invalid resolution: bad. Expected format: WIDTHxHEIGHT (e.g. 1920x1080)"
    );
}

#[test]
fn test_config_error_display_parse_error() {
    let err = ConfigError::ParseError {
        path: "/tmp/test.toml".to_string(),
        reason: "invalid key".to_string(),
    };
    let display = err.to_string();
    assert!(display.contains("/tmp/test.toml"));
    assert!(display.contains("invalid key"));
}

#[test]
fn test_config_error_display_read_error() {
    let err = ConfigError::ReadError {
        path: "/tmp/test.toml".to_string(),
        reason: "permission denied".to_string(),
    };
    let display = err.to_string();
    assert!(display.contains("/tmp/test.toml"));
    assert!(display.contains("permission denied"));
}

#[test]
fn config_error_display_write_error() {
    let err = ConfigError::WriteError {
        path: "/tmp/test.toml".to_string(),
        reason: "disk full".to_string(),
    };
    let display = err.to_string();
    assert!(display.contains("Failed to write"));
    assert!(display.contains("/tmp/test.toml"));
    assert!(display.contains("disk full"));
}
