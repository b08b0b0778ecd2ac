use unique_ip_counter::Settings;

#[test]
fn test_default_settings() {
    let settings = Settings::default();
    assert_eq!(settings.server.log_port, 5000);
    assert_eq!(settings.server.metrics_port, 9102);
    assert_eq!(settings.server.host, "0.0.0.0");
    assert_eq!(settings.log_level, "info");
}

#[test]
fn test_validate_settings_success() {
    let settings = Settings::default();
    assert!(settings.validate().is_ok());
}

#[test]
fn test_validate_settings_same_ports() {
    let mut settings = Settings::default();
    settings.server.log_port = 5000;
    settings.server.metrics_port = 5000;
    assert!(settings.validate().is_err());
}

#[test]
fn test_validate_settings_zero_port() {
    let mut settings = Settings::default();
    settings.server.log_port = 0;
    assert!(settings.validate().is_err());
}

#[test]
fn test_with_overrides() {
    let settings = Settings::with_overrides(
        Some("6000".to_string()),
        Some("9103".to_string()),
        Some("127.0.0.1".to_string()),
        Some("debug".to_string()),
    );
    assert_eq!(settings.server.log_port, 6000);
    assert_eq!(settings.server.metrics_port, 9103);
    assert_eq!(settings.server.host, "127.0.0.1");
    assert_eq!(settings.log_level, "debug");
}

#[test]
fn test_with_overrides_bad_port_falls_back() {
    let settings = Settings::with_overrides(Some("not-a-port".to_string()), None, None, None);
    assert_eq!(settings.server.log_port, 5000);
    assert_eq!(settings.server.metrics_port, 9102);
}

#[test]
fn test_with_overrides_port_range() {
    let settings = Settings::with_overrides(
        Some("+8080".to_string()),
        Some("65536".to_string()),
        None,
        None,
    );
    assert_eq!(settings.server.log_port, 8080);
    assert_eq!(settings.server.metrics_port, 9102);
}
