use unique_ip_counter::AppError;

#[test]
fn test_error_conversion() {
    let error = AppError::InvalidIpAddress("not an ip".to_string());
    assert_eq!(error.status_code(), 400);
    assert_eq!(error.message(), "Invalid IP address: not an ip");
}

#[test]
fn test_service_unavailable_error() {
    let error = AppError::ServiceUnavailable;
    assert_eq!(error.status_code(), 503);
    assert_eq!(error.message(), "Service unavailable");
}

#[test]
fn test_internal_error() {
    let error = AppError::InternalError("Something went wrong".to_string());
    assert_eq!(error.status_code(), 500);
    assert_eq!(error.message(), "Internal server error: Something went wrong");
}

#[test]
fn test_bad_request_error() {
    let error = AppError::BadRequest("URL cannot be empty".to_string());
    assert_eq!(error.status_code(), 400);
    assert_eq!(error.message(), "Invalid request: URL cannot be empty");
}

#[test]
fn test_metrics_error() {
    let error = AppError::MetricsError("encoder failed".to_string());
    assert_eq!(error.status_code(), 500);
    assert_eq!(error.message(), "Metrics error: encoder failed");
}

#[test]
fn test_config_error() {
    let error = AppError::ConfigError("bad ports".to_string());
    assert_eq!(error.status_code(), 500);
    assert_eq!(error.message(), "Configuration error: bad ports");
}
