use unique_ip_counter::log_outcome_response;
use unique_ip_counter::AppError;
use unique_ip_counter::HealthResponse;
use unique_ip_counter::LogResponse;
use unique_ip_counter::StatsResponse;

#[test]
fn test_log_response_success() {
    let response = LogResponse::success("IP logged", 42);
    assert_eq!(response.status, "success");
    assert_eq!(response.message, "IP logged");
    assert_eq!(response.unique_ips, 42);
}

#[test]
fn test_log_response_error() {
    let response = LogResponse::error("Invalid IP", 10);
    assert_eq!(response.status, "error");
    assert_eq!(response.message, "Invalid IP");
    assert_eq!(response.unique_ips, 10);
}

#[test]
fn test_health_response() {
    let response = HealthResponse::healthy(100, 3600);
    assert_eq!(response.status, "healthy");
    assert_eq!(response.unique_ip_count, 100);
    assert_eq!(response.uptime, "3600s");
}

#[test]
fn test_stats_response_fields() {
    let stats = StatsResponse {
        unique_ip_addresses: 1000,
        estimated_memory_usage_bytes: 32000,
        uptime_seconds: 7200,
    };
    assert_eq!(stats.unique_ip_addresses, 1000);
    assert_eq!(stats.estimated_memory_usage_bytes, 32000);
    assert_eq!(stats.uptime_seconds, 7200);
}

#[test]
fn test_log_outcome_response_new() {
    let response = log_outcome_response(&Ok(true), 7);
    assert_eq!(response.status, "success");
    assert_eq!(response.message, "New IP logged");
    assert_eq!(response.unique_ips, 7);
}

#[test]
fn test_log_outcome_response_duplicate() {
    let response = log_outcome_response(&Ok(false), 7);
    assert_eq!(response.status, "success");
    assert_eq!(response.message, "IP already seen");
    assert_eq!(response.unique_ips, 7);
}

#[test]
fn test_log_outcome_response_error() {
    let outcome = Err(AppError::InvalidIpAddress("not.an.ip".to_string()));
    let response = log_outcome_response(&outcome, 3);
    assert_eq!(response.status, "error");
    assert_eq!(response.message, "Invalid IP address: not.an.ip");
    assert_eq!(response.unique_ips, 3);
}
