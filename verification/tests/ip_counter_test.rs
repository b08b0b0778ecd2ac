use unique_ip_counter::parse_ip;
use unique_ip_counter::AppError;
use unique_ip_counter::IpCounterService;
use unique_ip_counter::IpStoreImpl;
use unique_ip_counter::LogEntry;
use unique_ip_counter::MetricsStoreImpl;
use unique_ip_counter::MockIpStore;
use unique_ip_counter::MockMetricsStore;

fn create_test_service() -> IpCounterService<MockIpStore, MockMetricsStore> {
    IpCounterService::new(MockIpStore::new(), MockMetricsStore::new())
}

#[test]
fn test_process_valid_entry() {
    let mut service = create_test_service();
    let entry = LogEntry::new("192.168.1.1".to_string(), Some("/test".to_string()));

    let result = service.process_log_entry(&entry);
    assert!(result.is_ok());
    assert!(result.unwrap());
    assert_eq!(service.get_unique_count(), 1);
}

#[test]
fn test_process_duplicate_entry() {
    let mut service = create_test_service();
    let entry = LogEntry::new("192.168.1.1".to_string(), None);

    let result1 = service.process_log_entry(&entry).unwrap();
    assert!(result1);

    let result2 = service.process_log_entry(&entry).unwrap();
    assert!(!result2);

    assert_eq!(service.get_unique_count(), 1);
}

#[test]
fn test_process_invalid_ip() {
    let mut service = create_test_service();
    let entry = LogEntry::new("not.an.ip".to_string(), None);

    let result = service.process_log_entry(&entry);
    assert!(result.is_err());
    assert_eq!(service.get_unique_count(), 0);
}

#[test]
fn test_invalid_ip_error_kind() {
    let mut service = create_test_service();
    let entry = LogEntry::new("not.an.ip".to_string(), None);

    let result = service.process_log_entry(&entry);
    assert!(matches!(result, Err(AppError::InvalidIpAddress(_))));
    assert_eq!(service.get_unique_count(), 0);
}

#[test]
fn test_empty_url_error_kind() {
    let mut service = create_test_service();
    let entry = LogEntry::new("192.168.1.1".to_string(), Some("".to_string()));

    let result = service.process_log_entry(&entry);
    assert!(matches!(result, Err(AppError::BadRequest(_))));
    assert_eq!(service.get_unique_count(), 0);
}

#[test]
fn ip_counter_test_multiple_unique_ips() {
    let mut service = create_test_service();

    let ips = vec!["192.168.1.1", "192.168.1.2", "10.0.0.1", "::1", "2001:db8::1"];

    for ip in ips {
        let entry = LogEntry::new(ip.to_string(), None);
        service.process_log_entry(&entry).unwrap();
    }

    assert_eq!(service.get_unique_count(), 5);
}

#[test]
fn test_v4_v6_coexistence() {
    let mut service = create_test_service();
    for ip in ["192.168.1.1", "::1", "2001:db8::1"] {
        let entry = LogEntry::new(ip.to_string(), None);
        assert!(service.process_log_entry(&entry).unwrap());
    }
    assert_eq!(service.get_unique_count(), 3);
}

#[test]
fn test_exactly_once_accounting_sequential() {
    let mut service = create_test_service();
    let calls = [
        "10.0.0.1",
        "10.0.0.2",
        "10.0.0.1",
        "10.0.0.3",
        "10.0.0.2",
        "10.0.0.1",
        "::1",
        "::1",
    ];
    let mut newly_seen = 0;
    for ip in calls {
        let entry = LogEntry::new(ip.to_string(), None);
        if service.process_log_entry(&entry).unwrap() {
            newly_seen += 1;
        }
    }
    assert_eq!(newly_seen, 4);
    assert_eq!(service.get_unique_count(), 4);
}

#[test]
fn test_contains_ip() {
    let mut service = create_test_service();
    let entry = LogEntry::new("192.168.1.1".to_string(), None);

    service.process_log_entry(&entry).unwrap();

    let ip = parse_ip("192.168.1.1").unwrap();
    assert!(service.contains_ip(&ip));

    let other_ip = parse_ip("192.168.1.2").unwrap();
    assert!(!service.contains_ip(&other_ip));
}

#[test]
fn test_estimated_memory_usage() {
    let mut service = create_test_service();

    for i in 1..=10 {
        let entry = LogEntry::new(format!("192.168.1.{}", i), None);
        service.process_log_entry(&entry).unwrap();
    }

    let memory = service.get_estimated_memory_usage();
    assert_eq!(memory, 10 * 32);
}

#[test]
fn ip_counter_test_clear() {
    let mut service = create_test_service();
    let entry = LogEntry::new("192.168.1.1".to_string(), None);

    service.process_log_entry(&entry).unwrap();
    assert_eq!(service.get_unique_count(), 1);

    service.clear();
    assert_eq!(service.get_unique_count(), 0);
}

#[test]
fn test_metrics_through_service() {
    let mut service = IpCounterService::new(IpStoreImpl::new(), MetricsStoreImpl::new().unwrap());
    for ip in ["192.168.1.1", "192.168.1.2", "192.168.1.1"] {
        let entry = LogEntry::new(ip.to_string(), None);
        service.process_log_entry(&entry).unwrap();
    }
    let text = service.get_metrics().unwrap();
    assert!(text.contains("unique_ip_addresses 2"));
}

#[test]
fn test_mock_metrics_through_service() {
    let mut service = create_test_service();
    for ip in ["10.0.0.1", "10.0.0.2"] {
        let entry = LogEntry::new(ip.to_string(), None);
        service.process_log_entry(&entry).unwrap();
    }
    let text = service.get_metrics().unwrap();
    assert!(text.ends_with("unique_ip_addresses 2\n"));
}

#[test]
fn test_uptime() {
    let service = create_test_service();
    let _uptime = service.get_uptime_seconds();
}
