use unique_ip_counter::parse_ip;
use unique_ip_counter::IpAddress;
use unique_ip_counter::IpStore;
use unique_ip_counter::IpStoreImpl;
use unique_ip_counter::MockIpStore;

fn addr(s: &str) -> IpAddress {
    parse_ip(s).unwrap()
}

#[test]
fn ip_store_test_mock_store() {
    let mut store = MockIpStore::new();
    let ip = addr("10.0.0.1");

    assert!(store.add(ip));
    assert!(!store.add(ip));
    assert!(store.contains(&ip));
    assert_eq!(store.count(), 1);

    store.clear();
    assert_eq!(store.count(), 0);
}

#[test]
fn test_get_all() {
    let mut store = IpStoreImpl::new();
    let ip1 = addr("192.168.1.1");
    let ip2 = addr("192.168.1.2");

    store.add(ip1);
    store.add(ip2);

    let all_ips = store.get_all();
    assert_eq!(all_ips.len(), 2);
    assert!(all_ips.contains(&ip1));
    assert!(all_ips.contains(&ip2));
}

#[test]
fn test_ipv6_support() {
    let mut store = IpStoreImpl::new();
    let ipv6 = addr("2001:0db8:85a3::8a2e:0370:7334");

    assert!(store.add(ipv6));
    assert!(store.contains(&ipv6));
    assert_eq!(store.count(), 1);
}

#[test]
fn test_add_new_ip() {
    let mut store = IpStoreImpl::new();
    let ip = addr("192.168.1.1");
    assert!(store.add(ip));
    assert_eq!(store.count(), 1);
}

#[test]
fn test_add_duplicate_ip() {
    let mut store = IpStoreImpl::new();
    let ip = addr("192.168.1.1");
    assert!(store.add(ip));
    assert!(!store.add(ip));
    assert_eq!(store.count(), 1);
}

#[test]
fn test_contains() {
    let mut store = IpStoreImpl::new();
    let ip1 = addr("10.0.0.1");
    let ip2 = addr("10.0.0.2");

    store.add(ip1);
    assert!(store.contains(&ip1));
    assert!(!store.contains(&ip2));
}

#[test]
fn test_count_multiple_ips() {
    let mut store = IpStoreImpl::new();
    let ips = vec!["192.168.1.1", "192.168.1.2", "192.168.1.3", "10.0.0.1", "::1"];

    for ip_str in ips {
        store.add(addr(ip_str));
    }

    assert_eq!(store.count(), 5);
}

#[test]
fn ip_store_test_clear() {
    let mut store = IpStoreImpl::new();
    let ip = addr("192.168.1.1");

    store.add(ip);
    assert_eq!(store.count(), 1);

    store.clear();
    assert_eq!(store.count(), 0);
    assert!(!store.contains(&ip));
}

#[test]
fn test_with_capacity() {
    let mut store = IpStoreImpl::with_capacity(16);
    assert_eq!(store.count(), 0);
    assert!(store.add(addr("10.0.0.1")));
    assert_eq!(store.count(), 1);
}
