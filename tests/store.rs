use rust_ids::ip::IpAddress;
use rust_ids::state::SharedState;

const SEC: u64 = 1_000_000_000;

#[test]
fn unknown_address_counts_zero() {
    let s = SharedState::new();
    assert_eq!(s.unique_ports_in_window_at(&IpAddress(1, 2, 3, 4), 10, 5 * SEC), 0);
    assert!(!s.is_in_cooldown_at(&IpAddress(1, 2, 3, 4), 60, 0));
}

#[test]
fn duplicate_ports_count_once() {
    let mut s = SharedState::new();
    let ip = IpAddress(10, 0, 0, 5);
    s.record_event_at(ip, 22, SEC);
    s.record_event_at(ip, 22, 2 * SEC);
    s.record_event_at(ip, 80, 3 * SEC);
    s.record_event_at(ip, 22, 4 * SEC);
    assert_eq!(s.unique_ports_in_window_at(&ip, 10, 5 * SEC), 2);
    s.record_event_at(IpAddress(10, 0, 0, 6), 443, 5 * SEC);
    assert_eq!(s.unique_ports_in_window_at(&ip, 10, 5 * SEC), 2);
}

#[test]
fn window_boundary_is_inclusive() {
    let mut s = SharedState::new();
    let ip = IpAddress(10, 0, 0, 5);
    s.record_event_at(ip, 22, 0);
    assert_eq!(s.unique_ports_in_window_at(&ip, 10, 10 * SEC), 1);
    assert_eq!(s.unique_ports_in_window_at(&ip, 10, 10 * SEC + 1), 0);
}

#[test]
fn observations_leave_the_window_for_good() {
    let mut s = SharedState::new();
    let ip = IpAddress(10, 0, 0, 5);
    s.record_event_at(ip, 22, 0);
    s.record_event_at(ip, 23, 5 * SEC);
    assert_eq!(s.unique_ports_in_window_at(&ip, 10, 9 * SEC), 2);
    assert_eq!(s.unique_ports_in_window_at(&ip, 10, 11 * SEC), 1);
    assert_eq!(s.unique_ports_in_window_at(&ip, 10, 12 * SEC), 1);
    assert_eq!(s.unique_ports_in_window_at(&ip, 10, 16 * SEC), 0);
    assert_eq!(s.unique_ports_in_window_at(&ip, 10, 100 * SEC), 0);
}

#[test]
fn cooldown_starts_at_mark_and_expires() {
    let mut s = SharedState::new();
    let ip = IpAddress(10, 0, 0, 5);
    s.mark_alerted_at(ip, 100 * SEC);
    assert!(s.is_in_cooldown_at(&ip, 1, 100 * SEC));
    assert!(s.is_in_cooldown_at(&ip, 60, 159 * SEC));
    assert!(!s.is_in_cooldown_at(&ip, 60, 160 * SEC));
    assert!(!s.is_in_cooldown_at(&ip, 0, 100 * SEC));
    assert!(!s.is_in_cooldown_at(&IpAddress(10, 0, 0, 6), 60, 100 * SEC));
}

#[test]
fn cooldown_mark_overwrites() {
    let mut s = SharedState::new();
    let ip = IpAddress(10, 0, 0, 5);
    s.mark_alerted_at(ip, 0);
    s.mark_alerted_at(ip, 100 * SEC);
    assert!(s.is_in_cooldown_at(&ip, 60, 120 * SEC));
}

#[test]
fn cleanup_evicts_by_latest_observation() {
    let mut s = SharedState::new();
    let old_ip = IpAddress(10, 0, 0, 1);
    let busy_ip = IpAddress(10, 0, 0, 2);
    s.record_event_at(old_ip, 22, 0);
    s.record_event_at(busy_ip, 22, 0);
    s.record_event_at(busy_ip, 23, 250 * SEC);
    s.mark_alerted_at(old_ip, 0);
    s.mark_alerted_at(busy_ip, 250 * SEC);
    let removed = s.cleanup_old_entries_at(120, 300 * SEC);
    assert_eq!(removed, 1);
    assert_eq!(s.unique_ports_in_window_at(&old_ip, 1000, 300 * SEC), 0);
    assert_eq!(s.unique_ports_in_window_at(&busy_ip, 1000, 300 * SEC), 2);
    assert!(!s.is_in_cooldown_at(&old_ip, 1000, 300 * SEC));
    assert!(s.is_in_cooldown_at(&busy_ip, 1000, 300 * SEC));
}

#[test]
fn cleanup_horizon_edges() {
    let mut s = SharedState::new();
    let ip = IpAddress(10, 0, 0, 1);
    s.record_event_at(ip, 22, 0);
    s.mark_alerted_at(ip, 0);
    assert_eq!(s.cleanup_old_entries_at(120, 120 * SEC), 0);
    assert!(!s.is_in_cooldown_at(&ip, 1000, 120 * SEC));
    assert_eq!(s.cleanup_old_entries_at(120, 120 * SEC + 1), 1);
    assert_eq!(s.cleanup_old_entries_at(120, 120 * SEC + 1), 0);
}

#[test]
fn clock_operations() {
    let mut s = SharedState::default();
    let ip = IpAddress(10, 0, 0, 5);
    s.record_event(ip, 22);
    s.record_event(ip, 23);
    assert_eq!(s.unique_ports_in_window(&ip, 3600), 2);
    assert!(!s.is_in_cooldown(&ip, 60));
    s.mark_alerted(ip);
    assert!(s.is_in_cooldown(&ip, 3600));
    assert_eq!(s.cleanup_old_entries(3600), 0);
    let t1 = s.now();
    let t2 = s.now();
    assert!(t2 >= t1);
}
