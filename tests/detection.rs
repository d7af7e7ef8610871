use rust_ids::config::DetectionConfig;
use rust_ids::detector::{classify, evaluate, evaluate_at, DetectionResult};
use rust_ids::ip::IpAddress;
use rust_ids::state::SharedState;

const SEC: u64 = 1_000_000_000;

fn thresholds() -> DetectionConfig {
    DetectionConfig {
        fast_scan_ports: 20,
        fast_scan_window_secs: 10,
        slow_scan_ports: 30,
        slow_scan_window_mins: 5,
        cleanup_interval_secs: 60,
        alert_cooldown_secs: 300,
    }
}

#[test]
fn classify_covers_all_cases() {
    let c = thresholds();
    assert_eq!(classify(20, 30, &c), DetectionResult::Clean);
    assert_eq!(classify(21, 30, &c), DetectionResult::FastScan { ports: 21, window_secs: 10 });
    assert_eq!(classify(20, 31, &c), DetectionResult::SlowScan { ports: 31, window_mins: 5 });
    assert_eq!(classify(21, 31, &c), DetectionResult::BothScans { fast_ports: 21, slow_ports: 31 });
    assert_eq!(classify(0, 0, &c), DetectionResult::Clean);
}

#[test]
fn classify_is_deterministic() {
    let c = thresholds();
    assert_eq!(classify(25, 40, &c), classify(25, 40, &c));
}

#[test]
fn fast_scan_scenario() {
    let c = thresholds();
    let mut s = SharedState::new();
    let ip = IpAddress(10, 0, 0, 5);
    for i in 0..21u64 {
        s.record_event_at(ip, 1000 + i as u16, i * SEC / 3);
    }
    let r = evaluate_at(&ip, &s, &c, 7 * SEC);
    assert_eq!(r, DetectionResult::FastScan { ports: 21, window_secs: 10 });
    assert!(r.is_threat());
    assert_eq!(r.scan_type_label(), "FAST_SCAN");
}

#[test]
fn twenty_ports_is_no_fast_scan() {
    let c = thresholds();
    let mut s = SharedState::new();
    let ip = IpAddress(10, 0, 0, 5);
    for i in 0..20u64 {
        s.record_event_at(ip, 1000 + i as u16, 0);
    }
    assert_eq!(evaluate_at(&ip, &s, &c, SEC), DetectionResult::Clean);
}

#[test]
fn slow_scan_outside_fast_window() {
    let c = thresholds();
    let mut s = SharedState::new();
    let ip = IpAddress(10, 0, 0, 5);
    for i in 0..31u64 {
        s.record_event_at(ip, 2000 + i as u16, i * 8 * SEC);
    }
    let r = evaluate_at(&ip, &s, &c, 250 * SEC);
    assert_eq!(r, DetectionResult::SlowScan { ports: 31, window_mins: 5 });
    assert_eq!(r.scan_type_label(), "SLOW_SCAN");
}

#[test]
fn both_scans() {
    let c = thresholds();
    let mut s = SharedState::new();
    let ip = IpAddress(10, 0, 0, 5);
    for i in 0..40u64 {
        s.record_event_at(ip, 3000 + i as u16, SEC);
    }
    let r = evaluate_at(&ip, &s, &c, 2 * SEC);
    assert_eq!(r, DetectionResult::BothScans { fast_ports: 40, slow_ports: 40 });
    assert_eq!(r.scan_type_label(), "FAST+SLOW_SCAN");
}

#[test]
fn clean_result() {
    let s = SharedState::new();
    let r = evaluate(&IpAddress(1, 1, 1, 1), &s, &thresholds());
    assert_eq!(r, DetectionResult::Clean);
    assert!(!r.is_threat());
    assert_eq!(r.scan_type_label(), "CLEAN");
}
