use rust_ids::config::DetectionConfig;
use rust_ids::detector::DetectionResult;
use rust_ids::ip::IpAddress;
use rust_ids::parser::create_parser;
use rust_ids::pipeline::{process_line, process_line_at, split_lines};
use rust_ids::state::SharedState;

const SEC: u64 = 1_000_000_000;

fn thresholds() -> DetectionConfig {
    DetectionConfig {
        fast_scan_ports: 20,
        fast_scan_window_secs: 10,
        slow_scan_ports: 100,
        slow_scan_window_mins: 15,
        cleanup_interval_secs: 60,
        alert_cooldown_secs: 300,
    }
}

fn burst(state: &mut SharedState, start: u64) -> usize {
    let parser = create_parser("gaia");
    let c = thresholds();
    let mut alerts = 0;
    for port in 0..21u64 {
        let line = format!("Checkpoint: drop 10.0.0.5 proto: tcp; service: {}", 1000 + port);
        let d = process_line_at(state, &parser, &c, &line, start + port * SEC / 4).unwrap();
        if d.alert {
            alerts += 1;
            assert_eq!(d.detection, DetectionResult::FastScan { ports: 21, window_secs: 10 });
        }
    }
    alerts
}

#[test]
fn burst_raises_one_alert() {
    let mut s = SharedState::new();
    assert_eq!(burst(&mut s, 0), 1);
    assert!(s.is_in_cooldown_at(&IpAddress(10, 0, 0, 5), 300, 6 * SEC));
}

#[test]
fn cooldown_suppresses_second_alert() {
    let mut s = SharedState::new();
    assert_eq!(burst(&mut s, 0), 1);
    assert_eq!(burst(&mut s, 100 * SEC), 0);
    assert_eq!(burst(&mut s, 400 * SEC), 1);
}

#[test]
fn lines_that_are_no_event_change_nothing() {
    let mut s = SharedState::new();
    let parser = create_parser("gaia");
    let c = thresholds();
    assert!(process_line_at(&mut s, &parser, &c, "Checkpoint: accept 10.0.0.5 service: 22", 0).is_none());
    assert!(process_line_at(&mut s, &parser, &c, "", 0).is_none());
    assert_eq!(s.unique_ports_in_window_at(&IpAddress(10, 0, 0, 5), 10, 0), 0);
    let d = process_line(&mut s, &parser, &c, "Checkpoint: drop 10.0.0.5 service: 22").unwrap();
    assert_eq!(d.entry.dest_port, 22);
    assert_eq!(d.detection, DetectionResult::Clean);
    assert!(!d.alert);
}

#[test]
fn payload_lines() {
    assert_eq!(split_lines("a\nb\n\nc"), vec!["a", "b", "", "c"]);
    assert_eq!(split_lines(""), vec![""]);
    assert_eq!(split_lines("one"), vec!["one"]);
    assert_eq!(split_lines("x\n"), vec!["x", ""]);
}

#[test]
fn coalesced_payload() {
    let mut s = SharedState::new();
    let parser = create_parser("cef");
    let c = thresholds();
    let payload = "CEF:0|V|P|1|s|N|5|src=10.0.0.7 dpt=22 act=drop\nCEF:0|V|P|1|s|N|5|src=10.0.0.7 dpt=23 act=deny\r\ngarbage";
    let mut n = 0;
    for line in split_lines(payload) {
        if process_line_at(&mut s, &parser, &c, line, SEC).is_some() {
            n += 1;
        }
    }
    assert_eq!(n, 2);
    assert_eq!(s.unique_ports_in_window_at(&IpAddress(10, 0, 0, 7), 10, SEC), 2);
}
