use rust_ids::alert::{
    alert_message, alert_message_at, build_alert_message, build_email_body, email_body,
    email_body_at, email_subject, AlertPayload,
};
use rust_ids::detector::DetectionResult;
use rust_ids::ip::IpAddress;

fn fast() -> AlertPayload {
    AlertPayload { ip: IpAddress(10, 0, 0, 5), result: DetectionResult::FastScan { ports: 21, window_secs: 10 } }
}

#[test]
fn fast_scan_record() {
    assert_eq!(
        build_alert_message("Nov 20 15:30:00", &fast()),
        "Nov 20 15:30:00 rust-ids CEF:0|RustIDS|NetworkScanner|0.1.0|IDS001|Fast Port Scan Detected|8|src=10.0.0.5 cs1Label=ScanType cs1=FastScan cs2Label=UniquePorts cs2=21 cs3Label=WindowSecs cs3=10"
    );
}

#[test]
fn slow_scan_record() {
    let p = AlertPayload { ip: IpAddress(192, 168, 1, 10), result: DetectionResult::SlowScan { ports: 51, window_mins: 5 } };
    assert_eq!(
        build_alert_message("Jan 01 00:00:00", &p),
        "Jan 01 00:00:00 rust-ids CEF:0|RustIDS|NetworkScanner|0.1.0|IDS002|Slow Port Scan Detected|6|src=192.168.1.10 cs1Label=ScanType cs1=SlowScan cs2Label=UniquePorts cs2=51 cs3Label=WindowMins cs3=5"
    );
}

#[test]
fn combined_scan_record() {
    let p = AlertPayload { ip: IpAddress(1, 2, 3, 4), result: DetectionResult::BothScans { fast_ports: 25, slow_ports: 60 } };
    assert_eq!(
        build_alert_message("Dec 31 23:59:59", &p),
        "Dec 31 23:59:59 rust-ids CEF:0|RustIDS|NetworkScanner|0.1.0|IDS003|Combined Fast+Slow Port Scan Detected|9|src=1.2.3.4 cs1Label=ScanType cs1=FastAndSlowScan cs2Label=FastPorts cs2=25 cs3Label=SlowPorts cs3=60"
    );
}

#[test]
fn record_is_stamped_from_the_time() {
    assert_eq!(
        alert_message_at(&fast(), 0).unwrap(),
        "Jan 01 00:00:00 rust-ids CEF:0|RustIDS|NetworkScanner|0.1.0|IDS001|Fast Port Scan Detected|8|src=10.0.0.5 cs1Label=ScanType cs1=FastScan cs2Label=UniquePorts cs2=21 cs3Label=WindowSecs cs3=10"
    );
    let m = alert_message_at(&fast(), 1_700_000_000_000).unwrap();
    assert!(m.starts_with("Nov 14 22:13:20 rust-ids CEF:0|"));
    assert!(alert_message_at(&fast(), i64::MAX).is_none());
    assert!(alert_message(&fast()).unwrap().contains(" rust-ids CEF:0|RustIDS|"));
}

#[test]
fn email_text() {
    assert_eq!(email_subject(&fast()), "[IDS ALERT] FAST_SCAN detectat de la 10.0.0.5");
    assert_eq!(
        build_email_body("2024-01-02 03:04:05 UTC", &fast(), "MSG"),
        "RUST IDS ALERT\n========================\nTimestamp:  2024-01-02 03:04:05 UTC\nIP Sursă:   10.0.0.5\nTip Scan:   FAST_SCAN\n\nMesaj CEF:\nMSG\n\nAcțiune recomandată: Investigați imediat IP-ul sursă."
    );
    let b = email_body_at(&fast(), "MSG", 0).unwrap();
    assert!(b.contains("Timestamp:  1970-01-01 00:00:00 UTC\n"));
    assert!(email_body_at(&fast(), "MSG", i64::MIN).is_none());
    assert!(email_body(&fast(), "MSG").unwrap().ends_with("IP-ul sursă."));
}
