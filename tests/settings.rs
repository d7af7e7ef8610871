use rust_ids::config::{Config, DetectionConfig, EmailConfig, ListenerConfig, SiemConfig};

fn sample() -> Config {
    Config {
        listener: ListenerConfig { bind_address: "0.0.0.0".to_string(), port: 5555, parser: "gaia".to_string() },
        detection: DetectionConfig {
            fast_scan_ports: 20,
            fast_scan_window_secs: 10,
            slow_scan_ports: 50,
            slow_scan_window_mins: 15,
            cleanup_interval_secs: 60,
            alert_cooldown_secs: 300,
        },
        siem: SiemConfig { address: "127.0.0.1".to_string(), port: 514 },
        email: EmailConfig {
            smtp_server: "smtp.example.com".to_string(),
            smtp_port: 587,
            username: "ids".to_string(),
            password: "SECRET-REDACTED".to_string(),
            from: "ids@example.com".to_string(),
            to: "soc@example.com".to_string(),
            enabled: false,
        },
    }
}

#[test]
fn addresses() {
    let c = sample();
    assert_eq!(c.listener_addr(), "0.0.0.0:5555");
    assert_eq!(c.siem_addr(), "127.0.0.1:514");
}

#[test]
fn slow_window_in_seconds() {
    let c = sample();
    assert_eq!(c.slow_scan_window_secs(), 900);
    assert_eq!(c.detection.slow_window_secs(), 900);
}
