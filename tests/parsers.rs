use rust_ids::ip::IpAddress;
use rust_ids::parser::cef::CefParser;
use rust_ids::parser::gaia::GaiaParser;
use rust_ids::parser::{create_parser, lookup_parser, LogParser, Parser};

#[test]
fn gaia_reads_drop_line() {
    let p = GaiaParser::new();
    let line = "Sep 3 15:12:20 192.168.99.1 Checkpoint: drop 10.0.0.5 proto: tcp; service: 22; s_port: 1352";
    let e = p.parse(line).expect("a drop event");
    assert_eq!(e.source_ip, IpAddress(10, 0, 0, 5));
    assert_eq!(e.dest_port, 22);
    assert_eq!(e.action, "drop");
}

#[test]
fn gaia_action_is_case_insensitive() {
    let p = GaiaParser::new();
    let e = p.parse("Checkpoint: DROP 192.168.11.7 proto: tcp; service: 443").unwrap();
    assert_eq!(e.source_ip, IpAddress(192, 168, 11, 7));
    assert_eq!(e.dest_port, 443);
    assert_eq!(e.action, "drop");
}

#[test]
fn gaia_stamps_given_time() {
    let p = GaiaParser::new();
    let e = p.parse_at("Checkpoint: drop 1.2.3.4 service: 80", 1_700_000_000_000).unwrap();
    assert_eq!(e.timestamp, 1_700_000_000_000);
}

#[test]
fn gaia_rejects_other_actions() {
    let p = GaiaParser::new();
    assert!(p.parse("Checkpoint: accept 10.0.0.5 proto: tcp; service: 22").is_none());
    assert!(p.parse("Checkpoint: dropped 10.0.0.5 proto: tcp; service: 22").is_none());
}

#[test]
fn gaia_rejects_bad_fields() {
    let p = GaiaParser::new();
    assert!(p.parse("Checkpoint: drop 10.0.0.256 service: 22").is_none());
    assert!(p.parse("Checkpoint: drop 10.0.0 service: 22").is_none());
    assert!(p.parse("Checkpoint: drop 10.0.0.05 service: 22").is_none());
    assert!(p.parse("Checkpoint: drop 10.0.0.5 service: 65536").is_none());
    assert!(p.parse("Checkpoint: drop 10.0.0.5 proto: tcp").is_none());
    assert!(p.parse("drop 10.0.0.5 service: 22").is_none());
    assert!(p.parse("").is_none());
    assert!(p.parse("   ").is_none());
}

#[test]
fn gaia_service_must_be_on_the_same_line() {
    let p = GaiaParser::new();
    assert!(p.parse("Checkpoint: drop 10.0.0.5 proto\nservice: 22").is_none());
}

#[test]
fn gaia_largest_port() {
    let p = GaiaParser::new();
    let e = p.parse("Checkpoint: drop 0.0.0.0 service:65535").unwrap();
    assert_eq!(e.dest_port, 65535);
    assert_eq!(e.source_ip, IpAddress(0, 0, 0, 0));
}

#[test]
fn cef_reads_line_with_syslog_prefix() {
    let p = CefParser::new();
    let line = "Nov 20 15:30:00 fw CEF:0|Vendor|Prod|1.0|sig|Name|5|src=10.0.0.5 dpt=80 act=Drop";
    let e = p.parse(line).expect("a drop event");
    assert_eq!(e.source_ip, IpAddress(10, 0, 0, 5));
    assert_eq!(e.dest_port, 80);
    assert_eq!(e.action, "drop");
}

#[test]
fn cef_reads_plain_line_and_deny() {
    let p = CefParser::new();
    let line = "CEF:0|Checkpoint|VPN-1|NGX R65|firewall|Log message|5|act=DENY dpt=443 src=192.168.1.10";
    let e = p.parse_at(line, 42).unwrap();
    assert_eq!(e.source_ip, IpAddress(192, 168, 1, 10));
    assert_eq!(e.dest_port, 443);
    assert_eq!(e.action, "deny");
    assert_eq!(e.timestamp, 42);
}

#[test]
fn cef_rejects_missing_or_bad_keys() {
    let p = CefParser::new();
    let head = "CEF:0|V|P|1.0|sig|Name|5|";
    assert!(p.parse(&format!("{}dpt=80 act=drop", head)).is_none());
    assert!(p.parse(&format!("{}src=10.0.0.5 act=drop", head)).is_none());
    assert!(p.parse(&format!("{}src=10.0.0.5 dpt=80", head)).is_none());
    assert!(p.parse(&format!("{}src=10.0.0.5 dpt=80 act=Allow", head)).is_none());
    assert!(p.parse(&format!("{}src=10.0.0.999 dpt=80 act=drop", head)).is_none());
    assert!(p.parse(&format!("{}src=10.0.0.5 dpt=70000 act=drop", head)).is_none());
}

#[test]
fn cef_needs_marker_and_seven_separators() {
    let p = CefParser::new();
    assert!(p.parse("0|V|P|1.0|sig|Name|5|src=10.0.0.5 dpt=80 act=drop").is_none());
    assert!(p.parse("CEF:0|V|P|1.0|sig|Name|src=10.0.0.5 dpt=80 act=drop").is_none());
    assert!(p.parse("CEF:0|V|P|1.0|sig|Name|5|src=10.0.0.5 dpt=80 act=drop").is_some());
}

#[test]
fn cef_helpers() {
    assert!(CefParser::is_cef("host CEF:0|a"));
    assert!(!CefParser::is_cef("host CEF0|a"));
    assert_eq!(CefParser::extract_cef_portion("Nov 20 fw CEF:0|x|y"), Some("CEF:0|x|y"));
    assert_eq!(CefParser::extract_cef_portion("no marker"), None);
    assert!(CefParser::validate_header("CEF:0|a|b|c|d|e|f|ext"));
    assert!(!CefParser::validate_header("CEF:0|a|b|c|d|e|ext"));
}

#[test]
fn parser_selection() {
    assert!(matches!(create_parser("cef"), Parser::Cef(_)));
    assert!(matches!(create_parser("CEF"), Parser::Cef(_)));
    assert!(matches!(create_parser("Gaia"), Parser::Gaia(_)));
    assert!(matches!(create_parser("syslog"), Parser::Gaia(_)));
    assert!(lookup_parser("syslog").is_none());
    assert!(matches!(lookup_parser("gAiA"), Some(Parser::Gaia(_))));
    assert_eq!(create_parser("cef").name(), "ArcSight CEF");
    assert_eq!(create_parser("gaia").name(), "Checkpoint Gaia Raw");
}

#[test]
fn chosen_parser_reads_its_format() {
    let p = create_parser("cef");
    let e = p.parse("x CEF:0|V|P|1.0|sig|Name|5|src=10.0.0.5 dpt=80 act=drop").unwrap();
    assert_eq!(e.dest_port, 80);
    assert!(p.parse("Checkpoint: drop 10.0.0.5 service: 22").is_none());
}

#[test]
fn cef_non_ascii_word_ends_no_action() {
    let p = CefParser::new();
    assert!(p.parse("CEF:0|V|P|1.0|sig|Name|5|src=10.0.0.5 dpt=80 act=Dropé").is_none());
    assert!(p.parse("CEF:0|V|P|1.0|sig|Name|5|src=10.0.0.5 dpt=80 act=Drop é").is_some());
}

#[test]
fn cef_non_ascii_digit_is_taken_into_the_field() {
    let p = CefParser::new();
    assert!(p.parse("CEF:0|V|P|1.0|sig|Name|5|src=10.0.0.5 dpt=\u{663} act=drop dpt=80").is_none());
    assert!(p.parse("CEF:0|V|P|1.0|sig|Name|5|src=10.0.0.5\u{663} dpt=80 act=drop").is_none());
    assert!(p.parse("CEF:0|V|P|1.0|sig|Name|5|src=10.0.0.5 dpt=80\u{663} act=drop").is_none());
}

#[test]
fn gaia_non_ascii_letters_and_digits() {
    let p = GaiaParser::new();
    assert!(p.parse("Checkpoint: dropé 10.0.0.5 service: 22").is_none());
    assert!(p.parse("Checkpoint: drop 10.0.0.5\u{663} service: 22").is_none());
    assert!(p.parse("Checkpoint: drop 10.0.0.5 service: 22\u{663}").is_none());
    assert!(p.parse("Checkpoint: drop 10.0.0.5 service: 22 é").is_some());
}
