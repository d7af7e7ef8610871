use rust_ids::ip::IpAddress;

#[test]
fn parses_dotted_decimal() {
    assert_eq!(IpAddress::parse("10.0.0.5"), Some(IpAddress(10, 0, 0, 5)));
    assert_eq!(IpAddress::parse("255.255.255.255"), Some(IpAddress(255, 255, 255, 255)));
    assert_eq!(IpAddress::parse("0.0.0.0"), Some(IpAddress(0, 0, 0, 0)));
}

#[test]
fn rejects_malformed_addresses() {
    assert_eq!(IpAddress::parse(""), None);
    assert_eq!(IpAddress::parse("1.2.3"), None);
    assert_eq!(IpAddress::parse("1.2.3.4.5"), None);
    assert_eq!(IpAddress::parse("1.2.3.256"), None);
    assert_eq!(IpAddress::parse("01.2.3.4"), None);
    assert_eq!(IpAddress::parse("1..3.4"), None);
    assert_eq!(IpAddress::parse("1.2.3.4."), None);
    assert_eq!(IpAddress::parse("1.2.3.1234"), None);
}

#[test]
fn key_and_text() {
    assert_eq!(IpAddress(10, 0, 0, 5).key(), 0x0A00_0005);
    assert_eq!(IpAddress(255, 255, 255, 255).key(), u32::MAX);
    assert_eq!(IpAddress(192, 168, 1, 10).to_dotted(), "192.168.1.10");
    assert_eq!(IpAddress(0, 0, 0, 0).to_dotted(), "0.0.0.0");
}
