use netlink_ddns::addr::{parse_ipv4, Ipv4Address};

#[test]
fn test_to_dotted_writes_canonical_text() {
    assert_eq!(Ipv4Address::new(10, 0, 0, 5).to_dotted(), "10.0.0.5");
    assert_eq!(Ipv4Address::new(0, 0, 0, 0).to_dotted(), "0.0.0.0");
    assert_eq!(Ipv4Address::new(255, 255, 255, 255).to_dotted(), "255.255.255.255");
    assert_eq!(Ipv4Address::new(192, 168, 1, 1).to_dotted(), "192.168.1.1");
    assert_eq!(Ipv4Address::new(1, 23, 104, 9).to_dotted(), "1.23.104.9");
}

#[test]
fn test_parse_accepts_canonical_text() {
    assert_eq!(parse_ipv4("10.0.0.5"), Some(Ipv4Address::new(10, 0, 0, 5)));
    assert_eq!(parse_ipv4("0.0.0.0"), Some(Ipv4Address::new(0, 0, 0, 0)));
    assert_eq!(
        parse_ipv4("255.255.255.255"),
        Some(Ipv4Address::new(255, 255, 255, 255))
    );
    assert_eq!(parse_ipv4("192.168.42.1"), Some(Ipv4Address::new(192, 168, 42, 1)));
}

#[test]
fn test_parse_rejects_malformed_text() {
    assert_eq!(parse_ipv4(""), None);
    assert_eq!(parse_ipv4("10.0.0"), None);
    assert_eq!(parse_ipv4("10.0.0.5.1"), None);
    assert_eq!(parse_ipv4("10.0.0."), None);
    assert_eq!(parse_ipv4(".0.0.5"), None);
    assert_eq!(parse_ipv4("10..0.5"), None);
    assert_eq!(parse_ipv4("256.0.0.1"), None);
    assert_eq!(parse_ipv4("1000.0.0.1"), None);
    assert_eq!(parse_ipv4("01.0.0.5"), None);
    assert_eq!(parse_ipv4("10.0.0.5 "), None);
    assert_eq!(parse_ipv4("10.0.0.a"), None);
    assert_eq!(parse_ipv4("10,0,0,5"), None);
    assert_eq!(parse_ipv4("ten.0.0.5"), None);
}

#[test]
fn test_parse_and_format_round_trip() {
    let ips = vec![
        Ipv4Address::new(10, 0, 0, 5),
        Ipv4Address::new(0, 1, 2, 3),
        Ipv4Address::new(100, 200, 250, 255),
        Ipv4Address::new(9, 99, 199, 209),
    ];
    for ip in ips {
        assert_eq!(parse_ipv4(&ip.to_dotted()), Some(ip));
    }
}
