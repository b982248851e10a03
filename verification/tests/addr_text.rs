use dynamic_route53::addr::Ipv4Address;
use dynamic_route53::addr::format_ipv4;
use dynamic_route53::addr::parse_discovered;
use dynamic_route53::addr::parse_ipv4;
use dynamic_route53::addr::trim_ascii;
use dynamic_route53::errors::AddressResolutionError;

fn addr(o1: u8, o2: u8, o3: u8, o4: u8) -> Ipv4Address {
    Ipv4Address { o1, o2, o3, o4 }
}

#[test]
fn parses_plain_dotted_quad() {
    assert_eq!(parse_ipv4(b"203.0.113.9"), Some(addr(203, 0, 113, 9)));
    assert_eq!(parse_ipv4(b"1.1.1.1"), Some(addr(1, 1, 1, 1)));
    assert_eq!(parse_ipv4(b"0.0.0.0"), Some(addr(0, 0, 0, 0)));
    assert_eq!(parse_ipv4(b"255.255.255.255"), Some(addr(255, 255, 255, 255)));
}

#[test]
fn rejects_non_addresses() {
    assert_eq!(parse_ipv4(b"not-an-ip"), None);
    assert_eq!(parse_ipv4(b""), None);
    assert_eq!(parse_ipv4(b"1.2.3"), None);
    assert_eq!(parse_ipv4(b"1.2.3.4.5"), None);
    assert_eq!(parse_ipv4(b"1.2.3."), None);
    assert_eq!(parse_ipv4(b".1.2.3.4"), None);
    assert_eq!(parse_ipv4(b"256.0.0.1"), None);
    assert_eq!(parse_ipv4(b"999.1.1.1"), None);
    assert_eq!(parse_ipv4(b"1..2.3"), None);
    assert_eq!(parse_ipv4(b"1.2.3.4 "), None);
    assert_eq!(parse_ipv4(b"a.b.c.d"), None);
    assert_eq!(parse_ipv4(b"1.2.3.1024"), None);
}

#[test]
fn rejects_leading_zeros() {
    assert_eq!(parse_ipv4(b"01.2.3.4"), None);
    assert_eq!(parse_ipv4(b"1.02.3.4"), None);
    assert_eq!(parse_ipv4(b"1.2.3.007"), None);
    assert_eq!(parse_ipv4(b"00.0.0.0"), None);
}

#[test]
fn formats_canonically() {
    assert_eq!(format_ipv4(&addr(203, 0, 113, 9)), b"203.0.113.9".to_vec());
    assert_eq!(format_ipv4(&addr(0, 0, 0, 0)), b"0.0.0.0".to_vec());
    assert_eq!(format_ipv4(&addr(255, 255, 255, 255)), b"255.255.255.255".to_vec());
    assert_eq!(format_ipv4(&addr(10, 99, 100, 1)), b"10.99.100.1".to_vec());
}

#[test]
fn format_then_parse_round_trips() {
    for &a in &[
        addr(0, 0, 0, 0),
        addr(9, 10, 99, 100),
        addr(203, 0, 113, 9),
        addr(255, 255, 255, 255),
        addr(198, 51, 100, 1),
    ] {
        assert_eq!(parse_ipv4(&format_ipv4(&a)), Some(a));
    }
}

#[test]
fn trims_surrounding_whitespace() {
    assert_eq!(trim_ascii(b"  203.0.113.9\n"), &b"203.0.113.9"[..]);
    assert_eq!(trim_ascii(b"\r\n\t x \t\r\n"), &b"x"[..]);
    assert_eq!(trim_ascii(b"   "), &b""[..]);
    assert_eq!(trim_ascii(b""), &b""[..]);
    assert_eq!(trim_ascii(b"a b"), &b"a b"[..]);
}

#[test]
fn discovery_accepts_trimmed_body() {
    assert_eq!(parse_discovered(b"203.0.113.9\n"), Ok(addr(203, 0, 113, 9)));
    assert_eq!(parse_discovered(b"  198.51.100.1  "), Ok(addr(198, 51, 100, 1)));
}

#[test]
fn discovery_rejects_malformed_body() {
    match parse_discovered(b"not-an-ip\n") {
        Err(AddressResolutionError::InvalidAddressFormat(t)) => {
            assert_eq!(t, b"not-an-ip".to_vec());
        }
        other => panic!("expected the malformed-address error, got {:?}", other),
    }
}
