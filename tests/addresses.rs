use layer3::addr::{ipv4_from_octets, ipv4_to_string, parse_ipv4, Ipv4};
use layer3::text::decimal;

fn ip(a: u8, b: u8, c: u8, d: u8) -> Ipv4 {
    Ipv4 { a, b, c, d }
}

#[test]
fn parses_dotted_quad() {
    assert_eq!(parse_ipv4("10.0.0.4"), Some(ip(10, 0, 0, 4)));
    assert_eq!(parse_ipv4("0.0.0.0"), Some(ip(0, 0, 0, 0)));
    assert_eq!(parse_ipv4("255.255.255.255"), Some(ip(255, 255, 255, 255)));
    assert_eq!(parse_ipv4("192.168.100.7"), Some(ip(192, 168, 100, 7)));
    assert_eq!(parse_ipv4("8.8.8.8"), Some(ip(8, 8, 8, 8)));
}

#[test]
fn rejects_out_of_range_octets() {
    assert_eq!(parse_ipv4("256.0.0.1"), None);
    assert_eq!(parse_ipv4("10.0.0.300"), None);
    assert_eq!(parse_ipv4("10.0.0.1000"), None);
}

#[test]
fn rejects_leading_zeros() {
    assert_eq!(parse_ipv4("10.0.0.04"), None);
    assert_eq!(parse_ipv4("010.0.0.4"), None);
    assert_eq!(parse_ipv4("10.00.0.4"), None);
}

#[test]
fn rejects_malformed_text() {
    assert_eq!(parse_ipv4(""), None);
    assert_eq!(parse_ipv4("10.0.0"), None);
    assert_eq!(parse_ipv4("10.0.0.4.5"), None);
    assert_eq!(parse_ipv4("10..0.4"), None);
    assert_eq!(parse_ipv4("10.0.0.4 "), None);
    assert_eq!(parse_ipv4(" 10.0.0.4"), None);
    assert_eq!(parse_ipv4("a.b.c.d"), None);
    assert_eq!(parse_ipv4("10.0.0.4/24"), None);
    assert_eq!(parse_ipv4("10.0.0.0.0/24"), None);
    assert_eq!(parse_ipv4("\u{661}\u{660}.0.0.4"), None);
}

#[test]
fn formats_canonical_text() {
    assert_eq!(ipv4_to_string(ip(10, 0, 0, 4)), "10.0.0.4");
    assert_eq!(ipv4_to_string(ip(255, 0, 100, 9)), "255.0.100.9");
    assert_eq!(ipv4_to_string(ip(0, 0, 0, 0)), "0.0.0.0");
}

#[test]
fn format_then_parse_round_trips() {
    for x in [ip(1, 2, 3, 4), ip(99, 100, 101, 250), ip(10, 0, 0, 255)] {
        assert_eq!(parse_ipv4(&ipv4_to_string(x)), Some(x));
    }
}

#[test]
fn octets_in_network_order() {
    assert_eq!(ipv4_from_octets([8, 8, 4, 4]), ip(8, 8, 4, 4));
}

#[test]
fn decimal_text_of_numbers() {
    assert_eq!(decimal(0), "0");
    assert_eq!(decimal(7), "7");
    assert_eq!(decimal(1234), "1234");
    assert_eq!(decimal(4294967295), "4294967295");
}
