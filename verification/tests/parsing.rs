//! Tests of the integer token parser, the decimal formatter and the
//! address derivation.
use cocube::parse::{fmt_i32, fmt_u64, parse_i32};
use cocube::engine::{derive_port, peer_ip};

#[test]
fn parse_accepts_plain_integers() {
    assert_eq!(parse_i32(b"0"), Some(0));
    assert_eq!(parse_i32(b"40"), Some(40));
    assert_eq!(parse_i32(b"-12"), Some(-12));
    assert_eq!(parse_i32(b"+7"), Some(7));
    assert_eq!(parse_i32(b"007"), Some(7));
    assert_eq!(parse_i32(b"2147483647"), Some(i32::MAX));
    assert_eq!(parse_i32(b"-2147483648"), Some(i32::MIN));
}

#[test]
fn parse_rejects_everything_else() {
    assert_eq!(parse_i32(b""), None);
    assert_eq!(parse_i32(b"+"), None);
    assert_eq!(parse_i32(b"-"), None);
    assert_eq!(parse_i32(b"4 0"), None);
    assert_eq!(parse_i32(b" 40"), None);
    assert_eq!(parse_i32(b"3.5"), None);
    assert_eq!(parse_i32(b"40a"), None);
    assert_eq!(parse_i32(b"--4"), None);
    assert_eq!(parse_i32(b"2147483648"), None);
    assert_eq!(parse_i32(b"-2147483649"), None);
    assert_eq!(parse_i32(b"99999999999999999999"), None);
}

#[test]
fn format_renders_decimal() {
    assert_eq!(fmt_u64(0), b"0".to_vec());
    assert_eq!(fmt_u64(40), b"40".to_vec());
    assert_eq!(fmt_u64(u64::MAX), b"18446744073709551615".to_vec());
    assert_eq!(fmt_i32(-123), b"-123".to_vec());
    assert_eq!(fmt_i32(0), b"0".to_vec());
    assert_eq!(fmt_i32(i32::MIN), b"-2147483648".to_vec());
}

#[test]
fn peer_address_keeps_three_octets_and_appends_the_fourth() {
    assert_eq!(peer_ip("192.168.31.1", 100, 5), b"192.168.31.105".to_vec());
    assert_eq!(peer_ip("10.0.0.254", 1, 2), b"10.0.0.3".to_vec());
    // a short gateway keeps whatever it has
    assert_eq!(peer_ip("10.0", 1, 2), b"10.0.3".to_vec());
}

#[test]
fn ports_offset_by_robot_id() {
    assert_eq!(derive_port(6000, 0), 6000);
    assert_eq!(derive_port(6000, 5), 6005);
}
