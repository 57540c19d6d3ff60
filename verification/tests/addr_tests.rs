use relay::addr::{format_dec, format_ipv4, format_key, is_valid_ip, parse_ipv4, parse_key, ConnKey, Ipv4};
use relay::config::{parse_debug_flag, Config};
use relay::debug_mode::is_enabled;
use relay::framing::frame_line;
use relay::sweeper::keepalive_payload;

#[test]
fn valid_addresses_parse_to_their_octets() {
    assert_eq!(parse_ipv4("127.0.0.1"), Some(Ipv4 { a: 127, b: 0, c: 0, d: 1 }));
    assert_eq!(parse_ipv4("255.255.255.255"), Some(Ipv4 { a: 255, b: 255, c: 255, d: 255 }));
    assert_eq!(parse_ipv4("0.0.0.0"), Some(Ipv4 { a: 0, b: 0, c: 0, d: 0 }));
}

#[test]
fn invalid_addresses_are_rejected() {
    assert!(!is_valid_ip(""));
    assert!(!is_valid_ip("10.0.0"));
    assert!(!is_valid_ip("10.0.0.0.0"));
    assert!(!is_valid_ip("256.0.0.1"));
    assert!(!is_valid_ip("01.2.3.4"));
    assert!(!is_valid_ip("1.2.3.x"));
    assert!(!is_valid_ip("1.2.3.4:80"));
    assert!(!is_valid_ip("10..0.1"));
    assert!(is_valid_ip("10.0.0.9"));
}

#[test]
fn keys_parse_and_format_round_trip() {
    let k = parse_key("127.0.0.1:51000").unwrap();
    assert_eq!(k, ConnKey { ip: Ipv4 { a: 127, b: 0, c: 0, d: 1 }, port: 51000 });
    assert_eq!(format_key(k), "127.0.0.1:51000");
    assert_eq!(format_ipv4(k.ip), "127.0.0.1");
    assert_eq!(parse_key("1.2.3.4:0").unwrap().port, 0);
    assert_eq!(parse_key("1.2.3.4:65535").unwrap().port, 65535);
    assert!(parse_key("1.2.3.4:65536").is_none());
    assert!(parse_key("1.2.3.4:").is_none());
    assert!(parse_key("1.2.3.4").is_none());
    assert!(parse_key("1.2.3.4:07").is_none());
}

#[test]
fn decimal_formatting_is_canonical() {
    assert_eq!(format_dec(0), "0");
    assert_eq!(format_dec(7), "7");
    assert_eq!(format_dec(255), "255");
    assert_eq!(format_dec(51000), "51000");
}

#[test]
fn frame_line_appends_exactly_one_terminator() {
    assert_eq!(frame_line("abc"), "abc\n");
    assert_eq!(frame_line(""), "\n");
    // Two frames written back to back are read as two whole lines.
    let wire = format!("{}{}", frame_line("first"), frame_line("second"));
    let lines: Vec<&str> = wire.lines().collect();
    assert_eq!(lines, vec!["first", "second"]);
}

#[test]
fn keepalive_probe_payload_is_fixed() {
    assert_eq!(keepalive_payload(), "{\"type\":\"keepalive\"}");
    assert!(json::parse(&keepalive_payload()).is_ok());
}

#[test]
fn debug_flag_accepts_only_true_and_one() {
    assert!(parse_debug_flag("true"));
    assert!(parse_debug_flag("1"));
    assert!(!parse_debug_flag("TRUE"));
    assert!(!parse_debug_flag("0"));
    assert!(!parse_debug_flag("yes"));
    assert!(!parse_debug_flag(""));
}

#[test]
fn config_exposes_url_and_toggle() {
    let c = Config::new(String::from("http://sink.example/api"), true);
    assert_eq!(c.api_url(), "http://sink.example/api");
    assert!(c.is_debug());
    assert!(is_enabled(&c));
    let quiet = Config::new(String::from("http://sink.example/api"), false);
    assert!(!is_enabled(&quiet));
}
