use icmp_probe::addr::{format_ipv4, from_octets, octets, parse_ipv4, to_network_order};
use icmp_probe::resolve::{resolve, resolve_from_lookup, resolve_literal, select_ipv4};

#[test]
fn parses_plain_literals() {
    assert_eq!(parse_ipv4("8.8.8.8"), Some(0x08080808));
    assert_eq!(parse_ipv4("1.2.3.4"), Some(0x01020304));
    assert_eq!(parse_ipv4("0.0.0.0"), Some(0));
    assert_eq!(parse_ipv4("255.255.255.255"), Some(0xFFFFFFFF));
    assert_eq!(parse_ipv4("192.168.0.1"), Some(0xC0A80001));
    assert_eq!(parse_ipv4("10.0.200.30"), Some(0x0A00C81E));
}

#[test]
fn rejects_non_literals() {
    assert_eq!(parse_ipv4(""), None);
    assert_eq!(parse_ipv4("8.8.8"), None);
    assert_eq!(parse_ipv4("8.8.8.8.8"), None);
    assert_eq!(parse_ipv4("256.1.1.1"), None);
    assert_eq!(parse_ipv4("01.2.3.4"), None);
    assert_eq!(parse_ipv4("1.2.3.04"), None);
    assert_eq!(parse_ipv4("1.2.3.4 "), None);
    assert_eq!(parse_ipv4(" 1.2.3.4"), None);
    assert_eq!(parse_ipv4("1..2.3"), None);
    assert_eq!(parse_ipv4("1.2.3."), None);
    assert_eq!(parse_ipv4(".1.2.3"), None);
    assert_eq!(parse_ipv4("a.b.c.d"), None);
    assert_eq!(parse_ipv4("::1"), None);
    assert_eq!(parse_ipv4("2001:db8::1"), None);
    assert_eq!(parse_ipv4("not-a-real-host.invalid"), None);
    assert_eq!(parse_ipv4("dns.google"), None);
    assert_eq!(parse_ipv4("1234.1.1.1"), None);
    assert_eq!(parse_ipv4("1.2.3.+4"), None);
}

#[test]
fn formats_dotted_decimal() {
    assert_eq!(format_ipv4(0x08080808), "8.8.8.8");
    assert_eq!(format_ipv4(0x01020304), "1.2.3.4");
    assert_eq!(format_ipv4(0), "0.0.0.0");
    assert_eq!(format_ipv4(0xFFFFFFFF), "255.255.255.255");
    assert_eq!(format_ipv4(0xC0A80001), "192.168.0.1");
}

#[test]
fn parse_and_format_round_trip() {
    for v in [0u32, 1, 0x08080808, 0x01020304, 0xC0A80001, 0xFFFFFFFF, 0x0A00C81E] {
        assert_eq!(parse_ipv4(&format_ipv4(v)), Some(v));
    }
    for s in ["8.8.8.8", "1.2.3.4", "0.0.0.0", "255.255.255.255"] {
        assert_eq!(format_ipv4(parse_ipv4(s).unwrap()), s);
    }
}

#[test]
fn octet_decomposition() {
    assert_eq!(octets(0x01020304), (1, 2, 3, 4));
    assert_eq!(from_octets(1, 2, 3, 4), 0x01020304);
}

#[test]
fn network_order_swaps_octets() {
    assert_eq!(to_network_order(0x08080808), 0x08080808);
    assert_eq!(to_network_order(0x01020304), 0x04030201);
    assert_eq!(to_network_order(0xC0A80001), 0x0100A8C0);
    assert_eq!(to_network_order(to_network_order(0xDEADBEEF)), 0xDEADBEEF);
}

#[test]
fn selects_first_ipv4_text() {
    let texts = vec!["::1".to_string(), "9.9.9.9".to_string(), "8.8.8.8".to_string()];
    assert_eq!(select_ipv4(&texts), Some(0x09090909));
    let v6_only = vec!["::1".to_string(), "2001:db8::1".to_string()];
    assert_eq!(select_ipv4(&v6_only), None);
    assert_eq!(select_ipv4(&Vec::new()), None);
}

#[test]
fn lookup_with_ipv4_resolves() {
    let lookup = Ok(vec!["2001:db8::1".to_string(), "93.184.216.34".to_string()]);
    let target = resolve_from_lookup("host.example", lookup).unwrap();
    assert_eq!(target.address, 0x5DB8D822);
    assert_eq!(target.display_name, "host.example");
}

#[test]
fn ipv6_only_lookup_fails() {
    let lookup = Ok(vec!["2001:db8::1".to_string()]);
    let failure = resolve_from_lookup("host.example", lookup).unwrap_err();
    assert_eq!(failure.input, "host.example");
    assert_eq!(failure.cause, "no usable IPv4 address");
}

#[test]
fn failed_lookup_carries_cause() {
    let failure = resolve_from_lookup("host.example", Err("lookup refused".to_string())).unwrap_err();
    assert_eq!(failure.input, "host.example");
    assert_eq!(failure.cause, "lookup refused");
}

#[test]
fn literal_keeps_address_and_falls_back_to_input() {
    let t = resolve_literal("8.8.8.8", None);
    assert_eq!(t.address, 0x08080808);
    assert_eq!(t.display_name, "8.8.8.8");
    let named = resolve_literal("8.8.8.8", Some("dns.google".to_string()));
    assert_eq!(named.address, 0x08080808);
    assert_eq!(named.display_name, "dns.google");
}

#[test]
fn resolving_a_literal_needs_no_forward_lookup() {
    // A literal destination resolves even where every DNS lookup fails.
    let target = resolve("8.8.8.8").unwrap();
    assert_eq!(target.address, 0x08080808);
}

#[test]
fn unresolvable_name_is_fatal() {
    let failure = resolve("not-a-real-host.invalid").unwrap_err();
    assert_eq!(failure.input, "not-a-real-host.invalid");
    assert!(!failure.cause.is_empty());
}
