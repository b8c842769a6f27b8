use vex::target::{authority, parse_target, TargetError};

#[test]
fn test_hostname_only() {
    let (host, port) = parse_target("example.com", 443).unwrap();
    assert_eq!(host, "example.com");
    assert_eq!(port, 443);
}

#[test]
fn test_hostname_with_port() {
    let (host, port) = parse_target("example.com:8443", 443).unwrap();
    assert_eq!(host, "example.com");
    assert_eq!(port, 8443);
}

#[test]
fn test_ipv4_only() {
    let (host, port) = parse_target("127.0.0.1", 443).unwrap();
    assert_eq!(host, "127.0.0.1");
    assert_eq!(port, 443);
}

#[test]
fn test_ipv4_with_port() {
    let (host, port) = parse_target("127.0.0.1:8080", 443).unwrap();
    assert_eq!(host, "127.0.0.1");
    assert_eq!(port, 8080);
}

#[test]
fn test_ipv6_only() {
    let (host, port) = parse_target("[::1]", 443).unwrap();
    assert_eq!(host, "[::1]");
    assert_eq!(port, 443);
}

#[test]
fn test_ipv6_with_port() {
    let (host, port) = parse_target("[::1]:8443", 443).unwrap();
    assert_eq!(host, "[::1]");
    assert_eq!(port, 8443);
}

#[test]
fn test_ipv6_full_address() {
    let (host, port) = parse_target("[2001:db8::1]", 443).unwrap();
    assert_eq!(host, "[2001:db8::1]");
    assert_eq!(port, 443);
}

#[test]
fn test_ipv6_full_address_with_port() {
    let (host, port) = parse_target("[2001:db8::1]:8443", 443).unwrap();
    assert_eq!(host, "[2001:db8::1]");
    assert_eq!(port, 8443);
}

#[test]
fn test_https_scheme_stripped() {
    let (host, port) = parse_target("https://example.com", 443).unwrap();
    assert_eq!(host, "example.com");
    assert_eq!(port, 443);
}

#[test]
fn test_http_scheme_stripped() {
    let (host, port) = parse_target("http://example.com:8080", 443).unwrap();
    assert_eq!(host, "example.com");
    assert_eq!(port, 8080);
}

#[test]
fn test_invalid_port() {
    assert!(parse_target("example.com:invalid", 443).is_err());
}

#[test]
fn test_malformed_ipv6() {
    assert!(parse_target("[::1:8443", 443).is_err());
}

#[test]
fn refused_targets_name_their_reason() {
    assert_eq!(parse_target("example.com:invalid", 443), Err(TargetError::InvalidPort));
    assert_eq!(parse_target("[::1:8443", 443), Err(TargetError::MalformedIpv6));
    assert_eq!(parse_target("[::1]8443", 443), Err(TargetError::InvalidIpv6Format));
    assert_eq!(parse_target("::1", 443), Err(TargetError::InvalidFormat));
    assert_eq!(parse_target("a:b:c", 443), Err(TargetError::InvalidFormat));
    assert_eq!(parse_target("[::1]:", 443), Err(TargetError::InvalidPort));
    assert_eq!(parse_target("[::1]:99999", 443), Err(TargetError::InvalidPort));
}

#[test]
fn port_reading_follows_u16_from_str() {
    assert_eq!(parse_target("host:65535", 1).unwrap().1, 65535);
    assert_eq!(parse_target("host:65536", 1), Err(TargetError::InvalidPort));
    assert_eq!(parse_target("host:+80", 1).unwrap().1, 80);
    assert_eq!(parse_target("host:-80", 1), Err(TargetError::InvalidPort));
    assert_eq!(parse_target("host:", 1), Err(TargetError::InvalidPort));
    assert_eq!(parse_target("host:+", 1), Err(TargetError::InvalidPort));
    assert_eq!(parse_target("host:0080", 1).unwrap().1, 80);
    assert_eq!(parse_target("host: 80", 1), Err(TargetError::InvalidPort));
}

#[test]
fn schemes_are_stripped_repeatedly_https_first() {
    assert_eq!(parse_target("https://https://a", 1).unwrap(), ("a".to_string(), 1));
    assert_eq!(parse_target("https://http://a:2", 1).unwrap(), ("a".to_string(), 2));
    // After `http://` is removed, a following `https://` stays and its colon counts.
    assert_eq!(parse_target("http://https://a", 1), Err(TargetError::InvalidPort));
}

#[test]
fn embedded_port_wins_over_default() {
    for default in [1u16, 443, 8080] {
        assert_eq!(parse_target("example.com:9000", default).unwrap().1, 9000);
        assert_eq!(parse_target("example.com", default).unwrap().1, default);
    }
}

#[test]
fn empty_and_odd_hosts() {
    assert_eq!(parse_target("", 443).unwrap(), (String::new(), 443));
    assert_eq!(parse_target(":80", 443).unwrap(), (String::new(), 80));
    assert_eq!(parse_target("[]", 443).unwrap(), ("[]".to_string(), 443));
    assert_eq!(parse_target("höst:8", 443).unwrap(), ("höst".to_string(), 8));
}

#[test]
fn authority_joins_host_and_port() {
    assert_eq!(authority("example.com", 443), "example.com:443");
    assert_eq!(authority("[::1]", 8443), "[::1]:8443");
    assert_eq!(authority("h", 0), "h:0");
}

#[test]
fn authority_reads_back() {
    for (host, port) in [("example.com", 443u16), ("127.0.0.1", 8080), ("[2001:db8::1]", 65535), ("", 7)] {
        let text = authority(host, port);
        assert_eq!(parse_target(&text, 1).unwrap(), (host.to_string(), port));
    }
}
