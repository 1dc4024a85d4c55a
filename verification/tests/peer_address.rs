use signum_node_rs::models::p2p::PeerAddress;

#[test]
fn peer_address_fromstr_succeeds_for_valid_urls() {
    // Prepare
    let example_443: PeerAddress = "p2p.signumoasis.xyz:443".parse().unwrap();
    let example_80: PeerAddress = "p2p.signumoasis.xyz:80".parse().unwrap();
    let example_8123: PeerAddress = "p2p.signumoasis.xyz:8123".parse().unwrap();
    let example_ipv4: PeerAddress = "127.0.0.1:8123".parse().unwrap();
    let example_ipv6: PeerAddress = "[::1]:8123".parse().unwrap();
    let urls = vec![
        ("https://p2p.signumoasis.xyz".to_string(), &example_8123),
        ("http://p2p.signumoasis.xyz".to_string(), &example_8123),
        ("https://p2p.signumoasis.xyz:443".to_string(), &example_443),
        ("http://p2p.signumoasis.xyz:80".to_string(), &example_80),
        ("p2p.signumoasis.xyz".to_string(), &example_8123),
        ("p2p.signumoasis.xyz:80".to_string(), &example_80),
        ("127.0.0.1".to_string(), &example_ipv4),
        ("127.0.0.1:8123".to_string(), &example_ipv4),
        ("[::1]".to_string(), &example_ipv6),
        ("[::1]:8123".to_string(), &example_ipv6),
    ];

    // Act / Assert
    for (u, e) in urls.into_iter() {
        assert_eq!(u.parse::<PeerAddress>().unwrap(), *e, "Failed on `{}`", u);
    }
}

#[test]
fn peer_address_fromstr_fails_for_invalid_urls() {
    // Prepare
    let urls = vec!["[:::1]".to_string(), "[:::1]:8123".to_string()];

    // Act / Assert
    for u in urls.into_iter() {
        u.parse::<PeerAddress>().unwrap_err();
    }
}

#[test]
fn peer_address_parse_produces_canonical_strings() {
    let cases = vec![
        ("https://p2p.signumoasis.xyz", "p2p.signumoasis.xyz:8123"),
        ("p2p.signumoasis.xyz:443", "p2p.signumoasis.xyz:443"),
        ("127.0.0.1", "127.0.0.1:8123"),
        ("[::1]", "[::1]:8123"),
        ("EXAMPLE.com:80", "example.com:80"),
        ("example.com:0080", "example.com:80"),
        ("example.com:", "example.com:8123"),
        ("http://example.com/some/path?x=1", "example.com:8123"),
    ];
    for (input, expected) in cases.into_iter() {
        let parsed = PeerAddress::parse(input).unwrap();
        assert_eq!(parsed.to_address_string(), expected.to_string(), "Failed on `{}`", input);
    }
}

#[test]
fn peer_address_scheme_and_port_forms_agree() {
    let a: PeerAddress = "https://example.com".parse().unwrap();
    let b: PeerAddress = "example.com:8123".parse().unwrap();
    let c: PeerAddress = "http://example.com:8123".parse().unwrap();
    assert_eq!(a, b);
    assert_eq!(b, c);
}

#[test]
fn peer_address_parse_is_idempotent_through_format() {
    let inputs = vec![
        "https://p2p.signumoasis.xyz",
        "p2p.signumoasis.xyz:443",
        "127.0.0.1",
        "[::1]:8123",
        "EXAMPLE.com",
        "us-central.signum.network:8123",
    ];
    for s in inputs.into_iter() {
        let once = PeerAddress::parse(s).unwrap();
        let again = PeerAddress::parse(once.to_address_string().as_str()).unwrap();
        assert_eq!(once, again, "Failed on `{}`", s);
    }
}

#[test]
fn peer_address_rejects_bad_ports_and_hosts() {
    assert!(PeerAddress::parse("example.com:65536").is_err());
    assert!(PeerAddress::parse("example.com:12x").is_err());
    assert!(PeerAddress::parse("").is_err());
    assert!(PeerAddress::parse("http://").is_err());
    assert!(PeerAddress::parse("[::1").is_err());
    assert!(PeerAddress::parse("exa mple.com").is_err());
    assert!(PeerAddress::parse("example.com:65535").is_ok());
}

#[test]
fn peer_address_request_url_has_http_scheme() {
    let a: PeerAddress = "example.com:8123".parse().unwrap();
    assert_eq!(a.to_request_url(), "http://example.com:8123".to_string());
}

#[test]
fn peer_address_checks_ipv6_group_counts() {
    // Uncompressed form: exactly eight groups.
    assert!(PeerAddress::parse("[1:2:3:4:5:6:7:8]").is_ok());
    assert!(PeerAddress::parse("[1:2:3:4:5:6:7]").is_err());
    assert!(PeerAddress::parse("[1:2:3:4:5:6:7:8:9]").is_err());
    // Compressed form: at most seven non-empty groups beside the `::`.
    assert!(PeerAddress::parse("[::1:2:3:4:5:6:7]").is_ok());
    assert!(PeerAddress::parse("[1:2:3:4:5:6:7::]").is_ok());
    assert!(PeerAddress::parse("[1::2:3:4:5:6:7:8]").is_err());
    assert!(PeerAddress::parse("[::1:2:3:4:5:6:7:8]").is_err());
    assert!(PeerAddress::parse("[::]").is_ok());
    assert!(PeerAddress::parse("[fe80::1]:8080").is_ok());
    // A group holds at most four hexadecimal digits.
    assert!(PeerAddress::parse("[12345::1]").is_err());
}
