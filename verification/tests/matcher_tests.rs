use easynet::ip::Ipv4Addr;
use easynet::matcher::{parse_port_range, Matcher};
use easynet::rule::Protocol;

#[test]
fn matches_exact_domain_only() {
    let domains = vec!["example.com".to_string(), "www.example.org".to_string()];

    assert!(Matcher::matches_domain("example.com", &domains));
    assert!(!Matcher::matches_domain("www.example.com", &domains));
}

#[test]
fn matches_domain_suffix_with_root_and_subdomain() {
    let domains = vec!["example.com".to_string(), "www.example.com".to_string()];

    assert!(Matcher::matches_domain_suffix("example.com", &domains));
    assert!(Matcher::matches_domain_suffix("www.example.com", &domains));
    assert!(!Matcher::matches_domain_suffix("ample.com", &domains));
}

#[test]
fn matches_domain_keyword() {
    let domains = vec!["www.youtube.com".to_string()];

    assert!(Matcher::matches_domain_keyword("youtube", &domains));
    assert!(!Matcher::matches_domain_keyword("google", &domains));
}

#[test]
fn domain_rules_do_not_match_without_domains() {
    let domains = Vec::new();

    assert!(!Matcher::matches_domain("example.com", &domains));
    assert!(!Matcher::matches_domain_suffix("example.com", &domains));
    assert!(!Matcher::matches_domain_keyword("example", &domains));
}

#[test]
fn suffix_needs_a_dot_boundary() {
    let domains = vec!["badexample.com".to_string()];
    assert!(!Matcher::matches_domain_suffix("example.com", &domains));
    assert!(Matcher::matches_domain_suffix("badexample.com", &domains));
}

#[test]
fn port_ranges_and_single_ports() {
    assert_eq!(parse_port_range("443"), Ok((443, 443)));
    assert_eq!(parse_port_range(" 8000-9000 "), Ok((8000, 9000)));
    assert!(parse_port_range("9000-8000").is_err());
    assert!(parse_port_range("http").is_err());
    assert!(parse_port_range("70000").is_err());
    assert!(Matcher::matches_port("8000-9000", Some(8500)));
    assert!(Matcher::matches_port("8000-9000", Some(9000)));
    assert!(!Matcher::matches_port("8000-9000", Some(9001)));
    assert!(!Matcher::matches_port("22", None));
    assert!(!Matcher::matches_port("bad", Some(22)));
}

#[test]
fn port_range_error_quotes_the_spec() {
    assert_eq!(
        parse_port_range("x"),
        Err("invalid port range 'x'".to_string())
    );
}

#[test]
fn cidr_membership() {
    let inside = Ipv4Addr::new(10, 1, 2, 3);
    let outside = Ipv4Addr::new(11, 0, 0, 1);
    assert!(Matcher::matches_ip("10.0.0.0/8", inside));
    assert!(!Matcher::matches_ip("10.0.0.0/8", outside));
    assert!(Matcher::matches_ip("0.0.0.0/0", outside));
    assert!(!Matcher::matches_ip("not-a-cidr", inside));
}

#[test]
fn protocol_names_in_any_case() {
    assert!(Matcher::matches_protocol("TCP", Protocol::Tcp));
    assert!(Matcher::matches_protocol("udp", Protocol::Udp));
    assert!(!Matcher::matches_protocol("icmp", Protocol::Tcp));
    assert!(!Matcher::matches_protocol("gre", Protocol::Other(47)));
}
