use easynet::decision::RuleDecision;
use easynet::rule::{Protocol, Rule, RuleAction};

#[test]
fn parses_every_field() {
    let r = Rule::parse_compact("DST-IP-CIDR,10.0.0.0/8,proxy").unwrap();
    assert_eq!(r.dst_ip_cidr, Some("10.0.0.0/8".to_string()));
    assert_eq!(r.action, RuleAction::Proxy);
    let r = Rule::parse_compact(" src-port , 8000-9000 , DROP ").unwrap();
    assert_eq!(r.src_port, Some("8000-9000".to_string()));
    assert_eq!(r.action, RuleAction::Reject);
    let r = Rule::parse_compact("MATCH,direct").unwrap();
    assert!(r.match_all);
    assert!(r.has_conditions());
    let r = Rule::parse_compact("DOMAIN-SUFFIX, Google.COM. ,proxy").unwrap();
    assert_eq!(r.domain_suffix, Some("google.com".to_string()));
    let r = Rule::parse_compact("GEOIP,cn,direct").unwrap();
    assert_eq!(r.geoip, Some("CN".to_string()));
}

#[test]
fn errors_name_the_problem() {
    assert_eq!(Rule::parse_compact("").unwrap_err(), "rule is empty");
    assert_eq!(
        Rule::parse_compact("MATCH,direct,extra").unwrap_err(),
        "MATCH rule format must be MATCH,action"
    );
    assert_eq!(
        Rule::parse_compact("DST-PORT,,proxy").unwrap_err(),
        "DST-PORT rule value cannot be empty"
    );
    assert_eq!(
        Rule::parse_compact("PROTO,tcp,teleport").unwrap_err(),
        "unknown rule action 'teleport'"
    );
    assert_eq!(
        Rule::parse_compact("Host,x,proxy").unwrap_err(),
        "unknown rule field 'Host'"
    );
    assert_eq!(
        Rule::parse_compact("DOMAIN,...,proxy").unwrap_err(),
        "domain rule value cannot be empty"
    );
    assert_eq!(
        Rule::parse_compact("DOMAIN,a b,proxy").unwrap_err(),
        "invalid domain rule value 'a b'"
    );
    assert_eq!(
        Rule::parse_compact("GEOIP,c/n,proxy").unwrap_err(),
        "invalid GEOIP rule value 'C/N'"
    );
}

#[test]
fn compact_text_round_trips() {
    for (text, shown) in [
        ("MATCH,direct", "MATCH,Direct"),
        ("SRC-IP-CIDR,192.168.1.0/24,direct", "SRC-IP-CIDR,192.168.1.0/24,Direct"),
        ("dst-port,443,PROXY", "DST-PORT,443,Proxy"),
        ("PROTO,icmp,drop", "PROTO,icmp,Reject"),
        ("DOMAIN,Example.com.,direct", "DOMAIN,example.com,Direct"),
        ("DOMAIN-KEYWORD,youtube,proxy", "DOMAIN-KEYWORD,youtube,Proxy"),
        ("GEOIP,cn,direct", "GEOIP,CN,Direct"),
    ] {
        let rule = Rule::parse_compact(text).unwrap();
        assert_eq!(rule.to_compact_string(), shown);
        let again = Rule::parse_compact(&rule.to_compact_string()).unwrap();
        assert_eq!(again.to_compact_string(), shown);
        assert_eq!(again.action, rule.action);
    }
}

#[test]
fn a_new_rule_has_no_conditions() {
    let rule = Rule::new(RuleAction::Proxy);
    assert!(!rule.has_conditions());
    assert_eq!(rule.to_compact_string(), "MATCH,Proxy");
}

#[test]
fn protocols_by_number_and_name() {
    assert_eq!(Protocol::from(6u8), Protocol::Tcp);
    assert_eq!(Protocol::from(17u8), Protocol::Udp);
    assert_eq!(Protocol::from(1u8), Protocol::Icmp);
    assert_eq!(Protocol::from(47u8), Protocol::Other(47));
    assert_eq!(Protocol::from_str("ICMP"), Some(Protocol::Icmp));
    assert_eq!(Protocol::from_str("gre"), None);
    assert_eq!(Protocol::Other(47).to_display_string(), "other(47)");
    assert_eq!(Protocol::default(), Protocol::Other(0));
}

#[test]
fn actions_and_decisions() {
    assert_eq!(RuleAction::default(), RuleAction::Direct);
    assert_eq!(RuleAction::Reject.to_display_string(), "Reject");
    let d = RuleDecision::from_rule(3, "DST-PORT,22,reject".to_string(), RuleAction::Reject);
    assert!(d.is_reject());
    assert_eq!(d.rule_id(), Some(3));
    assert_eq!(d.to_display_string(), "rule 'DST-PORT,22,reject' (id=3) -> Reject");
    let d = RuleDecision::default_action(RuleAction::Proxy);
    assert!(!d.is_reject());
    assert_eq!(d.rule_id(), None);
    assert_eq!(d.to_display_string(), "default -> Proxy");
}
