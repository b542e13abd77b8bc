use easynet::context::PacketContext;
use easynet::domain_cache::DomainCache;
use easynet::engine::{ConfigError, RulesConfig, RulesEngine};
use easynet::geoip::GeoIpMatcher;
use easynet::ip::{parse_ipv4, Ipv4Addr};
use easynet::rule::{Protocol, RuleAction};

fn ip(text: &str) -> Ipv4Addr {
    parse_ipv4(text).unwrap()
}

fn create_test_engine() -> RulesEngine {
    RulesEngine::from_config(
        RulesConfig::from_yaml(
            r#"
  - DST-PORT,22,reject
  - DST-IP-CIDR,10.0.0.0/8,proxy
  - DST-PORT,443,proxy
  - MATCH,direct
"#,
        )
        .unwrap(),
        None,
    )
    .unwrap()
}

#[test]
fn test_matches_first_matching_rule() {
    let engine = create_test_engine();
    let packet = PacketContext::new(
        ip("192.168.1.1"),
        ip("10.0.1.5"),
        Some(12345),
        Some(22),
        Protocol::Tcp,
    );

    let action = engine.match_packet(&packet);
    assert_eq!(action, RuleAction::Reject);
}

#[test]
fn test_uses_match_rule_as_catch_all() {
    let engine = create_test_engine();
    let packet = PacketContext::new(
        ip("192.168.1.1"),
        ip("8.8.8.8"),
        Some(12345),
        Some(80),
        Protocol::Tcp,
    );

    let action = engine.match_packet(&packet);
    assert_eq!(action, RuleAction::Direct);
}

#[test]
fn test_matches_port_rule() {
    let engine = create_test_engine();
    let packet = PacketContext::new(
        ip("192.168.1.1"),
        ip("8.8.8.8"),
        Some(12345),
        Some(443),
        Protocol::Tcp,
    );

    let action = engine.match_packet(&packet);
    assert_eq!(action, RuleAction::Proxy);
}

#[test]
fn test_matches_domain_rule() {
    let engine = RulesEngine::from_config(
        RulesConfig::from_yaml(
            r#"
  - DOMAIN-SUFFIX,example.com,proxy
  - MATCH,direct
"#,
        )
        .unwrap(),
        None,
    )
    .unwrap();
    let packet = PacketContext::new(
        ip("192.168.1.1"),
        ip("93.184.216.34"),
        Some(12345),
        Some(443),
        Protocol::Tcp,
    )
    .with_domains(vec!["www.example.com".to_string()]);

    let action = engine.match_packet(&packet);
    assert_eq!(action, RuleAction::Proxy);
}

#[test]
fn test_matches_geoip_private_rule() {
    let engine = RulesEngine::from_config(
        RulesConfig::from_yaml(
            r#"
  - GEOIP,PRIVATE,direct
  - MATCH,proxy
"#,
        )
        .unwrap(),
        None,
    )
    .unwrap()
    .with_geoip(GeoIpMatcher::without_database());
    let packet = PacketContext::new(
        ip("192.168.1.1"),
        ip("10.0.0.8"),
        Some(12345),
        Some(443),
        Protocol::Tcp,
    );

    let action = engine.match_packet(&packet);
    assert_eq!(action, RuleAction::Direct);
}

#[test]
fn test_geoip_country_without_database_falls_through() {
    let engine = RulesEngine::from_config(
        RulesConfig::from_yaml(
            r#"
  - GEOIP,CN,direct
  - MATCH,proxy
"#,
        )
        .unwrap(),
        None,
    )
    .unwrap()
    .with_geoip(GeoIpMatcher::without_database());
    let packet = PacketContext::new(
        ip("192.168.1.1"),
        ip("8.8.8.8"),
        Some(12345),
        Some(443),
        Protocol::Tcp,
    );

    let action = engine.match_packet(&packet);
    assert_eq!(action, RuleAction::Proxy);
}

#[test]
fn no_matching_rule_goes_direct() {
    let engine = RulesEngine::from_config(
        RulesConfig::from_yaml("- DST-PORT,22,reject\n").unwrap(),
        None,
    )
    .unwrap();
    let packet = PacketContext::new(
        ip("192.168.1.1"),
        ip("8.8.8.8"),
        Some(12345),
        Some(80),
        Protocol::Udp,
    );
    assert_eq!(engine.match_packet(&packet), RuleAction::Direct);
    assert_eq!(engine.rule_count(), 1);
}

#[test]
fn catch_all_first_hides_later_rules() {
    let engine = RulesEngine::from_config(
        RulesConfig::from_yaml("- MATCH,reject\n- DST-PORT,80,proxy\n").unwrap(),
        None,
    )
    .unwrap();
    let packet = PacketContext::new(
        ip("1.2.3.4"),
        ip("5.6.7.8"),
        Some(1),
        Some(80),
        Protocol::Tcp,
    );
    assert_eq!(engine.match_packet(&packet), RuleAction::Reject);
}

#[test]
fn yaml_that_is_not_a_list_is_refused() {
    match RulesConfig::from_yaml("rules: 3") {
        Err(ConfigError::Yaml(_)) => {}
        other => panic!("unexpected: {:?}", other),
    }
}

#[test]
fn malformed_rule_is_refused() {
    match RulesConfig::from_yaml("- DST-PORT,22\n") {
        Err(ConfigError::Rule(message)) => {
            assert_eq!(message, "DST-PORT rule format must be DST-PORT,value,action");
        }
        other => panic!("unexpected: {:?}", other),
    }
}

#[test]
fn empty_rule_list_gives_an_empty_engine() {
    let engine = RulesEngine::from_config(RulesConfig::from_yaml("[]").unwrap(), None).unwrap();
    assert_eq!(engine.rule_count(), 0);
}

fn udp_packet_to(dst: [u8; 4], dst_port: u16) -> Vec<u8> {
    let mut p = vec![0x45u8, 0, 0, 28, 0, 0, 0, 0, 64, 17, 0, 0, 10, 0, 0, 2];
    p.extend_from_slice(&dst);
    p.extend_from_slice(&40000u16.to_be_bytes());
    p.extend_from_slice(&dst_port.to_be_bytes());
    p.extend_from_slice(&8u16.to_be_bytes());
    p.extend_from_slice(&0u16.to_be_bytes());
    p
}

#[test]
fn packets_are_routed_by_the_names_their_destination_has() {
    let engine = RulesEngine::from_config(
        RulesConfig::from_yaml("- DOMAIN-SUFFIX,example.com,reject\n- MATCH,proxy\n").unwrap(),
        None,
    )
    .unwrap();
    let mut cache = DomainCache::new();
    cache.insert_at(Ipv4Addr::new(93, 184, 216, 34), "www.example.com", 1_000, 0);
    let blocked = udp_packet_to([93, 184, 216, 34], 443);
    assert_eq!(engine.route_packet_at(&mut cache, &blocked, 10), Some(RuleAction::Reject));
    assert_eq!(engine.route_packet_at(&mut cache, &blocked, 1_000), Some(RuleAction::Proxy));
    let other = udp_packet_to([1, 1, 1, 1], 53);
    assert_eq!(engine.route_packet_at(&mut cache, &other, 10), Some(RuleAction::Proxy));
    assert_eq!(engine.route_packet_at(&mut cache, &[0u8, 1, 2], 10), None);
}

#[test]
fn a_rule_without_conditions_is_named_by_its_number() {
    let mut config = RulesConfig::from_yaml("- DST-PORT,22,reject\n- MATCH,proxy\n").unwrap();
    config.rules.push(easynet::rule::Rule::new(RuleAction::Direct));
    match config.validate() {
        Err(ConfigError::Invalid(message)) => assert_eq!(message, "rule #3 has no conditions"),
        other => panic!("unexpected: {:?}", other),
    }
    match RulesEngine::from_config(config, None) {
        Err(ConfigError::Invalid(message)) => assert_eq!(message, "rule #3 has no conditions"),
        other => panic!("unexpected: {:?}", other),
    }
}
