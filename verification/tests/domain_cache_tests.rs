use easynet::domain_cache::{normalize_domain, udp_dns_payload, DomainCache};
use easynet::packet::{NetSummary, PacketSummary, TransportSummary};
use easynet::ip::Ipv4Addr;
use hickory_proto::op::{Message, MessageType, OpCode};
use hickory_proto::rr::rdata::A;
use hickory_proto::rr::{Name, RData, Record};
use std::str::FromStr;
use std::time::{Duration, Instant};

fn dns_response_packet(domain: &str, addr: [u8; 4], ttl: u32) -> Vec<u8> {
    let name = Name::from_str(domain).unwrap();
    let mut message = Message::new(1, MessageType::Response, OpCode::Query);
    message.add_answer(Record::from_rdata(
        name,
        ttl,
        RData::A(A::new(addr[0], addr[1], addr[2], addr[3])),
    ));
    udp_packet(message.to_vec().unwrap(), 53)
}

fn udp_packet(payload: Vec<u8>, source_port: u16) -> Vec<u8> {
    let udp_len = 8 + payload.len();
    let total_len = 20 + udp_len;
    let mut packet = Vec::with_capacity(total_len);

    packet.push(0x45);
    packet.push(0);
    packet.extend_from_slice(&(total_len as u16).to_be_bytes());
    packet.extend_from_slice(&0u16.to_be_bytes());
    packet.extend_from_slice(&0u16.to_be_bytes());
    packet.push(64);
    packet.push(17);
    packet.extend_from_slice(&0u16.to_be_bytes());
    packet.extend_from_slice(&[8, 8, 8, 8]);
    packet.extend_from_slice(&[10, 0, 0, 2]);

    packet.extend_from_slice(&source_port.to_be_bytes());
    packet.extend_from_slice(&53000u16.to_be_bytes());
    packet.extend_from_slice(&(udp_len as u16).to_be_bytes());
    packet.extend_from_slice(&0u16.to_be_bytes());
    packet.extend_from_slice(&payload);
    packet
}

#[test]
fn caches_a_records_from_dns_response() {
    let packet = dns_response_packet("Example.COM.", [1, 2, 3, 4], 60);
    let mut cache = DomainCache::new();

    cache.observe_packet(&packet);

    assert_eq!(cache.lookup(Ipv4Addr::new(1, 2, 3, 4)), vec!["example.com"]);
}

#[test]
fn drops_expired_entries() {
    let mut cache = DomainCache::new();
    cache.insert(
        Ipv4Addr::new(1, 2, 3, 4),
        "example.com",
        Duration::from_millis(1).as_nanos(),
    );

    let start = Instant::now();
    while start.elapsed() < Duration::from_millis(5) {}

    assert!(cache.lookup(Ipv4Addr::new(1, 2, 3, 4)).is_empty());
}

#[test]
fn responses_from_other_ports_teach_nothing() {
    let name = Name::from_str("example.com.").unwrap();
    let mut message = Message::new(1, MessageType::Response, OpCode::Query);
    message.add_answer(Record::from_rdata(name, 60, RData::A(A::new(1, 2, 3, 4))));
    let packet = udp_packet(message.to_vec().unwrap(), 5353);
    let mut cache = DomainCache::new();
    cache.observe_packet(&packet);
    assert!(cache.lookup(Ipv4Addr::new(1, 2, 3, 4)).is_empty());
}

#[test]
fn queries_teach_nothing() {
    let name = Name::from_str("example.com.").unwrap();
    let mut message = Message::new(1, MessageType::Query, OpCode::Query);
    message.add_answer(Record::from_rdata(name, 60, RData::A(A::new(1, 2, 3, 4))));
    let packet = udp_packet(message.to_vec().unwrap(), 53);
    let mut cache = DomainCache::new();
    cache.observe_packet(&packet);
    assert!(cache.lookup(Ipv4Addr::new(1, 2, 3, 4)).is_empty());
}

#[test]
fn timed_entries_expire_exactly_at_their_deadline() {
    let ip = Ipv4Addr::new(9, 9, 9, 9);
    let mut cache = DomainCache::new();
    cache.insert_at(ip, " Example.org.. ", 100, 1_000);
    cache.insert_at(ip, "other.org", 50, 1_000);
    assert_eq!(cache.lookup_at(ip, 1_049), vec!["example.org", "other.org"]);
    assert_eq!(cache.lookup_at(ip, 1_050), vec!["example.org"]);
    assert_eq!(cache.lookup_at(ip, 1_099), vec!["example.org"]);
    assert!(cache.lookup_at(ip, 1_100).is_empty());
}

#[test]
fn relearning_a_name_renews_it() {
    let ip = Ipv4Addr::new(9, 9, 9, 9);
    let mut cache = DomainCache::new();
    cache.insert_at(ip, "example.org", 10, 0);
    cache.insert_at(ip, "EXAMPLE.org", 100, 5);
    assert_eq!(cache.lookup_at(ip, 50), vec!["example.org"]);
}

#[test]
fn zero_ttl_and_blank_names_are_ignored() {
    let ip = Ipv4Addr::new(9, 9, 9, 9);
    let mut cache = DomainCache::new();
    cache.insert_at(ip, "example.org", 0, 0);
    cache.insert_at(ip, " . ", 10, 0);
    assert!(cache.lookup_at(ip, 1).is_empty());
}

#[test]
fn domains_are_normalized() {
    assert_eq!(normalize_domain("  WWW.Example.COM.. "), Some("www.example.com".to_string()));
    assert_eq!(normalize_domain(" ... "), None);
}

#[test]
fn dns_payload_only_from_port_53() {
    let from_dns = PacketSummary {
        net: NetSummary::Other,
        transport: TransportSummary::Udp(53, 40000, vec![7, 8]),
    };
    assert_eq!(udp_dns_payload(from_dns), Some(vec![7, 8]));
    let elsewhere = PacketSummary {
        net: NetSummary::Other,
        transport: TransportSummary::Udp(5353, 40000, vec![7, 8]),
    };
    assert_eq!(udp_dns_payload(elsewhere), None);
    let tcp = PacketSummary { net: NetSummary::Other, transport: TransportSummary::Tcp(53, 1) };
    assert_eq!(udp_dns_payload(tcp), None);
}

#[test]
fn names_are_normalized_kept_once_and_in_order() {
    let ip = Ipv4Addr::new(1, 2, 3, 4);
    let other = Ipv4Addr::new(5, 6, 7, 8);
    let ttl = Duration::from_secs(60).as_nanos();
    let mut c = DomainCache::new();
    c.insert(ip, "Example.COM.", ttl);
    c.insert(ip, " example.com ", ttl);
    c.insert(ip, "a.org", ttl);
    assert_eq!(c.lookup(ip), vec!["example.com", "a.org"]);
    assert!(c.lookup(other).is_empty());
    assert_eq!(c.lookup(ip), vec!["example.com", "a.org"]);
}
