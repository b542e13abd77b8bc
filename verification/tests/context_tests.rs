use easynet::context::PacketContext;
use easynet::ip::{parse_ipv4, Ipv4Addr};
use easynet::rule::Protocol;

fn ipv4_header(protocol: u8, payload_len: usize) -> Vec<u8> {
    let total = (20 + payload_len) as u16;
    let mut p = vec![0x45u8, 0];
    p.extend_from_slice(&total.to_be_bytes());
    p.extend_from_slice(&[0, 0, 0, 0, 64, protocol, 0, 0]);
    p.extend_from_slice(&[192, 168, 1, 10]);
    p.extend_from_slice(&[8, 8, 4, 4]);
    p
}

#[test]
fn reads_udp_packets() {
    let mut p = ipv4_header(17, 8);
    p.extend_from_slice(&5353u16.to_be_bytes());
    p.extend_from_slice(&53u16.to_be_bytes());
    p.extend_from_slice(&8u16.to_be_bytes());
    p.extend_from_slice(&0u16.to_be_bytes());
    let c = PacketContext::from_ip_packet(&p).unwrap();
    assert_eq!(c.src_ip, Ipv4Addr::new(192, 168, 1, 10));
    assert_eq!(c.dst_ip, Ipv4Addr::new(8, 8, 4, 4));
    assert_eq!(c.src_port, Some(5353));
    assert_eq!(c.dst_port, Some(53));
    assert_eq!(c.protocol, Protocol::Udp);
    assert!(c.domains.is_empty());
    assert_eq!(c.to_display_string(), "192.168.1.10:5353 -> 8.8.4.4:53 (udp)");
}

#[test]
fn reads_icmp_packets_without_ports() {
    let mut p = ipv4_header(1, 8);
    p.extend_from_slice(&[8, 0, 0, 0, 0, 1, 0, 1]);
    let c = PacketContext::from_ip_packet(&p).unwrap();
    assert_eq!(c.protocol, Protocol::Icmp);
    assert_eq!(c.src_port, None);
    assert_eq!(c.to_display_string(), "192.168.1.10:- -> 8.8.4.4:- (icmp)");
}

#[test]
fn refuses_garbage() {
    assert!(PacketContext::from_ip_packet(&[1, 2, 3]).is_none());
}

#[test]
fn dotted_addresses_follow_the_standard_grammar() {
    assert_eq!(parse_ipv4("10.0.1.5"), Some(Ipv4Addr::new(10, 0, 1, 5)));
    assert_eq!(parse_ipv4("255.255.255.255"), Some(Ipv4Addr::new(255, 255, 255, 255)));
    assert_eq!(parse_ipv4("256.0.0.1"), None);
    assert_eq!(parse_ipv4("01.2.3.4"), None);
    assert_eq!(parse_ipv4("1.2.3"), None);
    assert_eq!(parse_ipv4(" 1.2.3.4"), None);
    assert_eq!(Ipv4Addr::new(172, 16, 0, 1).to_dotted_string(), "172.16.0.1");
}
