use easynet::client::{packet_verdict, PacketVerdict};
use easynet::rule::RuleAction;
use easynet::config::server_uses_tls;
use easynet::config::dns_server_list;
use easynet::client::{handshake_response, on_server_message, ClientAction};
use easynet::handshake::Handshake;
use easynet::message::{nonempty_string, TunnelMessage};
use easynet::client::{
    is_reconnect, keepalive_latency_ms, next_retry_delay, FIRST_RETRY_DELAY_SECS,
    KEEPALIVE_INTERVAL_MS, MAX_RETRY_DELAY_SECS,
};
use easynet::config::{
    parse_ws_url, split_dns_servers, ClientState, RunMode, RuntimeConfig, TransportKind,
};
use easynet::proxy::{netmask_prefix_len, IpAddress, UpstreamServer};
use easynet::ip::Ipv4Addr;
use easynet::session::PeerAddr;

#[test]
fn runtime_defaults() {
    let c = RuntimeConfig::default();
    assert_eq!(c.mode, "client");
    assert_eq!(c.log_level, "info");
    assert_eq!(ClientState::default().session_id, "");
}

#[test]
fn run_modes() {
    assert_eq!(RunMode::parse("Server"), Ok(RunMode::Server));
    assert_eq!(RunMode::parse("client"), Ok(RunMode::Client));
    assert_eq!(
        RunMode::parse("Relay"),
        Err("Invalid runtime.mode 'relay', expected 'client' or 'server'".to_string())
    );
}

#[test]
fn transports() {
    assert_eq!(TransportKind::parse("TCP"), Ok(TransportKind::Tcp));
    assert_eq!(TransportKind::parse("udp"), Ok(TransportKind::Udp));
    assert_eq!(TransportKind::parse("Ws"), Ok(TransportKind::Ws));
    assert_eq!(TransportKind::parse("wss"), Ok(TransportKind::Wss));
    assert_eq!(
        TransportKind::parse("Quic"),
        Err("Unknown transport type: Quic".to_string())
    );
    assert_eq!(
        TransportKind::Ws.websocket_url("1.2.3.4:12345"),
        Some("ws://1.2.3.4:12345".to_string())
    );
    assert_eq!(
        TransportKind::Wss.websocket_url("1.2.3.4:12345"),
        Some("wss://1.2.3.4:12345".to_string())
    );
    assert_eq!(TransportKind::Tcp.websocket_url("1.2.3.4:12345"), None);
}

#[test]
fn dns_server_lists() {
    assert_eq!(
        split_dns_servers("114.114.114.114, 8.8.8.8"),
        vec!["114.114.114.114", "8.8.8.8"]
    );
    assert_eq!(split_dns_servers(" , 1.1.1.1,,"), vec!["1.1.1.1"]);
    assert!(split_dns_servers("").is_empty());
}

#[test]
fn websocket_urls() {
    assert_eq!(
        parse_ws_url("wss://example.com:8443/path"),
        Ok(("example.com".to_string(), 8443, true))
    );
    assert_eq!(
        parse_ws_url("ws://10.0.0.1:12345"),
        Ok(("10.0.0.1".to_string(), 12345, false))
    );
    assert_eq!(
        parse_ws_url("wss://example.com"),
        Ok(("example.com".to_string(), 443, true))
    );
    assert_eq!(
        parse_ws_url("ws://example.com"),
        Ok(("example.com".to_string(), 80, false))
    );
    assert_eq!(
        parse_ws_url("unix:/run/socket"),
        Err("Missing host in URL".to_string())
    );
    assert_eq!(
        parse_ws_url("foo://example.com"),
        Err("Missing port in URL".to_string())
    );
    assert_eq!(
        parse_ws_url("no url here"),
        Err("Failed to parse URL: relative URL without a base".to_string())
    );
}

#[test]
fn retry_delays_double_up_to_five_minutes() {
    let mut d = FIRST_RETRY_DELAY_SECS;
    let mut seen = Vec::new();
    for _ in 0..11 {
        seen.push(d);
        d = next_retry_delay(d);
    }
    assert_eq!(seen, vec![1, 2, 4, 8, 16, 32, 64, 128, 256, 300, 300]);
    assert_eq!(next_retry_delay(MAX_RETRY_DELAY_SECS), 300);
}

#[test]
fn keepalive_timing() {
    assert_eq!(KEEPALIVE_INTERVAL_MS, 3000);
    assert_eq!(keepalive_latency_ms(1_000_250, 1_000_000), 250);
    assert!(is_reconnect("abc"));
    assert!(!is_reconnect(""));
}

#[test]
fn upstream_server_redirects_direct_traffic() {
    let target = PeerAddr { ip: 0x0808_0808, is_v6: false, port: 443, flowinfo: 0, scope_id: 0 };
    let none = UpstreamServer::new(None);
    assert_eq!(none.translate_socket(target), target);
    assert_eq!(none.translate_ipv4(Ipv4Addr::new(8, 8, 8, 8)), Ok(Ipv4Addr::new(8, 8, 8, 8)));

    let v4 = UpstreamServer::new(Some(IpAddress::V4(Ipv4Addr::new(1, 2, 3, 4))));
    let moved = v4.translate_socket(target);
    assert_eq!(moved.ip, 0x0102_0304);
    assert_eq!(moved.port, 443);
    assert_eq!(v4.translate_ipv4(Ipv4Addr::new(8, 8, 8, 8)), Ok(Ipv4Addr::new(1, 2, 3, 4)));

    let v6 = UpstreamServer::new(Some(IpAddress::V6(1)));
    assert!(v6.translate_socket(target).is_v6);
    assert_eq!(v6.translate_ipv4(Ipv4Addr::new(8, 8, 8, 8)), Err(IpAddress::V6(1)));
}

#[test]
fn netmask_prefix_lengths() {
    assert_eq!(netmask_prefix_len(IpAddress::V4(Ipv4Addr::new(255, 255, 255, 0))), 24);
    assert_eq!(netmask_prefix_len(IpAddress::V4(Ipv4Addr::new(0, 0, 0, 0))), 0);
    assert_eq!(netmask_prefix_len(IpAddress::V4(Ipv4Addr::new(255, 255, 255, 255))), 32);
    assert_eq!(netmask_prefix_len(IpAddress::V6(u128::MAX)), 128);
    assert_eq!(netmask_prefix_len(IpAddress::V6(u128::MAX << 64)), 64);
}

#[test]
fn dns_server_lists_from_yaml_sequences() {
    let values = vec![" 1.1.1.1 ".to_string(), "".to_string(), "   ".to_string(), "8.8.8.8".to_string()];
    assert_eq!(dns_server_list(&values), vec!["1.1.1.1", "8.8.8.8"]);
}

#[test]
fn client_reads_server_messages() {
    match on_server_message(TunnelMessage::Data(vec![9])) {
        ClientAction::ToTun(d) => assert_eq!(d, vec![9]),
        other => panic!("unexpected {:?}", other),
    }
    match on_server_message(TunnelMessage::Keepalive(5)) {
        ClientAction::KeepaliveEcho(t) => assert_eq!(t, 5),
        other => panic!("unexpected {:?}", other),
    }
    match on_server_message(TunnelMessage::Disconnect("maintenance".to_string())) {
        ClientAction::Stop(m) => assert_eq!(m, "Server disconnected: maintenance"),
        other => panic!("unexpected {:?}", other),
    }
    match on_server_message(TunnelMessage::Empty) {
        ClientAction::Ignore => {}
        other => panic!("unexpected {:?}", other),
    }
    assert_eq!(
        handshake_response(TunnelMessage::Data(vec![]), "t", "").unwrap_err(),
        "Invalid handshake response: unexpected message type"
    );
    assert_eq!(
        handshake_response(TunnelMessage::Handshake(Handshake::rejection()), "t", "").unwrap_err(),
        "Invalid token in handshake response"
    );
    assert_eq!(nonempty_string(String::new()), None);
    assert_eq!(nonempty_string("x".to_string()), Some("x".to_string()));
}

#[test]
fn tls_for_wss_in_any_case() {
    assert!(server_uses_tls("wss"));
    assert!(server_uses_tls("WSS"));
    assert!(!server_uses_tls("ws"));
    assert!(!server_uses_tls("tcp"));
}

#[test]
fn only_rejected_packets_are_dropped() {
    assert_eq!(packet_verdict(Some(RuleAction::Reject)), PacketVerdict::Drop);
    assert_eq!(packet_verdict(Some(RuleAction::Proxy)), PacketVerdict::Tunnel);
    assert_eq!(packet_verdict(Some(RuleAction::Direct)), PacketVerdict::Tunnel);
    assert_eq!(packet_verdict(None), PacketVerdict::Tunnel);
}
