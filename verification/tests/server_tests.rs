use easynet::message::TunnelMessage;
use easynet::server::ServerAction;
use easynet::handshake::{validate_token, Handshake, ReplyError};
use easynet::ip::Ipv4Addr;
use easynet::server::{
    build_session_id, build_tun_config, client_virtual_ip, get_destination_ip, HandshakeOutcome,
    ServerState,
};
use easynet::session::{PeerAddr, TunConfig};

fn peer(last: u8, port: u16) -> PeerAddr {
    PeerAddr {
        ip: u128::from(u32::from_be_bytes([192, 168, 1, last])),
        is_v6: false,
        port,
        flowinfo: 0,
        scope_id: 0,
    }
}

fn tun() -> TunConfig {
    build_tun_config(
        "tun0",
        "10.0.0.1",
        "255.255.255.0",
        "10.0.0.0",
        &vec!["114.114.114.114".to_string(), "8.8.8.8".to_string()],
        1400,
    )
}

fn ipv4_packet_to(dest: [u8; 4]) -> Vec<u8> {
    let mut p = vec![0x45u8, 0, 0, 20, 0, 0, 0, 0, 64, 17, 0, 0, 10, 0, 0, 1];
    p.extend_from_slice(&dest);
    p
}

#[test]
fn tokens_are_checked_only_when_the_server_has_one() {
    assert!(validate_token("anything", ""));
    assert!(validate_token("", ""));
    assert!(validate_token("admin", "admin"));
    assert!(!validate_token("guest", "admin"));
    assert!(!validate_token("", "admin"));
}

#[test]
fn destination_of_ipv4_packets_only() {
    assert_eq!(
        get_destination_ip(&ipv4_packet_to([10, 0, 0, 7])),
        Some(Ipv4Addr::new(10, 0, 0, 7))
    );
    assert_eq!(get_destination_ip(&[0x45u8; 19]), None);
    let mut v6 = ipv4_packet_to([10, 0, 0, 7]);
    v6[0] = 0x60;
    assert_eq!(get_destination_ip(&v6), None);
}

#[test]
fn client_addresses_use_the_low_byte() {
    assert_eq!(client_virtual_ip(2), Ipv4Addr::new(10, 0, 0, 2));
    assert_eq!(client_virtual_ip(258), Ipv4Addr::new(10, 0, 0, 2));
}

#[test]
fn session_ids_are_21_url_safe_symbols() {
    let id = build_session_id();
    assert_eq!(id.chars().count(), 21);
    assert!(id
        .chars()
        .all(|c| c.is_ascii_alphanumeric() || c == '_' || c == '-'));
    assert_ne!(build_session_id(), id);
}

#[test]
fn new_clients_get_consecutive_addresses() {
    let mut server: ServerState<u32> = ServerState::new();
    let first = match server.handshake("", None, None, &tun()) {
        HandshakeOutcome::Accepted(a) => a,
        HandshakeOutcome::Rejected => panic!("refused"),
    };
    assert!(!first.resumed);
    assert_eq!(first.virtual_ip, Ipv4Addr::new(10, 0, 0, 2));
    assert_eq!(first.tun_config.mtu, 1400);
    let second = match server.handshake("", None, None, &tun()) {
        HandshakeOutcome::Accepted(a) => a,
        HandshakeOutcome::Rejected => panic!("refused"),
    };
    assert_eq!(second.virtual_ip, Ipv4Addr::new(10, 0, 0, 3));
    assert_ne!(first.session_id, second.session_id);
}

#[test]
fn wrong_token_is_rejected_with_an_empty_reply() {
    let mut server: ServerState<u32> = ServerState::new();
    match server.handshake("admin", None, Some("guest".to_string()), &tun()) {
        HandshakeOutcome::Rejected => {}
        HandshakeOutcome::Accepted(_) => panic!("accepted a wrong token"),
    }
    let reply = Handshake::rejection();
    assert!(reply.token.is_empty());
    assert!(reply.session_id.is_empty());
    assert!(reply.tun_config.is_none());
    // a refused client is not counted
    match server.handshake("admin", None, Some("admin".to_string()), &tun()) {
        HandshakeOutcome::Accepted(a) => assert_eq!(a.virtual_ip, Ipv4Addr::new(10, 0, 0, 2)),
        HandshakeOutcome::Rejected => panic!("refused the right token"),
    }
}

#[test]
fn reconnecting_client_keeps_its_address() {
    let mut server: ServerState<u32> = ServerState::new();
    let first = match server.handshake("", None, None, &tun()) {
        HandshakeOutcome::Accepted(a) => a,
        HandshakeOutcome::Rejected => panic!("refused"),
    };
    let id = first.session_id.clone();
    server.store_session(first, peer(5, 4000), 1, 1_000);
    // another client comes in between
    if let HandshakeOutcome::Accepted(a) = server.handshake("", None, None, &tun()) {
        server.store_session(a, peer(6, 4001), 2, 1_000);
    }
    let again = match server.handshake("", Some(id.clone()), None, &tun()) {
        HandshakeOutcome::Accepted(a) => a,
        HandshakeOutcome::Rejected => panic!("refused"),
    };
    assert!(again.resumed);
    assert_eq!(again.session_id, id);
    assert_eq!(again.virtual_ip, Ipv4Addr::new(10, 0, 0, 2));
    server.store_session(again, peer(5, 4999), 3, 2_000);
    let session = server.sessions().find_by_id(&id).unwrap();
    assert_eq!(session.virtual_ip, Ipv4Addr::new(10, 0, 0, 2));
    assert_eq!(session.addr.port, 4999);
    assert_eq!(session.link, 3);
    assert_eq!(server.sessions().len(), 2);
}

#[test]
fn unknown_session_id_gets_a_new_session() {
    let mut server: ServerState<u32> = ServerState::new();
    match server.handshake("", Some("no-such-session".to_string()), None, &tun()) {
        HandshakeOutcome::Accepted(a) => {
            assert!(!a.resumed);
            assert_ne!(a.session_id, "no-such-session");
        }
        HandshakeOutcome::Rejected => panic!("refused"),
    }
}

#[test]
fn packets_are_routed_by_tunnel_address() {
    let mut server: ServerState<u32> = ServerState::new();
    for link in [10u32, 20u32] {
        if let HandshakeOutcome::Accepted(a) = server.handshake("", None, None, &tun()) {
            server.store_session(a, peer(link as u8, 4000), link, 0);
        }
    }
    assert_eq!(server.route(&ipv4_packet_to([10, 0, 0, 3])).unwrap().link, 20);
    assert_eq!(server.route(&ipv4_packet_to([10, 0, 0, 2])).unwrap().link, 10);
    assert!(server.route(&ipv4_packet_to([10, 0, 0, 9])).is_none());
    assert!(server.route(&[1, 2, 3]).is_none());
}

#[test]
fn disconnect_forgets_the_session() {
    let mut server: ServerState<u32> = ServerState::new();
    let a = match server.handshake("", None, None, &tun()) {
        HandshakeOutcome::Accepted(a) => a,
        HandshakeOutcome::Rejected => panic!("refused"),
    };
    let id = a.session_id.clone();
    server.store_session(a, peer(7, 7000), 1, 0);
    assert!(server.disconnect(peer(8, 7000)).is_none());
    let gone = server.disconnect(peer(7, 7000)).unwrap();
    assert_eq!(gone.session_id, id);
    assert!(server.sessions().find_by_id(&id).is_none());
    assert_eq!(server.sessions().len(), 0);
}

#[test]
fn sessions_expire_after_an_hour() {
    let hour: u128 = 3_600_000_000_000;
    let mut server: ServerState<u32> = ServerState::new();
    for (link, seen) in [(1u32, 0u128), (2u32, hour / 2)] {
        if let HandshakeOutcome::Accepted(a) = server.handshake("", None, None, &tun()) {
            server.store_session(a, peer(link as u8, 1), link, seen);
        }
    }
    assert_eq!(server.cleanup(hour - 1), 0);
    assert_eq!(server.cleanup(hour), 1);
    assert_eq!(server.sessions().len(), 1);
    assert!(server.route(&ipv4_packet_to([10, 0, 0, 3])).is_some());
    assert!(server.route(&ipv4_packet_to([10, 0, 0, 2])).is_none());
}

#[test]
fn sessions_seen_after_now_are_dropped() {
    let mut server: ServerState<u32> = ServerState::new();
    if let HandshakeOutcome::Accepted(a) = server.handshake("", None, None, &tun()) {
        server.store_session(a, peer(1, 1), 1, 500);
    }
    assert_eq!(server.cleanup(499), 1);
    assert_eq!(server.sessions().len(), 0);
}

#[test]
fn replies_pass_the_client_check_only_with_matching_tokens() {
    let settings = tun();
    let accepted = Handshake::acceptance("admin", "abc", &settings);
    let checked = accepted.check_reply("admin", "").unwrap();
    assert_eq!(checked.new_session_id, Some("abc".to_string()));
    assert_eq!(checked.tun_config.name, "tun0");
    assert_eq!(checked.tun_config.dns, vec!["114.114.114.114", "8.8.8.8"]);

    let same = Handshake::acceptance("admin", "abc", &settings);
    assert!(same.check_reply("admin", "abc").unwrap().new_session_id.is_none());

    let wrong = Handshake::acceptance("", "abc", &settings);
    assert_eq!(wrong.check_reply("admin", "").unwrap_err(), ReplyError::InvalidToken);

    let refused = Handshake::rejection();
    assert_eq!(refused.check_reply("", "").unwrap_err(), ReplyError::MissingTunConfig);
    assert_eq!(
        ReplyError::MissingTunConfig.message(),
        "No TUN config in handshake response"
    );
    assert_eq!(
        ReplyError::InvalidToken.message(),
        "Invalid token in handshake response"
    );
}

#[test]
fn client_request_carries_token_and_session() {
    let h = Handshake::request("admin", "xyz");
    assert_eq!(h.token, "admin");
    assert_eq!(h.session_id, "xyz");
    assert!(h.tun_config.is_none());
}

#[test]
fn admission_reply_carries_the_grant() {
    let mut server: ServerState<u32> = ServerState::new();
    let a = match server.handshake("tok", None, Some("tok".to_string()), &tun()) {
        HandshakeOutcome::Accepted(a) => a,
        HandshakeOutcome::Rejected => panic!("refused"),
    };
    let reply = a.reply("tok");
    assert_eq!(reply.token, "tok");
    assert_eq!(reply.session_id, a.session_id);
    assert_eq!(reply.tun_config.unwrap().address, "10.0.0.1");
}

#[test]
fn mtu_is_cut_to_32_bits() {
    let t = build_tun_config("t", "a", "n", "d", &Vec::new(), 1500);
    assert_eq!(t.mtu, 1500);
    assert!(t.dns.is_empty());
}

#[test]
fn message_steps_of_the_server() {
    let mut server: ServerState<u32> = ServerState::new();
    let settings = tun();
    let hello = Handshake::request("", "");
    let (reply, admission) = match server.on_message("", &settings, peer(1, 10), TunnelMessage::Handshake(hello)) {
        ServerAction::Reply { reply, admission } => (reply, admission),
        other => panic!("unexpected {:?}", other),
    };
    let admission = admission.unwrap();
    assert_eq!(reply.session_id, admission.session_id);
    assert_eq!(reply.token, "");
    server.store_session(admission, peer(1, 10), 7, 0);

    match server.on_message("", &settings, peer(1, 10), TunnelMessage::Data(vec![1, 2, 3])) {
        ServerAction::ToTun(d) => assert_eq!(d, vec![1, 2, 3]),
        other => panic!("unexpected {:?}", other),
    }
    match server.on_message("", &settings, peer(1, 10), TunnelMessage::Keepalive(42)) {
        ServerAction::KeepaliveReply(t) => assert_eq!(t, 42),
        other => panic!("unexpected {:?}", other),
    }
    match server.on_message("", &settings, peer(1, 10), TunnelMessage::Empty) {
        ServerAction::Ignore => {}
        other => panic!("unexpected {:?}", other),
    }
    match server.on_message("", &settings, peer(1, 10), TunnelMessage::Disconnect("bye".to_string())) {
        ServerAction::Disconnected(Some(s)) => assert_eq!(s.link, 7),
        other => panic!("unexpected {:?}", other),
    }
    assert_eq!(server.sessions().len(), 0);
}

#[test]
fn refused_handshake_gets_the_empty_reply() {
    let mut server: ServerState<u32> = ServerState::new();
    let hello = Handshake::request("guest", "");
    match server.on_message("admin", &tun(), peer(1, 10), TunnelMessage::Handshake(hello)) {
        ServerAction::Reply { reply, admission } => {
            assert!(admission.is_none());
            assert!(reply.token.is_empty() && reply.session_id.is_empty() && reply.tun_config.is_none());
        }
        other => panic!("unexpected {:?}", other),
    }
}

#[test]
fn missing_token_is_refused_when_the_server_has_one() {
    let mut server: ServerState<u32> = ServerState::new();
    match server.handshake("admin", None, None, &tun()) {
        HandshakeOutcome::Rejected => {}
        HandshakeOutcome::Accepted(_) => panic!("accepted a client without a token"),
    }
    let hello = Handshake::request("", "");
    match server.on_message("admin", &tun(), peer(1, 10), TunnelMessage::Handshake(hello)) {
        ServerAction::Reply { reply, admission } => {
            assert!(admission.is_none());
            assert!(reply.tun_config.is_none());
        }
        other => panic!("unexpected {:?}", other),
    }
    assert_eq!(server.sessions().len(), 0);
}

#[test]
fn lost_connection_keeps_the_session_for_a_reconnect() {
    let mut server: ServerState<u32> = ServerState::new();
    let a = match server.handshake("", None, None, &tun()) {
        HandshakeOutcome::Accepted(a) => a,
        HandshakeOutcome::Rejected => panic!("refused"),
    };
    let id = a.session_id.clone();
    server.store_session(a, peer(3, 3000), 1, 0);
    assert_eq!(server.on_connection_lost(peer(3, 3000)).unwrap().session_id, id);
    assert!(server.on_connection_lost(peer(4, 3000)).is_none());
    match server.handshake("", Some(id.clone()), None, &tun()) {
        HandshakeOutcome::Accepted(b) => {
            assert!(b.resumed);
            assert_eq!(b.virtual_ip, Ipv4Addr::new(10, 0, 0, 2));
        }
        HandshakeOutcome::Rejected => panic!("refused"),
    }
}
