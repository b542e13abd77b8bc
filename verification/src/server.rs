//! The tunnel server's decisions: handshakes, the address each client gets,
//! which client a packet from the TUN device goes to, and when sessions end.

use vstd::prelude::*;
use crate::handshake::{is_acceptance, is_rejection, token_accepted, validate_token, Handshake};
use crate::message::{nonempty, nonempty_string, TunnelMessage};
use crate::ip::{ipv4_value, Ipv4Addr};
use crate::session::{
    addr_is, by_id, first_where, fresh_sessions, ids_unique,
    lemma_with_session_map, position_of_id, same_tun, virtual_ip_is, with_session, PeerAddr,
    Session, SessionTable, TunConfig,
};
use crate::text::{clone_strings, string_views};

verus! {

broadcast use vstd::std_specs::vec::group_vec_axioms;

/// `c` is one of the 64 URL-safe symbols `A-Za-z0-9_-`.
pub open spec fn url_safe_char(c: char) -> bool {
    let u = c as u32;
    ||| u == 0x5F
    ||| u == 0x2D
    ||| 0x30 <= u <= 0x39
    ||| 0x61 <= u <= 0x7A
    ||| 0x41 <= u <= 0x5A
}

/// `id` is a session id as the server makes them: 21 URL-safe symbols.
pub open spec fn is_session_id(id: Seq<char>) -> bool {
    id.len() == 21 && forall|i: int| 0 <= i < id.len() ==> url_safe_char(#[trigger] id[i])
}

/// Calls `nanoid::format` with the operating system's random bytes
/// (`nanoid::rngs::default`) and the crate's URL-safe alphabet
/// (`nanoid::alphabet::SAFE`, the 64 symbols `A-Za-z0-9_-`). For an alphabet
/// of 64 symbols the crate draws `size` random bytes and maps each to the
/// symbol its low six bits select, so the id has `size` characters, each from
/// that alphabet. Which characters come out is random and left unsaid.
#[verifier::external_body]
fn random_id(size: usize) -> (id: String)
    ensures
        id@.len() == size,
        forall|i: int| 0 <= i < id@.len() ==> url_safe_char(#[trigger] id@[i]),
{
    nanoid::format(nanoid::rngs::default, &nanoid::alphabet::SAFE, size)
}

/// A fresh random session id of 21 URL-safe symbols.
pub fn build_session_id() -> (id: String)
    ensures
        is_session_id(id@),
{
    random_id(21)
}

/// The destination of an IPv4 packet: bytes 16 to 19 of a packet of at least
/// 20 bytes whose version nibble is 4.
pub open spec fn destination_of(data: Seq<u8>) -> Option<Ipv4Addr> {
    if data.len() >= 20 && data[0] / 16 == 4 {
        Some(Ipv4Addr { bits: ipv4_value(data[16], data[17], data[18], data[19]) })
    } else {
        None
    }
}

/// The destination address of an IPv4 packet, if `data` is one.
pub fn get_destination_ip(data: &[u8]) -> (r: Option<Ipv4Addr>)
    ensures
        r == destination_of(data@),
{
    if data.len() < 20 {
        return None;
    }
    if data[0] / 16 != 4 {
        return None;
    }
    Some(Ipv4Addr::new(data[16], data[17], data[18], data[19]))
}

/// The tunnel address of the client with number `client_id`: 10.0.0.x, with
/// x the low byte of the number.
pub open spec fn client_address(client_id: u32) -> Ipv4Addr {
    Ipv4Addr { bits: ipv4_value(10, 0, 0, (client_id % 256) as u8) }
}

/// The tunnel address of the client with number `client_id`.
pub fn client_virtual_ip(client_id: u32) -> (ip: Ipv4Addr)
    ensures
        ip == client_address(client_id),
{
    Ipv4Addr::new(10, 0, 0, (client_id % 256) as u8)
}

/// The client number after `n`, wrapping after `u32::MAX`.
pub open spec fn next_client_number(n: u32) -> u32 {
    ((n as int + 1) % 0x1_0000_0000) as u32
}

/// The TUN settings the server hands to a new client: its own device name,
/// addresses (in text), DNS servers and MTU (cut to 32 bits).
pub fn build_tun_config(
    name: &str,
    address: &str,
    netmask: &str,
    destination: &str,
    dns: &Vec<String>,
    mtu: usize,
) -> (t: TunConfig)
    ensures
        t.name@ == name@,
        t.address@ == address@,
        t.netmask@ == netmask@,
        t.destination@ == destination@,
        string_views(t.dns@) == string_views(dns@),
        t.mtu == mtu as u32,
{
    let copy = clone_strings(dns);
    TunConfig {
        name: name.to_owned(),
        address: address.to_owned(),
        netmask: netmask.to_owned(),
        destination: destination.to_owned(),
        dns: copy,
        mtu: truncate_to_u32(mtu),
    }
}

/// The low 32 bits of `n`.
fn truncate_to_u32(n: usize) -> (r: u32)
    ensures
        r == n as u32,
{
    #[verifier::truncate]
    (n as u32)
}

/// An optional string, by its characters.
pub open spec fn opt_view(o: Option<String>) -> Option<Seq<char>> {
    match o {
        Some(s) => Some(s@),
        None => None,
    }
}

/// The client names a session among `entries`.
pub open spec fn resumable<T>(entries: Seq<Session<T>>, provided: Option<Seq<char>>) -> bool {
    provided matches Some(id) && position_of_id(entries, id) is Some
}

/// What the server grants a client whose handshake it accepts.
#[derive(Debug)]
pub struct Admission {
    pub session_id: String,
    pub virtual_ip: Ipv4Addr,
    pub tun_config: TunConfig,
    /// The client came back with a session the server still holds.
    pub resumed: bool,
}

impl Admission {
    /// The reply that tells the client what it was granted.
    pub fn reply(&self, server_token: &str) -> (h: Handshake)
        ensures
            crate::handshake::is_acceptance(h, server_token@, self.session_id@, self.tun_config),
    {
        Handshake::acceptance(server_token, self.session_id.as_str(), &self.tun_config)
    }
}

/// The server's answer to a handshake.
#[derive(Debug)]
pub enum HandshakeOutcome {
    /// The token was refused: the client gets the empty handshake.
    Rejected,
    /// The client is admitted.
    Accepted(Admission),
}

/// The server decided a handshake: a refused token gets `Rejected`; a client
/// naming a session among `entries` gets it back with its address and
/// settings; any other client gets a new session id, the address of client
/// number `next` and the settings `fresh_tun`, and the next number moves on.
/// `next_after` is the number after the decision.
pub open spec fn handshake_decided<T>(
    entries: Seq<Session<T>>,
    next: u32,
    next_after: u32,
    server_token: Seq<char>,
    provided_session_id: Option<Seq<char>>,
    provided_token: Option<Seq<char>>,
    fresh_tun: TunConfig,
    r: HandshakeOutcome,
) -> bool {
    if !token_accepted(provided_token, server_token) {
        r is Rejected && next_after == next
    } else if resumable(entries, provided_session_id) {
        let id = provided_session_id->0;
        let i = position_of_id(entries, id)->0;
        &&& r matches HandshakeOutcome::Accepted(a)
        &&& a.resumed
        &&& a.session_id@ == id
        &&& a.virtual_ip == entries[i].virtual_ip
        &&& same_tun(a.tun_config, entries[i].tun_config)
        &&& next_after == next
    } else {
        &&& r matches HandshakeOutcome::Accepted(a)
        &&& !a.resumed
        &&& is_session_id(a.session_id@)
        &&& a.virtual_ip == client_address(next)
        &&& same_tun(a.tun_config, fresh_tun)
        &&& next_after == next_client_number(next)
    }
}

/// The session that an admission stores for a client at `addr`, seen at `now`.
pub open spec fn admitted_session<T>(a: Admission, addr: PeerAddr, link: T, now: u128) -> Session<T> {
    Session {
        session_id: a.session_id,
        addr,
        virtual_ip: a.virtual_ip,
        tun_config: a.tun_config,
        last_seen: now,
        link,
    }
}

/// What the server does about a client's message.
#[derive(Debug)]
pub enum ServerAction<T> {
    /// Send `reply` to the client; once it is sent, store the session of
    /// `admission`, if there is one.
    Reply { reply: Handshake, admission: Option<Admission> },
    /// Write the packet to the TUN device.
    ToTun(Vec<u8>),
    /// Send the keepalive back with the same timestamp.
    KeepaliveReply(i64),
    /// The client left; its session, if it had one, is forgotten.
    Disconnected(Option<Session<T>>),
    /// Nothing to do.
    Ignore,
}

/// The outcome an admission stands for: accepted with it, or refused.
pub open spec fn outcome_of(admission: Option<Admission>) -> HandshakeOutcome {
    match admission {
        Some(a) => HandshakeOutcome::Accepted(a),
        None => HandshakeOutcome::Rejected,
    }
}

/// The server's state: its sessions and the number the next new client gets.
pub struct ServerState<T> {
    sessions: SessionTable<T>,
    next_client_id: u32,
}

impl<T> ServerState<T> {
    #[verifier::type_invariant]
    spec fn unique_ids(self) -> bool {
        ids_unique(self.sessions.entries())
    }

    /// The sessions, in the order they were first stored.
    pub closed spec fn entries(self) -> Seq<Session<T>> {
        self.sessions.entries()
    }

    /// The number the next new client gets.
    pub closed spec fn next_client(self) -> u32 {
        self.next_client_id
    }

    /// A server without sessions; the first client gets number 2.
    pub fn new() -> (s: ServerState<T>)
        ensures
            s.entries() == Seq::<Session<T>>::empty(),
            s.next_client() == 2,
            ids_unique(s.entries()),
    {
        ServerState { sessions: SessionTable::new(), next_client_id: 2 }
    }

    /// The session table.
    pub fn sessions(&self) -> (t: &SessionTable<T>)
        ensures
            t.entries() == self.entries(),
            ids_unique(self.entries()),
    {
        proof {
            use_type_invariant(self);
        }
        &self.sessions
    }

    /// Moves the sessions out, leaving an empty table.
    fn take_sessions(&mut self) -> (t: SessionTable<T>)
        ensures
            t.entries() == old(self).entries(),
            final(self).entries() == Seq::<Session<T>>::empty(),
            final(self).next_client() == old(self).next_client(),
    {
        let mut table = SessionTable::new();
        std::mem::swap(&mut table, &mut self.sessions);
        table
    }

    /// Decides a handshake. A token the server refuses gets `Rejected`. A
    /// client that names a session the server holds gets that session back,
    /// with its address and settings. Any other client gets a new random
    /// session id, the next client number's address and `fresh_tun`.
    pub fn handshake(
        &mut self,
        server_token: &str,
        provided_session_id: Option<String>,
        provided_token: Option<String>,
        fresh_tun: &TunConfig,
    ) -> (r: HandshakeOutcome)
        ensures
            final(self).entries() == old(self).entries(),
            handshake_decided(
                old(self).entries(),
                old(self).next_client(),
                final(self).next_client(),
                server_token@,
                opt_view(provided_session_id),
                opt_view(provided_token),
                *fresh_tun,
                r,
            ),
            ids_unique(final(self).entries()),
    {
        proof {
            use_type_invariant(&*self);
        }
        match &provided_token {
            Some(token) => {
                if !validate_token(token.as_str(), server_token) {
                    return HandshakeOutcome::Rejected;
                }
            },
            None => {
                if !server_token.is_empty() {
                    return HandshakeOutcome::Rejected;
                }
            },
        }
        if let Some(id) = provided_session_id {
            if let Some(existing) = self.sessions.find_by_id(id.as_str()) {
                let admission = Admission {
                    session_id: id,
                    virtual_ip: existing.virtual_ip,
                    tun_config: existing.tun_config.duplicate(),
                    resumed: true,
                };
                return HandshakeOutcome::Accepted(admission);
            }
        }
        let session_id = build_session_id();
        let client_id = self.next_client_id;
        self.next_client_id = if client_id == u32::MAX {
            0
        } else {
            client_id + 1
        };
        HandshakeOutcome::Accepted(
            Admission {
                session_id,
                virtual_ip: client_virtual_ip(client_id),
                tun_config: fresh_tun.duplicate(),
                resumed: false,
            },
        )
    }

    /// Decides what to do about `message` from the client at `addr`. A
    /// handshake is decided as `handshake` decides it, with an empty session
    /// id or token counting as none given, and answered with the acceptance
    /// or the refusal; data goes to the TUN device; a keepalive goes back; a
    /// disconnect forgets the client's session.
    pub fn on_message(
        &mut self,
        server_token: &str,
        fresh_tun: &TunConfig,
        addr: PeerAddr,
        message: TunnelMessage,
    ) -> (r: ServerAction<T>)
        ensures
            ids_unique(final(self).entries()),
            match message {
                TunnelMessage::Handshake(h) => {
                    &&& r matches ServerAction::Reply { reply, admission }
                    &&& final(self).entries() == old(self).entries()
                    &&& handshake_decided(
                        old(self).entries(),
                        old(self).next_client(),
                        final(self).next_client(),
                        server_token@,
                        nonempty(h.session_id@),
                        nonempty(h.token@),
                        *fresh_tun,
                        outcome_of(admission),
                    )
                    &&& match admission {
                        Some(a) => is_acceptance(reply, server_token@, a.session_id@, a.tun_config),
                        None => is_rejection(reply),
                    }
                },
                TunnelMessage::Data(d) => r == ServerAction::<T>::ToTun(d) && final(self).entries()
                    == old(self).entries() && final(self).next_client() == old(self).next_client(),
                TunnelMessage::Keepalive(t) => r == ServerAction::<T>::KeepaliveReply(t)
                    && final(self).entries() == old(self).entries() && final(self).next_client()
                    == old(self).next_client(),
                TunnelMessage::Disconnect(_) => {
                    &&& r matches ServerAction::Disconnected(removed)
                    &&& final(self).next_client() == old(self).next_client()
                    &&& match first_where(old(self).entries(), addr_is::<T>(addr)) {
                        Some(i) => removed == Some(old(self).entries()[i]) && final(self).entries()
                            == old(self).entries().remove(i),
                        None => removed is None && final(self).entries() == old(self).entries(),
                    }
                },
                TunnelMessage::Empty => r is Ignore && final(self).entries() == old(self).entries()
                    && final(self).next_client() == old(self).next_client(),
            },
    {
        proof {
            use_type_invariant(&*self);
        }
        match message {
            TunnelMessage::Handshake(h) => {
                let session_id = nonempty_string(h.session_id);
                let token = nonempty_string(h.token);
                match self.handshake(server_token, session_id, token, fresh_tun) {
                    HandshakeOutcome::Rejected => ServerAction::Reply {
                        reply: Handshake::rejection(),
                        admission: None,
                    },
                    HandshakeOutcome::Accepted(a) => {
                        let reply = a.reply(server_token);
                        ServerAction::Reply { reply, admission: Some(a) }
                    },
                }
            },
            TunnelMessage::Data(d) => ServerAction::ToTun(d),
            TunnelMessage::Keepalive(t) => ServerAction::KeepaliveReply(t),
            TunnelMessage::Disconnect(_) => ServerAction::Disconnected(self.disconnect(addr)),
            TunnelMessage::Empty => ServerAction::Ignore,
        }
    }

    /// A connection that ends without a disconnect message leaves the
    /// client's session in place, so that the client can resume it, with its
    /// tunnel address, by its session id until the session expires. The
    /// session of the client at `addr`, if it has one, is handed back.
    pub fn on_connection_lost(&self, addr: PeerAddr) -> (r: Option<&Session<T>>)
        ensures
            match first_where(self.entries(), addr_is::<T>(addr)) {
                Some(i) => r == Some(&self.entries()[i]),
                None => r is None,
            },
    {
        self.sessions.find_by_addr(addr)
    }

    /// Stores the session of an admitted client at `addr`, seen at `now`; it
    /// replaces the session with the same id.
    pub fn store_session(&mut self, admission: Admission, addr: PeerAddr, link: T, now: u128)
        ensures
            final(self).entries() == with_session(
                old(self).entries(),
                admitted_session(admission, addr, link, now),
            ),
            final(self).next_client() == old(self).next_client(),
            ids_unique(final(self).entries()),
    {
        let session = Session {
            session_id: admission.session_id,
            addr,
            virtual_ip: admission.virtual_ip,
            tun_config: admission.tun_config,
            last_seen: now,
            link,
        };
        let mut table = self.take_sessions();
        table.insert(session);
        self.sessions = table;
    }

    /// Forgets the first session of the client at `addr`, when it disconnects.
    pub fn disconnect(&mut self, addr: PeerAddr) -> (r: Option<Session<T>>)
        ensures
            match first_where(old(self).entries(), addr_is::<T>(addr)) {
                Some(i) => r == Some(old(self).entries()[i]) && final(self).entries()
                    == old(self).entries().remove(i),
                None => r is None && final(self).entries() == old(self).entries(),
            },
            final(self).next_client() == old(self).next_client(),
            ids_unique(final(self).entries()),
    {
        let mut table = self.take_sessions();
        let removed = table.remove_by_addr(addr);
        self.sessions = table;
        removed
    }

    /// The session a packet from the TUN device goes to: the first whose
    /// tunnel address is the packet's IPv4 destination.
    pub fn route(&self, packet: &[u8]) -> (r: Option<&Session<T>>)
        ensures
            match destination_of(packet@) {
                Some(ip) => match first_where(self.entries(), virtual_ip_is::<T>(ip)) {
                    Some(i) => r == Some(&self.entries()[i]),
                    None => r is None,
                },
                None => r is None,
            },
    {
        match get_destination_ip(packet) {
            Some(ip) => self.sessions.find_by_virtual_ip(ip),
            None => None,
        }
    }

    /// Forgets the sessions not seen for an hour at `now` and returns how many
    /// were forgotten.
    pub fn cleanup(&mut self, now: u128) -> (removed: usize)
        ensures
            final(self).entries() == fresh_sessions(old(self).entries(), now),
            removed == old(self).entries().len() - final(self).entries().len(),
            final(self).next_client() == old(self).next_client(),
            ids_unique(final(self).entries()),
    {
        let mut table = self.take_sessions();
        let removed = table.retain_fresh(now);
        self.sessions = table;
        removed
    }
}

/// A client that comes back with the id of a session the server holds keeps
/// its tunnel address and TUN settings: once the resumed session is stored,
/// its id finds a session with the old address and settings, and every other
/// id finds what it found before.
pub proof fn lemma_reconnect_keeps_address<T>(
    entries: Seq<Session<T>>,
    id: Seq<char>,
    a: Admission,
    addr: PeerAddr,
    link: T,
    now: u128,
)
    requires
        ids_unique(entries),
        position_of_id(entries, id) is Some,
        a.session_id@ == id,
        a.virtual_ip == entries[position_of_id(entries, id)->0].virtual_ip,
        same_tun(a.tun_config, entries[position_of_id(entries, id)->0].tun_config),
    ensures
        ({
            let after = with_session(entries, admitted_session(a, addr, link, now));
            &&& by_id(after).dom().contains(id)
            &&& by_id(after)[id].virtual_ip == by_id(entries)[id].virtual_ip
            &&& same_tun(by_id(after)[id].tun_config, by_id(entries)[id].tun_config)
            &&& by_id(after).dom() == by_id(entries).dom()
            &&& forall|other: Seq<char>|
                other != id && #[trigger] by_id(entries).dom().contains(other) ==> by_id(after)[other]
                    == by_id(entries)[other]
        }),
{
    let s = admitted_session(a, addr, link, now);
    lemma_with_session_map(entries, s);
    let after = with_session(entries, s);
    assert(by_id(after).dom() =~= by_id(entries).dom());
}

/// A client whose token differs from the server's never gets through the
/// handshake: the server's answer is a refusal or an acceptance carrying the
/// server's token, and the client takes neither.
pub proof fn lemma_foreign_token_refused(
    reply: Handshake,
    admission: Option<Admission>,
    server_token: Seq<char>,
    client_token: Seq<char>,
)
    requires
        client_token != server_token,
        match admission {
            Some(a) => is_acceptance(reply, server_token, a.session_id@, a.tun_config),
            None => is_rejection(reply),
        },
    ensures
        !crate::handshake::reply_accepted(reply, client_token),
{
}

/// A new client's tunnel address lies in 10.0.0.0/24.
pub proof fn lemma_client_address_in_tunnel_net(client_id: u32)
    ensures
        client_address(client_id).octet(0) == 10,
        client_address(client_id).octet(1) == 0,
        client_address(client_id).octet(2) == 0,
        client_address(client_id).octet(3) == client_id % 256,
{
    crate::ip::lemma_octets_of_value(10, 0, 0, (client_id % 256) as u8);
}

} // verus!
