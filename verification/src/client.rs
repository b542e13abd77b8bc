//! The tunnel client's timing decisions: how long it waits before it dials
//! the server again, and the round-trip time a keepalive reply shows.

use vstd::prelude::*;
use vstd::string::*;
use crate::handshake::{reply_accepted, AcceptedReply};
use crate::message::TunnelMessage;
use crate::rule::RuleAction;

verus! {

/// Seconds the client waits after its first failed attempt.
pub const FIRST_RETRY_DELAY_SECS: u64 = 1;

/// The longest wait between two attempts, in seconds (five minutes).
pub const MAX_RETRY_DELAY_SECS: u64 = 300;

/// Milliseconds between two keepalives the client sends.
pub const KEEPALIVE_INTERVAL_MS: u64 = 3000;

/// The wait after a wait of `delay` seconds: twice as long, at most five
/// minutes.
pub open spec fn doubled_delay(delay: nat) -> nat {
    if 2 * delay < 300 {
        2 * delay
    } else {
        300
    }
}

/// The wait after `failures` failed attempts in a row: one second after the
/// first, doubling after each further failure up to five minutes.
pub open spec fn retry_delay(failures: nat) -> nat
    decreases failures,
{
    if failures <= 1 {
        1
    } else {
        doubled_delay(retry_delay((failures - 1) as nat))
    }
}

/// The wait that follows a wait of `delay_secs` seconds.
pub fn next_retry_delay(delay_secs: u64) -> (d: u64)
    requires
        delay_secs <= u64::MAX / 2,
    ensures
        d == doubled_delay(delay_secs as nat),
{
    let doubled = delay_secs * 2;
    if doubled < MAX_RETRY_DELAY_SECS {
        doubled
    } else {
        MAX_RETRY_DELAY_SECS
    }
}

/// The waits grow from one second to five minutes and then stay there: every
/// wait lies between one second and five minutes, each is the double of the
/// one before up to that cap, and from the tenth failure on it is five
/// minutes.
pub proof fn lemma_retry_delay_bounds(failures: nat)
    ensures
        1 <= retry_delay(failures) <= 300,
        failures >= 1 ==> retry_delay(failures + 1) == doubled_delay(retry_delay(failures)),
        failures >= 10 ==> retry_delay(failures) == 300,
    decreases failures,
{
    if failures > 1 {
        lemma_retry_delay_bounds((failures - 1) as nat);
    }
    if failures >= 10 {
        assert(retry_delay(10) == 300) by {
            reveal_with_fuel(retry_delay, 11);
        }
        lemma_retry_delay_capped(10, failures);
    }
}

/// Once the wait has reached five minutes it stays there.
proof fn lemma_retry_delay_capped(from: nat, failures: nat)
    requires
        from >= 1,
        from <= failures,
        retry_delay(from) == 300,
    ensures
        retry_delay(failures) == 300,
    decreases failures - from,
{
    if from < failures {
        assert(retry_delay(from + 1) == doubled_delay(retry_delay(from)));
        lemma_retry_delay_capped(from + 1, failures);
    }
}

/// The round-trip time a keepalive reply shows: the time it came back,
/// less the send time it carries, in milliseconds.
pub fn keepalive_latency_ms(received_ms: u64, sent_timestamp: i64) -> (latency: u64)
    requires
        sent_timestamp as u64 <= received_ms,
    ensures
        latency == received_ms - sent_timestamp as u64,
{
    received_ms - (sent_timestamp as u64)
}

/// What the client does about a message from the server once the tunnel is up.
#[derive(Debug)]
pub enum ClientAction {
    /// Write the packet to the TUN device.
    ToTun(Vec<u8>),
    /// The server sent back a keepalive with this send time.
    KeepaliveEcho(i64),
    /// Close the tunnel, for this reason.
    Stop(String),
    /// Nothing to do.
    Ignore,
}

/// What the client does about `message` from the server: data goes to the TUN
/// device, a keepalive's send time is handed on to measure the round trip, a
/// disconnect stops the tunnel, anything else is ignored.
pub fn on_server_message(message: TunnelMessage) -> (a: ClientAction)
    ensures
        match message {
            TunnelMessage::Data(d) => a == ClientAction::ToTun(d),
            TunnelMessage::Keepalive(t) => a == ClientAction::KeepaliveEcho(t),
            TunnelMessage::Disconnect(reason) => a matches ClientAction::Stop(m) && m@
                == "Server disconnected: "@ + reason@,
            _ => a is Ignore,
        },
{
    match message {
        TunnelMessage::Data(d) => ClientAction::ToTun(d),
        TunnelMessage::Keepalive(t) => ClientAction::KeepaliveEcho(t),
        TunnelMessage::Disconnect(reason) => {
            let mut m = String::from_str("Server disconnected: ");
            m.append(reason.as_str());
            ClientAction::Stop(m)
        },
        _ => ClientAction::Ignore,
    }
}

/// The client's reading of the server's answer to its handshake, for a
/// client holding `token` and session id `session_id`: the accepted reply,
/// or the error that ends the attempt.
pub fn handshake_response(message: TunnelMessage, token: &str, session_id: &str) -> (r: Result<
    AcceptedReply,
    String,
>)
    ensures
        match message {
            TunnelMessage::Handshake(h) => {
                &&& (r is Ok <==> reply_accepted(h, token@))
                &&& h.token@ != token@ ==> (r matches Err(e) && e@
                    == "Invalid token in handshake response"@)
                &&& h.token@ == token@ && h.tun_config is None ==> (r matches Err(e) && e@
                    == "No TUN config in handshake response"@)
                &&& r matches Ok(a) ==> (h.tun_config == Some(a.tun_config) && match a.new_session_id {
                    Some(id) => id@ == h.session_id@ && h.session_id@ != session_id@,
                    None => h.session_id@ == session_id@,
                })
            },
            _ => r matches Err(e) && e@ == "Invalid handshake response: unexpected message type"@,
        },
{
    match message {
        TunnelMessage::Handshake(h) => match h.check_reply(token, session_id) {
            Ok(a) => Ok(a),
            Err(e) => Err(e.message()),
        },
        _ => Err(String::from_str("Invalid handshake response: unexpected message type")),
    }
}

/// What the client does with a packet read from its TUN device.
#[derive(Debug, Clone, Copy, PartialEq, Eq, Structural)]
pub enum PacketVerdict {
    /// Send it to the server through the tunnel.
    Tunnel,
    /// Drop it.
    Drop,
}

/// The verdict on a packet the rules routed to `action` (`None` where the
/// rules cannot read it): a rejected packet is dropped, every other one goes
/// through the tunnel. The client has no local path for direct traffic, so
/// direct traffic takes the tunnel too.
pub fn packet_verdict(action: Option<RuleAction>) -> (v: PacketVerdict)
    ensures
        v == (if action == Some(RuleAction::Reject) {
            PacketVerdict::Drop
        } else {
            PacketVerdict::Tunnel
        }),
{
    match action {
        Some(RuleAction::Reject) => PacketVerdict::Drop,
        _ => PacketVerdict::Tunnel,
    }
}

/// A client holding a session id reconnects; one with an empty id connects
/// for the first time.
pub fn is_reconnect(session_id: &str) -> (b: bool)
    ensures
        b == (session_id@.len() > 0),
{
    !session_id.is_empty()
}

} // verus!
