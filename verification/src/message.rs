//! The messages client and server exchange over a transport.

use vstd::prelude::*;
use crate::handshake::Handshake;

verus! {

/// A message of the tunnel protocol.
#[derive(Debug)]
pub enum TunnelMessage {
    /// Opens or resumes a session.
    Handshake(Handshake),
    /// An IP packet.
    Data(Vec<u8>),
    /// A liveness probe carrying the sender's clock in milliseconds; the
    /// server sends the timestamp back unchanged.
    Keepalive(i64),
    /// The sender closes the tunnel, giving a reason.
    Disconnect(String),
    /// A message that carries none of these.
    Empty,
}

/// A text, or nothing where it is empty.
pub open spec fn nonempty(s: Seq<char>) -> Option<Seq<char>> {
    if s.len() == 0 {
        None
    } else {
        Some(s)
    }
}

/// The string `s`, or nothing where it is empty.
pub fn nonempty_string(s: String) -> (r: Option<String>)
    ensures
        match r {
            Some(t) => nonempty(s@) == Some(t@),
            None => nonempty(s@) is None,
        },
{
    if s.as_str().is_empty() {
        None
    } else {
        Some(s)
    }
}

} // verus!
