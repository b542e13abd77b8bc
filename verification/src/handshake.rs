//! The handshake that opens a tunnel: what the client asks, how the server
//! answers, and how the client checks the answer.

use vstd::prelude::*;
use crate::session::{same_tun, TunConfig};
use crate::text::str_eq;

verus! {

/// A handshake message. The client sends its token and the session id it
/// holds (empty for a new client); the server answers with its own token, the
/// session id to use and the TUN settings, or with an empty message to refuse.
#[derive(Debug)]
pub struct Handshake {
    pub token: String,
    pub session_id: String,
    pub tun_config: Option<TunConfig>,
}

/// `token` is valid for a server whose token is `server_token`: a server
/// without a token accepts every token.
pub open spec fn token_valid(token: Seq<char>, server_token: Seq<char>) -> bool {
    server_token.len() == 0 || token == server_token
}

/// A handshake passes the server's token check: a server with a token admits
/// only clients that give that token; a server without one admits everyone.
pub open spec fn token_accepted(provided: Option<Seq<char>>, server_token: Seq<char>) -> bool {
    match provided {
        Some(t) => token_valid(t, server_token),
        None => server_token.len() == 0,
    }
}

/// Whether `token` is valid for a server whose token is `server_token`.
pub fn validate_token(token: &str, server_token: &str) -> (b: bool)
    ensures
        b == token_valid(token@, server_token@),
{
    if server_token.is_empty() {
        return true;
    }
    str_eq(token, server_token)
}

/// `h` is the server's acceptance: its token, the session id and the settings.
pub open spec fn is_acceptance(
    h: Handshake,
    server_token: Seq<char>,
    session_id: Seq<char>,
    tun: TunConfig,
) -> bool {
    &&& h.token@ == server_token
    &&& h.session_id@ == session_id
    &&& h.tun_config matches Some(t) && same_tun(t, tun)
}

/// `h` is the server's refusal: an empty message.
pub open spec fn is_rejection(h: Handshake) -> bool {
    &&& h.token@.len() == 0
    &&& h.session_id@.len() == 0
    &&& h.tun_config is None
}

/// The client takes the reply `h`: it carries the client's own token and TUN
/// settings.
pub open spec fn reply_accepted(h: Handshake, token: Seq<char>) -> bool {
    h.token@ == token && h.tun_config is Some
}

/// Why the client refuses the server's reply.
#[derive(Debug, Clone, Copy, PartialEq, Eq, Structural)]
pub enum ReplyError {
    /// The reply carries another token than the client's.
    InvalidToken,
    /// The reply carries no TUN settings.
    MissingTunConfig,
}

impl ReplyError {
    /// The text of the error.
    pub fn message(&self) -> (s: String)
        ensures
            s@ == (match self {
                ReplyError::InvalidToken => "Invalid token in handshake response"@,
                ReplyError::MissingTunConfig => "No TUN config in handshake response"@,
            }),
    {
        match self {
            ReplyError::InvalidToken => "Invalid token in handshake response".to_owned(),
            ReplyError::MissingTunConfig => "No TUN config in handshake response".to_owned(),
        }
    }
}

/// What the client takes from an accepted reply: the TUN settings, and the
/// new session id when the server assigned another one.
#[derive(Debug)]
pub struct AcceptedReply {
    pub tun_config: TunConfig,
    pub new_session_id: Option<String>,
}

impl Handshake {
    /// The client's request: its token and the session id it holds.
    pub fn request(token: &str, session_id: &str) -> (h: Handshake)
        ensures
            h.token@ == token@,
            h.session_id@ == session_id@,
            h.tun_config is None,
    {
        Handshake { token: token.to_owned(), session_id: session_id.to_owned(), tun_config: None }
    }

    /// The server's refusal.
    pub fn rejection() -> (h: Handshake)
        ensures
            is_rejection(h),
    {
        Handshake { token: String::new(), session_id: String::new(), tun_config: None }
    }

    /// The server's acceptance, with its token, the session id and the settings.
    pub fn acceptance(server_token: &str, session_id: &str, tun: &TunConfig) -> (h: Handshake)
        ensures
            is_acceptance(h, server_token@, session_id@, *tun),
    {
        Handshake {
            token: server_token.to_owned(),
            session_id: session_id.to_owned(),
            tun_config: Some(tun.duplicate()),
        }
    }

    /// The client's check of the server's reply, for a client holding `token`
    /// and session id `session_id`.
    pub fn check_reply(self, token: &str, session_id: &str) -> (r: Result<AcceptedReply, ReplyError>)
        ensures
            self.token@ != token@ ==> r == Err::<AcceptedReply, ReplyError>(ReplyError::InvalidToken),
            self.token@ == token@ && self.tun_config is None ==> r == Err::<AcceptedReply, ReplyError>(
                ReplyError::MissingTunConfig,
            ),
            r is Ok <==> reply_accepted(self, token@),
            r matches Ok(a) ==> (self.tun_config == Some(a.tun_config) && match a.new_session_id {
                Some(id) => id@ == self.session_id@ && self.session_id@ != session_id@,
                None => self.session_id@ == session_id@,
            }),
    {
        if !str_eq(self.token.as_str(), token) {
            return Err(ReplyError::InvalidToken);
        }
        let same_id = str_eq(self.session_id.as_str(), session_id);
        match self.tun_config {
            Some(tun_config) => {
                let new_session_id = if same_id {
                    None
                } else {
                    Some(self.session_id)
                };
                Ok(AcceptedReply { tun_config, new_session_id })
            },
            None => Err(ReplyError::MissingTunConfig),
        }
    }
}

/// The server's acceptance passes the client's check exactly when the client
/// holds the server's token.
pub proof fn lemma_acceptance_checked(
    h: Handshake,
    server_token: Seq<char>,
    session_id: Seq<char>,
    tun: TunConfig,
    client_token: Seq<char>,
)
    requires
        is_acceptance(h, server_token, session_id, tun),
    ensures
        reply_accepted(h, client_token) <==> client_token == server_token,
{
}

/// The client never takes the server's refusal for an acceptance.
pub proof fn lemma_rejection_refused(h: Handshake, client_token: Seq<char>)
    requires
        is_rejection(h),
    ensures
        !reply_accepted(h, client_token),
{
}

/// A server without a token accepts every handshake.
pub proof fn lemma_open_server_accepts(provided: Option<Seq<char>>)
    ensures
        token_accepted(provided, Seq::<char>::empty()),
{
}

/// A server with a token keeps out every client that does not give that
/// token, whether it gives another one or none.
pub proof fn lemma_token_keeps_out(provided: Option<Seq<char>>, server_token: Seq<char>)
    requires
        server_token.len() > 0,
        provided != Some(server_token),
    ensures
        !token_accepted(provided, server_token),
{
}

} // verus!
