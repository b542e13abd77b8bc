//! The settings the program runs with: the run mode, the transport, the DNS
//! servers handed to clients, the WebSocket endpoint, and the state a client
//! keeps between runs.

use vstd::prelude::*;
use vstd::string::*;
use crate::rule::{to_lowercase, unicode_lowercase};
use crate::text::{chars_of, split_chars, split_on, string_of, string_views, trim, trim_chars, views};

verus! {

broadcast use vstd::std_specs::vec::group_vec_axioms;

/// How the program runs, and how much it logs.
#[derive(Debug, Clone)]
pub struct RuntimeConfig {
    pub mode: String,
    pub log_level: String,
}

impl Default for RuntimeConfig {
    /// A client that logs at level "info".
    fn default() -> (c: RuntimeConfig)
        ensures
            c.mode@ == "client"@,
            c.log_level@ == "info"@,
    {
        RuntimeConfig { mode: String::from_str("client"), log_level: String::from_str("info") }
    }
}

/// What a client keeps between runs: the session id the server gave it.
#[derive(Debug, Clone)]
pub struct ClientState {
    pub session_id: String,
}

impl Default for ClientState {
    /// No session yet.
    fn default() -> (s: ClientState)
        ensures
            s.session_id@ == Seq::<char>::empty(),
    {
        ClientState { session_id: String::new() }
    }
}

/// The side of the tunnel the program runs.
#[derive(Debug, Clone, Copy, PartialEq, Eq, Structural)]
pub enum RunMode {
    Client,
    Server,
}

/// The run mode named by a lowercase text.
pub open spec fn run_mode_named(lower: Seq<char>) -> Option<RunMode> {
    if lower == "server"@ {
        Some(RunMode::Server)
    } else if lower == "client"@ {
        Some(RunMode::Client)
    } else {
        None
    }
}

/// The error for a run mode that is neither "client" nor "server".
pub open spec fn run_mode_error(lower: Seq<char>) -> Seq<char> {
    "Invalid runtime.mode '"@ + lower + "', expected 'client' or 'server'"@
}

impl RunMode {
    /// The run mode named by the lowercase text `lower`, or the error that
    /// quotes it.
    pub fn from_lowercase(lower: &str) -> (r: Result<RunMode, String>)
        ensures
            match run_mode_named(lower@) {
                Some(m) => r == Ok::<RunMode, String>(m),
                None => r matches Err(e) && e@ == run_mode_error(lower@),
            },
    {
        let v = chars_of(lower);
        if crate::text::chars_eq_str(&v, "server") {
            Ok(RunMode::Server)
        } else if crate::text::chars_eq_str(&v, "client") {
            Ok(RunMode::Client)
        } else {
            let mut e = String::from_str("Invalid runtime.mode '");
            e.append(lower);
            e.append("', expected 'client' or 'server'");
            Err(e)
        }
    }

    /// The run mode named by `mode`, in any letter case.
    pub fn parse(mode: &str) -> (r: Result<RunMode, String>)
        ensures
            match run_mode_named(unicode_lowercase(mode@)) {
                Some(m) => r == Ok::<RunMode, String>(m),
                None => r matches Err(e) && e@ == run_mode_error(unicode_lowercase(mode@)),
            },
    {
        let lower = to_lowercase(mode);
        Self::from_lowercase(lower.as_str())
    }
}

/// How client and server talk.
#[derive(Debug, Clone, Copy, PartialEq, Eq, Structural)]
pub enum TransportKind {
    Tcp,
    Udp,
    Ws,
    Wss,
}

/// The transport named by a lowercase text.
pub open spec fn transport_named(lower: Seq<char>) -> Option<TransportKind> {
    if lower == "tcp"@ {
        Some(TransportKind::Tcp)
    } else if lower == "udp"@ {
        Some(TransportKind::Udp)
    } else if lower == "ws"@ {
        Some(TransportKind::Ws)
    } else if lower == "wss"@ {
        Some(TransportKind::Wss)
    } else {
        None
    }
}

/// The error for an unknown transport, quoting the setting as written.
pub open spec fn transport_error(name: Seq<char>) -> Seq<char> {
    "Unknown transport type: "@ + name
}

impl TransportKind {
    /// The transport named by the lowercase text `lower`.
    pub fn from_lowercase(lower: &str) -> (r: Option<TransportKind>)
        ensures
            r == transport_named(lower@),
    {
        let v = chars_of(lower);
        if crate::text::chars_eq_str(&v, "tcp") {
            Some(TransportKind::Tcp)
        } else if crate::text::chars_eq_str(&v, "udp") {
            Some(TransportKind::Udp)
        } else if crate::text::chars_eq_str(&v, "ws") {
            Some(TransportKind::Ws)
        } else if crate::text::chars_eq_str(&v, "wss") {
            Some(TransportKind::Wss)
        } else {
            None
        }
    }

    /// The transport named by the setting `name`, in any letter case, or the
    /// error that quotes the setting.
    pub fn parse(name: &str) -> (r: Result<TransportKind, String>)
        ensures
            match transport_named(unicode_lowercase(name@)) {
                Some(k) => r == Ok::<TransportKind, String>(k),
                None => r matches Err(e) && e@ == transport_error(name@),
            },
    {
        let lower = to_lowercase(name);
        match Self::from_lowercase(lower.as_str()) {
            Some(k) => Ok(k),
            None => {
                let mut e = String::from_str("Unknown transport type: ");
                e.append(name);
                Err(e)
            },
        }
    }

    /// The URL a client dials for a WebSocket transport to the server at
    /// `addr` ("ws://addr" or "wss://addr"); the other transports have none.
    pub fn websocket_url(&self, addr: &str) -> (r: Option<String>)
        ensures
            match self {
                TransportKind::Ws => r matches Some(u) && u@ == "ws://"@ + addr@,
                TransportKind::Wss => r matches Some(u) && u@ == "wss://"@ + addr@,
                _ => r is None,
            },
    {
        match self {
            TransportKind::Ws => {
                let mut u = String::from_str("ws://");
                u.append(addr);
                Some(u)
            },
            TransportKind::Wss => {
                let mut u = String::from_str("wss://");
                u.append(addr);
                Some(u)
            },
            _ => None,
        }
    }
}

/// The server wraps its WebSocket listener in TLS when its transport setting
/// names "wss", in any letter case.
pub fn server_uses_tls(transport_type: &str) -> (b: bool)
    ensures
        b == (transport_named(unicode_lowercase(transport_type@)) == Some(TransportKind::Wss)),
{
    match TransportKind::parse(transport_type) {
        Ok(TransportKind::Wss) => true,
        _ => false,
    }
}

/// Each text trimmed, the empty ones left out.
pub open spec fn nonblank_trimmed(v: Seq<Seq<char>>) -> Seq<Seq<char>> {
    v.map_values(|p: Seq<char>| trim(p)).filter(|p: Seq<char>| p.len() > 0)
}

/// The entries of a comma-separated list of DNS servers: each piece trimmed,
/// the empty ones left out.
pub open spec fn dns_entries(value: Seq<char>) -> Seq<Seq<char>> {
    nonblank_trimmed(split_on(value, ','))
}

/// The entries of a list of DNS servers: each trimmed, the empty ones left out.
pub fn dns_server_list(values: &Vec<String>) -> (r: Vec<String>)
    ensures
        string_views(r@) == nonblank_trimmed(string_views(values@)),
{
    let ghost all = string_views(values@).map_values(|p: Seq<char>| trim(p));
    let ghost keep = |p: Seq<char>| p.len() > 0;
    let mut r: Vec<String> = Vec::new();
    let mut i: usize = 0;
    assert(string_views(r@) =~= all.take(0).filter(keep)) by {
        reveal(Seq::filter);
    }
    while i < values.len()
        invariant
            i <= values@.len(),
            all == string_views(values@).map_values(|p: Seq<char>| trim(p)),
            keep == (|p: Seq<char>| p.len() > 0),
            string_views(r@) == all.take(i as int).filter(keep),
        decreases values.len() - i,
    {
        let chars = chars_of(values[i].as_str());
        let t = trim_chars(chars.as_slice());
        assert(t@ == all[i as int]);
        assert(all.take(i + 1).drop_last() =~= all.take(i as int));
        assert(all.take(i + 1).last() == all[i as int]);
        let ghost before = string_views(r@);
        if t.len() > 0 {
            r.push(string_of(t.as_slice()));
            assert(string_views(r@) =~= before.push(t@));
        }
        i += 1;
        assert(string_views(r@) == all.take(i as int).filter(keep)) by {
            reveal(Seq::filter);
        }
    }
    assert(all.take(values@.len() as int) =~= all);
    r
}

/// The entries of a comma-separated list of DNS servers, in order.
pub fn split_dns_servers(value: &str) -> (r: Vec<String>)
    ensures
        string_views(r@) == dns_entries(value@),
{
    let chars = chars_of(value);
    let pieces = split_chars(chars.as_slice(), ',');
    let ghost all = split_on(value@, ',').map_values(|p: Seq<char>| trim(p));
    let ghost keep = |p: Seq<char>| p.len() > 0;
    let mut r: Vec<String> = Vec::new();
    let mut i: usize = 0;
    assert(string_views(r@) =~= all.take(0).filter(keep)) by {
        reveal(Seq::filter);
    }
    while i < pieces.len()
        invariant
            i <= pieces@.len(),
            views(pieces@) == split_on(value@, ','),
            all == split_on(value@, ',').map_values(|p: Seq<char>| trim(p)),
            keep == (|p: Seq<char>| p.len() > 0),
            string_views(r@) == all.take(i as int).filter(keep),
        decreases pieces.len() - i,
    {
        let t = trim_chars(pieces[i].as_slice());
        assert(t@ == all[i as int]);
        assert(all.take(i + 1).drop_last() =~= all.take(i as int));
        assert(all.take(i + 1).last() == all[i as int]);
        let ghost before = string_views(r@);
        if t.len() > 0 {
            r.push(string_of(t.as_slice()));
            assert(string_views(r@) =~= before.push(t@));
        }
        i += 1;
        assert(string_views(r@) == all.take(i as int).filter(keep)) by {
            reveal(Seq::filter);
        }
    }
    assert(all.take(pieces@.len() as int) =~= all);
    r
}

/// The parts of a URL a client dials: its scheme, its host, and its port
/// (the scheme's default port when the URL names none).
#[derive(Debug)]
pub struct UrlParts {
    pub scheme: String,
    pub host: Option<String>,
    pub port: Option<u16>,
}

/// A URL's parts, or a parse error's text, by their characters.
pub open spec fn parts_view(r: Result<UrlParts, String>) -> Result<
    (Seq<char>, Option<Seq<char>>, Option<u16>),
    Seq<char>,
> {
    match r {
        Ok(p) => Ok(
            (
                p.scheme@,
                match p.host {
                    Some(h) => Some(h@),
                    None => None,
                },
                p.port,
            ),
        ),
        Err(e) => Err(e@),
    }
}

/// What `url::Url::parse` makes of a text, read through the URL's `scheme`,
/// `host_str` and `port_or_known_default`; or the text of the parse error.
pub uninterp spec fn url_parts(text: Seq<char>) -> Result<
    (Seq<char>, Option<Seq<char>>, Option<u16>),
    Seq<char>,
>;

/// Calls `url::Url::parse` and reads the scheme, host and port of the URL it
/// gives, or the text of its error. All of it is named by `url_parts`.
#[verifier::external_body]
fn parse_url_parts(text: &str) -> (r: Result<UrlParts, String>)
    ensures
        parts_view(r) == url_parts(text@),
{
    match url::Url::parse(text) {
        Ok(u) => Ok(
            UrlParts {
                scheme: u.scheme().to_string(),
                host: u.host_str().map(|h| h.to_string()),
                port: u.port_or_known_default(),
            },
        ),
        Err(e) => Err(e.to_string()),
    }
}

/// Where a WebSocket client connects: the host, the port, and whether the
/// scheme is "wss" (TLS); or the error for a URL without host or port, or one
/// that does not parse.
pub open spec fn endpoint_of(
    parsed: Result<(Seq<char>, Option<Seq<char>>, Option<u16>), Seq<char>>,
) -> Result<(Seq<char>, u16, bool), Seq<char>> {
    match parsed {
        Err(e) => Err("Failed to parse URL: "@ + e),
        Ok((scheme, host, port)) => match host {
            None => Err("Missing host in URL"@),
            Some(h) => match port {
                None => Err("Missing port in URL"@),
                Some(p) => Ok((h, p, scheme == "wss"@)),
            },
        },
    }
}

/// An endpoint, or an error's text, by their characters.
pub open spec fn endpoint_view(r: Result<(String, u16, bool), String>) -> Result<
    (Seq<char>, u16, bool),
    Seq<char>,
> {
    match r {
        Ok((h, p, t)) => Ok((h@, p, t)),
        Err(e) => Err(e@),
    }
}

/// The endpoint a WebSocket client connects to, from the parts of its URL.
pub fn endpoint_from_parts(parsed: Result<UrlParts, String>) -> (r: Result<(String, u16, bool), String>)
    ensures
        endpoint_view(r) == endpoint_of(parts_view(parsed)),
{
    match parsed {
        Err(e) => {
            let mut m = String::from_str("Failed to parse URL: ");
            m.append(e.as_str());
            Err(m)
        },
        Ok(p) => match p.host {
            None => Err(String::from_str("Missing host in URL")),
            Some(h) => match p.port {
                None => Err(String::from_str("Missing port in URL")),
                Some(port) => {
                    let tls = crate::text::str_eq(p.scheme.as_str(), "wss");
                    Ok((h, port, tls))
                },
            },
        },
    }
}

/// The endpoint a WebSocket client connects to for `url`.
pub fn parse_ws_url(url: &str) -> (r: Result<(String, u16, bool), String>)
    ensures
        endpoint_view(r) == endpoint_of(url_parts(url@)),
{
    endpoint_from_parts(parse_url_parts(url))
}

} // verus!
