# easynet

A TUN tunnel with rule-based routing. The routing rules, the server's session
bookkeeping and handshake decisions, and the client's timing decisions form a
library written in Verus: each public function carries a contract, and Verus
proves the code against it.

## Layout

- `src/` — the verified library
  - `rule.rs`, `matcher.rs`, `engine.rs`: rules in compact notation
    (`DST-PORT,443,proxy`), packet matching, first-match routing
  - `geoip.rs`, `ip.rs`: the `PRIVATE` pseudo-code, country lookups in a
    MaxMind database, IPv4 addresses and networks
  - `context.rs`, `packet.rs`, `domain_cache.rs`: what a packet is (read with
    `etherparse`) and which names its destination has (learned from DNS
    answers read with `hickory-proto`)
  - `session.rs`, `server.rs`, `handshake.rs`, `message.rs`: the server's
    session table, its handshake and message decisions, and the client's check
    of the server's reply
  - `client.rs`, `config.rs`, `proxy.rs`: retry timing, keepalives, run mode,
    transports, DNS server lists, WebSocket endpoints, upstream redirection
  - `text.rs`, `decision.rs`: text helpers and routing decisions
- `tests/` — tests run against the compiled library
- `app/` — the program: settings files, the TUN device, the TCP, UDP and
  WebSocket transports, and the loops that carry out the library's decisions
