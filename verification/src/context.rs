//! The facts about a packet that rules are matched against.

use vstd::prelude::*;
use vstd::string::*;
use crate::ip::{dotted, ip_of_octets, Ipv4Addr};
use crate::packet::{slice_ip_packet, sliced_ip, NetSummary, PacketModel, PacketSummary, TransportModel, TransportSummary};
use crate::rule::{protocol_text, Protocol};
use crate::text::{decimal, push_decimal};

verus! {

/// A packet seen by the rules engine: addresses, ports, protocol, and the
/// domain names its destination is known by.
#[derive(Debug, Clone)]
pub struct PacketContext {
    pub src_ip: Ipv4Addr,
    pub dst_ip: Ipv4Addr,
    pub src_port: Option<u16>,
    pub dst_port: Option<u16>,
    pub protocol: Protocol,
    pub domains: Vec<String>,
}

/// The addresses, ports and protocol of a packet whose headers were read as `m`:
/// `None` unless the packet is IPv4; ICMPv6 is not handled; a packet without a
/// recognized transport header has no ports and protocol `Other(0)`.
pub open spec fn context_fields(m: PacketModel) -> Option<
    (Ipv4Addr, Ipv4Addr, Option<u16>, Option<u16>, Protocol),
> {
    match m.net {
        NetSummary::Ipv4(s, d) => {
            let (src, dst) = (ip_of_octets(s), ip_of_octets(d));
            match m.transport {
                TransportModel::Tcp(a, b) => Some((src, dst, Some(a), Some(b), Protocol::Tcp)),
                TransportModel::Udp(a, b, _) => Some((src, dst, Some(a), Some(b), Protocol::Udp)),
                TransportModel::Icmpv4 => Some((src, dst, None, None, Protocol::Icmp)),
                TransportModel::Icmpv6 => None,
                _ => Some((src, dst, None, None, Protocol::Other(0))),
            }
        },
        _ => None,
    }
}

/// The context holds exactly these fields and no domain names.
pub open spec fn context_is(
    c: PacketContext,
    f: (Ipv4Addr, Ipv4Addr, Option<u16>, Option<u16>, Protocol),
) -> bool {
    &&& c.src_ip == f.0
    &&& c.dst_ip == f.1
    &&& c.src_port == f.2
    &&& c.dst_port == f.3
    &&& c.protocol == f.4
    &&& c.domains@.len() == 0
}

/// A port written out, or `-` when there is none.
pub open spec fn port_text(p: Option<u16>) -> Seq<char> {
    match p {
        Some(n) => decimal(n as nat),
        None => "-"@,
    }
}

/// How a packet context is displayed: `src:port -> dst:port (protocol)`.
pub open spec fn context_text(c: PacketContext) -> Seq<char> {
    dotted(c.src_ip) + ":"@ + port_text(c.src_port) + " -> "@ + dotted(c.dst_ip) + ":"@ + port_text(
        c.dst_port,
    ) + " ("@ + protocol_text(c.protocol) + ")"@
}

/// Appends a port, or `-` when there is none.
fn push_port(s: &mut String, p: Option<u16>)
    ensures
        final(s)@ == old(s)@ + port_text(p),
{
    match p {
        Some(n) => push_decimal(s, n as u64),
        None => s.append("-"),
    }
}

impl PacketContext {
    /// A context with the given addresses, ports and protocol, and no domain names.
    pub fn new(
        src_ip: Ipv4Addr,
        dst_ip: Ipv4Addr,
        src_port: Option<u16>,
        dst_port: Option<u16>,
        protocol: Protocol,
    ) -> (c: PacketContext)
        ensures
            context_is(c, (src_ip, dst_ip, src_port, dst_port, protocol)),
    {
        PacketContext { src_ip, dst_ip, src_port, dst_port, protocol, domains: Vec::new() }
    }

    /// The same context, known by the domain names `domains`.
    pub fn with_domains(self, domains: Vec<String>) -> (c: PacketContext)
        ensures
            c.src_ip == self.src_ip,
            c.dst_ip == self.dst_ip,
            c.src_port == self.src_port,
            c.dst_port == self.dst_port,
            c.protocol == self.protocol,
            c.domains@ == domains@,
    {
        let mut c = self;
        c.domains = domains;
        c
    }

    /// The context of a packet whose headers were read as `summary`.
    pub fn from_summary(summary: &PacketSummary) -> (c: Option<PacketContext>)
        ensures
            match context_fields(summary@) {
                Some(f) => c matches Some(ctx) && context_is(ctx, f),
                None => c is None,
            },
    {
        match &summary.net {
            NetSummary::Ipv4(s, d) => {
                let src = Ipv4Addr::from_octets(*s);
                let dst = Ipv4Addr::from_octets(*d);
                match &summary.transport {
                    TransportSummary::Tcp(a, b) => Some(
                        PacketContext::new(src, dst, Some(*a), Some(*b), Protocol::Tcp),
                    ),
                    TransportSummary::Udp(a, b, _) => Some(
                        PacketContext::new(src, dst, Some(*a), Some(*b), Protocol::Udp),
                    ),
                    TransportSummary::Icmpv4 => Some(
                        PacketContext::new(src, dst, None, None, Protocol::Icmp),
                    ),
                    TransportSummary::Icmpv6 => None,
                    _ => Some(PacketContext::new(src, dst, None, None, Protocol::Other(0))),
                }
            },
            _ => None,
        }
    }

    /// The context of the IP packet `data`, or `None` where it is not an IPv4
    /// packet that `etherparse` reads.
    pub fn from_ip_packet(data: &[u8]) -> (c: Option<PacketContext>)
        ensures
            match sliced_ip(data@) {
                None => c is None,
                Some(m) => match context_fields(m) {
                    Some(f) => c matches Some(ctx) && context_is(ctx, f),
                    None => c is None,
                },
            },
    {
        match slice_ip_packet(data) {
            Some(summary) => Self::from_summary(&summary),
            None => None,
        }
    }

    /// The context displayed as `src:port -> dst:port (protocol)`.
    pub fn to_display_string(&self) -> (s: String)
        ensures
            s@ == context_text(*self),
    {
        let mut s = self.src_ip.to_dotted_string();
        s.append(":");
        push_port(&mut s, self.src_port);
        s.append(" -> ");
        let d = self.dst_ip.to_dotted_string();
        s.append(d.as_str());
        s.append(":");
        push_port(&mut s, self.dst_port);
        s.append(" (");
        let p = self.protocol.to_display_string();
        s.append(p.as_str());
        s.append(")");
        s
    }
}

/// A TCP or UDP packet's context takes the ports in the order the header
/// gives them: the port the packet was sent from is the source port, the port
/// it is sent to the destination port, beside the source and destination
/// addresses in the same order.
pub proof fn lemma_context_keeps_direction(m: PacketModel)
    requires
        m.net is Ipv4,
    ensures
        match (m.net, m.transport) {
            (NetSummary::Ipv4(s, d), TransportModel::Tcp(a, b)) => context_fields(m) matches Some(f)
                && f.0 == ip_of_octets(s) && f.1 == ip_of_octets(d) && f.2 == Some(a) && f.3 == Some(b)
                && f.4 == Protocol::Tcp,
            (NetSummary::Ipv4(s, d), TransportModel::Udp(a, b, _)) => context_fields(m) matches Some(f)
                && f.0 == ip_of_octets(s) && f.1 == ip_of_octets(d) && f.2 == Some(a) && f.3 == Some(b)
                && f.4 == Protocol::Udp,
            _ => true,
        },
{
}

} // verus!
