//! What the `etherparse` crate reads from the headers of an IP packet,
//! as plain values.

use vstd::prelude::*;
use etherparse::{NetSlice, SlicedPacket, TransportSlice};

verus! {

/// The network layer of a packet.
#[derive(Debug, Clone, Copy)]
pub enum NetSummary {
    /// An IPv4 header with its source and destination addresses.
    Ipv4([u8; 4], [u8; 4]),
    /// Another network layer (IPv6, ARP), or none.
    Other,
}

/// The transport layer of a packet.
#[derive(Debug, Clone)]
pub enum TransportSummary {
    /// A TCP header with its source and destination ports.
    Tcp(u16, u16),
    /// A UDP header with its source and destination ports, and the datagram's payload.
    Udp(u16, u16, Vec<u8>),
    Icmpv4,
    Icmpv6,
    /// Another transport layer (IGMP), or none.
    Other,
}

/// The transport layer as a mathematical value.
pub enum TransportModel {
    Tcp(u16, u16),
    Udp(u16, u16, Seq<u8>),
    Icmpv4,
    Icmpv6,
    Other,
}

impl View for TransportSummary {
    type V = TransportModel;

    open spec fn view(&self) -> TransportModel {
        match self {
            TransportSummary::Tcp(s, d) => TransportModel::Tcp(*s, *d),
            TransportSummary::Udp(s, d, payload) => TransportModel::Udp(*s, *d, payload@),
            TransportSummary::Icmpv4 => TransportModel::Icmpv4,
            TransportSummary::Icmpv6 => TransportModel::Icmpv6,
            TransportSummary::Other => TransportModel::Other,
        }
    }
}

/// The headers of an IP packet.
#[derive(Debug, Clone)]
pub struct PacketSummary {
    pub net: NetSummary,
    pub transport: TransportSummary,
}

/// The headers of an IP packet as a mathematical value.
pub struct PacketModel {
    pub net: NetSummary,
    pub transport: TransportModel,
}

impl View for PacketSummary {
    type V = PacketModel;

    open spec fn view(&self) -> PacketModel {
        PacketModel { net: self.net, transport: self.transport@ }
    }
}

/// What `etherparse::SlicedPacket::from_ip` reads from the bytes of an IP packet.
pub uninterp spec fn sliced_ip(packet: Seq<u8>) -> Option<PacketModel>;

/// Calls `etherparse::SlicedPacket::from_ip` on the bytes of an IP packet and
/// takes from the slices the addresses, ports and UDP payload; `None` where the
/// crate reports an error. The result is named by `sliced_ip`.
#[verifier::external_body]
pub(crate) fn slice_ip_packet(packet: &[u8]) -> (r: Option<PacketSummary>)
    ensures
        match r {
            Some(s) => sliced_ip(packet@) == Some(s@),
            None => sliced_ip(packet@) is None,
        },
{
    let s = SlicedPacket::from_ip(packet).ok()?;
    let net = match &s.net {
        Some(NetSlice::Ipv4(h)) => NetSummary::Ipv4(h.header().source(), h.header().destination()),
        _ => NetSummary::Other,
    };
    let transport = match &s.transport {
        Some(TransportSlice::Tcp(t)) => TransportSummary::Tcp(t.source_port(), t.destination_port()),
        Some(TransportSlice::Udp(u)) => TransportSummary::Udp(u.source_port(), u.destination_port(), u.payload().to_vec()),
        Some(TransportSlice::Icmpv4(_)) => TransportSummary::Icmpv4,
        Some(TransportSlice::Icmpv6(_)) => TransportSummary::Icmpv6,
        _ => TransportSummary::Other,
    };
    Some(PacketSummary { net, transport })
}

} // verus!
