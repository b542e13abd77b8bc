//! Decisions of the client's transparent proxy for direct traffic: where a
//! connection goes when an upstream server is set, and the prefix length of
//! the proxy stack's netmask.

use vstd::prelude::*;
use crate::ip::Ipv4Addr;
use crate::session::PeerAddr;

verus! {

/// An IP address of either family.
#[derive(Debug, Clone, Copy, PartialEq, Eq, Structural)]
pub enum IpAddress {
    V4(Ipv4Addr),
    /// The 128-bit value of an IPv6 address.
    V6(u128),
}

/// The upstream server direct traffic is sent to, if one is set.
#[derive(Debug, Clone, Copy)]
pub struct UpstreamServer {
    pub ip: Option<IpAddress>,
}

/// The socket address `ip:port`, with no IPv6 flow information or scope.
pub open spec fn socket_at(ip: IpAddress, port: u16) -> PeerAddr {
    match ip {
        IpAddress::V4(a) => PeerAddr { ip: a.bits as u128, is_v6: false, port, flowinfo: 0, scope_id: 0 },
        IpAddress::V6(b) => PeerAddr { ip: b, is_v6: true, port, flowinfo: 0, scope_id: 0 },
    }
}

impl UpstreamServer {
    /// Direct traffic goes to `ip` when it is set, and to its own destination
    /// otherwise.
    pub fn new(ip: Option<IpAddress>) -> (u: UpstreamServer)
        ensures
            u.ip == ip,
    {
        UpstreamServer { ip }
    }

    /// Where a connection to `addr` goes: the upstream server on the same
    /// port, or `addr` itself.
    pub fn translate_socket(&self, addr: PeerAddr) -> (r: PeerAddr)
        ensures
            r == match self.ip {
                Some(ip) => socket_at(ip, addr.port),
                None => addr,
            },
    {
        match self.ip {
            Some(IpAddress::V4(a)) => PeerAddr {
                ip: a.bits as u128,
                is_v6: false,
                port: addr.port,
                flowinfo: 0,
                scope_id: 0,
            },
            Some(IpAddress::V6(b)) => PeerAddr {
                ip: b,
                is_v6: true,
                port: addr.port,
                flowinfo: 0,
                scope_id: 0,
            },
            None => addr,
        }
    }

    /// Where IPv4 traffic to `addr` goes: the upstream server, `addr` itself
    /// when none is set, or the error that holds an IPv6 upstream server.
    pub fn translate_ipv4(&self, addr: Ipv4Addr) -> (r: Result<Ipv4Addr, IpAddress>)
        ensures
            r == match self.ip {
                Some(IpAddress::V4(a)) => Ok::<Ipv4Addr, IpAddress>(a),
                Some(IpAddress::V6(b)) => Err::<Ipv4Addr, IpAddress>(IpAddress::V6(b)),
                None => Ok::<Ipv4Addr, IpAddress>(addr),
            },
    {
        match self.ip {
            Some(IpAddress::V4(a)) => Ok(a),
            Some(IpAddress::V6(b)) => Err(IpAddress::V6(b)),
            None => Ok(addr),
        }
    }
}

/// The number of one bits of `x`.
pub open spec fn one_bits(x: nat) -> nat
    decreases x,
{
    if x == 0 {
        0
    } else {
        x % 2 + one_bits(x / 2)
    }
}

/// Two to the power `k`.
pub open spec fn two_to(k: nat) -> nat
    decreases k,
{
    if k == 0 {
        1
    } else {
        2 * two_to((k - 1) as nat)
    }
}

/// A number below two to the power `k` has at most `k` one bits.
proof fn lemma_one_bits_bound(x: nat, k: nat)
    requires
        x < two_to(k),
    ensures
        one_bits(x) <= k,
    decreases k,
{
    if x > 0 {
        lemma_one_bits_bound(x / 2, (k - 1) as nat);
    }
}

/// Eight more doublings multiply by 256.
proof fn lemma_two_to_step(k: nat)
    ensures
        two_to(k + 8) == 256 * two_to(k),
{
    reveal_with_fuel(two_to, 9);
}

/// Two to the power 128.
proof fn lemma_two_to_128()
    ensures
        two_to(128) == 0x1_0000_0000_0000_0000_0000_0000_0000_0000,
{
    assert(two_to(0) == 1);
    lemma_two_to_step(0);
    lemma_two_to_step(8);
    lemma_two_to_step(16);
    lemma_two_to_step(24);
    lemma_two_to_step(32);
    lemma_two_to_step(40);
    lemma_two_to_step(48);
    lemma_two_to_step(56);
    lemma_two_to_step(64);
    lemma_two_to_step(72);
    lemma_two_to_step(80);
    lemma_two_to_step(88);
    lemma_two_to_step(96);
    lemma_two_to_step(104);
    lemma_two_to_step(112);
    lemma_two_to_step(120);
}

/// The number of one bits of `x`.
fn count_ones(x: u128) -> (n: u32)
    ensures
        n == one_bits(x as nat),
        n <= 128,
{
    proof {
        lemma_two_to_128();
        lemma_one_bits_bound(x as nat, 128);
    }
    let mut v: u128 = x;
    let mut n: u32 = 0;
    while v > 0
        invariant
            n + one_bits(v as nat) == one_bits(x as nat),
            one_bits(x as nat) <= 128,
        decreases v,
    {
        n = n + (v % 2) as u32;
        v = v / 2;
    }
    n
}

/// The prefix length of a netmask: the number of its one bits.
pub open spec fn prefix_len_of(mask: IpAddress) -> nat {
    match mask {
        IpAddress::V4(a) => one_bits(a.bits as nat),
        IpAddress::V6(b) => one_bits(b as nat),
    }
}

/// The prefix length of the netmask `mask`.
pub fn netmask_prefix_len(mask: IpAddress) -> (n: u8)
    ensures
        n == prefix_len_of(mask),
{
    match mask {
        IpAddress::V4(a) => {
            let c = count_ones(a.bits as u128);
            c as u8
        },
        IpAddress::V6(b) => {
            let c = count_ones(b);
            c as u8
        },
    }
}

} // verus!
