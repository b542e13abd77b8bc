//! IPv4 addresses: octets, the reserved ranges that count as private, CIDR
//! membership and dotted-decimal notation.

use vstd::prelude::*;
use vstd::string::*;
use crate::text::{
    all_digits, chars_of, decimal, digits_at_most, digits_value, push_decimal, split_chars, split_on,
    views,
};

verus! {

/// An IPv4 address, held as its 32-bit big-endian value.
#[derive(Debug, Clone, Copy, PartialEq, Eq, Structural, Hash)]
pub struct Ipv4Addr {
    pub bits: u32,
}

/// The 32-bit value of the address `a.b.c.d`.
pub open spec fn ipv4_value(a: u8, b: u8, c: u8, d: u8) -> u32 {
    (a * 16777216 + b * 65536 + c * 256 + d) as u32
}

/// The octets of `a.b.c.d` are `a`, `b`, `c` and `d`.
proof fn lemma_ipv4_octets(a: u8, b: u8, c: u8, d: u8)
    by (bit_vector)
    ensures
        ((a as u32) * 16777216 + (b as u32) * 65536 + (c as u32) * 256 + (d as u32)) / 16777216 == a,
        (((a as u32) * 16777216 + (b as u32) * 65536 + (c as u32) * 256 + (d as u32)) / 65536) % 256
            == b,
        (((a as u32) * 16777216 + (b as u32) * 65536 + (c as u32) * 256 + (d as u32)) / 256) % 256
            == c,
        ((a as u32) * 16777216 + (b as u32) * 65536 + (c as u32) * 256 + (d as u32)) % 256 == d,
        (a as u32) * 16777216 + (b as u32) * 65536 + (c as u32) * 256 + (d as u32) <= 0xFFFF_FFFF,
{
}

/// The octets of the address with value `ipv4_value(a, b, c, d)` are `a`,
/// `b`, `c` and `d`.
pub proof fn lemma_octets_of_value(a: u8, b: u8, c: u8, d: u8)
    ensures
        ({
            let ip = Ipv4Addr { bits: ipv4_value(a, b, c, d) };
            ip.octet(0) == a && ip.octet(1) == b && ip.octet(2) == c && ip.octet(3) == d
        }),
{
    lemma_ipv4_octets(a, b, c, d);
}

impl Ipv4Addr {
    /// Octet `i` (0 is the most significant).
    pub open spec fn octet(self, i: int) -> int {
        let b = self.bits as int;
        if i == 0 {
            b / 16777216
        } else if i == 1 {
            (b / 65536) % 256
        } else if i == 2 {
            (b / 256) % 256
        } else {
            b % 256
        }
    }

    /// The address `a.b.c.d`.
    pub fn new(a: u8, b: u8, c: u8, d: u8) -> (ip: Ipv4Addr)
        ensures
            ip.bits == ipv4_value(a, b, c, d),
            ip.octet(0) == a,
            ip.octet(1) == b,
            ip.octet(2) == c,
            ip.octet(3) == d,
    {
        proof {
            lemma_ipv4_octets(a, b, c, d);
        }
        let bits: u32 = (a as u32) * 16777216 + (b as u32) * 65536 + (c as u32) * 256 + (d as u32);
        Ipv4Addr { bits }
    }

    /// The address with 32-bit value `bits`.
    pub fn from_bits(bits: u32) -> (ip: Ipv4Addr)
        ensures
            ip.bits == bits,
    {
        Ipv4Addr { bits }
    }

    /// The four octets, most significant first.
    pub fn octets(&self) -> (o: [u8; 4])
        ensures
            o@[0] == self.octet(0),
            o@[1] == self.octet(1),
            o@[2] == self.octet(2),
            o@[3] == self.octet(3),
    {
        let x = self.bits;
        let a = (x / 16777216) as u8;
        let b = ((x / 65536) % 256) as u8;
        let c = ((x / 256) % 256) as u8;
        let d = (x % 256) as u8;
        [a, b, c, d]
    }
}

/// `ip` lies in one of the ranges `Ipv4Addr::is_private` documents
/// (10.0.0.0/8, 172.16.0.0/12, 192.168.0.0/16).
pub open spec fn rfc1918(ip: Ipv4Addr) -> bool {
    ||| ip.octet(0) == 10
    ||| ip.octet(0) == 172 && 16 <= ip.octet(1) <= 31
    ||| ip.octet(0) == 192 && ip.octet(1) == 168
}

/// `ip` lies in the shared address space of carrier-grade NAT (100.64.0.0/10).
pub open spec fn cgnat(ip: Ipv4Addr) -> bool {
    ip.octet(0) == 100 && 64 <= ip.octet(1) <= 127
}

/// `ip` is not publicly routable: private, loopback, link-local, unspecified,
/// broadcast, multicast or carrier-grade NAT.
pub open spec fn private_spec(ip: Ipv4Addr) -> bool {
    ||| rfc1918(ip)
    ||| ip.octet(0) == 127
    ||| ip.octet(0) == 169 && ip.octet(1) == 254
    ||| ip.bits == 0
    ||| ip.bits == 0xFFFF_FFFF
    ||| 224 <= ip.octet(0) <= 239
    ||| cgnat(ip)
}

/// Whether `ip` is in the carrier-grade NAT range 100.64.0.0/10.
pub fn is_cgnat(ip: Ipv4Addr) -> (b: bool)
    ensures
        b == cgnat(ip),
{
    let o = ip.octets();
    o[0] == 100 && 64 <= o[1] && o[1] <= 127
}

/// Whether `ip` counts as private for the `PRIVATE` country pseudo-code.
pub fn is_private_ip(ip: Ipv4Addr) -> (b: bool)
    ensures
        b == private_spec(ip),
{
    let o = ip.octets();
    let private = o[0] == 10 || (o[0] == 172 && 16 <= o[1] && o[1] <= 31) || (o[0] == 192 && o[1]
        == 168);
    let loopback = o[0] == 127;
    let link_local = o[0] == 169 && o[1] == 254;
    let unspecified = ip.bits == 0;
    let broadcast = ip.bits == 0xFFFF_FFFF;
    let multicast = 224 <= o[0] && o[0] <= 239;
    private || loopback || link_local || unspecified || broadcast || multicast || is_cgnat(ip)
}

/// `ip` lies in the network `net/prefix`: their first `prefix` bits agree.
pub open spec fn cidr_contains_spec(net: u32, prefix: u8, ip: u32) -> bool {
    prefix == 0 || (ip >> ((32 - prefix) as u32)) == (net >> ((32 - prefix) as u32))
}

/// Whether `ip` lies in `net/prefix` (`Ipv4Network::contains`).
pub fn cidr_contains(net: u32, prefix: u8, ip: u32) -> (b: bool)
    requires
        prefix <= 32,
    ensures
        b == cidr_contains_spec(net, prefix, ip),
{
    if prefix == 0 {
        true
    } else {
        let shift: u32 = (32 - prefix) as u32;
        (ip >> shift) == (net >> shift)
    }
}

/// The address in dotted-decimal notation.
pub open spec fn dotted(ip: Ipv4Addr) -> Seq<char> {
    decimal(ip.octet(0) as nat) + "."@ + decimal(ip.octet(1) as nat) + "."@ + decimal(
        ip.octet(2) as nat,
    ) + "."@ + decimal(ip.octet(3) as nat)
}

impl Ipv4Addr {
    /// The address in dotted-decimal notation, such as `192.168.1.1`.
    pub fn to_dotted_string(&self) -> (s: String)
        ensures
            s@ == dotted(*self),
    {
        let o = self.octets();
        let mut s = String::new();
        push_decimal(&mut s, o[0] as u64);
        s.append(".");
        push_decimal(&mut s, o[1] as u64);
        s.append(".");
        push_decimal(&mut s, o[2] as u64);
        s.append(".");
        push_decimal(&mut s, o[3] as u64);
        s
    }
}

/// An octet written as std's address parser accepts it: one to three digits,
/// no leading zero, at most 255.
pub open spec fn octet_text(p: Seq<char>) -> bool {
    &&& all_digits(p)
    &&& p.len() <= 3
    &&& (p.len() == 1 || p[0] != '0')
    &&& digits_value(p) <= 255
}

/// The address written in dotted-decimal notation as `s`, in the form that
/// `std::net::Ipv4Addr::from_str` accepts.
pub open spec fn ipv4_text(s: Seq<char>) -> Option<Ipv4Addr> {
    let ps = split_on(s, '.');
    if ps.len() == 4 && octet_text(ps[0]) && octet_text(ps[1]) && octet_text(ps[2]) && octet_text(
        ps[3],
    ) {
        Some(
            Ipv4Addr {
                bits: ipv4_value(
                    digits_value(ps[0]) as u8,
                    digits_value(ps[1]) as u8,
                    digits_value(ps[2]) as u8,
                    digits_value(ps[3]) as u8,
                ),
            },
        )
    } else {
        None
    }
}

/// Reads one octet of a dotted-decimal address.
fn parse_octet(p: &[char]) -> (r: Option<u8>)
    ensures
        match r {
            Some(v) => octet_text(p@) && v == digits_value(p@),
            None => !octet_text(p@),
        },
{
    if p.len() == 0 || p.len() > 3 || (p.len() > 1 && p[0] == '0') {
        return None;
    }
    assert(p@.subrange(0, p@.len() as int) == p@);
    match digits_at_most(p, 0, p.len(), 255) {
        Some(v) => Some(v as u8),
        None => None,
    }
}

/// Reads an address in dotted-decimal notation, as `std::net::Ipv4Addr::from_str` does.
pub fn parse_ipv4(s: &str) -> (r: Option<Ipv4Addr>)
    ensures
        r == ipv4_text(s@),
{
    let chars = chars_of(s);
    let ps = split_chars(&chars, '.');
    if ps.len() != 4 {
        return None;
    }
    assert(views(ps@)[0] == ps@[0]@ && views(ps@)[1] == ps@[1]@ && views(ps@)[2] == ps@[2]@
        && views(ps@)[3] == ps@[3]@);
    let a = parse_octet(ps[0].as_slice());
    let b = parse_octet(ps[1].as_slice());
    let c = parse_octet(ps[2].as_slice());
    let d = parse_octet(ps[3].as_slice());
    match (a, b, c, d) {
        (Some(a), Some(b), Some(c), Some(d)) => Some(Ipv4Addr::new(a, b, c, d)),
        _ => None,
    }
}

/// The address and prefix length that `ipnetwork::Ipv4Network::from_str` reads from a string.
pub uninterp spec fn ipv4_network_parse(s: Seq<char>) -> Option<(u32, u8)>;

/// Calls `<ipnetwork::Ipv4Network as FromStr>::from_str` and takes the address and
/// prefix of the network; the result is named by `ipv4_network_parse`. The crate
/// builds every network through `Ipv4Network::new_checked`, which refuses a prefix
/// over 32.
#[verifier::external_body]
pub(crate) fn parse_ipv4_network(s: &str) -> (r: Option<(u32, u8)>)
    ensures
        r == ipv4_network_parse(s@),
        r matches Some((_, p)) ==> p <= 32,
{
    match s.parse::<ipnetwork::Ipv4Network>() {
        Ok(network) => Some((u32::from(network.ip()), network.prefix())),
        Err(_) => None,
    }
}

/// The address with octets `o`, most significant first.
pub open spec fn ip_of_octets(o: [u8; 4]) -> Ipv4Addr {
    Ipv4Addr { bits: ipv4_value(o[0], o[1], o[2], o[3]) }
}

impl Ipv4Addr {
    /// The address with octets `o`, most significant first (`Ipv4Addr::from([u8; 4])`).
    pub fn from_octets(o: [u8; 4]) -> (ip: Ipv4Addr)
        ensures
            ip == ip_of_octets(o),
    {
        Ipv4Addr::new(o[0], o[1], o[2], o[3])
    }
}

/// `ip` lies in the network `a.b.c.d/prefix`, as a CIDR condition reads it.
pub open spec fn in_block(ip: Ipv4Addr, a: u8, b: u8, c: u8, d: u8, prefix: u8) -> bool {
    cidr_contains_spec(ipv4_value(a, b, c, d), prefix, ip.bits)
}

/// The leading bits of an address that fix each reserved block, read as octets.
proof fn lemma_block_bits(x: u32)
    by (bit_vector)
    ensures
        (x >> 24u32 == 0x0A00_0000u32 >> 24u32) <==> x / 16777216 == 10,
        (x >> 20u32 == 0xAC10_0000u32 >> 20u32) <==> (x / 16777216 == 172 && 16 <= (x / 65536) % 256
            && (x / 65536) % 256 <= 31),
        (x >> 16u32 == 0xC0A8_0000u32 >> 16u32) <==> (x / 16777216 == 192 && (x / 65536) % 256
            == 168),
        (x >> 24u32 == 0x7F00_0000u32 >> 24u32) <==> x / 16777216 == 127,
        (x >> 16u32 == 0xA9FE_0000u32 >> 16u32) <==> (x / 16777216 == 169 && (x / 65536) % 256
            == 254),
        (x >> 28u32 == 0xE000_0000u32 >> 28u32) <==> (224 <= x / 16777216 && x / 16777216 <= 239),
        (x >> 22u32 == 0x6440_0000u32 >> 22u32) <==> (x / 16777216 == 100 && 64 <= (x / 65536) % 256
            && (x / 65536) % 256 <= 127),
{
}

/// The addresses that count as private for the `PRIVATE` code are exactly
/// those of the reserved blocks: 10.0.0.0/8, 172.16.0.0/12 and 192.168.0.0/16,
/// loopback 127.0.0.0/8, link-local 169.254.0.0/16, multicast 224.0.0.0/4,
/// carrier-grade NAT 100.64.0.0/10, and the unspecified and broadcast
/// addresses.
pub proof fn lemma_private_blocks(ip: Ipv4Addr)
    ensures
        private_spec(ip) <==> {
            ||| in_block(ip, 10, 0, 0, 0, 8)
            ||| in_block(ip, 172, 16, 0, 0, 12)
            ||| in_block(ip, 192, 168, 0, 0, 16)
            ||| in_block(ip, 127, 0, 0, 0, 8)
            ||| in_block(ip, 169, 254, 0, 0, 16)
            ||| in_block(ip, 224, 0, 0, 0, 4)
            ||| in_block(ip, 100, 64, 0, 0, 10)
            ||| ip.bits == 0
            ||| ip.bits == 0xFFFF_FFFFu32
        },
{
    let x = ip.bits;
    lemma_block_bits(x);
    assert(ipv4_value(10, 0, 0, 0) == 0x0A00_0000u32);
    assert(ipv4_value(172, 16, 0, 0) == 0xAC10_0000u32);
    assert(ipv4_value(192, 168, 0, 0) == 0xC0A8_0000u32);
    assert(ipv4_value(127, 0, 0, 0) == 0x7F00_0000u32);
    assert(ipv4_value(169, 254, 0, 0) == 0xA9FE_0000u32);
    assert(ipv4_value(224, 0, 0, 0) == 0xE000_0000u32);
    assert(ipv4_value(100, 64, 0, 0) == 0x6440_0000u32);
    assert(ip.octet(0) == (x / 16777216) as int);
    assert(ip.octet(1) == ((x / 65536) % 256) as int);
}

/// Network membership as a CIDR condition reads it: every address lies in a
/// network of prefix 0, only the address itself in one of prefix 32, and an
/// address in a network lies in every shorter-prefix network around it.
pub proof fn lemma_cidr_prefixes(net: u32, prefix: u8, shorter: u8, ip: u32)
    requires
        shorter <= prefix <= 32,
    ensures
        cidr_contains_spec(net, 0, ip),
        cidr_contains_spec(net, 32, ip) <==> ip == net,
        cidr_contains_spec(net, prefix, ip) ==> cidr_contains_spec(net, shorter, ip),
{
    lemma_shift_zero(net, ip);
    if shorter > 0 && cidr_contains_spec(net, prefix, ip) {
        let s1 = (32 - prefix) as u32;
        let s2 = (32 - shorter) as u32;
        lemma_shift_coarser(net, ip, s1, s2);
    }
}

/// Shifting by nothing changes no address.
proof fn lemma_shift_zero(net: u32, ip: u32)
    by (bit_vector)
    ensures
        (ip >> 0u32 == net >> 0u32) <==> ip == net,
{
}

/// Addresses that agree above bit `s1` agree above any higher bit `s2`.
proof fn lemma_shift_coarser(net: u32, ip: u32, s1: u32, s2: u32)
    by (bit_vector)
    requires
        s1 <= s2 < 32,
        ip >> s1 == net >> s1,
    ensures
        ip >> s2 == net >> s2,
{
}

} // verus!
