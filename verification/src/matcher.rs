//! Whether a packet meets the conditions of a rule.

use vstd::prelude::*;
use vstd::string::*;
use crate::context::PacketContext;
use crate::geoip::{geo_answer, GeoIpMatcher};
use crate::ip::{cidr_contains, cidr_contains_spec, ipv4_network_parse, ipv4_text, parse_ipv4, parse_ipv4_network, Ipv4Addr};
use crate::rule::{protocol_named, unicode_lowercase, Protocol, Rule, RuleModel};
use crate::text::{
    string_views,
    append_chars, chars_contain, chars_end_with, chars_eq, chars_of, contains_seq, ends_with, parse_u16,
    split_chars, split_on, trim, trim_chars, u16_text, views,
};

verus! {

broadcast use vstd::std_specs::vec::group_vec_axioms;

/// The port range written as `N` or `N-M`, with surrounding white space allowed.
pub open spec fn port_range_spec(s: Seq<char>) -> Result<(u16, u16), Seq<char>> {
    let ps = split_on(trim(s), '-');
    let err = "invalid port range '"@ + s + "'"@;
    if ps.len() == 1 {
        match u16_text(trim(ps[0])) {
            Some(p) => Ok((p, p)),
            None => Err(err),
        }
    } else if ps.len() == 2 {
        match (u16_text(trim(ps[0])), u16_text(trim(ps[1]))) {
            (Some(a), Some(b)) => if a <= b {
                Ok((a, b))
            } else {
                Err(err)
            },
            _ => Err(err),
        }
    } else {
        Err(err)
    }
}

/// Reads a port or port range: `80`, or `8000-9000` (bounds included, start not
/// above end).
pub fn parse_port_range(port_spec: &str) -> (r: Result<(u16, u16), String>)
    ensures
        match r {
            Ok(range) => port_range_spec(port_spec@) == Ok::<(u16, u16), Seq<char>>(range),
            Err(e) => port_range_spec(port_spec@) == Err::<(u16, u16), Seq<char>>(e@),
        },
{
    let chars = chars_of(port_spec);
    let t = trim_chars(&chars);
    let ps = split_chars(&t, '-');
    let ghost pv = views(ps@);
    let mut err = String::from_str("invalid port range '");
    append_chars(&mut err, &chars);
    err.append("'");
    if ps.len() == 1 {
        assert(pv[0] == ps@[0]@);
        let a = trim_chars(ps[0].as_slice());
        match parse_u16(&a) {
            Some(p) => Ok((p, p)),
            None => Err(err),
        }
    } else if ps.len() == 2 {
        assert(pv[0] == ps@[0]@ && pv[1] == ps@[1]@);
        let a = trim_chars(ps[0].as_slice());
        let b = trim_chars(ps[1].as_slice());
        match (parse_u16(&a), parse_u16(&b)) {
            (Some(x), Some(y)) => if x <= y {
                Ok((x, y))
            } else {
                Err(err)
            },
            _ => Err(err),
        }
    } else {
        Err(err)
    }
}

/// `ip` matches the address or network written as `cidr`.
pub open spec fn ip_matches(cidr: Seq<char>, ip: Ipv4Addr) -> bool {
    match ipv4_network_parse(cidr) {
        Some((net, prefix)) => cidr_contains_spec(net, prefix, ip.bits),
        None => ipv4_text(cidr) == Some(ip),
    }
}

/// The packet port lies in the range written as `port_spec`.
pub open spec fn port_matches(port_spec: Seq<char>, port: Option<u16>) -> bool {
    match port {
        None => false,
        Some(p) => match port_range_spec(port_spec) {
            Ok((start, end)) => start <= p <= end,
            Err(_) => false,
        },
    }
}

/// The packet protocol is the one named by `proto`.
pub open spec fn protocol_matches(proto: Seq<char>, packet_proto: Protocol) -> bool {
    match protocol_named(unicode_lowercase(proto)) {
        Some(p) => p == packet_proto,
        None => false,
    }
}

/// One of the domain names is `domain`.
pub open spec fn domain_listed(domain: Seq<char>, domains: Seq<Seq<char>>) -> bool {
    exists|i: int| 0 <= i < domains.len() && #[trigger] domains[i] == domain
}

/// One of the domain names is `suffix` or a subdomain of it.
pub open spec fn suffix_listed(suffix: Seq<char>, domains: Seq<Seq<char>>) -> bool {
    exists|i: int|
        0 <= i < domains.len() && (#[trigger] domains[i] == suffix || ends_with(
            domains[i],
            "."@ + suffix,
        ))
}

/// One of the domain names holds `keyword`.
pub open spec fn keyword_listed(keyword: Seq<char>, domains: Seq<Seq<char>>) -> bool {
    exists|i: int| 0 <= i < domains.len() && contains_seq(#[trigger] domains[i], keyword)
}

/// The packet meets every condition of the rule other than its country.
pub open spec fn base_conditions(m: RuleModel, p: PacketContext) -> bool {
    let ds = string_views(p.domains@);
    &&& match m.src_ip_cidr {
        Some(c) => ip_matches(c, p.src_ip),
        None => true,
    }
    &&& match m.dst_ip_cidr {
        Some(c) => ip_matches(c, p.dst_ip),
        None => true,
    }
    &&& match m.src_port {
        Some(s) => port_matches(s, p.src_port),
        None => true,
    }
    &&& match m.dst_port {
        Some(s) => port_matches(s, p.dst_port),
        None => true,
    }
    &&& match m.proto {
        Some(s) => protocol_matches(s, p.protocol),
        None => true,
    }
    &&& match m.domain {
        Some(d) => domain_listed(d, ds),
        None => true,
    }
    &&& match m.domain_suffix {
        Some(d) => suffix_listed(d, ds),
        None => true,
    }
    &&& match m.domain_keyword {
        Some(d) => keyword_listed(d, ds),
        None => true,
    }
}

/// The answer of a rule's country condition for a packet sent to `ip`, for a
/// matcher whose database is read from `db`: a rule without one has nothing
/// to ask.
pub open spec fn rule_answer(db: Option<Seq<u8>>, ip: Ipv4Addr, code: Option<Seq<char>>) -> bool {
    match code {
        None => true,
        Some(c) => geo_answer(db, ip, c),
    }
}

/// Whether a packet matches a rule, given the answer of the country lookup.
pub open spec fn rule_outcome(m: RuleModel, p: PacketContext, geo: bool) -> bool {
    base_conditions(m, p) && (m.geoip is None || geo)
}

/// Matching of packets against rule conditions.
pub struct Matcher;

/// Whether the characters of `s` are `v`.
fn string_is(s: &String, v: &[char]) -> (r: bool)
    ensures
        r == (s@ == v@),
{
    let c = chars_of(s.as_str());
    chars_eq(&c, v)
}

impl Matcher {
    /// Whether `packet` meets every condition of `rule`.
    pub fn matches(rule: &Rule, packet: &PacketContext, geoip: &GeoIpMatcher) -> (b: bool)
        ensures
            b == rule_outcome(rule@, *packet, rule_answer(geoip.database(), packet.dst_ip, rule@.geoip)),
    {
        let base = Self::matches_base(rule, packet);
        match &rule.geoip {
            None => base,
            Some(code) => {
                if !base {
                    return false;
                }
                geoip.matches(packet.dst_ip, code.as_str())
            },
        }
    }

    /// Whether `packet` meets every condition of `rule` other than the country.
    fn matches_base(rule: &Rule, packet: &PacketContext) -> (b: bool)
        ensures
            b == base_conditions(rule@, *packet),
    {
        if let Some(src_ip) = &rule.src_ip_cidr {
            if !Self::matches_ip(src_ip.as_str(), packet.src_ip) {
                return false;
            }
        }
        if let Some(dst_ip) = &rule.dst_ip_cidr {
            if !Self::matches_ip(dst_ip.as_str(), packet.dst_ip) {
                return false;
            }
        }
        if let Some(src_port) = &rule.src_port {
            if !Self::matches_port(src_port.as_str(), packet.src_port) {
                return false;
            }
        }
        if let Some(dst_port) = &rule.dst_port {
            if !Self::matches_port(dst_port.as_str(), packet.dst_port) {
                return false;
            }
        }
        if let Some(proto) = &rule.proto {
            if !Self::matches_protocol(proto.as_str(), packet.protocol) {
                return false;
            }
        }
        if let Some(domain) = &rule.domain {
            if !Self::matches_domain(domain.as_str(), packet.domains.as_slice()) {
                return false;
            }
        }
        if let Some(suffix) = &rule.domain_suffix {
            if !Self::matches_domain_suffix(suffix.as_str(), packet.domains.as_slice()) {
                return false;
            }
        }
        if let Some(keyword) = &rule.domain_keyword {
            if !Self::matches_domain_keyword(keyword.as_str(), packet.domains.as_slice()) {
                return false;
            }
        }
        true
    }

    /// Whether `ip` lies in the network written as `cidr`, or, where `cidr` is
    /// no network, is the address written as `cidr`.
    pub fn matches_ip(cidr: &str, ip: Ipv4Addr) -> (b: bool)
        ensures
            b == ip_matches(cidr@, ip),
    {
        match parse_ipv4_network(cidr) {
            Some((net, prefix)) => cidr_contains(net, prefix, ip.bits),
            None => match parse_ipv4(cidr) {
                Some(addr) => addr == ip,
                None => false,
            },
        }
    }

    /// Whether the packet port lies in the range written as `port_spec`; a packet
    /// without a port never does.
    pub fn matches_port(port_spec: &str, packet_port: Option<u16>) -> (b: bool)
        ensures
            b == port_matches(port_spec@, packet_port),
    {
        let port = match packet_port {
            Some(p) => p,
            None => return false,
        };
        match parse_port_range(port_spec) {
            Ok((start, end)) => start <= port && port <= end,
            Err(_) => false,
        }
    }

    /// Whether the packet protocol is the one named by `proto_str`, in any letter case.
    pub fn matches_protocol(proto_str: &str, packet_proto: Protocol) -> (b: bool)
        ensures
            b == protocol_matches(proto_str@, packet_proto),
    {
        match Protocol::from_str(proto_str) {
            Some(proto) => proto == packet_proto,
            None => false,
        }
    }

    /// Whether one of the packet's domain names is exactly `domain`.
    pub fn matches_domain(domain: &str, packet_domains: &[String]) -> (b: bool)
        ensures
            b == domain_listed(domain@, string_views(packet_domains@)),
    {
        let d = chars_of(domain);
        let ghost ds = string_views(packet_domains@);
        let mut i: usize = 0;
        while i < packet_domains.len()
            invariant
                i <= packet_domains@.len(),
                ds == string_views(packet_domains@),
                d@ == domain@,
                forall|k: int| 0 <= k < i ==> #[trigger] ds[k] != domain@,
            decreases packet_domains.len() - i,
        {
            if string_is(&packet_domains[i], &d) {
                assert(ds[i as int] == domain@);
                return true;
            }
            i += 1;
        }
        false
    }

    /// Whether one of the packet's domain names is `suffix` or a subdomain of it.
    pub fn matches_domain_suffix(suffix: &str, packet_domains: &[String]) -> (b: bool)
        ensures
            b == suffix_listed(suffix@, string_views(packet_domains@)),
    {
        let s = chars_of(suffix);
        let mut dotted: Vec<char> = Vec::new();
        dotted.push('.');
        let mut i: usize = 0;
        while i < s.len()
            invariant
                i <= s@.len(),
                dotted@ == seq!['.'] + s@.take(i as int),
            decreases s.len() - i,
        {
            dotted.push(s[i]);
            i += 1;
            assert(dotted@ =~= seq!['.'] + s@.take(i as int));
        }
        proof {
            reveal_strlit(".");
            assert(s@.take(s@.len() as int) =~= s@);
            assert(dotted@ =~= "."@ + suffix@);
        }
        let ghost ds = string_views(packet_domains@);
        let mut j: usize = 0;
        while j < packet_domains.len()
            invariant
                j <= packet_domains@.len(),
                ds == string_views(packet_domains@),
                s@ == suffix@,
                dotted@ == "."@ + suffix@,
                forall|k: int|
                    0 <= k < j ==> !(#[trigger] ds[k] == suffix@ || ends_with(ds[k], "."@ + suffix@)),
            decreases packet_domains.len() - j,
        {
            let v = chars_of(packet_domains[j].as_str());
            assert(v@ == ds[j as int]);
            if chars_eq(&v, &s) || chars_end_with(&v, &dotted) {
                return true;
            }
            j += 1;
        }
        false
    }

    /// Whether one of the packet's domain names holds `keyword`.
    pub fn matches_domain_keyword(keyword: &str, packet_domains: &[String]) -> (b: bool)
        ensures
            b == keyword_listed(keyword@, string_views(packet_domains@)),
    {
        let k = chars_of(keyword);
        let ghost ds = string_views(packet_domains@);
        let mut j: usize = 0;
        while j < packet_domains.len()
            invariant
                j <= packet_domains@.len(),
                ds == string_views(packet_domains@),
                k@ == keyword@,
                forall|m: int| 0 <= m < j ==> !contains_seq(#[trigger] ds[m], keyword@),
            decreases packet_domains.len() - j,
        {
            let v = chars_of(packet_domains[j].as_str());
            assert(v@ == ds[j as int]);
            if chars_contain(&v, &k) {
                return true;
            }
            j += 1;
        }
        false
    }
}

/// A suffix rule covers the domain itself and every subdomain of it: a
/// packet known by `suffix`, or by any name that ends in "." and `suffix`,
/// matches it.
pub proof fn lemma_suffix_covers_subdomains(suffix: Seq<char>, label: Seq<char>, domains: Seq<Seq<char>>)
    requires
        domains.contains(suffix) || domains.contains(label + "."@ + suffix),
    ensures
        suffix_listed(suffix, domains),
{
    let name = label + "."@ + suffix;
    if domains.contains(suffix) {
        let i = choose|i: int| 0 <= i < domains.len() && domains[i] == suffix;
        assert(domains[i] == suffix);
    } else {
        let i = choose|i: int| 0 <= i < domains.len() && domains[i] == name;
        let tail = "."@ + suffix;
        assert(name == label + tail);
        assert(name.subrange(name.len() - tail.len(), name.len() as int) =~= tail);
        assert(ends_with(domains[i], tail));
    }
}

/// A suffix rule covers nothing but the domain itself and its subdomains: it
/// matches only a packet known by `suffix`, or by a name made of some label,
/// a dot and `suffix`; a parent domain of `suffix` does not match it.
pub proof fn lemma_suffix_only_subdomains(suffix: Seq<char>, domains: Seq<Seq<char>>)
    requires
        suffix_listed(suffix, domains),
    ensures
        domains.contains(suffix) || exists|label: Seq<char>| domains.contains(label + "."@ + suffix),
{
    let i = choose|i: int|
        0 <= i < domains.len() && (#[trigger] domains[i] == suffix || ends_with(domains[i], "."@ + suffix));
    let name = domains[i];
    if name == suffix {
        assert(domains.contains(suffix));
    } else {
        let tail = "."@ + suffix;
        let label = name.subrange(0, name.len() - tail.len());
        assert(name =~= label + tail);
        assert(label + "."@ + suffix =~= label + tail);
        assert(domains.contains(label + "."@ + suffix));
    }
}

/// A DOMAIN condition holds exactly when the packet is known by that very name.
pub proof fn lemma_domain_is_exact(domain: Seq<char>, domains: Seq<Seq<char>>)
    ensures
        domain_listed(domain, domains) <==> domains.contains(domain),
{
    if domains.contains(domain) {
        let i = choose|i: int| 0 <= i < domains.len() && domains[i] == domain;
        assert(domains[i] == domain);
    }
}

/// A DOMAIN-KEYWORD condition holds exactly when some name the packet is
/// known by is made of some text, the keyword, and some more text.
pub proof fn lemma_keyword_is_infix(keyword: Seq<char>, domains: Seq<Seq<char>>)
    ensures
        keyword_listed(keyword, domains) <==> exists|pre: Seq<char>, post: Seq<char>|
            domains.contains(#[trigger] (pre + keyword + post)),
{
    if keyword_listed(keyword, domains) {
        let i = choose|i: int| 0 <= i < domains.len() && contains_seq(#[trigger] domains[i], keyword);
        let n = domains[i];
        let k = choose|k: int|
            0 <= k <= n.len() - keyword.len() && #[trigger] n.subrange(k, k + keyword.len()) == keyword;
        let pre = n.subrange(0, k);
        let post = n.subrange(k + keyword.len(), n.len() as int);
        assert(n =~= pre + keyword + post);
        assert(domains.contains(pre + keyword + post));
    }
    if exists|pre: Seq<char>, post: Seq<char>| domains.contains(#[trigger] (pre + keyword + post)) {
        let (pre, post) = choose|pre: Seq<char>, post: Seq<char>|
            domains.contains(#[trigger] (pre + keyword + post));
        let i = choose|i: int| 0 <= i < domains.len() && domains[i] == pre + keyword + post;
        let n = domains[i];
        let k = pre.len() as int;
        assert(n.subrange(k, k + keyword.len()) =~= keyword);
        assert(contains_seq(domains[i], keyword));
    }
}

/// A port range that is read has its start not above its end, and a port
/// condition holds only for a packet with a port inside the range.
pub proof fn lemma_port_range_ordered(port_spec: Seq<char>, port: Option<u16>)
    ensures
        port_range_spec(port_spec) matches Ok((a, b)) ==> a <= b,
        port_matches(port_spec, port) <==> (port matches Some(p) && port_range_spec(port_spec) matches Ok(
            (a, b),
        ) && a <= p && p <= b),
{
}

} // verus!
