//! Routing rules: the transport protocol, the action a rule takes, and the
//! compact `FIELD,value,action` notation in which rules are written.

use vstd::prelude::*;
use vstd::string::*;
use crate::text::{
    free_of, lemma_ascii_lower_idempotent, lemma_ascii_upper_idempotent, lemma_split_pieces_free,
    lemma_split_three, lemma_split_two, lemma_trim_end_char_prefix, lemma_trim_fixed,
    lemma_trim_free_of, lemma_trim_idempotent, ascii_lower_char,
    append_chars, ascii_lower, ascii_upper, chars_eq_str, chars_of, decimal_u8, is_whitespace, is_ws,
    push_decimal_u8, split_on, split_chars, string_of, to_ascii_lower, to_ascii_upper,
    trim, trim_chars, trim_end_char, trim_end_char_chars, views,
};

verus! {

broadcast use vstd::std_specs::vec::group_vec_axioms;

/// The transport protocol of a packet.
#[derive(Debug, Clone, Copy, PartialEq, Eq, Structural, Hash)]
pub enum Protocol {
    Tcp,
    Udp,
    Icmp,
    Other(u8),
}

/// The protocol carried by IP protocol number `value`.
pub open spec fn protocol_of_number(value: u8) -> Protocol {
    if value == 6 {
        Protocol::Tcp
    } else if value == 17 {
        Protocol::Udp
    } else if value == 1 {
        Protocol::Icmp
    } else {
        Protocol::Other(value)
    }
}

impl From<u8> for Protocol {
    fn from(value: u8) -> (p: Protocol) {
        if value == 6 {
            Protocol::Tcp
        } else if value == 17 {
            Protocol::Udp
        } else if value == 1 {
            Protocol::Icmp
        } else {
            Protocol::Other(value)
        }
    }
}

impl vstd::std_specs::convert::FromSpecImpl<u8> for Protocol {
    open spec fn obeys_from_spec() -> bool {
        true
    }

    open spec fn from_spec(v: u8) -> Protocol {
        protocol_of_number(v)
    }
}

impl Default for Protocol {
    fn default() -> (p: Protocol)
        ensures
            p == Protocol::Other(0),
    {
        Protocol::Other(0)
    }
}

/// The protocol named by an already lowercased name.
pub open spec fn protocol_named(lower: Seq<char>) -> Option<Protocol> {
    if lower == "tcp"@ {
        Some(Protocol::Tcp)
    } else if lower == "udp"@ {
        Some(Protocol::Udp)
    } else if lower == "icmp"@ {
        Some(Protocol::Icmp)
    } else {
        None
    }
}

/// The Unicode lowercase form of a string, as `str::to_lowercase` computes it.
pub uninterp spec fn unicode_lowercase(s: Seq<char>) -> Seq<char>;

/// Calls `str::to_lowercase`; the result is named by `unicode_lowercase`.
#[verifier::external_body]
pub(crate) fn to_lowercase(s: &str) -> (r: String)
    ensures
        r@ == unicode_lowercase(s@),
{
    s.to_lowercase()
}

/// How a protocol is written out.
pub open spec fn protocol_text(p: Protocol) -> Seq<char> {
    match p {
        Protocol::Tcp => "tcp"@,
        Protocol::Udp => "udp"@,
        Protocol::Icmp => "icmp"@,
        Protocol::Other(n) => "other("@ + decimal_u8(n) + ")"@,
    }
}

impl Protocol {
    /// The protocol whose lowercase name is `lower` ("tcp", "udp" or "icmp").
    pub fn from_lowercase_name(lower: &str) -> (p: Option<Protocol>)
        ensures
            p == protocol_named(lower@),
    {
        let v = chars_of(lower);
        if chars_eq_str(&v, "tcp") {
            Some(Protocol::Tcp)
        } else if chars_eq_str(&v, "udp") {
            Some(Protocol::Udp)
        } else if chars_eq_str(&v, "icmp") {
            Some(Protocol::Icmp)
        } else {
            None
        }
    }

    /// The protocol named by `s`, in any letter case.
    pub fn from_str(s: &str) -> (p: Option<Protocol>)
        ensures
            p == protocol_named(unicode_lowercase(s@)),
    {
        let lower = to_lowercase(s);
        Self::from_lowercase_name(lower.as_str())
    }

    /// The protocol written out: "tcp", "udp", "icmp" or "other(N)".
    pub fn to_display_string(&self) -> (s: String)
        ensures
            s@ == protocol_text(*self),
    {
        match self {
            Protocol::Tcp => String::from_str("tcp"),
            Protocol::Udp => String::from_str("udp"),
            Protocol::Icmp => String::from_str("icmp"),
            Protocol::Other(n) => {
                let mut s = String::from_str("other(");
                push_decimal_u8(&mut s, *n);
                s.append(")");
                s
            },
        }
    }
}

/// What a matching rule does with a packet.
#[derive(Debug, Clone, Copy, PartialEq, Eq, Structural, Hash)]
pub enum RuleAction {
    Direct,
    Proxy,
    Reject,
}

impl Default for RuleAction {
    fn default() -> (a: RuleAction)
        ensures
            a == RuleAction::Direct,
    {
        RuleAction::Direct
    }
}

/// How an action is written out.
pub open spec fn action_text(a: RuleAction) -> Seq<char> {
    match a {
        RuleAction::Direct => "Direct"@,
        RuleAction::Proxy => "Proxy"@,
        RuleAction::Reject => "Reject"@,
    }
}

impl RuleAction {
    /// The action written out: "Direct", "Proxy" or "Reject".
    pub fn to_display_string(&self) -> (s: String)
        ensures
            s@ == action_text(*self),
    {
        match self {
            RuleAction::Direct => String::from_str("Direct"),
            RuleAction::Proxy => String::from_str("Proxy"),
            RuleAction::Reject => String::from_str("Reject"),
        }
    }
}

/// The condition that a compact rule other than `MATCH` sets.
#[derive(Debug, Clone, Copy, PartialEq, Eq, Structural)]
pub enum RuleField {
    SrcIpCidr,
    DstIpCidr,
    SrcPort,
    DstPort,
    Proto,
    Domain,
    DomainSuffix,
    DomainKeyword,
    Geoip,
}

/// The keyword that introduces a field in compact notation.
pub open spec fn field_name(f: RuleField) -> Seq<char> {
    match f {
        RuleField::SrcIpCidr => "SRC-IP-CIDR"@,
        RuleField::DstIpCidr => "DST-IP-CIDR"@,
        RuleField::SrcPort => "SRC-PORT"@,
        RuleField::DstPort => "DST-PORT"@,
        RuleField::Proto => "PROTO"@,
        RuleField::Domain => "DOMAIN"@,
        RuleField::DomainSuffix => "DOMAIN-SUFFIX"@,
        RuleField::DomainKeyword => "DOMAIN-KEYWORD"@,
        RuleField::Geoip => "GEOIP"@,
    }
}

/// The field introduced by an uppercased keyword, if any.
pub open spec fn field_of_name(upper: Seq<char>) -> Option<RuleField> {
    if upper == "SRC-IP-CIDR"@ {
        Some(RuleField::SrcIpCidr)
    } else if upper == "DST-IP-CIDR"@ {
        Some(RuleField::DstIpCidr)
    } else if upper == "SRC-PORT"@ {
        Some(RuleField::SrcPort)
    } else if upper == "DST-PORT"@ {
        Some(RuleField::DstPort)
    } else if upper == "PROTO"@ {
        Some(RuleField::Proto)
    } else if upper == "DOMAIN"@ {
        Some(RuleField::Domain)
    } else if upper == "DOMAIN-SUFFIX"@ {
        Some(RuleField::DomainSuffix)
    } else if upper == "DOMAIN-KEYWORD"@ {
        Some(RuleField::DomainKeyword)
    } else if upper == "GEOIP"@ {
        Some(RuleField::Geoip)
    } else {
        None
    }
}

/// A rule as a mathematical value.
pub struct RuleModel {
    pub src_ip_cidr: Option<Seq<char>>,
    pub dst_ip_cidr: Option<Seq<char>>,
    pub src_port: Option<Seq<char>>,
    pub dst_port: Option<Seq<char>>,
    pub proto: Option<Seq<char>>,
    pub domain: Option<Seq<char>>,
    pub domain_suffix: Option<Seq<char>>,
    pub domain_keyword: Option<Seq<char>>,
    pub geoip: Option<Seq<char>>,
    pub match_all: bool,
    pub action: RuleAction,
}

/// The rule that sets no condition.
pub open spec fn empty_rule(action: RuleAction) -> RuleModel {
    RuleModel {
        src_ip_cidr: None,
        dst_ip_cidr: None,
        src_port: None,
        dst_port: None,
        proto: None,
        domain: None,
        domain_suffix: None,
        domain_keyword: None,
        geoip: None,
        match_all: false,
        action,
    }
}

/// The value a rule holds for a field.
pub open spec fn field_value(m: RuleModel, f: RuleField) -> Option<Seq<char>> {
    match f {
        RuleField::SrcIpCidr => m.src_ip_cidr,
        RuleField::DstIpCidr => m.dst_ip_cidr,
        RuleField::SrcPort => m.src_port,
        RuleField::DstPort => m.dst_port,
        RuleField::Proto => m.proto,
        RuleField::Domain => m.domain,
        RuleField::DomainSuffix => m.domain_suffix,
        RuleField::DomainKeyword => m.domain_keyword,
        RuleField::Geoip => m.geoip,
    }
}

/// `m` with field `f` set to `v`.
pub open spec fn with_field(m: RuleModel, f: RuleField, v: Seq<char>) -> RuleModel {
    match f {
        RuleField::SrcIpCidr => RuleModel { src_ip_cidr: Some(v), ..m },
        RuleField::DstIpCidr => RuleModel { dst_ip_cidr: Some(v), ..m },
        RuleField::SrcPort => RuleModel { src_port: Some(v), ..m },
        RuleField::DstPort => RuleModel { dst_port: Some(v), ..m },
        RuleField::Proto => RuleModel { proto: Some(v), ..m },
        RuleField::Domain => RuleModel { domain: Some(v), ..m },
        RuleField::DomainSuffix => RuleModel { domain_suffix: Some(v), ..m },
        RuleField::DomainKeyword => RuleModel { domain_keyword: Some(v), ..m },
        RuleField::Geoip => RuleModel { geoip: Some(v), ..m },
    }
}

/// The trimmed comma-separated parts of a compact rule.
pub open spec fn rule_parts(value: Seq<char>) -> Seq<Seq<char>> {
    split_on(value, ',').map_values(|p: Seq<char>| trim(p))
}

/// The action named by `v`, in any ASCII letter case.
pub open spec fn parse_action_spec(v: Seq<char>) -> Result<RuleAction, Seq<char>> {
    let l = ascii_lower(v);
    if l == "direct"@ {
        Ok(RuleAction::Direct)
    } else if l == "proxy"@ {
        Ok(RuleAction::Proxy)
    } else if l == "reject"@ || l == "drop"@ {
        Ok(RuleAction::Reject)
    } else {
        Err("unknown rule action '"@ + v + "'"@)
    }
}

/// The value and action of a `FIELD,value,action` rule.
pub open spec fn field_parts_spec(parts: Seq<Seq<char>>, field: Seq<char>) -> Result<
    (Seq<char>, RuleAction),
    Seq<char>,
> {
    if parts.len() != 3 {
        Err(field + " rule format must be "@ + field + ",value,action"@)
    } else if parts[1].len() == 0 {
        Err(field + " rule value cannot be empty"@)
    } else {
        match parse_action_spec(parts[2]) {
            Ok(a) => Ok((parts[1], a)),
            Err(e) => Err(e),
        }
    }
}

/// `n` holds white space, a slash or a comma.
pub open spec fn has_forbidden_char(n: Seq<char>) -> bool {
    exists|i: int| 0 <= i < n.len() && (is_ws(#[trigger] n[i]) || n[i] == '/' || n[i] == ',')
}

/// A domain condition value, normalized.
pub open spec fn normalize_domain_spec(v: Seq<char>) -> Result<Seq<char>, Seq<char>> {
    let n = ascii_lower(trim_end_char(trim(v), '.'));
    if n.len() == 0 {
        Err("domain rule value cannot be empty"@)
    } else if has_forbidden_char(n) {
        Err("invalid domain rule value '"@ + n + "'"@)
    } else {
        Ok(n)
    }
}

/// A country code condition value, normalized.
pub open spec fn normalize_geoip_spec(v: Seq<char>) -> Result<Seq<char>, Seq<char>> {
    let n = ascii_upper(trim(v));
    if n.len() == 0 {
        Err("GEOIP rule value cannot be empty"@)
    } else if has_forbidden_char(n) {
        Err("invalid GEOIP rule value '"@ + n + "'"@)
    } else {
        Ok(n)
    }
}

/// The value that a field stores for the written value `v`.
pub open spec fn normalize_value(f: RuleField, v: Seq<char>) -> Result<Seq<char>, Seq<char>> {
    match f {
        RuleField::Domain | RuleField::DomainSuffix | RuleField::DomainKeyword => normalize_domain_spec(v),
        RuleField::Geoip => normalize_geoip_spec(v),
        _ => Ok(v),
    }
}

/// The rule written as `value` in compact notation, or the message that rejects it.
pub open spec fn parse_compact_spec(value: Seq<char>) -> Result<RuleModel, Seq<char>> {
    let parts = rule_parts(value);
    if parts.len() == 0 || parts[0].len() == 0 {
        Err("rule is empty"@)
    } else {
        let field = ascii_upper(parts[0]);
        if field == "MATCH"@ {
            if parts.len() != 2 {
                Err("MATCH rule format must be MATCH,action"@)
            } else {
                match parse_action_spec(parts[1]) {
                    Ok(a) => Ok(RuleModel { match_all: true, ..empty_rule(a) }),
                    Err(e) => Err(e),
                }
            }
        } else {
            match field_of_name(field) {
                None => Err("unknown rule field '"@ + parts[0] + "'"@),
                Some(f) => match field_parts_spec(parts, field) {
                    Err(e) => Err(e),
                    Ok((v, a)) => match normalize_value(f, v) {
                        Err(e) => Err(e),
                        Ok(n) => Ok(with_field(empty_rule(a), f, n)),
                    },
                },
            }
        }
    }
}

/// Whether a rule sets any condition.
pub open spec fn has_conditions_spec(m: RuleModel) -> bool {
    m.match_all || m.src_ip_cidr is Some || m.dst_ip_cidr is Some || m.src_port is Some
        || m.dst_port is Some || m.proto is Some || m.domain is Some || m.domain_suffix is Some
        || m.domain_keyword is Some || m.geoip is Some
}

/// The optional string as an optional sequence of characters.
pub open spec fn opt_view(o: Option<String>) -> Option<Seq<char>> {
    match o {
        Some(s) => Some(s@),
        None => None,
    }
}

/// A routing rule: the conditions a packet must all meet, and the action
/// taken when it does.
#[derive(Debug, Clone)]
pub struct Rule {
    pub src_ip_cidr: Option<String>,
    pub dst_ip_cidr: Option<String>,
    pub src_port: Option<String>,
    pub dst_port: Option<String>,
    pub proto: Option<String>,
    pub domain: Option<String>,
    pub domain_suffix: Option<String>,
    pub domain_keyword: Option<String>,
    pub geoip: Option<String>,
    pub match_all: bool,
    pub action: RuleAction,
}

impl View for Rule {
    type V = RuleModel;

    open spec fn view(&self) -> RuleModel {
        RuleModel {
            src_ip_cidr: opt_view(self.src_ip_cidr),
            dst_ip_cidr: opt_view(self.dst_ip_cidr),
            src_port: opt_view(self.src_port),
            dst_port: opt_view(self.dst_port),
            proto: opt_view(self.proto),
            domain: opt_view(self.domain),
            domain_suffix: opt_view(self.domain_suffix),
            domain_keyword: opt_view(self.domain_keyword),
            geoip: opt_view(self.geoip),
            match_all: self.match_all,
            action: self.action,
        }
    }
}

/// The action named by the characters `value`.
pub fn parse_action(value: &[char]) -> (r: Result<RuleAction, String>)
    ensures
        match r {
            Ok(a) => parse_action_spec(value@) == Ok::<RuleAction, Seq<char>>(a),
            Err(e) => parse_action_spec(value@) == Err::<RuleAction, Seq<char>>(e@),
        },
{
    let l = to_ascii_lower(value);
    if chars_eq_str(&l, "direct") {
        Ok(RuleAction::Direct)
    } else if chars_eq_str(&l, "proxy") {
        Ok(RuleAction::Proxy)
    } else if chars_eq_str(&l, "reject") || chars_eq_str(&l, "drop") {
        Ok(RuleAction::Reject)
    } else {
        let mut m = String::from_str("unknown rule action '");
        append_chars(&mut m, value);
        m.append("'");
        Err(m)
    }
}

/// The value and action of a `FIELD,value,action` rule.
pub fn parse_field_rule_parts(parts: &Vec<Vec<char>>, field: &[char]) -> (r: Result<
    (Vec<char>, RuleAction),
    String,
>)
    ensures
        match r {
            Ok((v, a)) => field_parts_spec(views(parts@), field@) == Ok::<
                (Seq<char>, RuleAction),
                Seq<char>,
            >((v@, a)),
            Err(e) => field_parts_spec(views(parts@), field@) == Err::<
                (Seq<char>, RuleAction),
                Seq<char>,
            >(e@),
        },
{
    if parts.len() != 3 {
        let mut m = string_of(field);
        m.append(" rule format must be ");
        append_chars(&mut m, field);
        m.append(",value,action");
        return Err(m);
    }
    if parts[1].len() == 0 {
        let mut m = string_of(field);
        m.append(" rule value cannot be empty");
        return Err(m);
    }
    let action = parse_action(parts[2].as_slice())?;
    Ok((parts[1].clone(), action))
}

/// Whether the characters `n` hold white space, a slash or a comma.
fn has_forbidden(n: &[char]) -> (r: bool)
    ensures
        r == has_forbidden_char(n@),
{
    let mut i: usize = 0;
    while i < n.len()
        invariant
            i <= n@.len(),
            forall|j: int| 0 <= j < i ==> !(is_ws(#[trigger] n@[j]) || n@[j] == '/' || n@[j] == ','),
        decreases n.len() - i,
    {
        let c = n[i];
        if is_whitespace(c) || c == '/' || c == ',' {
            return true;
        }
        i += 1;
    }
    false
}

/// A domain condition value, normalized: trimmed, without trailing dots, lowercase.
pub fn normalize_domain_rule_value(value: &[char]) -> (r: Result<Vec<char>, String>)
    ensures
        match r {
            Ok(n) => normalize_domain_spec(value@) == Ok::<Seq<char>, Seq<char>>(n@),
            Err(e) => normalize_domain_spec(value@) == Err::<Seq<char>, Seq<char>>(e@),
        },
{
    let t = trim_chars(value);
    let d = trim_end_char_chars(&t, '.');
    let n = to_ascii_lower(&d);
    if n.len() == 0 {
        return Err(String::from_str("domain rule value cannot be empty"));
    }
    if has_forbidden(&n) {
        let mut m = String::from_str("invalid domain rule value '");
        append_chars(&mut m, &n);
        m.append("'");
        return Err(m);
    }
    Ok(n)
}

/// A country code condition value, normalized: trimmed, uppercase.
pub fn normalize_geoip_rule_value(value: &[char]) -> (r: Result<Vec<char>, String>)
    ensures
        match r {
            Ok(n) => normalize_geoip_spec(value@) == Ok::<Seq<char>, Seq<char>>(n@),
            Err(e) => normalize_geoip_spec(value@) == Err::<Seq<char>, Seq<char>>(e@),
        },
{
    let t = trim_chars(value);
    let n = to_ascii_upper(&t);
    if n.len() == 0 {
        return Err(String::from_str("GEOIP rule value cannot be empty"));
    }
    if has_forbidden(&n) {
        let mut m = String::from_str("invalid GEOIP rule value '");
        append_chars(&mut m, &n);
        m.append("'");
        return Err(m);
    }
    Ok(n)
}

/// The normalized value and action of a domain rule.
pub fn parse_domain_rule_parts(parts: &Vec<Vec<char>>, field: &[char]) -> (r: Result<
    (Vec<char>, RuleAction),
    String,
>)
    ensures
        match field_parts_spec(views(parts@), field@) {
            Err(e) => r matches Err(m) && m@ == e,
            Ok((v, a)) => match normalize_domain_spec(v) {
                Err(e) => r matches Err(m) && m@ == e,
                Ok(n) => r matches Ok((nv, na)) && nv@ == n && na == a,
            },
        },
{
    let (value, action) = parse_field_rule_parts(parts, field)?;
    let n = normalize_domain_rule_value(&value)?;
    Ok((n, action))
}

/// The normalized value and action of a `GEOIP` rule.
pub fn parse_geoip_rule_parts(parts: &Vec<Vec<char>>, field: &[char]) -> (r: Result<
    (Vec<char>, RuleAction),
    String,
>)
    ensures
        match field_parts_spec(views(parts@), field@) {
            Err(e) => r matches Err(m) && m@ == e,
            Ok((v, a)) => match normalize_geoip_spec(v) {
                Err(e) => r matches Err(m) && m@ == e,
                Ok(n) => r matches Ok((nv, na)) && nv@ == n && na == a,
            },
        },
{
    let (value, action) = parse_field_rule_parts(parts, field)?;
    let n = normalize_geoip_rule_value(&value)?;
    Ok((n, action))
}

/// The field introduced by the uppercased keyword `upper`.
fn field_from_name(upper: &[char]) -> (f: Option<RuleField>)
    ensures
        f == field_of_name(upper@),
{
    if chars_eq_str(upper, "SRC-IP-CIDR") {
        Some(RuleField::SrcIpCidr)
    } else if chars_eq_str(upper, "DST-IP-CIDR") {
        Some(RuleField::DstIpCidr)
    } else if chars_eq_str(upper, "SRC-PORT") {
        Some(RuleField::SrcPort)
    } else if chars_eq_str(upper, "DST-PORT") {
        Some(RuleField::DstPort)
    } else if chars_eq_str(upper, "PROTO") {
        Some(RuleField::Proto)
    } else if chars_eq_str(upper, "DOMAIN") {
        Some(RuleField::Domain)
    } else if chars_eq_str(upper, "DOMAIN-SUFFIX") {
        Some(RuleField::DomainSuffix)
    } else if chars_eq_str(upper, "DOMAIN-KEYWORD") {
        Some(RuleField::DomainKeyword)
    } else if chars_eq_str(upper, "GEOIP") {
        Some(RuleField::Geoip)
    } else {
        None
    }
}

/// Each piece, trimmed.
fn trim_all(pieces: &Vec<Vec<char>>) -> (r: Vec<Vec<char>>)
    ensures
        views(r@) == views(pieces@).map_values(|p: Seq<char>| trim(p)),
{
    let mut r: Vec<Vec<char>> = Vec::new();
    let mut i: usize = 0;
    while i < pieces.len()
        invariant
            i <= pieces@.len(),
            views(r@) == views(pieces@).take(i as int).map_values(|p: Seq<char>| trim(p)),
        decreases pieces.len() - i,
    {
        let ghost old_r = views(r@);
        let t = trim_chars(pieces[i].as_slice());
        assert(t@ == trim(views(pieces@)[i as int]));
        r.push(t);
        assert(views(r@) =~= old_r.push(t@));
        i += 1;
        assert(views(r@) =~= views(pieces@).take(i as int).map_values(|p: Seq<char>| trim(p)));
    }
    assert(views(pieces@).take(pieces@.len() as int) =~= views(pieces@));
    r
}

impl Rule {
    /// The rule that sets no condition and takes `action`.
    pub fn new(action: RuleAction) -> (r: Rule)
        ensures
            r@ == empty_rule(action),
    {
        Rule {
            src_ip_cidr: None,
            dst_ip_cidr: None,
            src_port: None,
            dst_port: None,
            proto: None,
            domain: None,
            domain_suffix: None,
            domain_keyword: None,
            geoip: None,
            match_all: false,
            action,
        }
    }

    /// Sets field `f` to `value`.
    fn set_field(&mut self, f: RuleField, value: String)
        ensures
            final(self)@ == with_field(old(self)@, f, value@),
    {
        match f {
            RuleField::SrcIpCidr => self.src_ip_cidr = Some(value),
            RuleField::DstIpCidr => self.dst_ip_cidr = Some(value),
            RuleField::SrcPort => self.src_port = Some(value),
            RuleField::DstPort => self.dst_port = Some(value),
            RuleField::Proto => self.proto = Some(value),
            RuleField::Domain => self.domain = Some(value),
            RuleField::DomainSuffix => self.domain_suffix = Some(value),
            RuleField::DomainKeyword => self.domain_keyword = Some(value),
            RuleField::Geoip => self.geoip = Some(value),
        }
    }

    /// Parses a rule written as `FIELD,value,action` or `MATCH,action`.
    pub fn parse_compact(value: &str) -> (r: Result<Rule, String>)
        ensures
            match r {
                Ok(rule) => parse_compact_spec(value@) == Ok::<RuleModel, Seq<char>>(rule@),
                Err(e) => parse_compact_spec(value@) == Err::<RuleModel, Seq<char>>(e@),
            },
    {
        let chars = chars_of(value);
        let pieces = split_chars(&chars, ',');
        let parts = trim_all(&pieces);
        assert(views(parts@) == rule_parts(value@));
        if parts.len() == 0 || parts[0].len() == 0 {
            return Err(String::from_str("rule is empty"));
        }
        let field = to_ascii_upper(parts[0].as_slice());
        if chars_eq_str(&field, "MATCH") {
            if parts.len() != 2 {
                return Err(String::from_str("MATCH rule format must be MATCH,action"));
            }
            let action = parse_action(parts[1].as_slice())?;
            let mut rule = Rule::new(action);
            rule.match_all = true;
            return Ok(rule);
        }
        let kind = field_from_name(&field);
        match kind {
            None => {
                let mut m = String::from_str("unknown rule field '");
                append_chars(&mut m, parts[0].as_slice());
                m.append("'");
                Err(m)
            },
            Some(f) => {
                let (v, action) = match f {
                    RuleField::Domain | RuleField::DomainSuffix | RuleField::DomainKeyword => {
                        parse_domain_rule_parts(&parts, &field)?
                    },
                    RuleField::Geoip => parse_geoip_rule_parts(&parts, &field)?,
                    _ => parse_field_rule_parts(&parts, &field)?,
                };
                let mut rule = Rule::new(action);
                rule.set_field(f, string_of(&v));
                Ok(rule)
            },
        }
    }

    /// Whether the rule sets any condition.
    pub fn has_conditions(&self) -> (b: bool)
        ensures
            b == has_conditions_spec(self@),
    {
        self.match_all || self.src_ip_cidr.is_some() || self.dst_ip_cidr.is_some()
            || self.src_port.is_some() || self.dst_port.is_some() || self.proto.is_some()
            || self.domain.is_some() || self.domain_suffix.is_some()
            || self.domain_keyword.is_some() || self.geoip.is_some()
    }
}

/// The keyword and comma that start the compact form of a field.
pub open spec fn field_prefix(f: RuleField) -> Seq<char> {
    match f {
        RuleField::SrcIpCidr => "SRC-IP-CIDR,"@,
        RuleField::DstIpCidr => "DST-IP-CIDR,"@,
        RuleField::SrcPort => "SRC-PORT,"@,
        RuleField::DstPort => "DST-PORT,"@,
        RuleField::Proto => "PROTO,"@,
        RuleField::Domain => "DOMAIN,"@,
        RuleField::DomainSuffix => "DOMAIN-SUFFIX,"@,
        RuleField::DomainKeyword => "DOMAIN-KEYWORD,"@,
        RuleField::Geoip => "GEOIP,"@,
    }
}

/// The first condition a rule sets, in the order in which conditions are written out.
pub open spec fn first_field(m: RuleModel) -> Option<RuleField> {
    if m.src_ip_cidr is Some {
        Some(RuleField::SrcIpCidr)
    } else if m.dst_ip_cidr is Some {
        Some(RuleField::DstIpCidr)
    } else if m.src_port is Some {
        Some(RuleField::SrcPort)
    } else if m.dst_port is Some {
        Some(RuleField::DstPort)
    } else if m.proto is Some {
        Some(RuleField::Proto)
    } else if m.domain is Some {
        Some(RuleField::Domain)
    } else if m.domain_suffix is Some {
        Some(RuleField::DomainSuffix)
    } else if m.domain_keyword is Some {
        Some(RuleField::DomainKeyword)
    } else if m.geoip is Some {
        Some(RuleField::Geoip)
    } else {
        None
    }
}

/// A rule written out in compact notation.
pub open spec fn rule_text(m: RuleModel) -> Seq<char> {
    if m.match_all {
        "MATCH,"@ + action_text(m.action)
    } else {
        match first_field(m) {
            Some(f) => field_prefix(f) + field_value(m, f)->0 + ","@ + action_text(m.action),
            None => "MATCH,"@ + action_text(m.action),
        }
    }
}

/// `prefix`, `value`, a comma and the action written out.
fn field_text(prefix: &str, value: &String, action: RuleAction) -> (s: String)
    ensures
        s@ == prefix@ + value@ + ","@ + action_text(action),
{
    let mut s = String::from_str(prefix);
    s.append(value.as_str());
    s.append(",");
    let a = action.to_display_string();
    s.append(a.as_str());
    s
}

impl Rule {
    /// The rule written out in compact notation (how a rule is displayed and stored).
    pub fn to_compact_string(&self) -> (s: String)
        ensures
            s@ == rule_text(self@),
    {
        if self.match_all {
            let mut s = String::from_str("MATCH,");
            let a = self.action.to_display_string();
            s.append(a.as_str());
            return s;
        }
        if let Some(value) = &self.src_ip_cidr {
            return field_text("SRC-IP-CIDR,", value, self.action);
        }
        if let Some(value) = &self.dst_ip_cidr {
            return field_text("DST-IP-CIDR,", value, self.action);
        }
        if let Some(value) = &self.src_port {
            return field_text("SRC-PORT,", value, self.action);
        }
        if let Some(value) = &self.dst_port {
            return field_text("DST-PORT,", value, self.action);
        }
        if let Some(value) = &self.proto {
            return field_text("PROTO,", value, self.action);
        }
        if let Some(value) = &self.domain {
            return field_text("DOMAIN,", value, self.action);
        }
        if let Some(value) = &self.domain_suffix {
            return field_text("DOMAIN-SUFFIX,", value, self.action);
        }
        if let Some(value) = &self.domain_keyword {
            return field_text("DOMAIN-KEYWORD,", value, self.action);
        }
        if let Some(value) = &self.geoip {
            return field_text("GEOIP,", value, self.action);
        }
        let mut s = String::from_str("MATCH,");
        let a = self.action.to_display_string();
        s.append(a.as_str());
        s
    }
}

/// Facts about the keyword of a field.
proof fn lemma_field_name_facts(f: RuleField)
    ensures
        field_name(f).len() > 0,
        trim(field_name(f)) == field_name(f),
        free_of(field_name(f), ','),
        ascii_upper(field_name(f)) == field_name(f),
        field_name(f) != "MATCH"@,
        field_of_name(field_name(f)) == Some(f),
        field_prefix(f) == field_name(f).push(','),
{
    reveal_strlit("MATCH");
    reveal_strlit("SRC-IP-CIDR");
    reveal_strlit("DST-IP-CIDR");
    reveal_strlit("SRC-PORT");
    reveal_strlit("DST-PORT");
    reveal_strlit("PROTO");
    reveal_strlit("DOMAIN");
    reveal_strlit("DOMAIN-SUFFIX");
    reveal_strlit("DOMAIN-KEYWORD");
    reveal_strlit("GEOIP");
    reveal_strlit("SRC-IP-CIDR,");
    reveal_strlit("DST-IP-CIDR,");
    reveal_strlit("SRC-PORT,");
    reveal_strlit("DST-PORT,");
    reveal_strlit("PROTO,");
    reveal_strlit("DOMAIN,");
    reveal_strlit("DOMAIN-SUFFIX,");
    reveal_strlit("DOMAIN-KEYWORD,");
    reveal_strlit("GEOIP,");
    let n = field_name(f);
    lemma_trim_fixed(n);
    assert(ascii_upper(n) =~= n);
    assert(field_prefix(f) =~= n.push(','));
    assert(n.len() != 5 || n[0] != 'M');
    assert(field_of_name(n) == Some(f));
}

/// Facts about how an action is written out.
proof fn lemma_action_text_facts(a: RuleAction)
    ensures
        action_text(a).len() > 0,
        trim(action_text(a)) == action_text(a),
        free_of(action_text(a), ','),
        parse_action_spec(action_text(a)) == Ok::<RuleAction, Seq<char>>(a),
        "MATCH,"@ == "MATCH"@.push(','),
        "MATCH"@.len() > 0,
        trim("MATCH"@) == "MATCH"@,
        free_of("MATCH"@, ','),
        ascii_upper("MATCH"@) == "MATCH"@,
{
    reveal_strlit("MATCH");
    reveal_strlit("MATCH,");
    reveal_strlit("Direct");
    reveal_strlit("Proxy");
    reveal_strlit("Reject");
    reveal_strlit("direct");
    reveal_strlit("proxy");
    reveal_strlit("reject");
    reveal_strlit("drop");
    let t = action_text(a);
    lemma_trim_fixed(t);
    lemma_trim_fixed("MATCH"@);
    assert("MATCH,"@ =~= "MATCH"@.push(','));
    assert(ascii_upper("MATCH"@) =~= "MATCH"@);
    match a {
        RuleAction::Direct => {
            assert(ascii_lower(t) =~= "direct"@);
            assert(parse_action_spec(t) == Ok::<RuleAction, Seq<char>>(a));
        },
        RuleAction::Proxy => {
            assert(ascii_lower(t) =~= "proxy"@);
            assert(ascii_lower(t) != "direct"@);
            assert(parse_action_spec(t) == Ok::<RuleAction, Seq<char>>(a));
        },
        RuleAction::Reject => {
            assert(ascii_lower(t) =~= "reject"@);
            assert(ascii_lower(t)[0] != "direct"@[0]);
            assert(ascii_lower(t) != "proxy"@);
            assert(parse_action_spec(t) == Ok::<RuleAction, Seq<char>>(a));
        },
    }
}

/// A normalized domain value is normalized again to itself.
proof fn lemma_domain_normal_form(v: Seq<char>, n: Seq<char>)
    requires
        normalize_domain_spec(v) == Ok::<Seq<char>, Seq<char>>(n),
    ensures
        normalize_domain_spec(n) == Ok::<Seq<char>, Seq<char>>(n),
        n.len() > 0,
        free_of(n, ','),
        trim(n) == n,
        ascii_lower(n) == n,
        n.last() != '.',
{
    let d = trim_end_char(trim(v), '.');
    lemma_trim_end_char_prefix(trim(v), '.');
    assert(n == ascii_lower(d));
    assert(!is_ws(n[0]) && !is_ws(n.last()));
    lemma_trim_fixed(n);
    assert(n.last() == ascii_lower_char(d.last()));
    assert(n.last() != '.');
    assert(trim_end_char(n, '.') == n);
    lemma_ascii_lower_idempotent(d);
    assert(free_of(n, ',')) by {
        assert forall|i: int| 0 <= i < n.len() implies #[trigger] n[i] != ',' by {
            if n[i] == ',' {
                assert(has_forbidden_char(n));
            }
        }
    }
}

/// A normalized country code is normalized again to itself.
proof fn lemma_geoip_normal_form(v: Seq<char>, n: Seq<char>)
    requires
        normalize_geoip_spec(v) == Ok::<Seq<char>, Seq<char>>(n),
    ensures
        normalize_geoip_spec(n) == Ok::<Seq<char>, Seq<char>>(n),
        n.len() > 0,
        free_of(n, ','),
        trim(n) == n,
        ascii_upper(n) == n,
{
    assert(n == ascii_upper(trim(v)));
    assert(!is_ws(n[0]) && !is_ws(n.last()));
    lemma_trim_fixed(n);
    lemma_ascii_upper_idempotent(trim(v));
    assert(free_of(n, ',')) by {
        assert forall|i: int| 0 <= i < n.len() implies #[trigger] n[i] != ',' by {
            if n[i] == ',' {
                assert(has_forbidden_char(n));
            }
        }
    }
}

/// Writing out a parsed rule and parsing the text again gives the same rule:
/// a rule survives being stored in compact notation and read back.
pub proof fn lemma_compact_round_trip(value: Seq<char>)
    requires
        parse_compact_spec(value) is Ok,
    ensures
        parse_compact_spec(rule_text(parse_compact_spec(value)->Ok_0)) == parse_compact_spec(value),
{
    let parts = rule_parts(value);
    let m = parse_compact_spec(value)->Ok_0;
    lemma_split_pieces_free(value, ',');
    assert forall|i: int| 0 <= i < parts.len() implies free_of(#[trigger] parts[i], ',') && trim(
        parts[i],
    ) == parts[i] by {
        lemma_trim_free_of(split_on(value, ',')[i], ',');
        lemma_trim_idempotent(split_on(value, ',')[i]);
    }
    let field = ascii_upper(parts[0]);
    lemma_action_text_facts(m.action);
    let at = action_text(m.action);
    if field == "MATCH"@ {
        let text = rule_text(m);
        assert(text == "MATCH"@.push(',') + at);
        lemma_split_two("MATCH"@, at);
        let p2 = rule_parts(text);
        assert(p2 =~= seq!["MATCH"@, at]);
    } else {
        let f = field_of_name(field)->0;
        let v = field_parts_spec(parts, field)->Ok_0.0;
        let n = normalize_value(f, v)->Ok_0;
        lemma_field_name_facts(f);
        let name = field_name(f);
        match f {
            RuleField::Domain | RuleField::DomainSuffix | RuleField::DomainKeyword => {
                lemma_domain_normal_form(v, n);
            },
            RuleField::Geoip => {
                lemma_geoip_normal_form(v, n);
            },
            _ => {},
        }
        assert(m == with_field(empty_rule(m.action), f, n));
        assert(first_field(m) == Some(f));
        let text = rule_text(m);
        assert(text == name.push(',') + n.push(',') + at) by {
            assert(text == field_prefix(f) + n + ","@ + at);
            reveal_strlit(",");
            assert(n + ","@ =~= n.push(','));
            assert(field_prefix(f) + n + ","@ + at =~= name.push(',') + n.push(',') + at);
        }
        lemma_split_three(name, n, at);
        let p2 = rule_parts(text);
        assert(p2 =~= seq![name, n, at]);
        assert(field_parts_spec(p2, name) == Ok::<(Seq<char>, RuleAction), Seq<char>>((n, m.action)));
    }
}

/// Every rule that parses sets at least one condition.
pub proof fn lemma_parsed_rule_has_conditions(value: Seq<char>)
    requires
        parse_compact_spec(value) is Ok,
    ensures
        has_conditions_spec(parse_compact_spec(value)->Ok_0),
{
}

/// A field value as parsing leaves it: not empty, trimmed, without commas;
/// a domain value in lowercase and without a trailing dot, a country code in
/// uppercase.
pub open spec fn value_normal(f: RuleField, n: Seq<char>) -> bool {
    &&& n.len() > 0
    &&& trim(n) == n
    &&& free_of(n, ',')
    &&& (f is Domain || f is DomainSuffix || f is DomainKeyword) ==> ascii_lower(n) == n && n.last()
        != '.'
    &&& f is Geoip ==> ascii_upper(n) == n
}

/// A rule as parsing leaves it: `MATCH` alone, or exactly one field set, to a
/// value in normal form.
pub open spec fn normal_rule(m: RuleModel) -> bool {
    ||| m == RuleModel { match_all: true, ..empty_rule(m.action) }
    ||| exists|f: RuleField, n: Seq<char>|
        #[trigger] with_field(empty_rule(m.action), f, n) == m && value_normal(f, n)
}

/// Every rule that parses is in normal form: `MATCH` alone, or a single field
/// whose value is not empty, trimmed, lowercase without trailing dots for
/// domains and uppercase for country codes.
pub proof fn lemma_parsed_rule_normal_form(value: Seq<char>)
    requires
        parse_compact_spec(value) is Ok,
    ensures
        normal_rule(parse_compact_spec(value)->Ok_0),
{
    let parts = rule_parts(value);
    let m = parse_compact_spec(value)->Ok_0;
    let field = ascii_upper(parts[0]);
    if field != "MATCH"@ {
        lemma_split_pieces_free(value, ',');
        assert(free_of(parts[1], ',') && trim(parts[1]) == parts[1]) by {
            lemma_trim_free_of(split_on(value, ',')[1], ',');
            lemma_trim_idempotent(split_on(value, ',')[1]);
        }
        let f = field_of_name(field)->0;
        let v = field_parts_spec(parts, field)->Ok_0.0;
        let n = normalize_value(f, v)->Ok_0;
        match f {
            RuleField::Domain | RuleField::DomainSuffix | RuleField::DomainKeyword => {
                lemma_domain_normal_form(v, n);
            },
            RuleField::Geoip => {
                lemma_geoip_normal_form(v, n);
            },
            _ => {},
        }
        assert(with_field(empty_rule(m.action), f, n) == m && value_normal(f, n));
    }
}

/// A domain condition value is refused only for being empty or for holding
/// white space, a slash or a comma once normalized: any other value, one with
/// hyphens or underscores among them, is accepted as its trimmed,
/// dot-stripped, lowercased form.
pub proof fn lemma_domain_value_accepted(v: Seq<char>)
    ensures
        ({
            let n = ascii_lower(trim_end_char(trim(v), '.'));
            (n.len() > 0 && forall|i: int|
                0 <= i < n.len() ==> !is_ws(#[trigger] n[i]) && n[i] != '/' && n[i] != ',')
                <==> normalize_domain_spec(v) == Ok::<Seq<char>, Seq<char>>(n)
        }),
{
    let n = ascii_lower(trim_end_char(trim(v), '.'));
    if has_forbidden_char(n) {
        let i = choose|i: int| 0 <= i < n.len() && (is_ws(#[trigger] n[i]) || n[i] == '/' || n[i] == ',');
        assert(!(!is_ws(n[i]) && n[i] != '/' && n[i] != ','));
    }
}

/// A country code value is refused only for being empty or for holding white
/// space, a slash or a comma once normalized: any other value is accepted as
/// its trimmed, uppercased form.
pub proof fn lemma_geoip_value_accepted(v: Seq<char>)
    ensures
        ({
            let n = ascii_upper(trim(v));
            (n.len() > 0 && forall|i: int|
                0 <= i < n.len() ==> !is_ws(#[trigger] n[i]) && n[i] != '/' && n[i] != ',')
                <==> normalize_geoip_spec(v) == Ok::<Seq<char>, Seq<char>>(n)
        }),
{
    let n = ascii_upper(trim(v));
    if has_forbidden_char(n) {
        let i = choose|i: int| 0 <= i < n.len() && (is_ws(#[trigger] n[i]) || n[i] == '/' || n[i] == ',');
        assert(!(!is_ws(n[i]) && n[i] != '/' && n[i] != ','));
    }
}

} // verus!
