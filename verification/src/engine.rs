//! The rules engine: an ordered list of rules, of which the first that a
//! packet matches decides what happens to it.

use vstd::prelude::*;
use vstd::string::*;
use crate::context::{context_fields, PacketContext};
use crate::domain_cache::{cache_after_lookup, entry_names, names_of, unexpired, DomainCache};
use crate::ip::Ipv4Addr;
use crate::packet::sliced_ip;
use crate::geoip::{maxmind_opens, GeoIpMatcher};
use crate::matcher::{rule_answer, rule_outcome, Matcher};
use crate::rule::{has_conditions_spec, parse_compact_spec, Protocol, Rule, RuleAction, RuleModel};
use crate::text::{decimal, push_decimal, string_views};

verus! {

broadcast use vstd::std_specs::vec::group_vec_axioms;

/// The models of a list of rules.
pub open spec fn rule_models(rules: Seq<Rule>) -> Seq<RuleModel> {
    rules.map_values(|r: Rule| r@)
}

/// Why a rules configuration was refused.
#[derive(Debug, Clone)]
pub enum ConfigError {
    /// The text is not a YAML list of strings.
    Yaml(String),
    /// A rule is not in compact notation; the message says why.
    Rule(String),
    /// A rule sets no condition; it holds the rule's position, counted from 1.
    Invalid(String),
}

/// The strings of a YAML sequence, as `serde_yaml::from_str::<Vec<String>>` reads them.
pub uninterp spec fn yaml_string_list(text: Seq<char>) -> Option<Seq<Seq<char>>>;

/// Calls `serde_yaml::from_str::<Vec<String>>`; the strings are named by
/// `yaml_string_list`, the error message is passed on unstated.
#[verifier::external_body]
fn read_yaml_strings(text: &str) -> (r: Result<Vec<String>, String>)
    ensures
        match r {
            Ok(v) => yaml_string_list(text@) == Some(string_views(v@)),
            Err(_) => yaml_string_list(text@) is None,
        },
{
    serde_yaml::from_str::<Vec<String>>(text).map_err(|e| e.to_string())
}

/// The rules of a configuration, in order, and where the country database is.
#[derive(Debug)]
pub struct RulesConfig {
    pub rules: Vec<Rule>,
    pub geoip_path: Option<String>,
}

/// The message that refuses a configuration whose rule at position `i`
/// (counted from 0) sets no condition; rules are numbered from 1 in it.
pub open spec fn unconditioned_message(i: int) -> Seq<char> {
    "rule #"@ + decimal((i + 1) as nat) + " has no conditions"@
}

/// `e` refuses `rules` for its first rule that sets no condition.
pub open spec fn refuses_first_unconditioned(rules: Seq<RuleModel>, e: ConfigError) -> bool {
    e matches ConfigError::Invalid(m) && exists|i: int|
        0 <= i < rules.len() && !has_conditions_spec(#[trigger] rules[i]) && (forall|j: int|
            0 <= j < i ==> has_conditions_spec(#[trigger] rules[j])) && m@ == unconditioned_message(i)
}

/// Every string is a rule in compact notation.
pub open spec fn all_parse(texts: Seq<Seq<char>>) -> bool {
    forall|i: int| 0 <= i < texts.len() ==> #[trigger] parse_compact_spec(texts[i]) is Ok
}

impl RulesConfig {
    /// The configuration of the rules written `texts`, in order; the first
    /// text that is no rule in compact notation refuses the whole list, with
    /// the reason. The configuration names no country database.
    pub fn from_rule_texts(texts: &Vec<String>) -> (r: Result<RulesConfig, ConfigError>)
        ensures
            match r {
                Ok(c) => all_parse(string_views(texts@)) && c.geoip_path is None && rule_models(
                    c.rules@,
                ).len() == texts@.len() && forall|i: int|
                    0 <= i < texts@.len() ==> parse_compact_spec(string_views(texts@)[i]) == Ok::<
                        RuleModel,
                        Seq<char>,
                    >(#[trigger] rule_models(c.rules@)[i]),
                Err(ConfigError::Rule(m)) => exists|i: int|
                    0 <= i < texts@.len() && parse_compact_spec(#[trigger] string_views(texts@)[i])
                        == Err::<RuleModel, Seq<char>>(m@) && forall|j: int|
                        0 <= j < i ==> parse_compact_spec(#[trigger] string_views(texts@)[j]) is Ok,
                Err(_) => false,
            },
    {
        let ghost tv = string_views(texts@);
        let mut rules: Vec<Rule> = Vec::new();
        let mut i: usize = 0;
        while i < texts.len()
            invariant
                i <= texts@.len(),
                tv == string_views(texts@),
                rules@.len() == i,
                forall|j: int|
                    0 <= j < i ==> parse_compact_spec(#[trigger] tv[j]) == Ok::<RuleModel, Seq<char>>(
                        rule_models(rules@)[j],
                    ),
            decreases texts.len() - i,
        {
            match Rule::parse_compact(texts[i].as_str()) {
                Ok(rule) => {
                    rules.push(rule);
                    assert(rule_models(rules@)[i as int] == rule@);
                    assert forall|j: int| 0 <= j < i + 1 implies parse_compact_spec(
                        #[trigger] tv[j],
                    ) == Ok::<RuleModel, Seq<char>>(rule_models(rules@)[j]) by {
                        if j < i {
                            assert(rule_models(rules@)[j] == rules@[j]@);
                        }
                    }
                },
                Err(m) => {
                    assert(parse_compact_spec(tv[i as int]) == Err::<RuleModel, Seq<char>>(m@));
                    assert(forall|j: int| 0 <= j < i ==> parse_compact_spec(#[trigger] tv[j]) is Ok);
                    assert(exists|k: int|
                        0 <= k < tv.len() && parse_compact_spec(#[trigger] tv[k]) == Err::<
                            RuleModel,
                            Seq<char>,
                        >(m@) && forall|j: int| 0 <= j < k ==> parse_compact_spec(#[trigger] tv[j]) is Ok);
                    return Err(ConfigError::Rule(m));
                },
            }
            i += 1;
        }
        assert(all_parse(tv)) by {
            assert forall|j: int| 0 <= j < tv.len() implies parse_compact_spec(#[trigger] tv[j]) is Ok by {
                assert(parse_compact_spec(tv[j]) == Ok::<RuleModel, Seq<char>>(rule_models(rules@)[j]));
            }
        }
        Ok(RulesConfig { rules, geoip_path: None })
    }

    /// The configuration written in YAML as a list of compact rules, such as
    /// `- DST-PORT,22,reject`; the configuration names no country database.
    pub fn from_yaml(text: &str) -> (r: Result<RulesConfig, ConfigError>)
        ensures
            match r {
                Ok(c) => yaml_string_list(text@) matches Some(texts) && all_parse(texts)
                    && c.geoip_path is None && rule_models(c.rules@).len() == texts.len() && forall|
                    i: int,
                | 0 <= i < texts.len() ==> parse_compact_spec(texts[i]) == Ok::<
                    RuleModel,
                    Seq<char>,
                >(#[trigger] rule_models(c.rules@)[i]),
                Err(ConfigError::Yaml(_)) => yaml_string_list(text@) is None,
                Err(ConfigError::Rule(m)) => yaml_string_list(text@) matches Some(texts) && exists|
                    i: int,
                | 0 <= i < texts.len() && parse_compact_spec(#[trigger] texts[i]) == Err::<
                    RuleModel,
                    Seq<char>,
                >(m@) && forall|j: int| 0 <= j < i ==> parse_compact_spec(#[trigger] texts[j]) is Ok,
                Err(ConfigError::Invalid(_)) => false,
            },
    {
        match read_yaml_strings(text) {
            Ok(v) => Self::from_rule_texts(&v),
            Err(e) => Err(ConfigError::Yaml(e)),
        }
    }

    /// Accepts the configuration if every rule sets a condition.
    pub fn validate(&self) -> (r: Result<(), ConfigError>)
        ensures
            r is Ok <==> forall|i: int|
                0 <= i < self.rules@.len() ==> has_conditions_spec(#[trigger] rule_models(self.rules@)[i]),
            r matches Err(e) ==> refuses_first_unconditioned(rule_models(self.rules@), e),
    {
        let mut i: usize = 0;
        while i < self.rules.len()
            invariant
                i <= self.rules@.len(),
                forall|j: int| 0 <= j < i ==> has_conditions_spec(#[trigger] rule_models(self.rules@)[j]),
            decreases self.rules.len() - i,
        {
            if !self.rules[i].has_conditions() {
                assert(!has_conditions_spec(rule_models(self.rules@)[i as int]));
                let mut m = String::from_str("rule #");
                push_decimal(&mut m, (i as u64) + 1);
                m.append(" has no conditions");
                assert(m@ == unconditioned_message(i as int));
                return Err(ConfigError::Invalid(m));
            }
            i += 1;
        }
        Ok(())
    }
}

/// The action of the first rule the packet matches, given for each rule the
/// answer of its country lookup; `Direct` where no rule matches.
pub open spec fn first_match(rules: Seq<RuleModel>, p: PacketContext, answers: Seq<bool>) -> RuleAction
    decreases rules.len(),
{
    if rules.len() == 0 {
        RuleAction::Direct
    } else if rule_outcome(rules[0], p, answers[0]) {
        rules[0].action
    } else {
        first_match(rules.drop_first(), p, answers.drop_first())
    }
}

/// The answers of the country conditions of `rules` for packet `p`, for a
/// matcher whose database is read from `db`.
pub open spec fn answers_for(db: Option<Seq<u8>>, p: PacketContext, rules: Seq<RuleModel>) -> Seq<bool> {
    Seq::new(rules.len(), |i: int| rule_answer(db, p.dst_ip, rules[i].geoip))
}

/// The addresses, ports and protocol of the IP packet `packet`, where the
/// rules can read it.
pub open spec fn packet_fields(packet: Seq<u8>) -> Option<
    (Ipv4Addr, Ipv4Addr, Option<u16>, Option<u16>, Protocol),
> {
    match sliced_ip(packet) {
        Some(m) => context_fields(m),
        None => None,
    }
}

/// The addresses, ports and protocol of a context.
pub open spec fn fields_of(c: PacketContext) -> (Ipv4Addr, Ipv4Addr, Option<u16>, Option<u16>, Protocol) {
    (c.src_ip, c.dst_ip, c.src_port, c.dst_port, c.protocol)
}

/// Routes packets by an ordered list of rules.
#[derive(Debug)]
pub struct RulesEngine {
    rules: Vec<Rule>,
    geoip: GeoIpMatcher,
}

/// Rules that no packet reaches past the first `i` do not decide.
proof fn lemma_first_match_skip(rules: Seq<RuleModel>, p: PacketContext, answers: Seq<bool>, i: int)
    requires
        0 <= i <= rules.len(),
        answers.len() == rules.len(),
        forall|j: int| 0 <= j < i ==> !rule_outcome(#[trigger] rules[j], p, answers[j]),
    ensures
        first_match(rules, p, answers) == first_match(rules.skip(i), p, answers.skip(i)),
    decreases i,
{
    if i > 0 {
        assert(!rule_outcome(rules[0], p, answers[0]));
        lemma_first_match_skip(rules.drop_first(), p, answers.drop_first(), i - 1);
        assert(rules.drop_first().skip(i - 1) == rules.skip(i));
        assert(answers.drop_first().skip(i - 1) == answers.skip(i));
    } else {
        assert(rules.skip(0) == rules);
        assert(answers.skip(0) == answers);
    }
}

impl RulesEngine {
    /// The models of the engine's rules, in order.
    pub closed spec fn rules_spec(&self) -> Seq<RuleModel> {
        rule_models(self.rules@)
    }

    /// A country database is loaded.
    pub closed spec fn has_database_spec(&self) -> bool {
        self.geoip.has_database_spec()
    }

    /// The bytes of the loaded country database, if one is loaded.
    pub closed spec fn database_spec(&self) -> Option<Seq<u8>> {
        self.geoip.database()
    }

    /// An engine for a configuration, if it is valid; `geoip_database` holds the
    /// bytes read from the configuration's country database, if any.
    pub fn from_config(config: RulesConfig, geoip_database: Option<Vec<u8>>) -> (r: Result<
        RulesEngine,
        ConfigError,
    >)
        ensures
            match r {
                Ok(e) => e.rules_spec() == rule_models(config.rules@) && e.database_spec() == (
                match geoip_database {
                    Some(b) => if maxmind_opens(b@) {
                        Some(b@)
                    } else {
                        None
                    },
                    None => None,
                }) && e.has_database_spec() == (e.database_spec() is Some) && forall|i: int|
                    0 <= i < config.rules@.len() ==> has_conditions_spec(
                        #[trigger] rule_models(config.rules@)[i],
                    ),
                Err(e) => refuses_first_unconditioned(rule_models(config.rules@), e),
            },
    {
        config.validate()?;
        let geoip = match geoip_database {
            Some(bytes) => GeoIpMatcher::from_database_bytes(bytes),
            None => GeoIpMatcher::without_database(),
        };
        Ok(RulesEngine { rules: config.rules, geoip })
    }

    /// The same engine with another country matcher.
    pub fn with_geoip(self, geoip: GeoIpMatcher) -> (e: RulesEngine)
        ensures
            e.rules_spec() == self.rules_spec(),
            e.has_database_spec() == geoip.has_database_spec(),
            e.database_spec() == geoip.database(),
    {
        let mut e = self;
        e.geoip = geoip;
        e
    }

    /// The number of rules.
    pub fn rule_count(&self) -> (n: usize)
        ensures
            n == self.rules_spec().len(),
    {
        self.rules.len()
    }

    /// The action for the IP packet `packet`, read at `now` by the cache's
    /// clock: its destination's names are looked up in `cache` (dropping the
    /// expired ones) and the packet, known by those names, is matched against
    /// the rules. `None` where the packet is not one the rules can read.
    pub fn route_packet_at(&self, cache: &mut DomainCache, packet: &[u8], now: u128) -> (r: Option<
        RuleAction,
    >)
        ensures
            match packet_fields(packet@) {
                None => r is None && final(cache)@ == old(cache)@,
                Some(f) => {
                    &&& final(cache)@ == cache_after_lookup(old(cache)@, f.1.bits, now)
                    &&& exists|ctx: PacketContext|
                        #[trigger] fields_of(ctx) == f && string_views(ctx.domains@) == entry_names(
                            unexpired(names_of(old(cache)@, f.1.bits), now),
                        ) && r == Some(
                            first_match(
                                self.rules_spec(),
                                ctx,
                                answers_for(self.database_spec(), ctx, self.rules_spec()),
                            ),
                        )
                },
            },
    {
        let ctx = match PacketContext::from_ip_packet(packet) {
            Some(c) => c,
            None => return None,
        };
        let names = cache.lookup_at(ctx.dst_ip, now);
        let ctx = ctx.with_domains(names);
        let a = self.match_packet(&ctx);
        assert(fields_of(ctx) == packet_fields(packet@)->0);
        Some(a)
    }

    /// The action for a packet: that of the first rule it matches, in order;
    /// `Direct` where it matches none.
    pub fn match_packet(&self, packet: &PacketContext) -> (a: RuleAction)
        ensures
            a == first_match(
                self.rules_spec(),
                *packet,
                answers_for(self.database_spec(), *packet, self.rules_spec()),
            ),
    {
        let ghost rs = self.rules_spec();
        let ghost answers = answers_for(self.database_spec(), *packet, rs);
        let mut i: usize = 0;
        while i < self.rules.len()
            invariant
                i <= self.rules@.len(),
                rs == rule_models(self.rules@),
                answers == answers_for(self.geoip.database(), *packet, rs),
                forall|j: int| 0 <= j < i ==> !rule_outcome(#[trigger] rs[j], *packet, answers[j]),
            decreases self.rules.len() - i,
        {
            let rule = &self.rules[i];
            assert(rs[i as int] == rule@);
            if Matcher::matches(rule, packet, &self.geoip) {
                proof {
                    lemma_first_match_skip(rs, *packet, answers, i as int);
                    assert(rs.skip(i as int)[0] == rs[i as int]);
                    assert(answers.skip(i as int)[0] == answers[i as int]);
                }
                return rule.action;
            }
            i += 1;
        }
        proof {
            lemma_first_match_skip(rs, *packet, answers, rs.len() as int);
            assert(rs.skip(rs.len() as int).len() == 0);
        }
        RuleAction::Direct
    }
}

/// A rule that sets no condition but `MATCH` (or none at all) matches every packet,
/// so the rules after it never decide.
pub proof fn lemma_catch_all_ends_search(
    rules: Seq<RuleModel>,
    p: PacketContext,
    answers: Seq<bool>,
    k: int,
)
    requires
        0 <= k < rules.len(),
        answers.len() == rules.len(),
        rules[k].src_ip_cidr is None && rules[k].dst_ip_cidr is None && rules[k].src_port is None
            && rules[k].dst_port is None && rules[k].proto is None && rules[k].domain is None
            && rules[k].domain_suffix is None && rules[k].domain_keyword is None
            && rules[k].geoip is None,
    ensures
        first_match(rules, p, answers) == first_match(rules.take(k + 1), p, answers.take(k + 1)),
    decreases k,
{
    if k > 0 {
        if rule_outcome(rules[0], p, answers[0]) {
        } else {
            lemma_catch_all_ends_search(rules.drop_first(), p, answers.drop_first(), k - 1);
            assert(rules.drop_first().take(k) == rules.take(k + 1).drop_first());
            assert(answers.drop_first().take(k) == answers.take(k + 1).drop_first());
        }
    }
}

/// First match wins: the action is that of the first rule the packet
/// matches, whatever the rules after it say; a packet that matches no rule
/// goes `Direct`.
pub proof fn lemma_first_match_is_least(
    rules: Seq<RuleModel>,
    p: PacketContext,
    answers: Seq<bool>,
    i: int,
)
    requires
        answers.len() == rules.len(),
        0 <= i <= rules.len(),
        forall|j: int| 0 <= j < i ==> !rule_outcome(#[trigger] rules[j], p, answers[j]),
        i < rules.len() ==> rule_outcome(rules[i], p, answers[i]),
    ensures
        first_match(rules, p, answers) == (if i < rules.len() {
            rules[i].action
        } else {
            RuleAction::Direct
        }),
{
    lemma_first_match_skip(rules, p, answers, i);
    if i < rules.len() {
        assert(rules.skip(i)[0] == rules[i]);
        assert(answers.skip(i)[0] == answers[i]);
    } else {
        assert(rules.skip(i).len() == 0);
    }
}

/// With no rule at all, every packet goes `Direct`.
pub proof fn lemma_no_rules_direct(p: PacketContext, answers: Seq<bool>)
    ensures
        first_match(Seq::empty(), p, answers) == RuleAction::Direct,
{
}

/// Configurations read from YAML hold only rules with conditions, so
/// `validate` accepts them.
pub proof fn lemma_parsed_config_is_valid(texts: Seq<Seq<char>>, rules: Seq<RuleModel>)
    requires
        all_parse(texts),
        rules.len() == texts.len(),
        forall|i: int| 0 <= i < texts.len() ==> parse_compact_spec(texts[i]) == Ok::<RuleModel, Seq<char>>(#[trigger] rules[i]),
    ensures
        forall|i: int| 0 <= i < rules.len() ==> has_conditions_spec(#[trigger] rules[i]),
{
    assert forall|i: int| 0 <= i < rules.len() implies has_conditions_spec(#[trigger] rules[i]) by {
        assert(parse_compact_spec(texts[i]) is Ok);
        crate::rule::lemma_parsed_rule_has_conditions(texts[i]);
    }
}

} // verus!
