//! The outcome of routing a packet, with the rule that decided it.

use vstd::prelude::*;
use vstd::string::*;
use std::time::Instant;
use crate::rule::{action_text, RuleAction};
use crate::text::{decimal, push_decimal};

verus! {

#[verifier::external_type_specification]
#[verifier::external_body]
pub struct ExInstant(Instant);

/// `Instant` is `Copy`: its clone is the same instant.
pub assume_specification[ <Instant as Clone>::clone ](i: &Instant) -> (r: Instant)
    ensures
        r == *i,
;

/// Calls `std::time::Instant::now`; nothing is stated of the time it reads.
#[verifier::external_body]
pub(crate) fn instant_now() -> Instant {
    Instant::now()
}

/// What was decided for a packet, by which rule, and when.
#[derive(Debug, Clone)]
pub struct RuleDecision {
    pub action: RuleAction,
    pub rule_id: Option<u32>,
    pub rule_name: Option<String>,
    pub timestamp: Instant,
    pub is_default: bool,
}

/// How a decision is displayed.
pub open spec fn decision_text(d: RuleDecision) -> Seq<char> {
    if d.is_default {
        "default -> "@ + action_text(d.action)
    } else {
        "rule '"@ + match d.rule_name {
            Some(n) => n@,
            None => "unknown"@,
        } + "' (id="@ + decimal(
            match d.rule_id {
                Some(i) => i as nat,
                None => 0,
            },
        ) + ") -> "@ + action_text(d.action)
    }
}

impl RuleDecision {
    /// The decision taken when no rule matched.
    pub fn default_action(action: RuleAction) -> (d: RuleDecision)
        ensures
            d.action == action,
            d.rule_id is None,
            d.rule_name is None,
            d.is_default,
    {
        RuleDecision {
            action,
            rule_id: None,
            rule_name: None,
            timestamp: instant_now(),
            is_default: true,
        }
    }

    /// The decision taken by rule `rule_id`, named `rule_name`.
    pub fn from_rule(rule_id: u32, rule_name: String, action: RuleAction) -> (d: RuleDecision)
        ensures
            d.action == action,
            d.rule_id == Some(rule_id),
            d.rule_name matches Some(n) && n@ == rule_name@,
            !d.is_default,
    {
        RuleDecision {
            action,
            rule_id: Some(rule_id),
            rule_name: Some(rule_name),
            timestamp: instant_now(),
            is_default: false,
        }
    }

    /// Whether the packet is rejected.
    pub fn is_reject(&self) -> (b: bool)
        ensures
            b == (self.action == RuleAction::Reject),
    {
        self.action == RuleAction::Reject
    }

    /// The deciding rule, if a rule decided.
    pub fn rule_id(&self) -> (r: Option<u32>)
        ensures
            r == self.rule_id,
    {
        self.rule_id
    }

    /// The decision displayed: `default -> Action`, or
    /// `rule 'name' (id=N) -> Action`.
    pub fn to_display_string(&self) -> (s: String)
        ensures
            s@ == decision_text(*self),
    {
        let a = self.action.to_display_string();
        if self.is_default {
            let mut s = String::from_str("default -> ");
            s.append(a.as_str());
            return s;
        }
        let mut s = String::from_str("rule '");
        match &self.rule_name {
            Some(n) => s.append(n.as_str()),
            None => s.append("unknown"),
        }
        s.append("' (id=");
        let id: u64 = match self.rule_id {
            Some(i) => i as u64,
            None => 0,
        };
        push_decimal(&mut s, id);
        s.append(") -> ");
        s.append(a.as_str());
        s
    }
}

} // verus!
