//! The policy engine: turning an [`ActionRequest`] into an [`ActionDecision`].
//!
//! Rules are attribute-based. Each [`PolicyRule`] has a [`RuleEffect`]
//! (`allow`, `deny`, or `require_approval`) and a set of [`Conditions`] over
//! the action verb, resource, subject, context attributes, and computed risk.
//! Rules are sorted by priority (descending, then by name) and the first match
//! wins.
//!
//! Two mechanisms sit outside ordinary rules:
//!
//! * an **always-deny floor** of catastrophic patterns that can never be
//!   overridden (fork bombs, `rm -rf /`, raw disk writes), and
//! * **risk escalation**, which turns an `allow` into `require_approval` when
//!   the request's risk score meets the configured threshold.

use vstd::prelude::*;

use crate::action::{
    attr_contains, opt_view, strings_view, ActionRequest, AttrValue, AttributeValue, RequestView,
};
use crate::config::{Config, DefaultEffect, PolicyConfig};
use crate::decision::{ActionDecision, DecisionView, Effect, RuleRef, RuleRefView};
use crate::matching::{
    check_glob, check_regex, glob_error, glob_is_match, glob_matches, regex_error, regex_finds,
    regex_is_match,
};
use crate::risk::{RiskEngine, RiskScore, ScoreView};
use crate::text::{
    decimal, i64_to_decimal, join2, join3, lex_le, lex_le_str, owned, push_decimal, debug_path, quote_path,
    signed_decimal, str_eq,
};

verus! {

// ---------------------------------------------------------------------------
// Rule data
// ---------------------------------------------------------------------------

/// The effect a rule applies when it matches.
#[derive(Debug, Clone, Copy, PartialEq, Eq, Structural)]
pub enum RuleEffect {
    /// Permit the action.
    Allow,
    /// Refuse the action.
    Deny,
    /// Require explicit approval before proceeding.
    RequireApproval,
}

impl Default for RuleEffect {
    fn default() -> (r: Self)
        ensures
            r == RuleEffect::Deny,
    {
        RuleEffect::Deny
    }
}

/// The rule effect a configured default effect stands for.
pub open spec fn rule_effect_of(d: DefaultEffect) -> RuleEffect {
    match d {
        DefaultEffect::Allow => RuleEffect::Allow,
        DefaultEffect::Deny => RuleEffect::Deny,
        DefaultEffect::RequireApproval => RuleEffect::RequireApproval,
    }
}

impl From<DefaultEffect> for RuleEffect {
    fn from(value: DefaultEffect) -> (r: Self) {
        match value {
            DefaultEffect::Allow => RuleEffect::Allow,
            DefaultEffect::Deny => RuleEffect::Deny,
            DefaultEffect::RequireApproval => RuleEffect::RequireApproval,
        }
    }
}

impl vstd::std_specs::convert::FromSpecImpl<DefaultEffect> for RuleEffect {
    open spec fn obeys_from_spec() -> bool {
        true
    }

    open spec fn from_spec(v: DefaultEffect) -> RuleEffect {
        rule_effect_of(v)
    }
}

/// The decision effect a rule effect stands for.
pub open spec fn effect_of(e: RuleEffect) -> Effect {
    match e {
        RuleEffect::Allow => Effect::Allow,
        RuleEffect::Deny => Effect::Deny,
        RuleEffect::RequireApproval => Effect::RequireApproval,
    }
}

/// The snake_case name of a rule effect.
pub open spec fn rule_effect_text(e: RuleEffect) -> Seq<char> {
    match e {
        RuleEffect::Allow => "allow"@,
        RuleEffect::Deny => "deny"@,
        RuleEffect::RequireApproval => "require_approval"@,
    }
}

/// A condition on a single context attribute.
#[derive(Debug, Clone)]
pub enum AttrCondition {
    /// The attribute must be present.
    Exists,
    /// The attribute must equal this scalar (or, for a list, contain it).
    Equals(String),
    /// The attribute's scalar form must match this regex.
    Regex(String),
    /// The attribute must equal (or contain) one of these values.
    OneOf(Vec<String>),
}

/// The mathematical model of an [`AttrCondition`].
pub enum AttrCond {
    Exists,
    Equals(Seq<char>),
    Regex(Seq<char>),
    OneOf(Seq<Seq<char>>),
}

impl View for AttrCondition {
    type V = AttrCond;

    open spec fn view(&self) -> AttrCond {
        match self {
            AttrCondition::Exists => AttrCond::Exists,
            AttrCondition::Equals(s) => AttrCond::Equals(s@),
            AttrCondition::Regex(s) => AttrCond::Regex(s@),
            AttrCondition::OneOf(v) => AttrCond::OneOf(strings_view(v@)),
        }
    }
}

/// The conditions a rule matches against. Every condition that is present
/// must hold.
#[derive(Debug, Clone)]
pub struct Conditions {
    /// Exact action verb, e.g. `exec`.
    pub action: Option<String>,
    /// Glob over the action verb, e.g. `fs.*`.
    pub action_glob: Option<String>,
    /// Exact resource string.
    pub resource: Option<String>,
    /// Glob over the resource, e.g. `/etc/**`.
    pub resource_glob: Option<String>,
    /// Regexes the resource must all match.
    pub resource_regex: Vec<String>,
    /// Exact subject id.
    pub subject: Option<String>,
    /// Roles the subject must all hold.
    pub subject_roles: Vec<String>,
    /// Conditions on context attributes, by attribute name. Every entry must
    /// hold; a name listed twice must meet both of its conditions. Their
    /// regexes are checked in name order, as a map keyed by name would be.
    pub attributes: Vec<(String, AttrCondition)>,
    /// Minimum risk score (inclusive) for the rule to apply.
    pub min_risk: Option<u8>,
    /// Maximum risk score (inclusive) for the rule to apply.
    pub max_risk: Option<u8>,
}

/// The mathematical model of [`Conditions`].
pub struct ConditionsView {
    pub action: Option<Seq<char>>,
    pub action_glob: Option<Seq<char>>,
    pub resource: Option<Seq<char>>,
    pub resource_glob: Option<Seq<char>>,
    pub resource_regex: Seq<Seq<char>>,
    pub subject: Option<Seq<char>>,
    pub subject_roles: Seq<Seq<char>>,
    pub attributes: Seq<(Seq<char>, AttrCond)>,
    pub min_risk: Option<u8>,
    pub max_risk: Option<u8>,
}

impl View for Conditions {
    type V = ConditionsView;

    open spec fn view(&self) -> ConditionsView {
        ConditionsView {
            action: opt_view(self.action),
            action_glob: opt_view(self.action_glob),
            resource: opt_view(self.resource),
            resource_glob: opt_view(self.resource_glob),
            resource_regex: strings_view(self.resource_regex@),
            subject: opt_view(self.subject),
            subject_roles: strings_view(self.subject_roles@),
            attributes: self.attributes@.map_values(|e: (String, AttrCondition)| (e.0@, e.1@)),
            min_risk: self.min_risk,
            max_risk: self.max_risk,
        }
    }
}

/// Conditions with nothing required: they match every request.
pub open spec fn no_conditions() -> ConditionsView {
    ConditionsView {
        action: None,
        action_glob: None,
        resource: None,
        resource_glob: None,
        resource_regex: Seq::empty(),
        subject: None,
        subject_roles: Seq::empty(),
        attributes: Seq::empty(),
        min_risk: None,
        max_risk: None,
    }
}

impl Default for Conditions {
    fn default() -> (r: Self)
        ensures
            r@ == no_conditions(),
    {
        let r = Conditions {
            action: None,
            action_glob: None,
            resource: None,
            resource_glob: None,
            resource_regex: Vec::new(),
            subject: None,
            subject_roles: Vec::new(),
            attributes: Vec::new(),
            min_risk: None,
            max_risk: None,
        };
        assert(r@.resource_regex =~= Seq::empty());
        assert(r@.subject_roles =~= Seq::empty());
        assert(r@.attributes =~= Seq::empty());
        r
    }
}

/// A single policy rule.
#[derive(Debug, Clone)]
pub struct PolicyRule {
    /// Rule name (used in decisions and audit records).
    pub name: String,
    /// Optional human-readable description.
    pub description: Option<String>,
    /// Higher priority rules are evaluated first.
    pub priority: Option<u32>,
    /// The effect applied when the rule matches.
    pub effect: RuleEffect,
    /// The conditions that must all hold for the rule to match.
    pub conditions: Conditions,
}

/// The mathematical model of a [`PolicyRule`].
pub struct RuleView {
    pub name: Seq<char>,
    pub description: Option<Seq<char>>,
    pub priority: Option<u32>,
    pub effect: RuleEffect,
    pub conditions: ConditionsView,
}

impl View for PolicyRule {
    type V = RuleView;

    open spec fn view(&self) -> RuleView {
        RuleView {
            name: self.name@,
            description: opt_view(self.description),
            priority: self.priority,
            effect: self.effect,
            conditions: self.conditions@,
        }
    }
}

/// The models of a list of rules.
pub open spec fn rules_view(v: Seq<PolicyRule>) -> Seq<RuleView> {
    v.map_values(|r: PolicyRule| r@)
}

/// The reference a decision carries to the rule that produced it.
pub open spec fn rule_ref_of(rule: RuleView) -> RuleRefView {
    RuleRefView { name: rule.name, description: rule.description }
}

impl PolicyRule {
    fn rule_ref(&self) -> (r: RuleRef)
        ensures
            r@ == rule_ref_of(self@),
    {
        let description = match &self.description {
            Some(d) => Some(d.clone()),
            None => None,
        };
        RuleRef::new(self.name.as_str(), description)
    }
}

// ---------------------------------------------------------------------------
// Matching
// ---------------------------------------------------------------------------

/// The text form of a scalar attribute (`None` for lists).
pub open spec fn scalar_text(v: AttrValue) -> Option<Seq<char>> {
    match v {
        AttrValue::Text(s) => Some(s),
        AttrValue::Integer(n) => Some(signed_decimal(n as int)),
        AttrValue::Bool(b) => Some(
            if b {
                "true"@
            } else {
                "false"@
            },
        ),
        AttrValue::List(_) => None,
    }
}

/// A value equals `expected` by its text form, or contains it.
pub open spec fn scalar_matches(v: AttrValue, expected: Seq<char>) -> bool {
    scalar_text(v) == Some(expected) || attr_contains(v, expected)
}

/// Whether an attribute condition holds of the attribute's value, if any.
pub open spec fn attr_holds(cond: AttrCond, value: Option<AttrValue>) -> bool {
    match value {
        None => false,
        Some(v) => match cond {
            AttrCond::Exists => true,
            AttrCond::Equals(expected) => scalar_matches(v, expected),
            AttrCond::Regex(p) => match scalar_text(v) {
                Some(s) => regex_finds(p, s),
                None => false,
            },
            AttrCond::OneOf(opts) => one_of_matches(v, opts),
        },
    }
}

/// A value matches one of several expected values.
pub open spec fn one_of_matches(v: AttrValue, opts: Seq<Seq<char>>) -> bool {
    exists|i: int| 0 <= i < opts.len() && scalar_matches(v, #[trigger] opts[i])
}

/// The value a context holds under `key`, if any.
pub open spec fn lookup(context: Map<Seq<char>, AttrValue>, key: Seq<char>) -> Option<AttrValue> {
    if context.contains_key(key) {
        Some(context[key])
    } else {
        None
    }
}

/// An optional exact condition holds of `value`.
pub open spec fn exact_holds(cond: Option<Seq<char>>, value: Seq<char>) -> bool {
    match cond {
        Some(c) => value == c,
        None => true,
    }
}

/// An optional glob condition holds of `value`.
pub open spec fn glob_holds(cond: Option<Seq<char>>, value: Seq<char>) -> bool {
    match cond {
        Some(g) => glob_matches(g, value),
        None => true,
    }
}

/// Every condition of `c` holds of `request` at risk `risk`.
pub open spec fn conditions_hold(c: ConditionsView, request: RequestView, risk: u8) -> bool {
    &&& exact_holds(c.action, request.action)
    &&& glob_holds(c.action_glob, request.action)
    &&& exact_holds(c.resource, request.resource)
    &&& glob_holds(c.resource_glob, request.resource)
    &&& forall|i: int|
        0 <= i < c.resource_regex.len() ==> regex_finds(
            #[trigger] c.resource_regex[i],
            request.resource,
        )
    &&& exact_holds(c.subject, request.subject.id)
    &&& forall|i: int|
        0 <= i < c.subject_roles.len() ==> request.subject.roles.contains(
            #[trigger] c.subject_roles[i],
        )
    &&& forall|i: int|
        0 <= i < c.attributes.len() ==> attr_holds(
            (#[trigger] c.attributes[i]).1,
            lookup(request.context, c.attributes[i].0),
        )
    &&& match c.min_risk {
        Some(m) => risk >= m,
        None => true,
    }
    &&& match c.max_risk {
        Some(m) => risk <= m,
        None => true,
    }
}

/// Whether a rule matches a request at a risk value.
pub open spec fn rule_matches(rule: RuleView, request: RequestView, risk: u8) -> bool {
    conditions_hold(rule.conditions, request, risk)
}

/// The index of the first rule that matches, if any.
pub open spec fn first_match(rules: Seq<RuleView>, request: RequestView, risk: u8) -> Option<int>
    decreases rules.len(),
{
    if rules.len() == 0 {
        None
    } else {
        match first_match(rules.drop_last(), request, risk) {
            Some(k) => Some(k),
            None => if rule_matches(rules.last(), request, risk) {
                Some(rules.len() - 1)
            } else {
                None
            },
        }
    }
}

/// `first_match` finds the least matching index, and only when one exists.
pub proof fn lemma_first_match(rules: Seq<RuleView>, request: RequestView, risk: u8)
    ensures
        match first_match(rules, request, risk) {
            Some(k) => 0 <= k < rules.len() && rule_matches(rules[k], request, risk) && forall|
                j: int,
            |
                0 <= j < k ==> !rule_matches(#[trigger] rules[j], request, risk),
            None => forall|j: int|
                0 <= j < rules.len() ==> !rule_matches(#[trigger] rules[j], request, risk),
        },
    decreases rules.len(),
{
    if rules.len() > 0 {
        let t = rules.drop_last();
        lemma_first_match(t, request, risk);
        assert forall|j: int| 0 <= j < t.len() implies t[j] == rules[j] by {}
    }
}

/// A match within a prefix is the first match of the whole list.
pub proof fn lemma_first_match_prefix(
    rules: Seq<RuleView>,
    request: RequestView,
    risk: u8,
    n: int,
)
    requires
        0 <= n <= rules.len(),
        first_match(rules.take(n), request, risk) is Some,
    ensures
        first_match(rules, request, risk) == first_match(rules.take(n), request, risk),
    decreases rules.len() - n,
{
    if n < rules.len() {
        assert(rules.take(n + 1).drop_last() =~= rules.take(n));
        lemma_first_match_prefix(rules, request, risk, n + 1);
    } else {
        assert(rules.take(n) =~= rules);
    }
}

fn scalar_string(v: &AttributeValue) -> (r: Option<String>)
    ensures
        match r {
            Some(s) => scalar_text(v@) == Some(s@),
            None => scalar_text(v@) is None,
        },
{
    match v {
        AttributeValue::Text(s) => Some(s.clone()),
        AttributeValue::Integer(n) => Some(i64_to_decimal(*n)),
        AttributeValue::Bool(b) => {
            if *b {
                Some(owned("true"))
            } else {
                Some(owned("false"))
            }
        },
        AttributeValue::List(_) => None,
    }
}

fn scalar_eq(v: &AttributeValue, expected: &str) -> (r: bool)
    ensures
        r == scalar_matches(v@, expected@),
{
    let same = match scalar_string(v) {
        Some(s) => str_eq(s.as_str(), expected),
        None => false,
    };
    same || v.contains(expected)
}

/// Whether an attribute condition holds of the attribute's value (`None`
/// when the request's context lacks the attribute).
#[verifier::loop_isolation(false)]
pub fn attr_condition_holds(cond: &AttrCondition, value: Option<&AttributeValue>) -> (r: bool)
    ensures
        r == attr_holds(
            cond@,
            match value {
                Some(v) => Some(v@),
                None => None,
            },
        ),
{
    match cond {
        AttrCondition::Exists => value.is_some(),
        AttrCondition::Equals(expected) => match value {
            Some(v) => scalar_eq(v, expected.as_str()),
            None => false,
        },
        AttrCondition::Regex(p) => match value {
            Some(v) => match scalar_string(v) {
                Some(s) => regex_is_match(p.as_str(), s.as_str()),
                None => false,
            },
            None => false,
        },
        AttrCondition::OneOf(opts) => match value {
            Some(v) => {
                let ghost ov = strings_view(opts@);
                let n = opts.len();
                let mut i: usize = 0;
                while i < n
                    invariant
                        n == opts@.len(),
                        ov == strings_view(opts@),
                        i <= n,
                        forall|k: int| 0 <= k < i ==> !scalar_matches(v@, #[trigger] ov[k]),
                    decreases n - i,
                {
                    if scalar_eq(v, opts[i].as_str()) {
                        assert(ov[i as int] == opts@[i as int]@);
                        assert(scalar_matches(v@, ov[i as int]));
                        assert(cond@ == AttrCond::OneOf(ov));
                        assert(one_of_matches(v@, ov));
                        return true;
                    }
                    i = i + 1;
                }
                false
            },
            None => false,
        },
    }
}

fn exact_ok(cond: &Option<String>, value: &String) -> (r: bool)
    ensures
        r == exact_holds(opt_view(*cond), value@),
{
    match cond {
        Some(c) => str_eq(value.as_str(), c.as_str()),
        None => true,
    }
}

fn glob_ok(cond: &Option<String>, value: &String) -> (r: bool)
    ensures
        r == glob_holds(opt_view(*cond), value@),
{
    match cond {
        Some(g) => glob_is_match(g.as_str(), value.as_str()),
        None => true,
    }
}

/// Whether `rule` matches `request` at risk `risk`.
#[verifier::loop_isolation(false)]
pub fn rule_matches_exec(rule: &PolicyRule, request: &ActionRequest, risk: u8) -> (r: bool)
    ensures
        r == rule_matches(rule@, request@, risk),
{
    let c = &rule.conditions;
    let ghost cv = c@;
    if !exact_ok(&c.action, &request.action) {
        return false;
    }
    if !glob_ok(&c.action_glob, &request.action) {
        return false;
    }
    if !exact_ok(&c.resource, &request.resource) {
        return false;
    }
    if !glob_ok(&c.resource_glob, &request.resource) {
        return false;
    }
    let n = c.resource_regex.len();
    let mut i: usize = 0;
    while i < n
        invariant
            n == c.resource_regex@.len(),
            cv == c@,
            i <= n,
            forall|k: int|
                0 <= k < i ==> regex_finds(#[trigger] cv.resource_regex[k], request@.resource),
        decreases n - i,
    {
        if !regex_is_match(c.resource_regex[i].as_str(), request.resource.as_str()) {
            assert(!regex_finds(cv.resource_regex[i as int], request@.resource));
            return false;
        }
        i = i + 1;
    }
    if !exact_ok(&c.subject, &request.subject.id) {
        return false;
    }
    let n = c.subject_roles.len();
    let mut i: usize = 0;
    while i < n
        invariant
            n == c.subject_roles@.len(),
            cv == c@,
            i <= n,
            forall|k: int|
                0 <= k < i ==> request@.subject.roles.contains(#[trigger] cv.subject_roles[k]),
        decreases n - i,
    {
        if !request.subject.has_role(c.subject_roles[i].as_str()) {
            assert(!request@.subject.roles.contains(cv.subject_roles[i as int]));
            return false;
        }
        i = i + 1;
    }
    let n = c.attributes.len();
    let mut i: usize = 0;
    while i < n
        invariant
            n == c.attributes@.len(),
            cv == c@,
            i <= n,
            forall|k: int|
                0 <= k < i ==> attr_holds(
                    (#[trigger] cv.attributes[k]).1,
                    lookup(request@.context, cv.attributes[k].0),
                ),
        decreases n - i,
    {
        let found = request.context.get(c.attributes[i].0.as_str());
        let ok = attr_condition_holds(&c.attributes[i].1, found);
        assert(cv.attributes[i as int] == (c.attributes@[i as int].0@, c.attributes@[i as int].1@));
        if !ok {
            return false;
        }
        i = i + 1;
    }
    if let Some(min) = c.min_risk {
        if risk < min {
            return false;
        }
    }
    if let Some(max) = c.max_risk {
        if risk > max {
            return false;
        }
    }
    true
}

// ---------------------------------------------------------------------------
// Compiling and ordering rules
// ---------------------------------------------------------------------------

/// The reason a pattern in a rule is rejected, if any: the first bad glob or
/// regex in the order action glob, resource glob, resource regexes,
/// attribute regexes.
pub open spec fn glob_problem(pattern: Option<Seq<char>>, source: Seq<char>) -> Option<Seq<char>> {
    match pattern {
        Some(p) => match glob_error(p) {
            Some(e) => Some("invalid glob '"@ + p + "' in "@ + source + ": "@ + e),
            None => None,
        },
        None => None,
    }
}

/// The reason a regex is rejected, if it is.
pub open spec fn regex_problem(p: Seq<char>, source: Seq<char>) -> Option<Seq<char>> {
    match regex_error(p) {
        Some(e) => Some("invalid regex '"@ + p + "' in "@ + source + ": "@ + e),
        None => None,
    }
}

/// The first rejected regex of a list, if any.
pub open spec fn regexes_problem(ps: Seq<Seq<char>>, source: Seq<char>) -> Option<Seq<char>>
    decreases ps.len(),
{
    if ps.len() == 0 {
        None
    } else {
        match regexes_problem(ps.drop_last(), source) {
            Some(e) => Some(e),
            None => regex_problem(ps.last(), source),
        }
    }
}

/// The pattern of a regex attribute condition.
pub open spec fn cond_pattern(c: AttrCond) -> Seq<char> {
    match c {
        AttrCond::Regex(p) => p,
        _ => Seq::empty(),
    }
}

/// A regex attribute condition whose pattern is rejected.
pub open spec fn bad_regex_cond(c: AttrCond) -> bool {
    c is Regex && regex_error(cond_pattern(c)) is Some
}

/// Among the attribute conditions with a rejected regex, the one whose name
/// sorts first (the earliest of equal names): its name and pattern. This is
/// the order an attribute map keyed by name is checked in.
pub open spec fn least_bad_attribute(attrs: Seq<(Seq<char>, AttrCond)>) -> Option<
    (Seq<char>, Seq<char>),
>
    decreases attrs.len(),
{
    if attrs.len() == 0 {
        None
    } else {
        let rest = least_bad_attribute(attrs.drop_last());
        let entry = attrs.last();
        if bad_regex_cond(entry.1) {
            match rest {
                Some(best) => if lex_le(best.0, entry.0) {
                    rest
                } else {
                    Some((entry.0, cond_pattern(entry.1)))
                },
                None => Some((entry.0, cond_pattern(entry.1))),
            }
        } else {
            rest
        }
    }
}

/// Why a rule cannot be compiled, if it cannot.
pub open spec fn rule_problem(rule: RuleView, source: Seq<char>) -> Option<Seq<char>> {
    match glob_problem(rule.conditions.action_glob, source) {
        Some(e) => Some(e),
        None => match glob_problem(rule.conditions.resource_glob, source) {
            Some(e) => Some(e),
            None => match regexes_problem(rule.conditions.resource_regex, source) {
                Some(e) => Some(e),
                None => match least_bad_attribute(rule.conditions.attributes) {
                    Some(bad) => regex_problem(bad.1, source),
                    None => None,
                },
            },
        },
    }
}

/// The first rule of a list that cannot be compiled, with the reason.
pub open spec fn rules_problem(rules: Seq<RuleView>, source: Seq<char>) -> Option<
    (Seq<char>, Seq<char>),
>
    decreases rules.len(),
{
    if rules.len() == 0 {
        None
    } else {
        match rules_problem(rules.drop_last(), source) {
            Some(e) => Some(e),
            None => match rule_problem(rules.last(), source) {
                Some(reason) => Some((rules.last().name, reason)),
                None => None,
            },
        }
    }
}

/// The priority a rule sorts by (a missing priority counts as 0).
pub open spec fn priority_of(rule: RuleView) -> u32 {
    match rule.priority {
        Some(p) => p,
        None => 0,
    }
}

/// `a` sorts strictly before `b`: higher priority first, then by name.
pub open spec fn sorts_before(a: RuleView, b: RuleView) -> bool {
    priority_of(a) > priority_of(b) || (priority_of(a) == priority_of(b) && lex_le(a.name, b.name)
        && a.name != b.name)
}

/// `a` may stand before `b` in a sorted list.
pub open spec fn sorts_no_later(a: RuleView, b: RuleView) -> bool {
    !sorts_before(b, a)
}

/// Inserts `x` after every element that does not sort strictly after it
/// (so equal keys keep their order).
pub open spec fn insert_sorted(s: Seq<RuleView>, x: RuleView) -> Seq<RuleView>
    decreases s.len(),
{
    if s.len() == 0 {
        seq![x]
    } else if sorts_before(x, s[0]) {
        seq![x] + s
    } else {
        seq![s[0]] + insert_sorted(s.drop_first(), x)
    }
}

/// The stable sort of rules by priority (descending), then name.
pub open spec fn sort_rules(s: Seq<RuleView>) -> Seq<RuleView>
    decreases s.len(),
{
    if s.len() == 0 {
        Seq::empty()
    } else {
        insert_sorted(sort_rules(s.drop_last()), s.last())
    }
}

/// Inserting is placing `x` before the first element it sorts strictly
/// before.
proof fn lemma_insert_at(s: Seq<RuleView>, x: RuleView, p: int)
    requires
        0 <= p <= s.len(),
        forall|k: int| 0 <= k < p ==> !sorts_before(x, #[trigger] s[k]),
        p < s.len() ==> sorts_before(x, s[p]),
    ensures
        insert_sorted(s, x) == s.insert(p, x),
    decreases s.len(),
{
    if s.len() == 0 {
        assert(s.insert(p, x) =~= seq![x]);
    } else if p == 0 {
        assert(s.insert(p, x) =~= seq![x] + s);
    } else {
        let t = s.drop_first();
        assert forall|k: int| 0 <= k < p - 1 implies !sorts_before(x, #[trigger] t[k]) by {
            assert(t[k] == s[k + 1]);
        }
        lemma_insert_at(t, x, p - 1);
        assert(s.insert(p, x) =~= seq![s[0]] + t.insert(p - 1, x));
    }
}

/// Checks every pattern of one rule; `source` names where the rule came from.
#[verifier::loop_isolation(false)]
fn check_rule(rule: &PolicyRule, source: &str) -> (r: Result<(), String>)
    ensures
        match r {
            Ok(()) => rule_problem(rule@, source@) is None,
            Err(e) => rule_problem(rule@, source@) == Some(e@),
        },
{
    let c = &rule.conditions;
    let ghost cv = c@;
    if let Some(p) = &c.action_glob {
        if let Err(e) = check_glob(p.as_str()) {
            return Err(problem_text("invalid glob '", p.as_str(), source, e.as_str()));
        }
    }
    if let Some(p) = &c.resource_glob {
        if let Err(e) = check_glob(p.as_str()) {
            return Err(problem_text("invalid glob '", p.as_str(), source, e.as_str()));
        }
    }
    let n = c.resource_regex.len();
    let mut i: usize = 0;
    while i < n
        invariant
            n == c.resource_regex@.len(),
            cv == c@,
            i <= n,
            regexes_problem(cv.resource_regex.take(i as int), source@) is None,
        decreases n - i,
    {
        assert(cv.resource_regex.take(i + 1).drop_last() =~= cv.resource_regex.take(i as int));
        if let Err(e) = check_regex(c.resource_regex[i].as_str()) {
            proof {
                lemma_problem_prefix(cv.resource_regex, source@, i as int + 1);
            }
            return Err(problem_text("invalid regex '", c.resource_regex[i].as_str(), source, e.as_str()));
        }
        i = i + 1;
    }
    assert(cv.resource_regex.take(n as int) =~= cv.resource_regex);
    let n = c.attributes.len();
    let mut best: Option<usize> = None;
    let mut i: usize = 0;
    assert(cv.attributes.take(0) =~= Seq::<(Seq<char>, AttrCond)>::empty());
    while i < n
        invariant
            n == c.attributes@.len(),
            cv == c@,
            i <= n,
            cv.attributes.len() == n,
            forall|k: int| 0 <= k < n ==> #[trigger] cv.attributes[k] == (c.attributes@[k].0@, c.attributes@[k].1@),
            match best {
                Some(k) => k < i && least_bad_attribute(cv.attributes.take(i as int)) == Some(
                    (cv.attributes[k as int].0, cond_pattern(cv.attributes[k as int].1)),
                ) && bad_regex_cond(cv.attributes[k as int].1),
                None => least_bad_attribute(cv.attributes.take(i as int)) is None,
            },
        decreases n - i,
    {
        assert(cv.attributes.take(i + 1).drop_last() =~= cv.attributes.take(i as int));
        assert(cv.attributes.take(i + 1).last() == cv.attributes[i as int]);
        if let AttrCondition::Regex(p) = &c.attributes[i].1 {
            if check_regex(p.as_str()).is_err() {
                let replace = match best {
                    Some(k) => !lex_le_str(c.attributes[k].0.as_str(), c.attributes[i].0.as_str()),
                    None => true,
                };
                if replace {
                    best = Some(i);
                }
            }
        }
        i = i + 1;
    }
    assert(cv.attributes.take(n as int) =~= cv.attributes);
    if let Some(k) = best {
        if let AttrCondition::Regex(p) = &c.attributes[k].1 {
            match check_regex(p.as_str()) {
                Err(e) => {
                    return Err(problem_text("invalid regex '", p.as_str(), source, e.as_str()));
                },
                Ok(()) => {},
            }
        }
    }
    Ok(())
}

/// A problem found in a prefix is the first problem of the whole list.
proof fn lemma_problem_prefix(ps: Seq<Seq<char>>, source: Seq<char>, n: int)
    requires
        0 < n <= ps.len(),
        regexes_problem(ps.take(n - 1), source) is None,
        regex_problem(ps[n - 1], source) is Some,
    ensures
        regexes_problem(ps, source) == regex_problem(ps[n - 1], source),
{
    assert(ps.take(n).drop_last() =~= ps.take(n - 1));
    assert(regexes_problem(ps.take(n), source) == regex_problem(ps[n - 1], source));
    lemma_problem_extends(ps, source, n);
}

/// Once a prefix has a problem, every longer prefix reports the same one.
proof fn lemma_problem_extends(ps: Seq<Seq<char>>, source: Seq<char>, n: int)
    requires
        0 <= n <= ps.len(),
        regexes_problem(ps.take(n), source) is Some,
    ensures
        regexes_problem(ps, source) == regexes_problem(ps.take(n), source),
    decreases ps.len() - n,
{
    if n < ps.len() {
        assert(ps.take(n + 1).drop_last() =~= ps.take(n));
        lemma_problem_extends(ps, source, n + 1);
    } else {
        assert(ps.take(n) =~= ps);
    }
}

/// `"{prefix}{pattern}' in {source}: {error}"`.
fn problem_text(prefix: &str, pattern: &str, source: &str, error: &str) -> (r: String)
    ensures
        r@ == prefix@ + pattern@ + "' in "@ + source@ + ": "@ + error@,
{
    let a = join3(prefix, pattern, "' in ");
    let b = join3(a.as_str(), source, ": ");
    join2(b.as_str(), error)
}

/// Errors from loading or compiling policy.
#[derive(Debug, Clone, PartialEq, Eq)]
pub enum PolicyError {
    /// A policy file could not be read: the path and the reason.
    Io(String, String),
    /// A policy file was not valid TOML: the path and the reason.
    Parse(String, String),
    /// A rule contained an invalid glob or regex.
    InvalidRule {
        /// The offending rule's name.
        rule: String,
        /// Why it was rejected.
        reason: String,
    },
}

impl PolicyError {
    /// The text of the error; a path is shown quoted and escaped, as `{:?}`
    /// shows it.
    pub fn message(&self) -> (r: String)
        ensures
            r@ == match self {
                PolicyError::Io(path, err) => "failed to read policy from "@ + debug_path(path@)
                    + ": "@ + err@,
                PolicyError::Parse(path, err) => "failed to parse policy file "@ + debug_path(path@)
                    + ": "@ + err@,
                PolicyError::InvalidRule { rule, reason } => "invalid policy rule '"@ + rule@
                    + "': "@ + reason@,
            },
    {
        match self {
            PolicyError::Io(path, err) => {
                let q = quote_path(path.as_str());
                let head = join3("failed to read policy from ", q.as_str(), ": ");
                join2(head.as_str(), err.as_str())
            },
            PolicyError::Parse(path, err) => {
                let q = quote_path(path.as_str());
                let head = join3("failed to parse policy file ", q.as_str(), ": ");
                join2(head.as_str(), err.as_str())
            },
            PolicyError::InvalidRule { rule, reason } => {
                let head = join3("invalid policy rule '", rule.as_str(), "': ");
                join2(head.as_str(), reason.as_str())
            },
        }
    }
}

/// Checks a list of rules and sorts them: the first rule with a bad pattern is
/// reported with its reason; otherwise the rules come back in evaluation
/// order (priority descending, then name; equal keys keep their order).
pub fn compile_rules(rules: Vec<PolicyRule>, source: &str) -> (r: Result<Vec<PolicyRule>, PolicyError>)
    ensures
        match rules_problem(rules_view(rules@), source@) {
            Some((name, reason)) => r matches Err(PolicyError::InvalidRule { rule, reason: why })
                && rule@ == name && why@ == reason,
            None => r matches Ok(v) && rules_view(v@) == sort_rules(rules_view(rules@)),
        },
{
    let ghost rv = rules_view(rules@);
    let n = rules.len();
    let mut i: usize = 0;
    while i < n
        invariant
            n == rules@.len(),
            rv == rules_view(rules@),
            i <= n,
            rules_problem(rv.take(i as int), source@) is None,
        decreases n - i,
    {
        assert(rv.take(i + 1).drop_last() =~= rv.take(i as int));
        assert(rv.take(i + 1).last() == rules@[i as int]@);
        if let Err(reason) = check_rule(&rules[i], source) {
            proof {
                lemma_rules_problem_extends(rv, source@, i as int + 1);
            }
            return Err(PolicyError::InvalidRule { rule: rules[i].name.clone(), reason });
        }
        i = i + 1;
    }
    assert(rv.take(n as int) =~= rv);
    Ok(sort_rule_vec(rules))
}

/// Once a prefix of rules has a problem, the whole list reports that one.
proof fn lemma_rules_problem_extends(rules: Seq<RuleView>, source: Seq<char>, n: int)
    requires
        0 <= n <= rules.len(),
        rules_problem(rules.take(n), source) is Some,
    ensures
        rules_problem(rules, source) == rules_problem(rules.take(n), source),
    decreases rules.len() - n,
{
    if n < rules.len() {
        assert(rules.take(n + 1).drop_last() =~= rules.take(n));
        lemma_rules_problem_extends(rules, source, n + 1);
    } else {
        assert(rules.take(n) =~= rules);
    }
}

fn sorts_before_exec(a: &PolicyRule, b: &PolicyRule) -> (r: bool)
    ensures
        r == sorts_before(a@, b@),
{
    let pa = match a.priority {
        Some(p) => p,
        None => 0,
    };
    let pb = match b.priority {
        Some(p) => p,
        None => 0,
    };
    if pa > pb {
        true
    } else if pa < pb {
        false
    } else {
        lex_le_str(a.name.as_str(), b.name.as_str()) && !str_eq(a.name.as_str(), b.name.as_str())
    }
}

/// Stable insertion sort of rules into evaluation order.
fn sort_rule_vec(rules: Vec<PolicyRule>) -> (r: Vec<PolicyRule>)
    ensures
        rules_view(r@) == sort_rules(rules_view(rules@)),
{
    let ghost rv = rules_view(rules@);
    let mut out: Vec<PolicyRule> = Vec::new();
    let mut rest = rules;
    let n = rest.len();
    assert(rv.skip(0) =~= rv);
    assert(rv.take(0) =~= Seq::<RuleView>::empty());
    while rest.len() > 0
        invariant
            n == rv.len(),
            rest@.len() <= n,
            rules_view(rest@) == rv.skip(n - rest@.len()),
            rules_view(out@) == sort_rules(rv.take(n - rest@.len())),
        decreases rest.len(),
    {
        let ghost k = n - rest@.len();
        let ghost before_rest = rest@;
        let x = rest.remove(0);
        proof {
            assert(rules_view(before_rest)[0] == x@);
            assert(rv.skip(k)[0] == rv[k]);
            assert(rest@ =~= before_rest.drop_first());
            assert(rules_view(rest@) =~= rules_view(before_rest).drop_first());
            assert(rules_view(rest@) =~= rv.skip(k + 1));
            assert(rv.take(k + 1).drop_last() =~= rv.take(k));
        }
        let m = out.len();
        let mut p: usize = 0;
        while p < m && !sorts_before_exec(&x, &out[p])
            invariant
                m == out@.len(),
                p <= m,
                forall|j: int| 0 <= j < p ==> !sorts_before(x@, #[trigger] rules_view(out@)[j]),
            decreases m - p,
        {
            assert(rules_view(out@)[p as int] == out@[p as int]@);
            p = p + 1;
        }
        proof {
            if p < m {
                assert(rules_view(out@)[p as int] == out@[p as int]@);
            }
            lemma_insert_at(rules_view(out@), x@, p as int);
        }
        let ghost before_out = out@;
        out.insert(p, x);
        assert(rules_view(out@) =~= rules_view(before_out).insert(p as int, x@));
    }
    assert(rv.take(n as int) =~= rv);
    out
}

// ---------------------------------------------------------------------------
// The always-deny floor
// ---------------------------------------------------------------------------

/// The names and patterns of the built-in always-deny floor.
pub open spec fn floor_patterns() -> Seq<(Seq<char>, Seq<char>)> {
    seq![
        ("floor_rm_root"@, "(?i)\\brm\\s+-[a-z]*r[a-z]*f?\\b.*\\s/(\\s|\\*|$)"@),
        ("floor_rm_home"@, "(?i)\\brm\\s+-[a-z]*r[a-z]*f?\\b.*\\s~(/|\\s|$)"@),
        ("floor_mkfs"@, "(?i)\\bmkfs"@),
        ("floor_raw_disk_write"@, "(?i)\\bof=/dev/(sd|nvme|disk|hd)"@),
        ("floor_fork_bomb"@, ":\\(\\)\\s*\\{"@),
    ]
}

/// The floor rule for a name and pattern: deny at the highest priority when
/// the resource matches the pattern.
pub open spec fn floor_rule(entry: (Seq<char>, Seq<char>)) -> RuleView {
    RuleView {
        name: entry.0,
        description: Some("built-in catastrophic-command floor"@),
        priority: Some(u32::MAX),
        effect: RuleEffect::Deny,
        conditions: ConditionsView { resource_regex: seq![entry.1], ..no_conditions() },
    }
}

/// The rules of the always-deny floor, in the order they are checked.
pub open spec fn floor_rules() -> Seq<RuleView> {
    floor_patterns().map_values(|e: (Seq<char>, Seq<char>)| floor_rule(e))
}

/// The non-overridable deny floor: catastrophic patterns that are refused
/// before any user rule is considered. These are heuristics, not a security
/// boundary.
fn builtin_always_deny() -> (r: Vec<PolicyRule>)
    ensures
        rules_view(r@) == floor_rules(),
{
    let patterns: Vec<(&str, &str)> = vec![
        ("floor_rm_root", "(?i)\\brm\\s+-[a-z]*r[a-z]*f?\\b.*\\s/(\\s|\\*|$)"),
        ("floor_rm_home", "(?i)\\brm\\s+-[a-z]*r[a-z]*f?\\b.*\\s~(/|\\s|$)"),
        ("floor_mkfs", "(?i)\\bmkfs"),
        ("floor_raw_disk_write", "(?i)\\bof=/dev/(sd|nvme|disk|hd)"),
        ("floor_fork_bomb", ":\\(\\)\\s*\\{"),
    ];
    let ghost pv = patterns@.map_values(|e: (&str, &str)| (e.0@, e.1@));
    assert(pv =~= floor_patterns());
    let mut out: Vec<PolicyRule> = Vec::new();
    let n = patterns.len();
    let mut i: usize = 0;
    while i < n
        invariant
            n == patterns@.len(),
            pv == patterns@.map_values(|e: (&str, &str)| (e.0@, e.1@)),
            i <= n,
            rules_view(out@) == pv.take(i as int).map_values(
                |e: (Seq<char>, Seq<char>)| floor_rule(e),
            ),
        decreases n - i,
    {
        let mut conditions = Conditions::default();
        conditions.resource_regex.push(owned(patterns[i].1));
        let rule = PolicyRule {
            name: owned(patterns[i].0),
            description: Some(owned("built-in catastrophic-command floor")),
            priority: Some(u32::MAX),
            effect: RuleEffect::Deny,
            conditions,
        };
        assert(rule@.conditions.resource_regex =~= seq![pv[i as int].1]);
        assert(rule@ == floor_rule(pv[i as int]));
        let ghost before = out@;
        out.push(rule);
        assert(rules_view(out@) =~= rules_view(before).push(rule@));
        assert(pv.take(i + 1).map_values(|e: (Seq<char>, Seq<char>)| floor_rule(e))
            =~= pv.take(i as int).map_values(|e: (Seq<char>, Seq<char>)| floor_rule(e)).push(
            floor_rule(pv[i as int]),
        ));
        i = i + 1;
    }
    assert(pv.take(n as int) =~= pv);
    out
}

// ---------------------------------------------------------------------------
// Evaluation
// ---------------------------------------------------------------------------

/// Whether risk escalation turns `effect` into `require_approval`: the effect
/// is `allow`, a threshold is set, and the risk meets it.
pub open spec fn escalates(effect: RuleEffect, risk: u8, threshold: Option<u8>) -> bool {
    effect == RuleEffect::Allow && threshold is Some && risk >= threshold->0
}

/// A decision for `effect` and `reason`, after risk escalation.
pub open spec fn finalized(
    effect: RuleEffect,
    reason: Seq<char>,
    rule: Option<RuleRefView>,
    score: ScoreView,
    threshold: Option<u8>,
) -> DecisionView {
    if escalates(effect, score.value, threshold) {
        DecisionView {
            effect: Effect::RequireApproval,
            reason: reason + "; escalated: risk "@ + decimal(score.value as nat) + " ≥ "@ + decimal(
                threshold->0 as nat,
            ),
            matched_rule: rule,
            risk: score,
        }
    } else {
        DecisionView { effect: effect_of(effect), reason, matched_rule: rule, risk: score }
    }
}

/// The decision for a request: the first matching floor rule denies it;
/// otherwise the first matching rule decides, or the default effect when none
/// matches; an `allow` at or above the risk threshold becomes
/// `require_approval`. The decision carries the risk score.
pub open spec fn evaluation(
    rules: Seq<RuleView>,
    default_effect: RuleEffect,
    score: ScoreView,
    threshold: Option<u8>,
    request: RequestView,
) -> DecisionView {
    match first_match(floor_rules(), request, score.value) {
        Some(k) => DecisionView {
            effect: Effect::Deny,
            reason: "blocked by always-deny floor: "@ + floor_rules()[k].name,
            matched_rule: Some(rule_ref_of(floor_rules()[k])),
            risk: score,
        },
        None => match first_match(rules, request, score.value) {
            Some(k) => finalized(
                rules[k].effect,
                "matched rule '"@ + rules[k].name + "'"@,
                Some(rule_ref_of(rules[k])),
                score,
                threshold,
            ),
            None => finalized(
                default_effect,
                "no rule matched; default effect '"@ + rule_effect_text(default_effect) + "'"@,
                None,
                score,
                threshold,
            ),
        },
    }
}

/// A policy file's rules and the path they came from.
pub struct PolicySource {
    /// Where the rules were read from.
    pub path: String,
    /// The rules, in file order.
    pub rules: Vec<PolicyRule>,
}

/// The models of a list of policy sources.
pub open spec fn sources_view(v: Seq<PolicySource>) -> Seq<(Seq<char>, Seq<RuleView>)> {
    v.map_values(|s: PolicySource| (s.path@, rules_view(s.rules@)))
}

/// Loading policy sources in order: the first source with a bad rule fails
/// the load with that rule's name and reason; otherwise each source's rules
/// are sorted and appended.
pub open spec fn loaded(sources: Seq<(Seq<char>, Seq<RuleView>)>) -> Result<
    Seq<RuleView>,
    (Seq<char>, Seq<char>),
>
    decreases sources.len(),
{
    if sources.len() == 0 {
        Ok(Seq::empty())
    } else {
        match loaded(sources.drop_last()) {
            Err(e) => Err(e),
            Ok(acc) => match rules_problem(sources.last().1, sources.last().0) {
                Some(e) => Err(e),
                None => Ok(acc + sort_rules(sources.last().1)),
            },
        }
    }
}

/// The outcome of loading sources: the error of [`loaded`], or all their
/// rules in evaluation order.
pub open spec fn load_outcome(sources: Seq<(Seq<char>, Seq<RuleView>)>) -> Result<
    Seq<RuleView>,
    (Seq<char>, Seq<char>),
> {
    match loaded(sources) {
        Err(e) => Err(e),
        Ok(all) => Ok(sort_rules(all)),
    }
}

/// Whether a load result agrees with its model.
pub open spec fn load_agrees(
    r: Result<Vec<PolicyRule>, PolicyError>,
    outcome: Result<Seq<RuleView>, (Seq<char>, Seq<char>)>,
) -> bool {
    match outcome {
        Err((name, reason)) => r matches Err(PolicyError::InvalidRule { rule, reason: why })
            && rule@ == name && why@ == reason,
        Ok(v) => r matches Ok(rs) && rules_view(rs@) == v,
    }
}

/// Checks and orders the rules of several policy sources, as a policy
/// directory is loaded: each source is checked with its path as the source,
/// and all rules end up in evaluation order.
pub fn load_sources(sources: Vec<PolicySource>) -> (r: Result<Vec<PolicyRule>, PolicyError>)
    ensures
        load_agrees(r, load_outcome(sources_view(sources@))),
{
    let ghost sv = sources_view(sources@);
    let mut all: Vec<PolicyRule> = Vec::new();
    let mut rest = sources;
    let n = rest.len();
    assert(sv.skip(0) =~= sv);
    assert(sv.take(0) =~= Seq::<(Seq<char>, Seq<RuleView>)>::empty());
    assert(rules_view(all@) =~= Seq::<RuleView>::empty());
    while rest.len() > 0
        invariant
            n == sv.len(),
            sv == sources_view(sources@),
            rest@.len() <= n,
            sources_view(rest@) == sv.skip(n - rest@.len()),
            loaded(sv.take(n - rest@.len())) == Ok::<Seq<RuleView>, (Seq<char>, Seq<char>)>(
                rules_view(all@),
            ),
        decreases rest.len(),
    {
        let ghost k = n - rest@.len();
        let ghost before_rest = rest@;
        let source = rest.remove(0);
        proof {
            assert(sources_view(before_rest)[0] == (source.path@, rules_view(source.rules@)));
            assert(sv.skip(k)[0] == sv[k]);
            assert(rest@ =~= before_rest.drop_first());
            assert(sources_view(rest@) =~= sources_view(before_rest).drop_first());
            assert(sources_view(rest@) =~= sv.skip(k + 1));
            assert(sv.take(k + 1).drop_last() =~= sv.take(k));
            assert(sv.take(k + 1).last() == sv[k]);
        }
        let path = source.path;
        match compile_rules(source.rules, path.as_str()) {
            Err(e) => {
                proof {
                    assert(loaded(sv.take(k + 1)) is Err);
                    lemma_loaded_err_extends(sv, k + 1);
                }
                return Err(e);
            },
            Ok(sorted) => {
                let ghost before_all = all@;
                let ghost sorted_v = sorted@;
                let mut sorted = sorted;
                all.append(&mut sorted);
                assert(rules_view(all@) =~= rules_view(before_all) + rules_view(sorted_v));
            },
        }
    }
    assert(sv.take(n as int) =~= sv);
    Ok(sort_rule_vec(all))
}

proof fn lemma_loaded_err_extends(sources: Seq<(Seq<char>, Seq<RuleView>)>, n: int)
    requires
        0 <= n <= sources.len(),
        loaded(sources.take(n)) is Err,
    ensures
        loaded(sources) == loaded(sources.take(n)),
    decreases sources.len() - n,
{
    if n < sources.len() {
        assert(sources.take(n + 1).drop_last() =~= sources.take(n));
        lemma_loaded_err_extends(sources, n + 1);
    } else {
        assert(sources.take(n) =~= sources);
    }
}

/// Evaluates [`ActionRequest`]s against an ordered set of rules.
pub struct PolicyEngine {
    always_deny: Vec<PolicyRule>,
    rules: Vec<PolicyRule>,
    default_effect: RuleEffect,
    risk: RiskEngine,
    approval_threshold: Option<u8>,
}

impl PolicyEngine {
    #[verifier::type_invariant]
    closed spec fn floor_is_builtin(&self) -> bool {
        rules_view(self.always_deny@) == floor_rules()
    }

    /// The user rules, in evaluation order.
    pub closed spec fn rules(&self) -> Seq<RuleView> {
        rules_view(self.rules@)
    }

    /// The effect applied when no rule matches.
    pub closed spec fn default_effect(&self) -> RuleEffect {
        self.default_effect
    }

    /// The risk engine that scores requests.
    pub closed spec fn risk_engine(&self) -> RiskEngine {
        self.risk
    }

    /// The risk score at or above which an `allow` is escalated, if any.
    pub closed spec fn approval_threshold(&self) -> Option<u8> {
        self.approval_threshold
    }

    /// The decision this engine reaches for a request.
    pub open spec fn decision_for(&self, request: RequestView) -> DecisionView {
        evaluation(
            self.rules(),
            self.default_effect(),
            self.risk_engine().score_for(request),
            self.approval_threshold(),
            request,
        )
    }

    /// A policy engine with no user rules, the given default effect, and no
    /// risk analysis. The always-deny floor is always present.
    pub fn new(default_effect: RuleEffect) -> (r: Self)
        ensures
            r.rules() == Seq::<RuleView>::empty(),
            r.default_effect() == default_effect,
            r.risk_engine().analyzers().len() == 0,
            r.approval_threshold() is None,
    {
        let r = PolicyEngine {
            always_deny: builtin_always_deny(),
            rules: Vec::new(),
            default_effect,
            risk: RiskEngine::empty(),
            approval_threshold: None,
        };
        assert(r.rules() =~= Seq::<RuleView>::empty());
        r
    }

    /// Build an engine from explicit rules (useful in tests and embedding);
    /// fails on the first rule with an invalid pattern.
    pub fn with_rules(
        default_effect: RuleEffect,
        rules: Vec<PolicyRule>,
        risk: RiskEngine,
        approval_threshold: Option<u8>,
    ) -> (r: Result<Self, PolicyError>)
        ensures
            match rules_problem(rules_view(rules@), "<inline>"@) {
                Some((name, reason)) => r matches Err(PolicyError::InvalidRule { rule, reason: why })
                    && rule@ == name && why@ == reason,
                None => r matches Ok(e) && e.rules() == sort_rules(rules_view(rules@))
                    && e.default_effect() == default_effect && e.risk_engine() == risk
                    && e.approval_threshold() == approval_threshold,
            },
    {
        let compiled = compile_rules(rules, "<inline>")?;
        Ok(PolicyEngine {
            always_deny: builtin_always_deny(),
            rules: compiled,
            default_effect,
            risk,
            approval_threshold,
        })
    }

    /// Build an engine from configuration and the policy files read from the
    /// configured directory, wiring up the configured risk analyzers.
    pub fn from_config(config: &Config, sources: Vec<PolicySource>) -> (r: Result<Self, PolicyError>)
        ensures
            match load_outcome(sources_view(sources@)) {
                Err((name, reason)) => r matches Err(PolicyError::InvalidRule { rule, reason: why })
                    && rule@ == name && why@ == reason,
                Ok(v) => r matches Ok(e) && e.rules() == v
                    && e.default_effect() == rule_effect_of(config.policy.default_effect)
                    && (forall|request: RequestView| #[trigger]
                    crate::risk::all_signals(e.risk_engine().analyzers(), request)
                        == crate::risk::configured_signals(config.risk, request))
                    && e.approval_threshold() == config.risk.approval_threshold,
            },
    {
        let rules = load_sources(sources)?;
        Ok(PolicyEngine {
            always_deny: builtin_always_deny(),
            rules,
            default_effect: RuleEffect::from(config.policy.default_effect),
            risk: RiskEngine::from_config(&config.risk),
            approval_threshold: config.risk.approval_threshold,
        })
    }

    /// Replace the rules with those of freshly read policy files and adopt the
    /// configured default effect. On failure the engine is unchanged.
    pub fn reload(&mut self, config: &PolicyConfig, sources: Vec<PolicySource>) -> (r: Result<
        (),
        PolicyError,
    >)
        ensures
            match load_outcome(sources_view(sources@)) {
                Err((name, reason)) => r matches Err(PolicyError::InvalidRule { rule, reason: why })
                    && rule@ == name && why@ == reason && final(self).rules() == old(self).rules()
                    && final(self).default_effect() == old(self).default_effect(),
                Ok(v) => r is Ok && final(self).rules() == v && final(self).default_effect()
                    == rule_effect_of(config.default_effect),
            },
            final(self).risk_engine() == old(self).risk_engine(),
            final(self).approval_threshold() == old(self).approval_threshold(),
    {
        proof {
            use_type_invariant(&*self);
        }
        let rules = load_sources(sources)?;
        self.rules = rules;
        self.default_effect = RuleEffect::from(config.default_effect);
        Ok(())
    }

    /// The heart of Veridion: decide what to do with an action.
    pub fn evaluate(&self, request: &ActionRequest) -> (r: ActionDecision)
        ensures
            r@ == self.decision_for(request@),
    {
        proof {
            use_type_invariant(self);
        }
        let risk = self.risk.score(request);
        let ghost floor = floor_rules();
        let n = self.always_deny.len();
        let mut i: usize = 0;
        assert(floor.take(0) =~= Seq::<RuleView>::empty());
        while i < n
            invariant
                n == self.always_deny@.len(),
                floor == rules_view(self.always_deny@),
                floor == floor_rules(),
                risk@ == self.risk_engine().score_for(request@),
                i <= n,
                first_match(floor.take(i as int), request@, risk.value) is None,
            decreases n - i,
        {
            assert(floor.take(i + 1).drop_last() =~= floor.take(i as int));
            assert(floor.take(i + 1).last() == self.always_deny@[i as int]@);
            let rule = &self.always_deny[i];
            if rule_matches_exec(rule, request, risk.value) {
                proof {
                    assert(first_match(floor.take(i + 1), request@, risk.value) == Some(i as int));
                    lemma_first_match_prefix(floor, request@, risk.value, i + 1);
                }
                let reason = join2("blocked by always-deny floor: ", rule.name.as_str());
                return ActionDecision::deny(reason.as_str()).with_rule(rule.rule_ref()).with_risk(
                    risk,
                );
            }
            i = i + 1;
        }
        assert(floor.take(n as int) =~= floor);
        let ghost rv = rules_view(self.rules@);
        let n = self.rules.len();
        let mut i: usize = 0;
        assert(rv.take(0) =~= Seq::<RuleView>::empty());
        while i < n
            invariant
                n == self.rules@.len(),
                rv == rules_view(self.rules@),
                rv == self.rules(),
                first_match(floor_rules(), request@, risk.value) is None,
                risk@ == self.risk_engine().score_for(request@),
                i <= n,
                first_match(rv.take(i as int), request@, risk.value) is None,
            decreases n - i,
        {
            assert(rv.take(i + 1).drop_last() =~= rv.take(i as int));
            assert(rv.take(i + 1).last() == self.rules@[i as int]@);
            let rule = &self.rules[i];
            if rule_matches_exec(rule, request, risk.value) {
                proof {
                    assert(first_match(rv.take(i + 1), request@, risk.value) == Some(i as int));
                    lemma_first_match_prefix(rv, request@, risk.value, i + 1);
                }
                let reason = join3("matched rule '", rule.name.as_str(), "'");
                return self.finalize(rule.effect, reason, Some(rule.rule_ref()), risk);
            }
            i = i + 1;
        }
        assert(rv.take(n as int) =~= rv);
        let reason = join3(
            "no rule matched; default effect '",
            effect_name(self.default_effect),
            "'",
        );
        self.finalize(self.default_effect, reason, None, risk)
    }

    fn finalize(&self, effect: RuleEffect, reason: String, rule: Option<RuleRef>, risk: RiskScore) -> (r:
        ActionDecision)
        ensures
            r@ == finalized(
                effect,
                reason@,
                match rule {
                    Some(x) => Some(x@),
                    None => None,
                },
                risk@,
                self.approval_threshold(),
            ),
    {
        let (effect, reason) = self.escalate(effect, reason, &risk);
        let decision = match effect {
            RuleEffect::Allow => ActionDecision::allow(reason.as_str()),
            RuleEffect::Deny => ActionDecision::deny(reason.as_str()),
            RuleEffect::RequireApproval => ActionDecision::require_approval(reason.as_str()),
        };
        let decision = match rule {
            Some(rule) => decision.with_rule(rule),
            None => decision,
        };
        decision.with_risk(risk)
    }

    /// Turn an `allow` into `require_approval` when risk meets the threshold.
    fn escalate(&self, effect: RuleEffect, reason: String, risk: &RiskScore) -> (r: (
        RuleEffect,
        String,
    ))
        ensures
            escalates(effect, risk.value, self.approval_threshold()) ==> r.0
                == RuleEffect::RequireApproval && r.1@ == reason@ + "; escalated: risk "@ + decimal(
                risk.value as nat,
            ) + " ≥ "@ + decimal(self.approval_threshold()->0 as nat),
            !escalates(effect, risk.value, self.approval_threshold()) ==> r.0 == effect && r.1@
                == reason@,
    {
        if let (RuleEffect::Allow, Some(threshold)) = (effect, self.approval_threshold) {
            if risk.value >= threshold {
                let mut text = reason.concat("; escalated: risk ");
                push_decimal(&mut text, risk.value as u64);
                let mut text = text.concat(" ≥ ");
                push_decimal(&mut text, threshold as u64);
                return (RuleEffect::RequireApproval, text);
            }
        }
        (effect, reason)
    }
}

/// The snake_case name of a rule effect.
fn effect_name(effect: RuleEffect) -> (r: &'static str)
    ensures
        r@ == rule_effect_text(effect),
{
    match effect {
        RuleEffect::Allow => "allow",
        RuleEffect::Deny => "deny",
        RuleEffect::RequireApproval => "require_approval",
    }
}

// ---------------------------------------------------------------------------
// Laws
// ---------------------------------------------------------------------------

/// Rules listed so that none sorts strictly before an earlier one.
pub open spec fn in_evaluation_order(s: Seq<RuleView>) -> bool {
    forall|i: int, j: int| 0 <= i < j < s.len() ==> !sorts_before(#[trigger] s[j], #[trigger] s[i])
}

proof fn lemma_sorts_before_transitive(a: RuleView, b: RuleView, c: RuleView)
    requires
        sorts_before(a, b),
        sorts_before(b, c),
    ensures
        sorts_before(a, c),
{
    if priority_of(a) == priority_of(b) && priority_of(b) == priority_of(c) {
        crate::text::lemma_lex_transitive(a.name, b.name, c.name);
        if a.name == c.name {
            crate::text::lemma_lex_antisymmetric(a.name, b.name);
        }
    }
}

/// `insert_sorted` places `x` at the first position whose element it sorts
/// strictly before.
proof fn lemma_insert_position(s: Seq<RuleView>, x: RuleView) -> (p: int)
    ensures
        0 <= p <= s.len(),
        forall|k: int| 0 <= k < p ==> !sorts_before(x, #[trigger] s[k]),
        p < s.len() ==> sorts_before(x, s[p]),
        insert_sorted(s, x) == s.insert(p, x),
    decreases s.len(),
{
    if s.len() == 0 {
        assert(s.insert(0, x) =~= seq![x]);
        0
    } else if sorts_before(x, s[0]) {
        assert(s.insert(0, x) =~= seq![x] + s);
        0
    } else {
        let t = s.drop_first();
        let q = lemma_insert_position(t, x);
        assert forall|k: int| 0 <= k < q + 1 implies !sorts_before(x, #[trigger] s[k]) by {
            if k > 0 {
                assert(s[k] == t[k - 1]);
            }
        }
        assert(s.insert(q + 1, x) =~= seq![s[0]] + t.insert(q, x));
        q + 1
    }
}

proof fn lemma_insert_in_order(s: Seq<RuleView>, x: RuleView)
    requires
        in_evaluation_order(s),
    ensures
        in_evaluation_order(insert_sorted(s, x)),
        insert_sorted(s, x).to_multiset() == s.to_multiset().insert(x),
{
    broadcast use vstd::seq_lib::group_to_multiset_ensures;

    let p = lemma_insert_position(s, x);
    let r = s.insert(p, x);
    assert forall|i: int, j: int| 0 <= i < j < r.len() implies !sorts_before(
        #[trigger] r[j],
        #[trigger] r[i],
    ) by {
        if j < p {
            assert(r[i] == s[i] && r[j] == s[j]);
        } else if j == p {
            assert(r[i] == s[i] && r[j] == x);
        } else if i == p {
            assert(r[i] == x && r[j] == s[j - 1]);
            if sorts_before(s[j - 1], x) {
                lemma_sorts_before_transitive(s[j - 1], x, s[p]);
                assert(!sorts_before(s[j - 1], s[p]));
            }
        } else if i < p {
            assert(r[i] == s[i] && r[j] == s[j - 1]);
        } else {
            assert(r[i] == s[i - 1] && r[j] == s[j - 1]);
        }
    }
}

/// The order rules are evaluated in: `sort_rules` lists every rule exactly as
/// often as it was given, and no rule sorts strictly before one listed ahead
/// of it — so higher priority comes first, and among equal priorities names
/// come in lexicographic order.
pub proof fn law_rules_sorted(s: Seq<RuleView>)
    ensures
        in_evaluation_order(sort_rules(s)),
        sort_rules(s).to_multiset() == s.to_multiset(),
        forall|i: int, j: int|
            0 <= i < j < sort_rules(s).len() ==> priority_of(#[trigger] sort_rules(s)[i])
                >= priority_of(#[trigger] sort_rules(s)[j]),
    decreases s.len(),
{
    broadcast use vstd::seq_lib::group_to_multiset_ensures;

    if s.len() == 0 {
        assert(s.to_multiset() =~= vstd::multiset::Multiset::<RuleView>::empty());
        assert(sort_rules(s).to_multiset() =~= vstd::multiset::Multiset::<RuleView>::empty());
    } else {
        law_rules_sorted(s.drop_last());
        lemma_insert_in_order(sort_rules(s.drop_last()), s.last());
        assert(s.drop_last().push(s.last()) =~= s);
    }
    let r = sort_rules(s);
    assert forall|i: int, j: int| 0 <= i < j < r.len() implies priority_of(#[trigger] r[i])
        >= priority_of(#[trigger] r[j]) by {
        assert(!sorts_before(r[j], r[i]));
    }
}

/// Every condition a rule sets must hold for the rule to match: the exact
/// action, resource and subject id; the action and resource globs; every
/// resource regex; every role; every attribute condition (of the attribute's
/// value, if the context has it); and the risk bounds, inclusive.
pub proof fn law_set_conditions_must_hold(rule: RuleView, request: RequestView, risk: u8)
    ensures
        rule_matches(rule, request, risk) ==> {
            let c = rule.conditions;
            &&& (c.action matches Some(a) ==> request.action == a)
            &&& (c.resource matches Some(x) ==> request.resource == x)
            &&& (c.subject matches Some(s) ==> request.subject.id == s)
            &&& (c.action_glob matches Some(g) ==> glob_matches(g, request.action))
            &&& (c.resource_glob matches Some(g) ==> glob_matches(g, request.resource))
            &&& (forall|i: int|
                0 <= i < c.resource_regex.len() ==> regex_finds(
                    #[trigger] c.resource_regex[i],
                    request.resource,
                ))
            &&& (forall|i: int|
                0 <= i < c.subject_roles.len() ==> request.subject.roles.contains(
                    #[trigger] c.subject_roles[i],
                ))
            &&& (forall|i: int|
                0 <= i < c.attributes.len() ==> request.context.contains_key(
                    (#[trigger] c.attributes[i]).0,
                ) && attr_holds(c.attributes[i].1, Some(request.context[c.attributes[i].0])))
            &&& (c.min_risk matches Some(m) ==> m <= risk)
            &&& (c.max_risk matches Some(m) ==> risk <= m)
        },
{
}

/// A rule that sets no condition matches every request at every risk.
pub proof fn law_unconditioned_rule_matches(rule: RuleView, request: RequestView, risk: u8)
    requires
        rule.conditions.action is None,
        rule.conditions.action_glob is None,
        rule.conditions.resource is None,
        rule.conditions.resource_glob is None,
        rule.conditions.resource_regex.len() == 0,
        rule.conditions.subject is None,
        rule.conditions.subject_roles.len() == 0,
        rule.conditions.attributes.len() == 0,
        rule.conditions.min_risk is None,
        rule.conditions.max_risk is None,
    ensures
        rule_matches(rule, request, risk),
{
}

/// Attribute conditions: a missing attribute fails every condition;
/// `exists` holds of any value; `equals` holds of text equal to the expected
/// text, of an integer or flag whose decimal or `true`/`false` text is the
/// expected text, and of a list holding it; `regex` holds of a text the
/// pattern finds, never of a list; `one_of` holds exactly when `equals` holds
/// for one of the options.
pub proof fn law_attribute_conditions(
    cond: AttrCond,
    v: AttrValue,
    text: Seq<char>,
    expected: Seq<char>,
    n: i64,
    b: bool,
    items: Seq<Seq<char>>,
    pattern: Seq<char>,
    opts: Seq<Seq<char>>,
)
    ensures
        !attr_holds(cond, None),
        attr_holds(AttrCond::Exists, Some(v)),
        attr_holds(AttrCond::Equals(expected), Some(AttrValue::Text(text))) <==> text == expected,
        attr_holds(AttrCond::Equals(expected), Some(AttrValue::Integer(n))) <==> signed_decimal(
            n as int,
        ) == expected,
        attr_holds(AttrCond::Equals(expected), Some(AttrValue::Bool(b))) <==> expected == if b {
            "true"@
        } else {
            "false"@
        },
        attr_holds(AttrCond::Equals(expected), Some(AttrValue::List(items))) <==> items.contains(
            expected,
        ),
        !attr_holds(AttrCond::Regex(pattern), Some(AttrValue::List(items))),
        attr_holds(AttrCond::Regex(pattern), Some(AttrValue::Text(text))) <==> regex_finds(
            pattern,
            text,
        ),
        attr_holds(AttrCond::OneOf(opts), Some(v)) <==> exists|i: int|
            0 <= i < opts.len() && #[trigger] attr_holds(AttrCond::Equals(opts[i]), Some(v)),
{
    if attr_holds(AttrCond::OneOf(opts), Some(v)) {
        let i = choose|i: int| 0 <= i < opts.len() && scalar_matches(v, #[trigger] opts[i]);
        assert(attr_holds(AttrCond::Equals(opts[i]), Some(v)));
    }
    if exists|i: int| 0 <= i < opts.len() && #[trigger] attr_holds(AttrCond::Equals(opts[i]), Some(v)) {
        let i = choose|i: int|
            0 <= i < opts.len() && #[trigger] attr_holds(AttrCond::Equals(opts[i]), Some(v));
        assert(scalar_matches(v, opts[i]));
    }
}

/// The decision denies the request through the named floor rule.
pub open spec fn floor_denial(d: DecisionView, name: Seq<char>) -> bool {
    &&& d.effect == Effect::Deny
    &&& d.reason == "blocked by always-deny floor: "@ + name
    &&& d.matched_rule == Some(
        RuleRefView { name, description: Some("built-in catastrophic-command floor"@) },
    )
}

proof fn lemma_floor_rule_matches(k: int, request: RequestView, risk: u8)
    requires
        0 <= k < floor_rules().len(),
    ensures
        rule_matches(floor_rules()[k], request, risk) == regex_finds(
            floor_patterns()[k].1,
            request.resource,
        ),
{
    let c = floor_rules()[k].conditions;
    assert(c.resource_regex == seq![floor_patterns()[k].1]);
    if regex_finds(floor_patterns()[k].1, request.resource) {
        assert forall|i: int| 0 <= i < c.resource_regex.len() implies regex_finds(
            #[trigger] c.resource_regex[i],
            request.resource,
        ) by {}
    } else {
        assert(c.resource_regex[0] == floor_patterns()[k].1);
    }
}

/// The always-deny floor, in order: a resource in which `rm -rf` of `/`,
/// `rm -rf` of `~`, `mkfs`, a raw write to `/dev/sd*`, `/dev/nvme*`,
/// `/dev/disk*` or `/dev/hd*`, or a fork bomb `:(){` is found is denied,
/// whatever the engine, naming the first of `floor_rm_root`, `floor_rm_home`,
/// `floor_mkfs`, `floor_raw_disk_write`, `floor_fork_bomb` whose pattern
/// matches; when none matches, the floor does not decide.
pub proof fn law_floor_rules(e: PolicyEngine, request: RequestView)
    ensures
        ({
            let d = e.decision_for(request);
            let res = request.resource;
            let p1 = "(?i)\\brm\\s+-[a-z]*r[a-z]*f?\\b.*\\s/(\\s|\\*|$)"@;
            let p2 = "(?i)\\brm\\s+-[a-z]*r[a-z]*f?\\b.*\\s~(/|\\s|$)"@;
            let p3 = "(?i)\\bmkfs"@;
            let p4 = "(?i)\\bof=/dev/(sd|nvme|disk|hd)"@;
            let p5 = ":\\(\\)\\s*\\{"@;
            &&& regex_finds(p1, res) ==> floor_denial(d, "floor_rm_root"@)
            &&& (!regex_finds(p1, res) && regex_finds(p2, res)) ==> floor_denial(d, "floor_rm_home"@)
            &&& (!regex_finds(p1, res) && !regex_finds(p2, res) && regex_finds(p3, res))
                ==> floor_denial(d, "floor_mkfs"@)
            &&& (!regex_finds(p1, res) && !regex_finds(p2, res) && !regex_finds(p3, res)
                && regex_finds(p4, res)) ==> floor_denial(d, "floor_raw_disk_write"@)
            &&& (!regex_finds(p1, res) && !regex_finds(p2, res) && !regex_finds(p3, res)
                && !regex_finds(p4, res) && regex_finds(p5, res)) ==> floor_denial(
                d,
                "floor_fork_bomb"@,
            )
            &&& (!regex_finds(p1, res) && !regex_finds(p2, res) && !regex_finds(p3, res)
                && !regex_finds(p4, res) && !regex_finds(p5, res)) ==> first_match(
                floor_rules(),
                request,
                d.risk.value,
            ) is None
        }),
{
    let score = e.risk_engine().score_for(request);
    let risk = score.value;
    let f = floor_rules();
    assert(f.len() == 5);
    lemma_first_match(f, request, risk);
    assert forall|k: int| 0 <= k < 5 implies #[trigger] rule_matches(f[k], request, risk)
        == regex_finds(floor_patterns()[k].1, request.resource) by {
        lemma_floor_rule_matches(k, request, risk);
    }
    assert(f[0].name == "floor_rm_root"@);
    assert(f[1].name == "floor_rm_home"@);
    assert(f[2].name == "floor_mkfs"@);
    assert(f[3].name == "floor_raw_disk_write"@);
    assert(f[4].name == "floor_fork_bomb"@);
    assert(rule_matches(f[0], request, risk) == regex_finds(floor_patterns()[0].1, request.resource));
    assert(rule_matches(f[1], request, risk) == regex_finds(floor_patterns()[1].1, request.resource));
    assert(rule_matches(f[2], request, risk) == regex_finds(floor_patterns()[2].1, request.resource));
    assert(rule_matches(f[3], request, risk) == regex_finds(floor_patterns()[3].1, request.resource));
    assert(rule_matches(f[4], request, risk) == regex_finds(floor_patterns()[4].1, request.resource));
}

/// A configured default effect is kept as it is: each configured default
/// stands for the rule effect of the same name, and only that one.
pub proof fn law_default_effect_kept(d: DefaultEffect)
    ensures
        (d == DefaultEffect::Allow) == (rule_effect_of(d) == RuleEffect::Allow),
        (d == DefaultEffect::Deny) == (rule_effect_of(d) == RuleEffect::Deny),
        (d == DefaultEffect::RequireApproval) == (rule_effect_of(d) == RuleEffect::RequireApproval),
{
}

/// When neither the floor nor any rule matches, an engine whose default is
/// the configured `d` (as `from_config` and `reload` set it) decides by `d`:
/// `deny` denies, `require_approval` asks, and `allow` allows unless risk
/// escalation asks instead; the reason names the configured default.
pub proof fn law_configured_default_decides(e: PolicyEngine, d: DefaultEffect, request: RequestView)
    requires
        e.default_effect() == rule_effect_of(d),
        first_match(floor_rules(), request, e.risk_engine().score_for(request).value) is None,
        first_match(e.rules(), request, e.risk_engine().score_for(request).value) is None,
    ensures
        d == DefaultEffect::Deny ==> e.decision_for(request).effect == Effect::Deny
            && e.decision_for(request).reason == "no rule matched; default effect 'deny'"@,
        d == DefaultEffect::RequireApproval ==> e.decision_for(request).effect
            == Effect::RequireApproval && e.decision_for(request).reason
            == "no rule matched; default effect 'require_approval'"@,
        d == DefaultEffect::Allow ==> e.decision_for(request).effect == Effect::Allow
            || e.decision_for(request).effect == Effect::RequireApproval,
        (d == DefaultEffect::Allow && e.approval_threshold() is None) ==> e.decision_for(
            request,
        ).effect == Effect::Allow && e.decision_for(request).reason
            == "no rule matched; default effect 'allow'"@,
        e.decision_for(request).matched_rule is None,
{
    reveal_strlit("no rule matched; default effect '");
    reveal_strlit("'");
    reveal_strlit("deny");
    reveal_strlit("allow");
    reveal_strlit("require_approval");
    reveal_strlit("no rule matched; default effect 'deny'");
    reveal_strlit("no rule matched; default effect 'allow'");
    reveal_strlit("no rule matched; default effect 'require_approval'");
    assert("no rule matched; default effect '"@ + "deny"@ + "'"@
        =~= "no rule matched; default effect 'deny'"@);
    assert("no rule matched; default effect '"@ + "allow"@ + "'"@
        =~= "no rule matched; default effect 'allow'"@);
    assert("no rule matched; default effect '"@ + "require_approval"@ + "'"@
        =~= "no rule matched; default effect 'require_approval'"@);
}

/// A rule effect decides the effect of the same name, and each effect is
/// named in snake case.
pub proof fn law_rule_effects_keep_their_names(e: RuleEffect)
    ensures
        (e == RuleEffect::Allow) == (effect_of(e) == Effect::Allow),
        (e == RuleEffect::Deny) == (effect_of(e) == Effect::Deny),
        (e == RuleEffect::RequireApproval) == (effect_of(e) == Effect::RequireApproval),
        e == RuleEffect::Allow ==> rule_effect_text(e) == "allow"@,
        e == RuleEffect::Deny ==> rule_effect_text(e) == "deny"@,
        e == RuleEffect::RequireApproval ==> rule_effect_text(e) == "require_approval"@,
{
}

/// Risk escalation: only an `allow` is escalated, exactly when a threshold is
/// set and the risk reaches it; the escalated decision asks for approval,
/// keeps the reason and rule, and appends the risk and threshold to the
/// reason. Every other decision keeps its effect and reason.
pub proof fn law_escalation(
    effect: RuleEffect,
    reason: Seq<char>,
    rule: Option<RuleRefView>,
    score: ScoreView,
    threshold: Option<u8>,
)
    ensures
        escalates(effect, score.value, threshold) <==> (effect == RuleEffect::Allow
            && threshold is Some && score.value >= threshold->0),
        escalates(effect, score.value, threshold) ==> finalized(
            effect,
            reason,
            rule,
            score,
            threshold,
        ) == (DecisionView {
            effect: Effect::RequireApproval,
            reason: reason + "; escalated: risk "@ + decimal(score.value as nat) + " ≥ "@ + decimal(
                threshold->0 as nat,
            ),
            matched_rule: rule,
            risk: score,
        }),
        !escalates(effect, score.value, threshold) ==> finalized(
            effect,
            reason,
            rule,
            score,
            threshold,
        ) == (DecisionView { effect: effect_of(effect), reason, matched_rule: rule, risk: score }),
{
}

/// Sort order: a rule with a higher priority (an unset priority counting as
/// 0) sorts first; among equal priorities, the rule whose name sorts first
/// lexicographically; rules with the same priority and name are unordered.
pub proof fn law_sort_order(a: RuleView, b: RuleView)
    ensures
        ({
            let pa: int = match a.priority {
                Some(p) => p as int,
                None => 0,
            };
            let pb: int = match b.priority {
                Some(p) => p as int,
                None => 0,
            };
            sorts_before(a, b) <==> (pa > pb || (pa == pb && lex_le(a.name, b.name) && a.name
                != b.name))
        }),
{
}

/// No two rules among `rules` share a sort key (priority and name) unless
/// they are the same rule.
pub open spec fn keys_identify(rules: Seq<RuleView>) -> bool {
    forall|a: RuleView, b: RuleView|
        rules.contains(a) && rules.contains(b) && priority_of(a) == priority_of(b) && a.name
            == b.name ==> a == b
}

/// Two rules neither of which sorts before the other share a sort key.
proof fn lemma_unordered_same_key(a: RuleView, b: RuleView)
    requires
        !sorts_before(a, b),
        !sorts_before(b, a),
    ensures
        priority_of(a) == priority_of(b),
        a.name == b.name,
{
    crate::text::lemma_lex_total(a.name, b.name);
    if lex_le(a.name, b.name) && lex_le(b.name, a.name) {
        crate::text::lemma_lex_antisymmetric(a.name, b.name);
    }
}

/// Two lists in evaluation order holding the same rules, where a sort key
/// identifies a rule, are the same list.
proof fn lemma_sorted_unique(x: Seq<RuleView>, y: Seq<RuleView>)
    requires
        in_evaluation_order(x),
        in_evaluation_order(y),
        x.to_multiset() == y.to_multiset(),
        keys_identify(x),
    ensures
        x == y,
    decreases x.len(),
{
    broadcast use vstd::seq_lib::group_to_multiset_ensures;

    if x.len() == 0 {
        assert(x.to_multiset().len() == 0);
        assert(y.to_multiset().len() == y.len());
        assert(y =~= x);
    } else {
        assert(x.to_multiset().len() == x.len());
        assert(y.to_multiset().len() == y.len());
        assert(y.len() == x.len());
        let a = x[0];
        let b = y[0];
        assert(x.contains(a));
        assert(y.to_multiset().count(a) > 0);
        assert(y.contains(a));
        assert(y.contains(b));
        assert(x.to_multiset().count(b) > 0);
        assert(x.contains(b));
        let ka = choose|k: int| 0 <= k < y.len() && y[k] == a;
        let kb = choose|k: int| 0 <= k < x.len() && x[k] == b;
        if kb > 0 {
            assert(!sorts_before(x[kb], x[0]));
        }
        if ka > 0 {
            assert(!sorts_before(y[ka], y[0]));
        }
        lemma_unordered_same_key(a, b);
        assert(a == b);
        let x1 = x.drop_first();
        let y1 = y.drop_first();
        assert(x1 =~= x.remove(0));
        assert(y1 =~= y.remove(0));
        assert(x1.to_multiset() =~= y1.to_multiset());
        assert forall|i: int, j: int| 0 <= i < j < x1.len() implies !sorts_before(
            #[trigger] x1[j],
            #[trigger] x1[i],
        ) by {
            assert(x1[i] == x[i + 1] && x1[j] == x[j + 1]);
        }
        assert forall|i: int, j: int| 0 <= i < j < y1.len() implies !sorts_before(
            #[trigger] y1[j],
            #[trigger] y1[i],
        ) by {
            assert(y1[i] == y[i + 1] && y1[j] == y[j + 1]);
        }
        assert forall|r1: RuleView, r2: RuleView|
            x1.contains(r1) && x1.contains(r2) && priority_of(r1) == priority_of(r2) && r1.name
                == r2.name implies r1 == r2 by {
            let i1 = choose|k: int| 0 <= k < x1.len() && x1[k] == r1;
            let i2 = choose|k: int| 0 <= k < x1.len() && x1[k] == r2;
            assert(x[i1 + 1] == r1 && x[i2 + 1] == r2);
            assert(x.contains(r1) && x.contains(r2));
        }
        lemma_sorted_unique(x1, y1);
        assert(x =~= seq![a] + x1);
        assert(y =~= seq![b] + y1);
    }
}

/// The order rules are supplied in does not matter: two lists holding the
/// same rules, where priority and name identify a rule, sort to the same
/// evaluation order, so an engine built from either decides every request
/// alike.
pub proof fn law_supplied_order_irrelevant(a: Seq<RuleView>, b: Seq<RuleView>)
    requires
        a.to_multiset() == b.to_multiset(),
        keys_identify(a),
    ensures
        sort_rules(a) == sort_rules(b),
{
    broadcast use vstd::seq_lib::group_to_multiset_ensures;

    law_rules_sorted(a);
    law_rules_sorted(b);
    let x = sort_rules(a);
    assert forall|r1: RuleView, r2: RuleView|
        x.contains(r1) && x.contains(r2) && priority_of(r1) == priority_of(r2) && r1.name
            == r2.name implies r1 == r2 by {
        assert(x.to_multiset().count(r1) > 0 && x.to_multiset().count(r2) > 0);
        assert(a.contains(r1) && a.contains(r2));
    }
    lemma_sorted_unique(x, sort_rules(b));
}

/// Two engines built by `with_rules` from the same rules in different orders
/// (priority and name identifying a rule), with the same default effect,
/// risk engine and threshold, decide every request alike.
pub proof fn law_reordered_engines_agree(
    e1: PolicyEngine,
    e2: PolicyEngine,
    a: Seq<RuleView>,
    b: Seq<RuleView>,
    request: RequestView,
)
    requires
        a.to_multiset() == b.to_multiset(),
        keys_identify(a),
        e1.rules() == sort_rules(a),
        e2.rules() == sort_rules(b),
        e1.default_effect() == e2.default_effect(),
        e1.risk_engine() == e2.risk_engine(),
        e1.approval_threshold() == e2.approval_threshold(),
    ensures
        e1.decision_for(request) == e2.decision_for(request),
{
    law_supplied_order_irrelevant(a, b);
}

/// The always-deny floor cannot be overridden: whatever the rules, the
/// default effect, the risk and the threshold, a request that a floor pattern
/// matches is denied, and the decision names that floor rule.
pub proof fn law_floor_cannot_be_overridden(
    rules: Seq<RuleView>,
    default_effect: RuleEffect,
    score: ScoreView,
    threshold: Option<u8>,
    request: RequestView,
    k: int,
)
    requires
        0 <= k < floor_rules().len(),
        rule_matches(floor_rules()[k], request, score.value),
    ensures
        evaluation(rules, default_effect, score, threshold, request).effect == Effect::Deny,
        evaluation(rules, default_effect, score, threshold, request).matched_rule matches Some(
            m,
        ) && exists|j: int| 0 <= j < floor_rules().len() && m == rule_ref_of(floor_rules()[j]),
{
    lemma_first_match(floor_rules(), request, score.value);
    let j = first_match(floor_rules(), request, score.value)->0;
    assert(evaluation(rules, default_effect, score, threshold, request).matched_rule == Some(
        rule_ref_of(floor_rules()[j]),
    ));
}

/// First match wins: when no floor rule matches and rule `k` is the first
/// rule that matches, the decision is rule `k`'s effect (escalated by risk)
/// and names rule `k`.
pub proof fn law_first_match_wins(
    rules: Seq<RuleView>,
    default_effect: RuleEffect,
    score: ScoreView,
    threshold: Option<u8>,
    request: RequestView,
    k: int,
)
    requires
        forall|j: int|
            0 <= j < floor_rules().len() ==> !rule_matches(
                #[trigger] floor_rules()[j],
                request,
                score.value,
            ),
        0 <= k < rules.len(),
        rule_matches(rules[k], request, score.value),
        forall|j: int| 0 <= j < k ==> !rule_matches(#[trigger] rules[j], request, score.value),
    ensures
        evaluation(rules, default_effect, score, threshold, request) == finalized(
            rules[k].effect,
            "matched rule '"@ + rules[k].name + "'"@,
            Some(rule_ref_of(rules[k])),
            score,
            threshold,
        ),
        evaluation(rules, default_effect, score, threshold, request).effect == if escalates(
            rules[k].effect,
            score.value,
            threshold,
        ) {
            Effect::RequireApproval
        } else {
            effect_of(rules[k].effect)
        },
{
    lemma_first_match(floor_rules(), request, score.value);
    lemma_first_match(rules, request, score.value);
    if first_match(floor_rules(), request, score.value) is Some {
        let j = first_match(floor_rules(), request, score.value)->0;
        assert(rule_matches(floor_rules()[j], request, score.value));
    }
    let m = first_match(rules, request, score.value)->0;
    if m < k {
        assert(!rule_matches(rules[m], request, score.value));
    }
    if k < m {
        assert(!rule_matches(rules[k], request, score.value));
    }
}

/// Deny by default: when neither a floor rule nor any rule matches, the
/// default effect decides (escalated by risk) and no rule is named; with the
/// default `deny` the action is denied.
pub proof fn law_default_effect_applies(
    rules: Seq<RuleView>,
    default_effect: RuleEffect,
    score: ScoreView,
    threshold: Option<u8>,
    request: RequestView,
)
    requires
        forall|j: int|
            0 <= j < floor_rules().len() ==> !rule_matches(
                #[trigger] floor_rules()[j],
                request,
                score.value,
            ),
        forall|j: int| 0 <= j < rules.len() ==> !rule_matches(#[trigger] rules[j], request, score.value),
    ensures
        evaluation(rules, default_effect, score, threshold, request).matched_rule is None,
        evaluation(rules, default_effect, score, threshold, request).effect == if escalates(
            default_effect,
            score.value,
            threshold,
        ) {
            Effect::RequireApproval
        } else {
            effect_of(default_effect)
        },
        default_effect == RuleEffect::Deny ==> evaluation(
            rules,
            default_effect,
            score,
            threshold,
            request,
        ).effect == Effect::Deny,
{
    lemma_first_match(floor_rules(), request, score.value);
    lemma_first_match(rules, request, score.value);
    if first_match(floor_rules(), request, score.value) is Some {
        let j = first_match(floor_rules(), request, score.value)->0;
        assert(rule_matches(floor_rules()[j], request, score.value));
    }
    if first_match(rules, request, score.value) is Some {
        let j = first_match(rules, request, score.value)->0;
        assert(rule_matches(rules[j], request, score.value));
    }
}

/// Risk escalation only tightens: a decision is `allow` only when the risk is
/// below the threshold (or no threshold is set), and the decision always
/// carries the computed risk.
pub proof fn law_allow_only_below_threshold(
    rules: Seq<RuleView>,
    default_effect: RuleEffect,
    score: ScoreView,
    threshold: Option<u8>,
    request: RequestView,
)
    ensures
        evaluation(rules, default_effect, score, threshold, request).effect == Effect::Allow
            ==> (threshold is None || score.value < threshold->0),
        evaluation(rules, default_effect, score, threshold, request).risk == score,
{
}

} // verus!
