//! The outcome of authorizing an action: an [`ActionDecision`].
//!
//! A decision carries the [`Effect`] (allow, deny, or require approval), a
//! human-readable `reason`, the rule that produced it (if any), and the
//! [`RiskScore`] computed for the request.

use vstd::prelude::*;

use crate::action::opt_view;
use crate::risk::{score_of, RiskScore, ScoreView};
use crate::text::owned;

verus! {

/// What the policy engine decided should happen to an action.
#[derive(Debug, Clone, Copy, PartialEq, Eq, Structural)]
pub enum Effect {
    /// The action may proceed.
    Allow,
    /// The action is refused outright.
    Deny,
    /// The action needs explicit approval before it may proceed.
    RequireApproval,
}

/// The snake_case name of an effect.
pub open spec fn effect_text(e: Effect) -> Seq<char> {
    match e {
        Effect::Allow => "allow"@,
        Effect::Deny => "deny"@,
        Effect::RequireApproval => "require_approval"@,
    }
}

impl Effect {
    /// Whether this effect permits the action without further steps.
    pub fn is_allow(self) -> (r: bool)
        ensures
            r == (self == Effect::Allow),
    {
        matches!(self, Effect::Allow)
    }

    /// The snake_case name of the effect (`allow`, `deny`, `require_approval`).
    pub fn as_str(self) -> (r: &'static str)
        ensures
            r@ == effect_text(self),
    {
        match self {
            Effect::Allow => "allow",
            Effect::Deny => "deny",
            Effect::RequireApproval => "require_approval",
        }
    }
}

/// A reference to the policy rule that produced a decision.
#[derive(Debug, Clone, PartialEq, Eq)]
pub struct RuleRef {
    /// The rule's name.
    pub name: String,
    /// The rule's description, if it had one.
    pub description: Option<String>,
}

/// The mathematical model of a [`RuleRef`].
pub struct RuleRefView {
    pub name: Seq<char>,
    pub description: Option<Seq<char>>,
}

impl View for RuleRef {
    type V = RuleRefView;

    open spec fn view(&self) -> RuleRefView {
        RuleRefView { name: self.name@, description: opt_view(self.description) }
    }
}

impl RuleRef {
    /// Create a rule reference.
    pub fn new(name: &str, description: Option<String>) -> (r: Self)
        ensures
            r@ == (RuleRefView { name: name@, description: opt_view(description) }),
    {
        RuleRef { name: owned(name), description }
    }
}

/// The result of evaluating an [`ActionRequest`](crate::action::ActionRequest).
#[derive(Debug, Clone, PartialEq, Eq)]
pub struct ActionDecision {
    /// The decided effect.
    pub effect: Effect,
    /// Why the engine decided this way.
    pub reason: String,
    /// The rule that matched, or `None` when the default effect was applied.
    pub matched_rule: Option<RuleRef>,
    /// The risk computed for the request.
    pub risk: RiskScore,
}

/// The mathematical model of an [`ActionDecision`].
pub struct DecisionView {
    pub effect: Effect,
    pub reason: Seq<char>,
    pub matched_rule: Option<RuleRefView>,
    pub risk: ScoreView,
}

impl View for ActionDecision {
    type V = DecisionView;

    open spec fn view(&self) -> DecisionView {
        DecisionView {
            effect: self.effect,
            reason: self.reason@,
            matched_rule: match self.matched_rule {
                Some(r) => Some(r@),
                None => None,
            },
            risk: self.risk@,
        }
    }
}

/// A fresh decision: the given effect and reason, no rule, zero risk.
pub open spec fn plain_decision(effect: Effect, reason: Seq<char>) -> DecisionView {
    DecisionView { effect, reason, matched_rule: None, risk: score_of(Seq::empty()) }
}

impl ActionDecision {
    /// An allow decision with the given reason.
    pub fn allow(reason: &str) -> (r: Self)
        ensures
            r@ == plain_decision(Effect::Allow, reason@),
    {
        Self::new(Effect::Allow, reason)
    }

    /// A deny decision with the given reason.
    pub fn deny(reason: &str) -> (r: Self)
        ensures
            r@ == plain_decision(Effect::Deny, reason@),
    {
        Self::new(Effect::Deny, reason)
    }

    /// A require-approval decision with the given reason.
    pub fn require_approval(reason: &str) -> (r: Self)
        ensures
            r@ == plain_decision(Effect::RequireApproval, reason@),
    {
        Self::new(Effect::RequireApproval, reason)
    }

    fn new(effect: Effect, reason: &str) -> (r: Self)
        ensures
            r@ == plain_decision(effect, reason@),
    {
        ActionDecision {
            effect,
            reason: owned(reason),
            matched_rule: None,
            risk: RiskScore::default(),
        }
    }

    /// Attach the rule that produced this decision.
    pub fn with_rule(self, rule: RuleRef) -> (r: Self)
        ensures
            r@ == (DecisionView { matched_rule: Some(rule@), ..self@ }),
    {
        let mut d = self;
        d.matched_rule = Some(rule);
        d
    }

    /// Attach the computed risk score.
    pub fn with_risk(self, risk: RiskScore) -> (r: Self)
        ensures
            r@ == (DecisionView { risk: risk@, ..self@ }),
    {
        let mut d = self;
        d.risk = risk;
        d
    }

    /// Whether the action may proceed without approval.
    pub fn is_allowed(&self) -> (r: bool)
        ensures
            r == (self.effect == Effect::Allow),
    {
        self.effect.is_allow()
    }

    /// Whether the action needs approval before proceeding.
    pub fn needs_approval(&self) -> (r: bool)
        ensures
            r == (self.effect == Effect::RequireApproval),
    {
        matches!(self.effect, Effect::RequireApproval)
    }
}

} // verus!
