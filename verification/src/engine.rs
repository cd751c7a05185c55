//! The Veridion facade: one object that ties policy, risk, approval, and audit
//! together.
//!
//! [`Veridion`] is what an agent runtime holds. Call [`Veridion::evaluate`] for
//! a pure, side-effect-free decision, or [`Veridion::authorize`] to run the
//! full workflow: evaluate the request, resolve any required approval, write
//! an audit record, and report whether the action may proceed.

use vstd::prelude::*;

use crate::action::ActionRequest;
use crate::approval::{ApprovalOutcome, ApprovalWorkflow, Approver};
use crate::config::{ApprovalMode, Config};
use crate::audit::{record_of, AuditError, AuditLog, AuditRecord, RecordView};
use crate::decision::{ActionDecision, Effect};
use crate::policy::{load_outcome, sources_view, PolicyEngine, PolicyError, PolicySource};

verus! {

/// Whether an action may proceed after policy and approval: always for
/// `allow`, never for `deny`, and for `require_approval` only when approved.
pub open spec fn permits(effect: Effect, approval: Option<ApprovalOutcome>) -> bool {
    match effect {
        Effect::Allow => true,
        Effect::Deny => false,
        Effect::RequireApproval => approval == Some(ApprovalOutcome::Approved),
    }
}

/// An action may proceed exactly when it is allowed, or when it requires
/// approval and was approved; a denial is never permitted.
pub proof fn law_permitted_only_if_allowed_or_approved(
    effect: Effect,
    approval: Option<ApprovalOutcome>,
)
    ensures
        permits(effect, approval) <==> (effect == Effect::Allow || (effect
            == Effect::RequireApproval && approval == Some(ApprovalOutcome::Approved))),
{
}

/// The outcome of a full [`Veridion::authorize`] call.
#[derive(Debug, Clone, PartialEq, Eq)]
pub struct Authorization {
    /// The policy decision.
    pub decision: ActionDecision,
    /// How approval resolved, when the decision required it.
    pub approval: Option<ApprovalOutcome>,
    /// Whether the action may proceed after policy and approval.
    pub permitted: bool,
}

impl Authorization {
    /// Combine a decision and the approval it got (if any) into the final
    /// go/no-go.
    pub fn settle(decision: ActionDecision, approval: Option<ApprovalOutcome>) -> (r: Self)
        ensures
            r.decision == decision,
            r.approval == approval,
            r.permitted == permits(decision.effect, approval),
    {
        let permitted = match decision.effect {
            Effect::Allow => true,
            Effect::Deny => false,
            Effect::RequireApproval => match approval {
                Some(outcome) => outcome.is_approved(),
                None => false,
            },
        };
        Authorization { decision, approval, permitted }
    }
}

/// Errors from building or running the engine.
#[derive(Debug, Clone, PartialEq, Eq)]
pub enum VeridionError {
    /// Policy loading or compilation failed.
    Policy(PolicyError),
    /// The audit log could not be opened or written.
    Audit(AuditError),
}

impl VeridionError {
    /// The text of the underlying error.
    pub fn message(&self) -> (r: String)
        ensures
            r@ == match self {
                VeridionError::Policy(e) => match e {
                    PolicyError::Io(path, err) => "failed to read policy from "@
                        + crate::text::debug_path(path@) + ": "@ + err@,
                    PolicyError::Parse(path, err) => "failed to parse policy file "@
                        + crate::text::debug_path(path@) + ": "@ + err@,
                    PolicyError::InvalidRule { rule, reason } => "invalid policy rule '"@
                        + rule@ + "': "@ + reason@,
                },
                VeridionError::Audit(e) => match e {
                    AuditError::Io(m) => "audit io error: "@ + m@,
                    AuditError::Database(m) => "audit database error: "@ + m@,
                    AuditError::Serialization(m) => "audit serialization error: "@ + m@,
                },
            },
    {
        match self {
            VeridionError::Policy(e) => e.message(),
            VeridionError::Audit(e) => e.message(),
        }
    }
}

/// Policy engine, approval workflow, and audit log wired together.
pub struct Veridion {
    policy: PolicyEngine,
    approval: ApprovalWorkflow,
    audit: AuditLog,
}

impl Veridion {
    /// The policy engine.
    pub closed spec fn policy_engine(&self) -> PolicyEngine {
        self.policy
    }

    /// The approval workflow.
    pub closed spec fn workflow(&self) -> ApprovalWorkflow {
        self.approval
    }

    /// The audit log.
    pub closed spec fn audit_log(&self) -> AuditLog {
        self.audit
    }

    /// Assemble from explicit parts (useful in tests and embedding).
    pub fn new(policy: PolicyEngine, approval: ApprovalWorkflow, audit: AuditLog) -> (r: Self)
        ensures
            r.policy_engine() == policy,
            r.workflow() == approval,
            r.audit_log() == audit,
    {
        Veridion { policy, approval, audit }
    }

    /// Build the stack from configuration and the policy files read from the
    /// configured directory. `interactive` serves the interactive approval
    /// mode. The log starts empty and is kept in memory; a durable copy is
    /// the caller's to write.
    pub fn from_config(
        config: &Config,
        sources: Vec<PolicySource>,
        interactive: Box<dyn Approver>,
    ) -> (r: Result<Self, VeridionError>)
        ensures
            match load_outcome(sources_view(sources@)) {
                Err((name, reason)) => r matches Err(
                    VeridionError::Policy(PolicyError::InvalidRule { rule, reason: why }),
                ) && rule@ == name && why@ == reason,
                Ok(v) => r matches Ok(g) && {
                    &&& g.policy_engine().rules() == v
                    &&& g.policy_engine().default_effect() == crate::policy::rule_effect_of(
                        config.policy.default_effect,
                    )
                    &&& g.policy_engine().approval_threshold() == config.risk.approval_threshold
                    &&& forall|request: crate::action::RequestView| #[trigger]
                        crate::risk::all_signals(g.policy_engine().risk_engine().analyzers(), request)
                            == crate::risk::configured_signals(config.risk, request)
                    &&& (config.approval.default == ApprovalMode::Deny ==> g.workflow().fixed_outcome()
                        == Some(ApprovalOutcome::Denied))
                    &&& (config.approval.default == ApprovalMode::Allow ==> g.workflow().fixed_outcome()
                        == Some(ApprovalOutcome::Approved))
                    &&& (config.approval.default == ApprovalMode::Interactive
                        ==> g.workflow().fixed_outcome() is None)
                    &&& g.audit_log()@.len() == 0
                },
            },
    {
        let policy = match PolicyEngine::from_config(config, sources) {
            Ok(p) => p,
            Err(e) => {
                return Err(VeridionError::Policy(e));
            },
        };
        let approval = ApprovalWorkflow::from_config(&config.approval, interactive);
        Ok(Veridion::new(policy, approval, AuditLog::memory()))
    }

    /// A pure decision: no approval, no audit, no side effects.
    pub fn evaluate(&self, request: &ActionRequest) -> (r: ActionDecision)
        ensures
            r@ == self.policy_engine().decision_for(request@),
    {
        self.policy.evaluate(request)
    }

    /// The full workflow: evaluate, resolve approval if required, append one
    /// audit record, and report whether the action may proceed.
    pub fn authorize(&mut self, request: &ActionRequest) -> (r: Result<Authorization, VeridionError>)
        ensures
            r matches Ok(auth) && {
                &&& auth.decision@ == old(self).policy_engine().decision_for(request@)
                &&& (auth.approval is Some <==> auth.decision.effect == Effect::RequireApproval)
                &&& (auth.decision.effect == Effect::RequireApproval
                    && old(self).workflow().fixed_outcome() is Some) ==> auth.approval
                    == old(self).workflow().fixed_outcome()
                &&& (auth.approval matches Some(o) ==> old(self).workflow().answers(
                    request@,
                    auth.decision@,
                    o,
                ))
                &&& auth.permitted == permits(auth.decision.effect, auth.approval)
                &&& final(self).audit_log()@.len() == old(self).audit_log()@.len() + 1
                &&& final(self).audit_log()@.drop_last() == old(self).audit_log()@
                &&& final(self).audit_log()@.last() == (RecordView {
                    approval: auth.approval,
                    ..record_of(final(self).audit_log()@.last().id, request@, auth.decision@)
                })
            },
            final(self).policy_engine() == old(self).policy_engine(),
            final(self).workflow() == old(self).workflow(),
    {
        let decision = self.policy.evaluate(request);
        let mut record = AuditRecord::from_decision(request, &decision);
        let approval = if decision.needs_approval() {
            let outcome = self.approval.resolve(request, &decision);
            record = record.with_approval(outcome);
            Some(outcome)
        } else {
            None
        };
        match self.audit.record(&record) {
            Ok(()) => {},
            Err(e) => {
                return Err(VeridionError::Audit(e));
            },
        }
        Ok(Authorization::settle(decision, approval))
    }

    /// The policy engine, for reloads and inspection.
    pub fn policy(&self) -> (r: &PolicyEngine)
        ensures
            *r == self.policy_engine(),
    {
        &self.policy
    }

    /// The audit log, for querying recent decisions.
    pub fn audit(&self) -> (r: &AuditLog)
        ensures
            *r == self.audit_log(),
    {
        &self.audit
    }
}

} // verus!
