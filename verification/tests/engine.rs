use veridion::action::{actions, ActionRequest};
use veridion::approval::{ApprovalOutcome, ApprovalWorkflow, AutoApprove};
use veridion::config::{ApprovalMode, Config};
use veridion::audit::AuditLog;
use veridion::decision::Effect;
use veridion::engine::{Authorization, Veridion, VeridionError};
use veridion::policy::{Conditions, PolicyEngine, PolicyError, PolicyRule, PolicySource, RuleEffect};
use veridion::risk::RiskEngine;
use veridion::decision::ActionDecision;

fn veridion(default: RuleEffect, approval: ApprovalWorkflow) -> Veridion {
    let policy =
        PolicyEngine::with_rules(default, vec![], RiskEngine::empty(), None).expect("engine");
    Veridion::new(policy, approval, AuditLog::memory())
}

#[test]
fn allow_is_permitted_and_audited() {
    let mut v = veridion(RuleEffect::Allow, ApprovalWorkflow::auto_deny());
    let req = ActionRequest::new(actions::FS_READ, "src/lib.rs");
    let auth = v.authorize(&req).expect("authorize");
    assert!(auth.permitted);
    assert_eq!(auth.decision.effect, Effect::Allow);
    assert_eq!(v.audit().recent(1).expect("recent").len(), 1);
}

#[test]
fn deny_is_not_permitted() {
    let mut v = veridion(RuleEffect::Deny, ApprovalWorkflow::auto_deny());
    let req = ActionRequest::new(actions::EXEC, "curl evil.example");
    let auth = v.authorize(&req).expect("authorize");
    assert!(!auth.permitted);
    assert_eq!(auth.decision.effect, Effect::Deny);
}

#[test]
fn require_approval_respects_approver() {
    let mut approved = veridion(RuleEffect::RequireApproval, ApprovalWorkflow::auto_approve());
    let req = ActionRequest::new(actions::EXEC, "git push");
    let auth = approved.authorize(&req).expect("authorize");
    assert!(auth.permitted);
    assert_eq!(auth.approval, Some(ApprovalOutcome::Approved));

    let mut denied = veridion(RuleEffect::RequireApproval, ApprovalWorkflow::auto_deny());
    let auth = denied.authorize(&req).expect("authorize");
    assert!(!auth.permitted);
    assert_eq!(auth.approval, Some(ApprovalOutcome::Denied));
}

#[test]
fn audit_record_carries_the_approval() {
    let mut v = veridion(RuleEffect::RequireApproval, ApprovalWorkflow::auto_approve());
    let req = ActionRequest::new(actions::EXEC, "git push");
    let auth = v.authorize(&req).expect("authorize");
    let recent = v.audit().recent(5).expect("recent");
    assert_eq!(recent.len(), 1);
    assert_eq!(recent[0].approval, Some(ApprovalOutcome::Approved));
    assert_eq!(recent[0].effect, Effect::RequireApproval);
    assert_eq!(recent[0].reason, auth.decision.reason);
    assert_eq!(recent[0].reason, "no rule matched; default effect 'require_approval'");
}

#[test]
fn allow_and_deny_carry_no_approval() {
    let mut v = veridion(RuleEffect::Allow, ApprovalWorkflow::auto_approve());
    let auth = v.authorize(&ActionRequest::new(actions::FS_READ, "a")).expect("authorize");
    assert_eq!(auth.approval, None);
    let recent = v.audit().recent(5).expect("recent");
    assert_eq!(recent[0].approval, None);
}

#[test]
fn settle_combines_effect_and_approval() {
    let allow = Authorization::settle(ActionDecision::allow("a"), None);
    assert!(allow.permitted);
    let deny = Authorization::settle(ActionDecision::deny("d"), Some(ApprovalOutcome::Approved));
    assert!(!deny.permitted);
    let ask = Authorization::settle(ActionDecision::require_approval("r"), None);
    assert!(!ask.permitted);
    let yes = Authorization::settle(
        ActionDecision::require_approval("r"),
        Some(ApprovalOutcome::Approved),
    );
    assert!(yes.permitted);
}

#[test]
fn evaluate_matches_authorize_decision() {
    let mut v = veridion(RuleEffect::Deny, ApprovalWorkflow::auto_deny());
    let req = ActionRequest::new(actions::EXEC, "ls");
    let pure = v.evaluate(&req);
    assert_eq!(v.audit().len(), 0);
    let auth = v.authorize(&req).expect("authorize");
    assert_eq!(pure, auth.decision);
    assert_eq!(v.audit().len(), 1);
    assert_eq!(v.policy().evaluate(&req), pure);
}

#[test]
fn from_config_builds_the_configured_stack() {

    let mut config = Config::default();
    config.approval.default = ApprovalMode::Allow;
    let source = PolicySource {
        path: "p.toml".to_string(),
        rules: vec![PolicyRule {
            name: "ask_exec".to_string(),
            description: None,
            priority: None,
            effect: RuleEffect::RequireApproval,
            conditions: Conditions { action: Some(actions::EXEC.to_string()), ..Conditions::default() },
        }],
    };
    let mut v = Veridion::from_config(&config, vec![source], Box::new(AutoApprove)).expect("stack");
    assert_eq!(v.audit().len(), 0);
    let auth = v.authorize(&ActionRequest::new(actions::EXEC, "ls")).expect("authorize");
    assert_eq!(auth.decision.effect, Effect::RequireApproval);
    assert_eq!(auth.approval, Some(ApprovalOutcome::Approved));
    assert!(auth.permitted);
    let other = v.authorize(&ActionRequest::new(actions::FS_READ, "x")).expect("authorize");
    assert_eq!(other.decision.effect, Effect::Deny);
    assert_eq!(other.decision.reason, "no rule matched; default effect 'deny'");

    let bad = PolicySource {
        path: "bad.toml".to_string(),
        rules: vec![PolicyRule {
            name: "bad".to_string(),
            description: None,
            priority: None,
            effect: RuleEffect::Allow,
            conditions: Conditions { resource_glob: Some("[".to_string()), ..Conditions::default() },
        }],
    };
    match Veridion::from_config(&config, vec![bad], Box::new(AutoApprove)) {
        Err(VeridionError::Policy(PolicyError::InvalidRule { rule, .. })) => assert_eq!(rule, "bad"),
        _ => panic!("expected an invalid rule"),
    }
}
