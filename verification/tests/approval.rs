use veridion::action::{actions, ActionRequest, RequestView};
use veridion::approval::{
    approval_prompt, interpret_answer, ApprovalOutcome, ApprovalWorkflow, Approver, AutoApprove,
    AutoDeny,
};
use veridion::config::{ApprovalConfig, ApprovalMode};
use veridion::decision::{ActionDecision, DecisionView};

#[test]
fn auto_deny_denies() {
    let workflow = ApprovalWorkflow::auto_deny();
    let req = ActionRequest::new(actions::EXEC, "rm -rf build");
    let decision = ActionDecision::require_approval("needs review");
    assert_eq!(workflow.resolve(&req, &decision), ApprovalOutcome::Denied);
}

#[test]
fn auto_approve_approves() {
    let workflow = ApprovalWorkflow::auto_approve();
    let req = ActionRequest::new(actions::EXEC, "rm -rf build");
    let decision = ActionDecision::require_approval("needs review");
    assert_eq!(workflow.resolve(&req, &decision), ApprovalOutcome::Approved);
}

struct Always(ApprovalOutcome);

impl Approver for Always {
    fn answers(&self, _request: RequestView, _decision: DecisionView, outcome: ApprovalOutcome) -> bool {
        outcome == self.0
    }

    fn approve(&self, _request: &ActionRequest, _decision: &ActionDecision) -> ApprovalOutcome {
        self.0
    }
}

#[test]
fn custom_approver_decides() {
    let req = ActionRequest::new(actions::NET_REMOTE, "prod-1: reboot");
    let decision = ActionDecision::require_approval("remote");
    let yes = ApprovalWorkflow::new(Box::new(Always(ApprovalOutcome::Approved)));
    assert_eq!(yes.resolve(&req, &decision), ApprovalOutcome::Approved);
    let no = ApprovalWorkflow::new(Box::new(AutoDeny));
    assert_eq!(no.resolve(&req, &decision), ApprovalOutcome::Denied);
    assert_eq!(AutoApprove.approve(&req, &decision), ApprovalOutcome::Approved);
}

#[test]
fn from_config_selects_mode() {
    let req = ActionRequest::new(actions::EXEC, "git push");
    let decision = ActionDecision::require_approval("push");
    let deny = ApprovalWorkflow::from_config(
        &ApprovalConfig { default: ApprovalMode::Deny },
        Box::new(Always(ApprovalOutcome::Approved)),
    );
    assert_eq!(deny.resolve(&req, &decision), ApprovalOutcome::Denied);
    let allow = ApprovalWorkflow::from_config(
        &ApprovalConfig { default: ApprovalMode::Allow },
        Box::new(Always(ApprovalOutcome::Denied)),
    );
    assert_eq!(allow.resolve(&req, &decision), ApprovalOutcome::Approved);
    let interactive = ApprovalWorkflow::from_config(
        &ApprovalConfig { default: ApprovalMode::Interactive },
        Box::new(Always(ApprovalOutcome::Approved)),
    );
    assert_eq!(interactive.resolve(&req, &decision), ApprovalOutcome::Approved);
    assert_eq!(ApprovalWorkflow::default().resolve(&req, &decision), ApprovalOutcome::Denied);
}

#[test]
fn typed_answers_are_read_leniently() {
    assert_eq!(interpret_answer(Some("y\n")), ApprovalOutcome::Approved);
    assert_eq!(interpret_answer(Some("  YES ")), ApprovalOutcome::Approved);
    assert_eq!(interpret_answer(Some("n")), ApprovalOutcome::Denied);
    assert_eq!(interpret_answer(Some("")), ApprovalOutcome::Denied);
    assert_eq!(interpret_answer(Some("yes please")), ApprovalOutcome::Denied);
    assert_eq!(interpret_answer(None), ApprovalOutcome::Denied);
}

#[test]
fn prompt_names_action_resource_risk_and_reason() {
    let req = ActionRequest::new(actions::EXEC, "git push");
    let decision = ActionDecision::require_approval("matched rule 'ask'");
    assert_eq!(
        approval_prompt(&req, &decision),
        "approval required: exec on 'git push' (risk 0) — matched rule 'ask'"
    );
}

#[test]
fn outcome_names() {
    assert!(ApprovalOutcome::Approved.is_approved());
    assert!(!ApprovalOutcome::Denied.is_approved());
    assert_eq!(ApprovalOutcome::Approved.as_str(), "approved");
    assert_eq!(ApprovalOutcome::Denied.as_str(), "denied");
}
