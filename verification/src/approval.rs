//! Approval workflow for actions the policy engine escalates.
//!
//! When [`PolicyEngine::evaluate`](crate::policy::PolicyEngine::evaluate)
//! returns [`Effect::RequireApproval`](crate::decision::Effect::RequireApproval),
//! the action may proceed only if an [`Approver`] says so. The
//! [`ApprovalWorkflow`] wraps a chosen approver and turns a
//! request-plus-decision into an [`ApprovalOutcome`].
//!
//! Built-in approvers cover the unattended cases: [`AutoDeny`] (safe headless
//! default) and [`AutoApprove`] (dev only). A terminal prompt, or any other
//! channel, plugs in by implementing [`Approver`]; [`approval_prompt`] and
//! [`interpret_answer`] hold the text such a prompt shows and how a typed
//! answer is read.

use vstd::prelude::*;

use crate::action::{ActionRequest, RequestView};
use crate::config::{ApprovalConfig, ApprovalMode};
use crate::decision::{ActionDecision, DecisionView};
use crate::text::{ascii_lowered, is_ascii_text, lemma_trimmed_ascii, decimal, join3, lowercase, push_decimal, str_eq, to_lowercase, trim, trimmed};

verus! {

/// The result of asking for approval.
#[derive(Debug, Clone, Copy, PartialEq, Eq, Structural)]
pub enum ApprovalOutcome {
    /// The action was approved and may proceed.
    Approved,
    /// The action was refused.
    Denied,
}

impl ApprovalOutcome {
    /// Whether the outcome permits the action.
    pub fn is_approved(self) -> (r: bool)
        ensures
            r == (self == ApprovalOutcome::Approved),
    {
        matches!(self, ApprovalOutcome::Approved)
    }

    /// The lowercase name of the outcome (`approved` or `denied`).
    pub fn as_str(self) -> (r: &'static str)
        ensures
            r@ == (if self == ApprovalOutcome::Approved {
                "approved"@
            } else {
                "denied"@
            }),
    {
        match self {
            ApprovalOutcome::Approved => "approved",
            ApprovalOutcome::Denied => "denied",
        }
    }
}

/// Decides whether an action that requires approval may proceed.
pub trait Approver {
    /// Whether `outcome` is an answer this approver may give for a request
    /// and its decision. An approver that says nothing of its answers admits
    /// every outcome.
    spec fn answers(&self, request: RequestView, decision: DecisionView, outcome: ApprovalOutcome) -> bool;

    /// Resolve the approval for `request` given its `decision`.
    fn approve(&self, request: &ActionRequest, decision: &ActionDecision) -> (r: ApprovalOutcome)
        ensures
            self.answers(request@, decision@, r),
    ;
}

/// Refuses everything (the safe default for unattended runs).
pub struct AutoDeny;

impl Approver for AutoDeny {
    open spec fn answers(&self, request: RequestView, decision: DecisionView, outcome: ApprovalOutcome) -> bool {
        outcome == ApprovalOutcome::Denied
    }

    fn approve(&self, _request: &ActionRequest, _decision: &ActionDecision) -> (r: ApprovalOutcome)
        ensures
            r == ApprovalOutcome::Denied,
    {
        ApprovalOutcome::Denied
    }
}

/// Approves everything (dangerous; development only).
pub struct AutoApprove;

impl Approver for AutoApprove {
    open spec fn answers(&self, request: RequestView, decision: DecisionView, outcome: ApprovalOutcome) -> bool {
        outcome == ApprovalOutcome::Approved
    }

    fn approve(&self, _request: &ActionRequest, _decision: &ActionDecision) -> (r: ApprovalOutcome)
        ensures
            r == ApprovalOutcome::Approved,
    {
        ApprovalOutcome::Approved
    }
}

enum ApproverSlot<A> {
    Deny,
    Approve,
    Custom(A),
}

/// Resolves approvals through a chosen [`Approver`].
pub struct ApprovalWorkflow {
    approver: ApproverSlot<Box<dyn Approver>>,
}

impl ApprovalWorkflow {
    /// The outcome this workflow gives every request, when it is fixed (the
    /// built-in auto-deny and auto-approve workflows); `None` for an arbitrary
    /// approver, which decides for itself.
    pub closed spec fn fixed_outcome(&self) -> Option<ApprovalOutcome> {
        match self.approver {
            ApproverSlot::Deny => Some(ApprovalOutcome::Denied),
            ApproverSlot::Approve => Some(ApprovalOutcome::Approved),
            ApproverSlot::Custom(_) => None,
        }
    }

    /// Whether `outcome` is an answer this workflow may give: the fixed
    /// outcome of a built-in workflow, or an answer of the approver it holds.
    pub closed spec fn answers(
        &self,
        request: RequestView,
        decision: DecisionView,
        outcome: ApprovalOutcome,
    ) -> bool {
        match self.approver {
            ApproverSlot::Deny => outcome == ApprovalOutcome::Denied,
            ApproverSlot::Approve => outcome == ApprovalOutcome::Approved,
            ApproverSlot::Custom(a) => a.answers(request, decision, outcome),
        }
    }

    /// Wrap an arbitrary approver.
    pub fn new(approver: Box<dyn Approver>) -> (r: Self)
        ensures
            r.fixed_outcome() is None,
            forall|request: RequestView, decision: DecisionView, outcome: ApprovalOutcome|
                #[trigger] r.answers(request, decision, outcome) == approver.answers(
                    request,
                    decision,
                    outcome,
                ),
    {
        let slot = ApproverSlot::Custom(approver);
        let ghost g = slot;
        proof {
            assert forall|request: RequestView, decision: DecisionView, outcome: ApprovalOutcome|
                #[trigger] (ApprovalWorkflow { approver: g }).answers(request, decision, outcome)
                    == approver.answers(request, decision, outcome) by {
                assert(g matches ApproverSlot::Custom(b) && b == approver);
            }
        }
        ApprovalWorkflow { approver: slot }
    }

    /// Refuse anything that needs approval.
    pub fn auto_deny() -> (r: Self)
        ensures
            r.fixed_outcome() == Some(ApprovalOutcome::Denied),
    {
        ApprovalWorkflow { approver: ApproverSlot::Deny }
    }

    /// Approve anything that needs approval (dev only).
    pub fn auto_approve() -> (r: Self)
        ensures
            r.fixed_outcome() == Some(ApprovalOutcome::Approved),
    {
        ApprovalWorkflow { approver: ApproverSlot::Approve }
    }

    /// Build a workflow from configuration. The `interactive` approver (a
    /// terminal prompt, supplied by the caller) serves the interactive mode.
    pub fn from_config(config: &ApprovalConfig, interactive: Box<dyn Approver>) -> (r: Self)
        ensures
            config.default == ApprovalMode::Deny ==> r.fixed_outcome() == Some(
                ApprovalOutcome::Denied,
            ),
            config.default == ApprovalMode::Allow ==> r.fixed_outcome() == Some(
                ApprovalOutcome::Approved,
            ),
            config.default == ApprovalMode::Interactive ==> r.fixed_outcome() is None && forall|
                request: RequestView,
                decision: DecisionView,
                outcome: ApprovalOutcome,
            |
                #[trigger] r.answers(request, decision, outcome) == interactive.answers(
                    request,
                    decision,
                    outcome,
                ),
    {
        match config.default {
            ApprovalMode::Deny => Self::auto_deny(),
            ApprovalMode::Allow => Self::auto_approve(),
            ApprovalMode::Interactive => {
                let slot = ApproverSlot::Custom(interactive);
                let ghost g = slot;
                proof {
                    assert forall|
                        request: RequestView,
                        decision: DecisionView,
                        outcome: ApprovalOutcome,
                    |
                        #[trigger] (ApprovalWorkflow { approver: g }).answers(
                            request,
                            decision,
                            outcome,
                        ) == interactive.answers(request, decision, outcome) by {
                        assert(g matches ApproverSlot::Custom(b) && b == interactive);
                    }
                }
                ApprovalWorkflow { approver: slot }
            },
        }
    }

    /// Ask the approver to resolve this decision.
    pub fn resolve(&self, request: &ActionRequest, decision: &ActionDecision) -> (r:
        ApprovalOutcome)
        ensures
            self.fixed_outcome() matches Some(o) ==> r == o,
            self.answers(request@, decision@, r),
    {
        match &self.approver {
            ApproverSlot::Deny => AutoDeny.approve(request, decision),
            ApproverSlot::Approve => AutoApprove.approve(request, decision),
            ApproverSlot::Custom(a) => a.approve(request, decision),
        }
    }
}

impl Default for ApprovalWorkflow {
    fn default() -> (r: Self)
        ensures
            r.fixed_outcome() == Some(ApprovalOutcome::Denied),
    {
        Self::auto_deny()
    }
}

/// The prompt a terminal approver shows for a request and its decision.
pub open spec fn prompt_text(
    action: Seq<char>,
    resource: Seq<char>,
    risk: u8,
    reason: Seq<char>,
) -> Seq<char> {
    "approval required: "@ + action + " on '"@ + resource + "' (risk "@ + decimal(risk as nat)
        + ") — "@ + reason
}

/// The prompt names the action, the resource in single quotes, the risk in
/// decimal and the decision's reason: `approval required: {action} on
/// '{resource}' (risk {risk}) — {reason}`.
pub proof fn law_prompt_names_the_request(
    action: Seq<char>,
    resource: Seq<char>,
    risk: u8,
    reason: Seq<char>,
)
    ensures
        prompt_text(action, resource, risk, reason) == "approval required: "@ + action + " on '"@
            + resource + "' (risk "@ + decimal(risk as nat) + ") — "@ + reason,
{
}

/// `approval required: {action} on '{resource}' (risk {risk}) — {reason}`.
pub fn approval_prompt(request: &ActionRequest, decision: &ActionDecision) -> (r: String)
    ensures
        r@ == prompt_text(request@.action, request@.resource, decision.risk.value, decision@.reason),
{
    let head = join3("approval required: ", request.action.as_str(), " on '");
    let mut text = join3(head.as_str(), request.resource.as_str(), "' (risk ");
    push_decimal(&mut text, decision.risk.value as u64);
    join3(text.as_str(), ") — ", decision.reason.as_str())
}

/// Whether a typed answer approves: `y` or `yes`, ignoring surrounding white
/// space and case.
pub open spec fn answer_approves(answer: Seq<char>) -> bool {
    lowercase(trimmed(answer)) == "y"@ || lowercase(trimmed(answer)) == "yes"@
}

/// A typed answer approves exactly when, trimmed of white space and
/// lowercased, it is `y` or `yes`; any other answer denies.
pub proof fn law_only_y_or_yes_approves(answer: Seq<char>)
    ensures
        answer_approves(answer) <==> (lowercase(trimmed(answer)) == "y"@ || lowercase(
            trimmed(answer),
        ) == "yes"@),
{
}

/// Read a typed answer; `None` stands for an answer that could not be read,
/// which denies.
pub fn interpret_answer(answer: Option<&str>) -> (r: ApprovalOutcome)
    ensures
        r == (match answer {
            Some(a) => if answer_approves(a@) {
                ApprovalOutcome::Approved
            } else {
                ApprovalOutcome::Denied
            },
            None => ApprovalOutcome::Denied,
        }),
        answer matches Some(a) ==> (is_ascii_text(a@) ==> (r == ApprovalOutcome::Approved <==> (
        ascii_lowered(trimmed(a@)) == "y"@ || ascii_lowered(trimmed(a@)) == "yes"@))),
{
    match answer {
        Some(a) => {
            let t = trim(a);
            proof {
                if is_ascii_text(a@) {
                    lemma_trimmed_ascii(a@);
                }
            }
            let lower = to_lowercase(t.as_str());
            if str_eq(lower.as_str(), "y") || str_eq(lower.as_str(), "yes") {
                ApprovalOutcome::Approved
            } else {
                ApprovalOutcome::Denied
            }
        },
        None => ApprovalOutcome::Denied,
    }
}

} // verus!
