use bitbygit::operation::{
    ConfirmationMetadata, ConfirmationRequirement, OperationKind, OperationPlan, OperationRequest,
    OperationStep, RiskLevel,
};
use bitbygit::{APP_NAME, VERSION};

#[test]
fn exposes_app_identity() {
    assert_eq!(APP_NAME, "bitbygit");
    assert!(!VERSION.is_empty());
}

#[test]
fn risk_levels_match_guardrail_confirmation_policy() {
    assert_eq!(
        RiskLevel::Low.confirmation_requirement(),
        ConfirmationRequirement::NormalSelection
    );
    assert_eq!(
        RiskLevel::Medium.confirmation_requirement(),
        ConfirmationRequirement::VisiblePlan
    );
    assert_eq!(
        RiskLevel::High.confirmation_requirement(),
        ConfirmationRequirement::ExplicitConfirmation
    );
    assert_eq!(
        RiskLevel::BlockedByDefault.confirmation_requirement(),
        ConfirmationRequirement::Blocked
    );
}

#[test]
fn operation_plan_preview_comes_from_steps() {
    let plan = OperationPlan::new(
        OperationRequest::Commit {
            message: "ship it".to_owned(),
        },
        "Commit plan",
        vec![
            OperationStep::new(
                OperationKind::Commit,
                RiskLevel::Medium,
                "commit 2 staged file(s)",
            )
            .with_detail("message: ship it"),
        ],
        "Press y to commit or n to cancel.",
    );

    assert_eq!(plan.confirmation.risk_level, RiskLevel::Medium);
    assert_eq!(
        plan.preview_text(),
        "Commit plan:\n- commit 2 staged file(s)\n- message: ship it\nPress y to commit or n to cancel."
    );
}

#[test]
fn a_plan_is_as_risky_as_its_riskiest_step() {
    let steps = vec![
        OperationStep::new(OperationKind::Fetch, RiskLevel::Low, "fetch"),
        OperationStep::new(OperationKind::Rebase, RiskLevel::High, "rebase")
            .allow_safe_continuation_after_failure(),
        OperationStep::new(OperationKind::Commit, RiskLevel::Medium, "commit"),
    ];
    let plan = OperationPlan::new(OperationRequest::Fetch, "Plan", steps, "");
    assert_eq!(plan.confirmation.risk_level, RiskLevel::High);
    assert_eq!(
        plan.confirmation.requirement,
        ConfirmationRequirement::ExplicitConfirmation
    );
    assert!(plan.steps[1].continue_on_failure);
    assert_eq!(plan.first_step().map(|step| step.kind), Some(OperationKind::Fetch));
    assert_eq!(plan.preview_text(), "Plan:\n- fetch\n- rebase\n- commit");

    let empty = OperationPlan::new(OperationRequest::Fetch, "Nothing", Vec::new(), "Go on?");
    assert_eq!(empty.confirmation.risk_level, RiskLevel::Low);
    assert_eq!(empty.first_step(), None);
    assert_eq!(empty.preview_text(), "Nothing:\nGo on?");
}

#[test]
fn a_reason_is_shown_before_the_prompt() {
    let confirmation =
        ConfirmationMetadata::for_risk(RiskLevel::Medium, "Press y.").with_reason("it is shared");
    assert_eq!(confirmation.requirement, ConfirmationRequirement::VisiblePlan);
    let mut plan = OperationPlan::new(
        OperationRequest::Push,
        "Push plan",
        vec![OperationStep::new(OperationKind::PushCurrentBranch, RiskLevel::Medium, "push")],
        "Press y.",
    );
    plan.confirmation = confirmation;
    assert_eq!(plan.preview_text(), "Push plan:\n- push\n- it is shared\nPress y.");
}

#[test]
fn greater_risks_never_ask_for_less() {
    let risks = [
        RiskLevel::Low,
        RiskLevel::Medium,
        RiskLevel::High,
        RiskLevel::BlockedByDefault,
    ];
    for left in risks {
        for right in risks {
            assert_eq!(left.is_below(right), left < right);
            if left < right {
                assert!(left.confirmation_requirement() < right.confirmation_requirement());
            }
        }
    }
}

#[test]
fn operations_are_named() {
    assert_eq!(OperationKind::PushSetUpstream.action_label(), "push");
    assert_eq!(OperationKind::PushSetUpstream.audit_operation(), "push_set_upstream");
    assert_eq!(OperationKind::MergeFastForward.action_label(), "merge");
    assert_eq!(OperationKind::MergeFastForward.audit_operation(), "merge_ff_only");
    assert_eq!(OperationKind::StagePaths.audit_operation(), "stage_path");
}

#[test]
fn a_copied_request_is_the_same() {
    let request = OperationRequest::PromptSequence {
        requests: vec![
            OperationRequest::Commit { message: "x".to_owned() },
            OperationRequest::PromptSequence { requests: vec![OperationRequest::Push] },
            OperationRequest::CreateBranch { branch: "b".to_owned(), base: Some("m".to_owned()) },
        ],
    };
    assert_eq!(request.clone(), request);
}
