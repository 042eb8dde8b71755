use bitbygit::config::{AppConfig, ConfirmationSetting, OperationFamily};
use bitbygit::operation::{ConfirmationRequirement, OperationKind, RiskLevel};
use bitbygit::policy::{operation_family, EffectivePolicy};

#[test]
fn built_in_protected_branches_use_exact_and_prefix_boundaries() {
    let policy = EffectivePolicy::default();

    for branch in [
        "main",
        "master",
        "develop",
        "release/1.0",
        "release/1.0/hotfix",
    ] {
        assert!(policy.is_protected_branch(branch), "{branch}");
    }
    for branch in [
        "mainline",
        "masters",
        "development",
        "release",
        "release/",
        "releases/1.0",
    ] {
        assert!(!policy.is_protected_branch(branch), "{branch}");
    }
}

#[test]
fn configured_protected_branches_are_additive_and_malformed_patterns_are_ignored() {
    let mut config = AppConfig::default();
    config.policy.additional_protected_branches = vec![
        "production".to_owned(),
        "stable/*".to_owned(),
        "*".to_owned(),
        "release/**".to_owned(),
        "/*".to_owned(),
    ];
    let policy = EffectivePolicy::new(&config);

    for branch in ["main", "release/1.0", "production", "stable/1.0"] {
        assert!(policy.is_protected_branch(branch), "{branch}");
    }
    for branch in ["feature/auth", "stable", "stable/"] {
        assert!(!policy.is_protected_branch(branch), "{branch}");
    }
}

#[test]
fn confirmation_settings_only_escalate_risk_requirements() {
    let mut config = AppConfig::default();
    config.policy.confirmation.low = ConfirmationSetting::VisiblePlan;
    config.policy.confirmation.medium = ConfirmationSetting::ExplicitConfirmation;
    config.policy.confirmation.high = ConfirmationSetting::Blocked;
    let policy = EffectivePolicy::new(&config);

    assert_eq!(
        policy.confirmation_requirement(RiskLevel::Low),
        ConfirmationRequirement::VisiblePlan
    );
    assert_eq!(
        policy.confirmation_requirement(RiskLevel::Medium),
        ConfirmationRequirement::ExplicitConfirmation
    );
    assert_eq!(
        policy.confirmation_requirement(RiskLevel::High),
        ConfirmationRequirement::Blocked
    );
    assert_eq!(
        policy.confirmation_requirement(RiskLevel::BlockedByDefault),
        ConfirmationRequirement::Blocked
    );
}

#[test]
fn evaluator_defensively_clamps_unvalidated_confirmation_settings() {
    let mut config = AppConfig::default();
    config.policy.confirmation.medium = ConfirmationSetting::NormalSelection;
    config.policy.confirmation.high = ConfirmationSetting::VisiblePlan;
    let policy = EffectivePolicy::new(&config);

    assert_eq!(
        policy.confirmation_requirement(RiskLevel::Medium),
        ConfirmationRequirement::VisiblePlan
    );
    assert_eq!(
        policy.confirmation_requirement(RiskLevel::High),
        ConfirmationRequirement::ExplicitConfirmation
    );
}

#[test]
fn disabled_families_cover_every_internal_operation_variant() {
    let operations = [
        (OperationKind::RefreshStatus, OperationFamily::RefreshStatus),
        (OperationKind::ViewDiff, OperationFamily::ViewDiff),
        (OperationKind::Fetch, OperationFamily::Fetch),
        (OperationKind::StagePaths, OperationFamily::Stage),
        (OperationKind::StageAll, OperationFamily::Stage),
        (OperationKind::UnstagePaths, OperationFamily::Unstage),
        (OperationKind::UnstageAll, OperationFamily::Unstage),
        (OperationKind::Commit, OperationFamily::Commit),
        (OperationKind::PushCurrentBranch, OperationFamily::Push),
        (OperationKind::PushSetUpstream, OperationFamily::Push),
        (OperationKind::PullFastForward, OperationFamily::Pull),
        (OperationKind::PullRebase, OperationFamily::Pull),
        (OperationKind::Branches, OperationFamily::Branches),
        (OperationKind::CheckoutBranch, OperationFamily::Checkout),
        (OperationKind::CreateBranch, OperationFamily::CreateBranch),
        (OperationKind::MergeFastForward, OperationFamily::Merge),
        (OperationKind::Rebase, OperationFamily::Rebase),
        (
            OperationKind::OpenPullRequest,
            OperationFamily::OpenPullRequest,
        ),
    ];

    for (operation, family) in operations {
        let mut config = AppConfig::default();
        config.policy.disabled_operations = vec![family];
        let policy = EffectivePolicy::new(&config);

        assert_eq!(operation_family(operation), family);
        assert!(policy.is_operation_disabled(operation), "{operation:?}");
    }
}

#[test]
fn prompt_policy_only_exposes_enablement() {
    let mut config = AppConfig::default();
    assert!(EffectivePolicy::new(&config).prompt_enabled());

    config.prompt.enabled = false;
    assert!(!EffectivePolicy::new(&config).prompt_enabled());
}

#[test]
fn every_setting_keeps_or_strengthens_what_a_risk_asks_for() {
    let settings = [
        ConfirmationSetting::NormalSelection,
        ConfirmationSetting::VisiblePlan,
        ConfirmationSetting::ExplicitConfirmation,
        ConfirmationSetting::Blocked,
    ];
    let risks = [
        RiskLevel::Low,
        RiskLevel::Medium,
        RiskLevel::High,
        RiskLevel::BlockedByDefault,
    ];
    for setting in settings {
        let mut config = AppConfig::default();
        config.policy.confirmation.low = setting;
        config.policy.confirmation.medium = setting;
        config.policy.confirmation.high = setting;
        let policy = EffectivePolicy::new(&config);
        for risk in risks {
            assert!(policy.confirmation_requirement(risk) >= risk.confirmation_requirement());
        }
    }
}

#[test]
fn more_patterns_never_unprotect_a_branch() {
    let branches = ["main", "release/2", "stable/1", "topic", "release/"];
    let mut config = AppConfig::default();
    let before = EffectivePolicy::new(&config);
    config.policy.additional_protected_branches = vec!["stable/*".to_owned()];
    let after = EffectivePolicy::new(&config);
    for branch in branches {
        assert!(!before.is_protected_branch(branch) || after.is_protected_branch(branch));
    }
    assert!(!before.is_protected_branch("stable/1"));
    assert!(after.is_protected_branch("stable/1"));
    assert!(!after.is_protected_branch("topic"));
}

#[test]
fn only_the_disabled_family_is_disabled() {
    let mut config = AppConfig::default();
    config.policy.disabled_operations = vec![OperationFamily::Pull];
    let policy = EffectivePolicy::new(&config);
    assert!(policy.is_operation_disabled(OperationKind::PullRebase));
    assert!(!policy.is_operation_disabled(OperationKind::PushCurrentBranch));
    assert!(!EffectivePolicy::default().is_operation_disabled(OperationKind::PullRebase));
}
