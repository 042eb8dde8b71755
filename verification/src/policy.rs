//! The policy in force: which branches are protected, what a user has to confirm, and which operations
//! are switched off.
use crate::config;
use crate::config::{
    AppConfig, AppConfigView, ConfirmationConfig, ConfirmationSetting, OperationFamily,
};
use crate::operation;
use crate::operation::{ConfirmationRequirement, OperationKind, RiskLevel};
use crate::text;
use crate::words;
use vstd::prelude::*;

verus! {

/// The branches that are always protected.
pub open spec fn built_in_protected_branches() -> Seq<Seq<char>> {
    seq!["main"@, "master"@, "develop"@, "release/*"@]
}

/// The policy in force.
#[derive(Debug, Clone, PartialEq, Eq)]
pub struct EffectivePolicy {
    additional_protected_branches: Vec<String>,
    confirmation: ConfirmationConfig,
    disabled_operations: Vec<OperationFamily>,
    prompt_enabled: bool,
}

/// The values of an [`EffectivePolicy`].
#[verifier::ext_equal]
pub struct EffectivePolicyView {
    pub additional_protected_branches: Seq<Seq<char>>,
    pub confirmation: ConfirmationConfig,
    pub disabled_operations: Seq<OperationFamily>,
    pub prompt_enabled: bool,
}

impl DeepView for EffectivePolicy {
    type V = EffectivePolicyView;

    closed spec fn deep_view(&self) -> EffectivePolicyView {
        EffectivePolicyView {
            additional_protected_branches: self.additional_protected_branches.deep_view(),
            confirmation: self.confirmation,
            disabled_operations: self.disabled_operations@,
            prompt_enabled: self.prompt_enabled,
        }
    }
}

/// The policy that settings give.
pub open spec fn policy_of(config: AppConfigView) -> EffectivePolicyView {
    EffectivePolicyView {
        additional_protected_branches: config.policy.additional_protected_branches,
        confirmation: config.policy.confirmation,
        disabled_operations: config.policy.disabled_operations,
        prompt_enabled: config.prompt.enabled,
    }
}

/// Whether a pattern is met by a branch. A pattern that is not acceptable is met by none; a star at the end
/// stands for one or more characters.
pub open spec fn pattern_meets(pattern: Seq<char>, branch: Seq<char>) -> bool {
    config::is_branch_pattern(pattern) && if text::has_suffix(pattern, "*"@) {
        let prefix = pattern.take(pattern.len() - "*"@.len());
        text::has_prefix(branch, prefix) && branch.len() > prefix.len()
    } else {
        pattern == branch
    }
}

/// Whether a pattern is met by a branch.
fn branch_matches(pattern: &str, branch: &str) -> (result: bool)
    ensures
        result == pattern_meets(pattern@, branch@),
{
    if !config::valid_branch_pattern(pattern) {
        return false;
    }
    let characters = text::chars_of(pattern);
    match text::strip_text_suffix(characters.as_slice(), "*") {
        Some(prefix) => {
            let name = text::chars_of(branch);
            match text::strip_prefix(name.as_slice(), prefix) {
                Some(rest) => rest.len() > 0,
                None => false,
            }
        },
        None => text::same_text(pattern, branch),
    }
}

/// Whether one of some patterns is met by a branch.
pub open spec fn any_meets(patterns: Seq<Seq<char>>, branch: Seq<char>) -> bool {
    exists|i: int| 0 <= i < patterns.len() && pattern_meets(#[trigger] patterns[i], branch)
}

/// Whether one of some patterns is met by a branch.
fn any_matches(patterns: &Vec<String>, branch: &str) -> (result: bool)
    ensures
        result == any_meets(patterns.deep_view(), branch@),
{
    let ghost all = patterns.deep_view();
    let mut index: usize = 0;
    while index < patterns.len()
        invariant
            index <= patterns@.len(),
            all == patterns.deep_view(),
            forall|i: int| 0 <= i < index ==> !pattern_meets(#[trigger] all[i], branch@),
        decreases patterns@.len() - index,
    {
        assert(all[index as int] == patterns@[index as int]@);
        if branch_matches(patterns[index].as_str(), branch) {
            return true;
        }
        index += 1;
    }
    false
}

/// Whether a policy protects a branch.
pub open spec fn protects(policy: EffectivePolicyView, branch: Seq<char>) -> bool {
    any_meets(built_in_protected_branches(), branch) || any_meets(
        policy.additional_protected_branches,
        branch,
    )
}

/// The stronger of two settings.
pub open spec fn stronger(left: ConfirmationSetting, right: ConfirmationSetting) -> ConfirmationSetting {
    if config::setting_rank(left) < config::setting_rank(right) {
        right
    } else {
        left
    }
}

/// The stronger of two settings.
fn stronger_of(
    left: ConfirmationSetting,
    right: ConfirmationSetting,
) -> (result: ConfirmationSetting)
    ensures
        result == stronger(left, right),
{
    if left.is_weaker(right) {
        right
    } else {
        left
    }
}

/// What a setting asks for.
pub open spec fn requirement_of(setting: ConfirmationSetting) -> ConfirmationRequirement {
    match setting {
        ConfirmationSetting::NormalSelection => ConfirmationRequirement::NormalSelection,
        ConfirmationSetting::VisiblePlan => ConfirmationRequirement::VisiblePlan,
        ConfirmationSetting::ExplicitConfirmation => ConfirmationRequirement::ExplicitConfirmation,
        ConfirmationSetting::Blocked => ConfirmationRequirement::Blocked,
    }
}

/// What a setting asks for.
fn confirmation_requirement(setting: ConfirmationSetting) -> (result: ConfirmationRequirement)
    ensures
        result == requirement_of(setting),
{
    match setting {
        ConfirmationSetting::NormalSelection => ConfirmationRequirement::NormalSelection,
        ConfirmationSetting::VisiblePlan => ConfirmationRequirement::VisiblePlan,
        ConfirmationSetting::ExplicitConfirmation => ConfirmationRequirement::ExplicitConfirmation,
        ConfirmationSetting::Blocked => ConfirmationRequirement::Blocked,
    }
}

/// What a policy asks for before a step of a risk.
pub open spec fn required(policy: EffectivePolicyView, risk: RiskLevel) -> ConfirmationRequirement {
    requirement_of(
        match risk {
            RiskLevel::Low => stronger(
                policy.confirmation.low,
                ConfirmationSetting::NormalSelection,
            ),
            RiskLevel::Medium => stronger(
                policy.confirmation.medium,
                ConfirmationSetting::VisiblePlan,
            ),
            RiskLevel::High => stronger(
                policy.confirmation.high,
                ConfirmationSetting::ExplicitConfirmation,
            ),
            RiskLevel::BlockedByDefault => ConfirmationSetting::Blocked,
        },
    )
}

/// The family that an operation belongs to.
pub open spec fn family_of(operation: OperationKind) -> OperationFamily {
    match operation {
        OperationKind::RefreshStatus => OperationFamily::RefreshStatus,
        OperationKind::ViewDiff => OperationFamily::ViewDiff,
        OperationKind::Fetch => OperationFamily::Fetch,
        OperationKind::StagePaths => OperationFamily::Stage,
        OperationKind::StageAll => OperationFamily::Stage,
        OperationKind::UnstagePaths => OperationFamily::Unstage,
        OperationKind::UnstageAll => OperationFamily::Unstage,
        OperationKind::Commit => OperationFamily::Commit,
        OperationKind::PushCurrentBranch => OperationFamily::Push,
        OperationKind::PushSetUpstream => OperationFamily::Push,
        OperationKind::PullFastForward => OperationFamily::Pull,
        OperationKind::PullRebase => OperationFamily::Pull,
        OperationKind::Branches => OperationFamily::Branches,
        OperationKind::CheckoutBranch => OperationFamily::Checkout,
        OperationKind::CreateBranch => OperationFamily::CreateBranch,
        OperationKind::MergeFastForward => OperationFamily::Merge,
        OperationKind::Rebase => OperationFamily::Rebase,
        OperationKind::OpenPullRequest => OperationFamily::OpenPullRequest,
    }
}

/// The family that an operation belongs to.
pub fn operation_family(operation: OperationKind) -> (result: OperationFamily)
    ensures
        result == family_of(operation),
{
    match operation {
        OperationKind::RefreshStatus => OperationFamily::RefreshStatus,
        OperationKind::ViewDiff => OperationFamily::ViewDiff,
        OperationKind::Fetch => OperationFamily::Fetch,
        OperationKind::StagePaths => OperationFamily::Stage,
        OperationKind::StageAll => OperationFamily::Stage,
        OperationKind::UnstagePaths => OperationFamily::Unstage,
        OperationKind::UnstageAll => OperationFamily::Unstage,
        OperationKind::Commit => OperationFamily::Commit,
        OperationKind::PushCurrentBranch => OperationFamily::Push,
        OperationKind::PushSetUpstream => OperationFamily::Push,
        OperationKind::PullFastForward => OperationFamily::Pull,
        OperationKind::PullRebase => OperationFamily::Pull,
        OperationKind::Branches => OperationFamily::Branches,
        OperationKind::CheckoutBranch => OperationFamily::Checkout,
        OperationKind::CreateBranch => OperationFamily::CreateBranch,
        OperationKind::MergeFastForward => OperationFamily::Merge,
        OperationKind::Rebase => OperationFamily::Rebase,
        OperationKind::OpenPullRequest => OperationFamily::OpenPullRequest,
    }
}

/// Settings add protected branches and take none away: what a policy without additions protects, every
/// policy protects, and so for each addition.
pub proof fn protection_only_grows(policy: EffectivePolicyView, added: Seq<char>, branch: Seq<char>)
    ensures
        any_meets(built_in_protected_branches(), branch) ==> protects(policy, branch),
        protects(policy, branch) ==> protects(
            EffectivePolicyView {
                additional_protected_branches: policy.additional_protected_branches.push(added),
                ..policy
            },
            branch,
        ),
{
    let more = policy.additional_protected_branches.push(added);
    if any_meets(policy.additional_protected_branches, branch) {
        let i = choose|i: int|
            0 <= i < policy.additional_protected_branches.len() && pattern_meets(
                #[trigger] policy.additional_protected_branches[i],
                branch,
            );
        assert(more[i] == policy.additional_protected_branches[i]);
    }
}

/// Whatever is set, a policy asks for no less than the default for a risk, and blocks what is blocked by
/// default.
pub proof fn confirmation_is_never_weakened(policy: EffectivePolicyView, risk: RiskLevel)
    ensures
        operation::requirement_rank(required(policy, risk)) >= operation::requirement_rank(
            operation::default_requirement(risk),
        ),
        required(policy, RiskLevel::BlockedByDefault) == ConfirmationRequirement::Blocked,
{
}

impl EffectivePolicy {
    /// The policy that settings give.
    pub fn new(config: &AppConfig) -> (result: EffectivePolicy)
        ensures
            result.deep_view() == policy_of(config.deep_view()),
    {
        let mut disabled_operations: Vec<OperationFamily> = Vec::new();
        let mut index: usize = 0;
        while index < config.policy.disabled_operations.len()
            invariant
                index <= config.policy.disabled_operations@.len(),
                disabled_operations@ == config.policy.disabled_operations@.take(index as int),
            decreases config.policy.disabled_operations@.len() - index,
        {
            disabled_operations.push(config.policy.disabled_operations[index]);
            index += 1;
            assert(disabled_operations@ =~= config.policy.disabled_operations@.take(index as int));
        }
        assert(disabled_operations@ =~= config.policy.disabled_operations@);
        EffectivePolicy {
            additional_protected_branches: text::clone_texts(
                &config.policy.additional_protected_branches,
            ),
            confirmation: config.policy.confirmation,
            disabled_operations,
            prompt_enabled: config.prompt.enabled,
        }
    }

    /// Whether a branch is protected.
    pub fn is_protected_branch(&self, branch: &str) -> (result: bool)
        ensures
            result == protects(self.deep_view(), branch@),
    {
        let built_in = words::words4("main", "master", "develop", "release/*");
        any_matches(&built_in, branch) || any_matches(&self.additional_protected_branches, branch)
    }

    /// What a user has to do before a step of a risk.
    pub fn confirmation_requirement(&self, risk_level: RiskLevel) -> (result:
        ConfirmationRequirement)
        ensures
            result == required(self.deep_view(), risk_level),
    {
        let setting = match risk_level {
            RiskLevel::Low => stronger_of(
                self.confirmation.low,
                ConfirmationSetting::NormalSelection,
            ),
            RiskLevel::Medium => stronger_of(
                self.confirmation.medium,
                ConfirmationSetting::VisiblePlan,
            ),
            RiskLevel::High => stronger_of(
                self.confirmation.high,
                ConfirmationSetting::ExplicitConfirmation,
            ),
            RiskLevel::BlockedByDefault => ConfirmationSetting::Blocked,
        };
        confirmation_requirement(setting)
    }

    /// Whether an operation is switched off.
    pub fn is_operation_disabled(&self, operation: OperationKind) -> (result: bool)
        ensures
            result == self.deep_view().disabled_operations.contains(family_of(operation)),
    {
        let family = operation_family(operation);
        let mut index: usize = 0;
        while index < self.disabled_operations.len()
            invariant
                index <= self.disabled_operations@.len(),
                family == family_of(operation),
                forall|i: int| 0 <= i < index ==> self.disabled_operations@[i] != family,
            decreases self.disabled_operations@.len() - index,
        {
            if self.disabled_operations[index] == family {
                assert(self.disabled_operations@[index as int] == family);
                return true;
            }
            index += 1;
        }
        false
    }

    /// Whether prompts are read.
    pub fn prompt_enabled(&self) -> (result: bool)
        ensures
            result == self.deep_view().prompt_enabled,
    {
        self.prompt_enabled
    }
}

impl Default for EffectivePolicy {
    fn default() -> (result: EffectivePolicy)
        ensures
            result.deep_view() == policy_of(config::default_config()),
    {
        EffectivePolicy::new(&AppConfig::default())
    }
}

}
