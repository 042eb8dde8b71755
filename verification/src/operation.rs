//! What can be asked for, how risky it is, and the plan that is shown before it is carried out.
use crate::text;
use crate::words;
use vstd::prelude::*;

verus! {

/// Something that a user asks for.
#[derive(Debug, PartialEq, Eq)]
pub enum OperationRequest {
    RefreshStatus,
    ViewDiff { path: String },
    Fetch,
    StagePaths { paths: Vec<String> },
    UnstagePaths { paths: Vec<String> },
    StageAll,
    UnstageAll,
    Commit { message: String },
    Push,
    Pull { rebase: bool },
    Branches,
    Checkout { branch: String },
    CreateBranch { branch: String, base: Option<String> },
    Merge { branch: String },
    Rebase { base: String },
    OpenPullRequest { base: Option<String> },
    /// Several requests, one after the other.
    PromptSequence { requests: Vec<OperationRequest> },
}

/// The values of an [`OperationRequest`].
#[verifier::ext_equal]
pub enum OperationRequestView {
    RefreshStatus,
    ViewDiff { path: Seq<char> },
    Fetch,
    StagePaths { paths: Seq<Seq<char>> },
    UnstagePaths { paths: Seq<Seq<char>> },
    StageAll,
    UnstageAll,
    Commit { message: Seq<char> },
    Push,
    Pull { rebase: bool },
    Branches,
    Checkout { branch: Seq<char> },
    CreateBranch { branch: Seq<char>, base: Option<Seq<char>> },
    Merge { branch: Seq<char> },
    Rebase { base: Seq<char> },
    OpenPullRequest { base: Option<Seq<char>> },
    PromptSequence { requests: Seq<OperationRequestView> },
}

/// The values of a request.
pub open spec fn request_view(request: OperationRequest) -> OperationRequestView
    decreases request,
{
    match request {
        OperationRequest::RefreshStatus => OperationRequestView::RefreshStatus,
        OperationRequest::ViewDiff { path } => OperationRequestView::ViewDiff { path: path@ },
        OperationRequest::Fetch => OperationRequestView::Fetch,
        OperationRequest::StagePaths { paths } => OperationRequestView::StagePaths {
            paths: paths.deep_view(),
        },
        OperationRequest::UnstagePaths { paths } => OperationRequestView::UnstagePaths {
            paths: paths.deep_view(),
        },
        OperationRequest::StageAll => OperationRequestView::StageAll,
        OperationRequest::UnstageAll => OperationRequestView::UnstageAll,
        OperationRequest::Commit { message } => OperationRequestView::Commit {
            message: message@,
        },
        OperationRequest::Push => OperationRequestView::Push,
        OperationRequest::Pull { rebase } => OperationRequestView::Pull { rebase },
        OperationRequest::Branches => OperationRequestView::Branches,
        OperationRequest::Checkout { branch } => OperationRequestView::Checkout {
            branch: branch@,
        },
        OperationRequest::CreateBranch { branch, base } => OperationRequestView::CreateBranch {
            branch: branch@,
            base: base.deep_view(),
        },
        OperationRequest::Merge { branch } => OperationRequestView::Merge { branch: branch@ },
        OperationRequest::Rebase { base } => OperationRequestView::Rebase { base: base@ },
        OperationRequest::OpenPullRequest { base } => OperationRequestView::OpenPullRequest {
            base: base.deep_view(),
        },
        OperationRequest::PromptSequence { requests } => OperationRequestView::PromptSequence {
            requests: Seq::new(
                requests@.len(),
                |i: int|
                    if 0 <= i < requests@.len() {
                        request_view(requests@[i])
                    } else {
                        OperationRequestView::Fetch
                    },
            ),
        },
    }
}

impl DeepView for OperationRequest {
    type V = OperationRequestView;

    open spec fn deep_view(&self) -> OperationRequestView {
        request_view(*self)
    }
}

impl Clone for OperationRequest {
    fn clone(&self) -> (result: OperationRequest)
        ensures
            result.deep_view() == self.deep_view(),
        decreases self,
    {
        match self {
            OperationRequest::RefreshStatus => OperationRequest::RefreshStatus,
            OperationRequest::ViewDiff { path } => OperationRequest::ViewDiff {
                path: path.as_str().to_owned(),
            },
            OperationRequest::Fetch => OperationRequest::Fetch,
            OperationRequest::StagePaths { paths } => OperationRequest::StagePaths {
                paths: text::clone_texts(paths),
            },
            OperationRequest::UnstagePaths { paths } => OperationRequest::UnstagePaths {
                paths: text::clone_texts(paths),
            },
            OperationRequest::StageAll => OperationRequest::StageAll,
            OperationRequest::UnstageAll => OperationRequest::UnstageAll,
            OperationRequest::Commit { message } => OperationRequest::Commit {
                message: message.as_str().to_owned(),
            },
            OperationRequest::Push => OperationRequest::Push,
            OperationRequest::Pull { rebase } => OperationRequest::Pull { rebase: *rebase },
            OperationRequest::Branches => OperationRequest::Branches,
            OperationRequest::Checkout { branch } => OperationRequest::Checkout {
                branch: branch.as_str().to_owned(),
            },
            OperationRequest::CreateBranch { branch, base } => OperationRequest::CreateBranch {
                branch: branch.as_str().to_owned(),
                base: text::clone_optional(base),
            },
            OperationRequest::Merge { branch } => OperationRequest::Merge {
                branch: branch.as_str().to_owned(),
            },
            OperationRequest::Rebase { base } => OperationRequest::Rebase {
                base: base.as_str().to_owned(),
            },
            OperationRequest::OpenPullRequest { base } => OperationRequest::OpenPullRequest {
                base: text::clone_optional(base),
            },
            OperationRequest::PromptSequence { requests } => {
                let mut copies: Vec<OperationRequest> = Vec::new();
                let mut index: usize = 0;
                while index < requests.len()
                    invariant
                        index <= requests@.len(),
                        *self == (OperationRequest::PromptSequence { requests: *requests }),
                        copies@.len() == index,
                        forall|i: int|
                            0 <= i < index ==> request_view(#[trigger] copies@[i]) == request_view(
                                requests@[i],
                            ),
                    decreases requests@.len() - index,
                {
                    assert(decreases_to!(*self => self->requests));
                    assert(decreases_to!(*requests => requests@));
                    assert(decreases_to!(requests@ => requests@[index as int]));
                    copies.push(requests[index].clone());
                    index += 1;
                }
                let result = OperationRequest::PromptSequence { requests: copies };
                assert(result.deep_view()->requests =~= self.deep_view()->requests);
                result
            },
        }
    }
}

/// The kinds of steps that a plan is made of.
#[derive(Debug, Clone, Copy, PartialEq, Eq, Structural)]
pub enum OperationKind {
    RefreshStatus,
    ViewDiff,
    Fetch,
    StagePaths,
    UnstagePaths,
    StageAll,
    UnstageAll,
    Commit,
    PushCurrentBranch,
    PushSetUpstream,
    PullFastForward,
    PullRebase,
    Branches,
    CheckoutBranch,
    CreateBranch,
    MergeFastForward,
    Rebase,
    OpenPullRequest,
}

/// What a user is told that a step does.
pub open spec fn kind_label(kind: OperationKind) -> Seq<char> {
    match kind {
        OperationKind::RefreshStatus => "refresh status"@,
        OperationKind::ViewDiff => "view diff"@,
        OperationKind::Fetch => "fetch"@,
        OperationKind::StagePaths => "stage"@,
        OperationKind::UnstagePaths => "unstage"@,
        OperationKind::StageAll => "stage all"@,
        OperationKind::UnstageAll => "unstage all"@,
        OperationKind::Commit => "commit"@,
        OperationKind::PushCurrentBranch => "push"@,
        OperationKind::PushSetUpstream => "push"@,
        OperationKind::PullFastForward => "pull"@,
        OperationKind::PullRebase => "pull rebase"@,
        OperationKind::Branches => "branches"@,
        OperationKind::CheckoutBranch => "checkout"@,
        OperationKind::CreateBranch => "create branch"@,
        OperationKind::MergeFastForward => "merge"@,
        OperationKind::Rebase => "rebase"@,
        OperationKind::OpenPullRequest => "open pull request"@,
    }
}

/// What a step is called in the audit log.
pub open spec fn kind_audit_name(kind: OperationKind) -> Seq<char> {
    match kind {
        OperationKind::RefreshStatus => "refresh_status"@,
        OperationKind::ViewDiff => "view_diff"@,
        OperationKind::Fetch => "fetch"@,
        OperationKind::StagePaths => "stage_path"@,
        OperationKind::UnstagePaths => "unstage_path"@,
        OperationKind::StageAll => "stage_all"@,
        OperationKind::UnstageAll => "unstage_all"@,
        OperationKind::Commit => "commit"@,
        OperationKind::PushCurrentBranch => "push"@,
        OperationKind::PushSetUpstream => "push_set_upstream"@,
        OperationKind::PullFastForward => "pull"@,
        OperationKind::PullRebase => "pull_rebase"@,
        OperationKind::Branches => "branches"@,
        OperationKind::CheckoutBranch => "checkout_branch"@,
        OperationKind::CreateBranch => "create_branch"@,
        OperationKind::MergeFastForward => "merge_ff_only"@,
        OperationKind::Rebase => "rebase"@,
        OperationKind::OpenPullRequest => "open_pull_request"@,
    }
}

impl OperationKind {
    /// What a user is told that this step does.
    pub fn action_label(self) -> (result: &'static str)
        ensures
            result@ == kind_label(self),
    {
        match self {
            OperationKind::RefreshStatus => "refresh status",
            OperationKind::ViewDiff => "view diff",
            OperationKind::Fetch => "fetch",
            OperationKind::StagePaths => "stage",
            OperationKind::UnstagePaths => "unstage",
            OperationKind::StageAll => "stage all",
            OperationKind::UnstageAll => "unstage all",
            OperationKind::Commit => "commit",
            OperationKind::PushCurrentBranch => "push",
            OperationKind::PushSetUpstream => "push",
            OperationKind::PullFastForward => "pull",
            OperationKind::PullRebase => "pull rebase",
            OperationKind::Branches => "branches",
            OperationKind::CheckoutBranch => "checkout",
            OperationKind::CreateBranch => "create branch",
            OperationKind::MergeFastForward => "merge",
            OperationKind::Rebase => "rebase",
            OperationKind::OpenPullRequest => "open pull request",
        }
    }

    /// What this step is called in the audit log.
    pub fn audit_operation(self) -> (result: &'static str)
        ensures
            result@ == kind_audit_name(self),
    {
        match self {
            OperationKind::RefreshStatus => "refresh_status",
            OperationKind::ViewDiff => "view_diff",
            OperationKind::Fetch => "fetch",
            OperationKind::StagePaths => "stage_path",
            OperationKind::UnstagePaths => "unstage_path",
            OperationKind::StageAll => "stage_all",
            OperationKind::UnstageAll => "unstage_all",
            OperationKind::Commit => "commit",
            OperationKind::PushCurrentBranch => "push",
            OperationKind::PushSetUpstream => "push_set_upstream",
            OperationKind::PullFastForward => "pull",
            OperationKind::PullRebase => "pull_rebase",
            OperationKind::Branches => "branches",
            OperationKind::CheckoutBranch => "checkout_branch",
            OperationKind::CreateBranch => "create_branch",
            OperationKind::MergeFastForward => "merge_ff_only",
            OperationKind::Rebase => "rebase",
            OperationKind::OpenPullRequest => "open_pull_request",
        }
    }
}

/// How much a step can do harm.
#[derive(Debug, Clone, Copy, PartialEq, Eq, PartialOrd, Ord, Structural)]
pub enum RiskLevel {
    Low,
    Medium,
    High,
    BlockedByDefault,
}

impl DeepView for RiskLevel {
    type V = RiskLevel;

    open spec fn deep_view(&self) -> RiskLevel {
        *self
    }
}

/// The place of a risk among the others, the lowest first.
pub open spec fn risk_rank(risk: RiskLevel) -> nat {
    match risk {
        RiskLevel::Low => 0,
        RiskLevel::Medium => 1,
        RiskLevel::High => 2,
        RiskLevel::BlockedByDefault => 3,
    }
}

/// What a user has to do before a step is carried out.
#[derive(Debug, Clone, Copy, PartialEq, Eq, PartialOrd, Ord, Structural)]
pub enum ConfirmationRequirement {
    NormalSelection,
    VisiblePlan,
    ExplicitConfirmation,
    Blocked,
}

impl DeepView for ConfirmationRequirement {
    type V = ConfirmationRequirement;

    open spec fn deep_view(&self) -> ConfirmationRequirement {
        *self
    }
}

/// The place of a requirement among the others, the weakest first.
pub open spec fn requirement_rank(requirement: ConfirmationRequirement) -> nat {
    match requirement {
        ConfirmationRequirement::NormalSelection => 0,
        ConfirmationRequirement::VisiblePlan => 1,
        ConfirmationRequirement::ExplicitConfirmation => 2,
        ConfirmationRequirement::Blocked => 3,
    }
}

/// What a user has to do before a step of a risk, unless settings ask for more.
pub open spec fn default_requirement(risk: RiskLevel) -> ConfirmationRequirement {
    match risk {
        RiskLevel::Low => ConfirmationRequirement::NormalSelection,
        RiskLevel::Medium => ConfirmationRequirement::VisiblePlan,
        RiskLevel::High => ConfirmationRequirement::ExplicitConfirmation,
        RiskLevel::BlockedByDefault => ConfirmationRequirement::Blocked,
    }
}

impl RiskLevel {
    /// What a user has to do before a step of this risk, unless settings ask for more.
    pub fn confirmation_requirement(self) -> (result: ConfirmationRequirement)
        ensures
            result == default_requirement(self),
    {
        match self {
            RiskLevel::Low => ConfirmationRequirement::NormalSelection,
            RiskLevel::Medium => ConfirmationRequirement::VisiblePlan,
            RiskLevel::High => ConfirmationRequirement::ExplicitConfirmation,
            RiskLevel::BlockedByDefault => ConfirmationRequirement::Blocked,
        }
    }

    /// Whether this risk is lower than another.
    pub fn is_below(self, other: RiskLevel) -> (result: bool)
        ensures
            result == (risk_rank(self) < risk_rank(other)),
    {
        match (self, other) {
            (RiskLevel::Low, RiskLevel::Low) => false,
            (RiskLevel::Low, _) => true,
            (RiskLevel::Medium, RiskLevel::High) => true,
            (RiskLevel::Medium, RiskLevel::BlockedByDefault) => true,
            (RiskLevel::High, RiskLevel::BlockedByDefault) => true,
            _ => false,
        }
    }
}

/// A higher risk never asks for less.
pub proof fn requirement_grows_with_risk(low: RiskLevel, high: RiskLevel)
    requires
        risk_rank(low) <= risk_rank(high),
    ensures
        requirement_rank(default_requirement(low)) <= requirement_rank(default_requirement(high)),
{
}

/// What a user is asked before a plan is carried out.
#[derive(Debug, Clone, PartialEq, Eq)]
pub struct ConfirmationMetadata {
    pub risk_level: RiskLevel,
    pub requirement: ConfirmationRequirement,
    pub prompt: String,
    pub reason: Option<String>,
}

/// The values of a [`ConfirmationMetadata`].
#[verifier::ext_equal]
pub struct ConfirmationMetadataView {
    pub risk_level: RiskLevel,
    pub requirement: ConfirmationRequirement,
    pub prompt: Seq<char>,
    pub reason: Option<Seq<char>>,
}

impl DeepView for ConfirmationMetadata {
    type V = ConfirmationMetadataView;

    open spec fn deep_view(&self) -> ConfirmationMetadataView {
        ConfirmationMetadataView {
            risk_level: self.risk_level,
            requirement: self.requirement,
            prompt: self.prompt@,
            reason: self.reason.deep_view(),
        }
    }
}

/// What a user is asked before something of a risk.
pub open spec fn confirmation_for(risk: RiskLevel, prompt: Seq<char>) -> ConfirmationMetadataView {
    ConfirmationMetadataView {
        risk_level: risk,
        requirement: default_requirement(risk),
        prompt,
        reason: None,
    }
}

impl ConfirmationMetadata {
    /// What a user is asked before something of a risk.
    pub fn for_risk(risk_level: RiskLevel, prompt: &str) -> (result: ConfirmationMetadata)
        ensures
            result.deep_view() == confirmation_for(risk_level, prompt@),
    {
        ConfirmationMetadata {
            risk_level,
            requirement: risk_level.confirmation_requirement(),
            prompt: prompt.to_owned(),
            reason: None,
        }
    }

    /// The same with a reason.
    pub fn with_reason(self, reason: &str) -> (result: ConfirmationMetadata)
        ensures
            result.deep_view() == (ConfirmationMetadataView {
                reason: Some(reason@),
                ..self.deep_view()
            }),
    {
        ConfirmationMetadata { reason: Some(reason.to_owned()), ..self }
    }
}

/// A step of a plan.
#[derive(Debug, Clone, PartialEq, Eq)]
pub struct OperationStep {
    pub kind: OperationKind,
    pub risk_level: RiskLevel,
    pub summary: String,
    pub details: Vec<String>,
    pub continue_on_failure: bool,
}

/// The values of an [`OperationStep`].
#[verifier::ext_equal]
pub struct OperationStepView {
    pub kind: OperationKind,
    pub risk_level: RiskLevel,
    pub summary: Seq<char>,
    pub details: Seq<Seq<char>>,
    pub continue_on_failure: bool,
}

impl DeepView for OperationStep {
    type V = OperationStepView;

    open spec fn deep_view(&self) -> OperationStepView {
        OperationStepView {
            kind: self.kind,
            risk_level: self.risk_level,
            summary: self.summary@,
            details: self.details.deep_view(),
            continue_on_failure: self.continue_on_failure,
        }
    }
}

impl OperationStep {
    /// A step without details, after whose failure nothing goes on.
    pub fn new(kind: OperationKind, risk_level: RiskLevel, summary: &str) -> (result: OperationStep)
        ensures
            result.deep_view() == (OperationStepView {
                kind,
                risk_level,
                summary: summary@,
                details: Seq::empty(),
                continue_on_failure: false,
            }),
    {
        let details: Vec<String> = Vec::new();
        assert(details.deep_view() =~= Seq::<Seq<char>>::empty());
        OperationStep {
            kind,
            risk_level,
            summary: summary.to_owned(),
            details,
            continue_on_failure: false,
        }
    }

    /// The same step with one more detail.
    pub fn with_detail(self, detail: &str) -> (result: OperationStep)
        ensures
            result.deep_view() == (OperationStepView {
                details: self.deep_view().details.push(detail@),
                ..self.deep_view()
            }),
    {
        let mut details = self.details;
        words::push_word(&mut details, detail);
        OperationStep { details, ..self }
    }

    /// The same step, after whose failure the steps behind it are carried out all the same.
    pub fn allow_safe_continuation_after_failure(self) -> (result: OperationStep)
        ensures
            result.deep_view() == (OperationStepView {
                continue_on_failure: true,
                ..self.deep_view()
            }),
    {
        OperationStep { continue_on_failure: true, ..self }
    }
}

/// The highest risk of some steps; without steps it is low.
pub open spec fn highest_risk(steps: Seq<OperationStepView>) -> RiskLevel
    decreases steps.len(),
{
    if steps.len() == 0 {
        RiskLevel::Low
    } else {
        let before = highest_risk(steps.drop_last());
        let last = steps.last().risk_level;
        if risk_rank(before) < risk_rank(last) {
            last
        } else {
            before
        }
    }
}

/// No step of a plan is riskier than the plan, and where a plan is not of low risk, one of its steps is
/// as risky.
pub proof fn plan_risk_is_the_highest(steps: Seq<OperationStepView>)
    ensures
        forall|i: int|
            0 <= i < steps.len() ==> risk_rank(#[trigger] steps[i].risk_level) <= risk_rank(
                highest_risk(steps),
            ),
        highest_risk(steps) != RiskLevel::Low ==> exists|i: int|
            0 <= i < steps.len() && #[trigger] steps[i].risk_level == highest_risk(steps),
    decreases steps.len(),
{
    if steps.len() > 0 {
        let before = steps.drop_last();
        plan_risk_is_the_highest(before);
        assert forall|i: int| 0 <= i < steps.len() implies risk_rank(
            #[trigger] steps[i].risk_level,
        ) <= risk_rank(highest_risk(steps)) by {
            if i < before.len() {
                assert(before[i] == steps[i]);
            }
        }
        if highest_risk(steps) != RiskLevel::Low {
            if risk_rank(highest_risk(before)) < risk_rank(steps.last().risk_level) {
                assert(steps[steps.len() - 1].risk_level == highest_risk(steps));
            } else {
                let i = choose|i: int|
                    0 <= i < before.len() && #[trigger] before[i].risk_level == highest_risk(
                        before,
                    );
                assert(steps[i].risk_level == highest_risk(steps));
            }
        }
    }
}

/// What is going to be done, in steps.
#[derive(Debug, Clone, PartialEq, Eq)]
pub struct OperationPlan {
    pub request: OperationRequest,
    pub title: String,
    pub steps: Vec<OperationStep>,
    pub confirmation: ConfirmationMetadata,
}

/// The values of an [`OperationPlan`].
#[verifier::ext_equal]
pub struct OperationPlanView {
    pub request: OperationRequestView,
    pub title: Seq<char>,
    pub steps: Seq<OperationStepView>,
    pub confirmation: ConfirmationMetadataView,
}

impl DeepView for OperationPlan {
    type V = OperationPlanView;

    open spec fn deep_view(&self) -> OperationPlanView {
        OperationPlanView {
            request: self.request.deep_view(),
            title: self.title@,
            steps: self.steps.deep_view(),
            confirmation: self.confirmation.deep_view(),
        }
    }
}

/// Each of some lines as an item of a list.
pub open spec fn listed(lines: Seq<Seq<char>>) -> Seq<Seq<char>> {
    Seq::new(lines.len(), |i: int| "- "@ + lines[i])
}

/// The lines that are shown of some steps.
pub open spec fn step_lines(steps: Seq<OperationStepView>) -> Seq<Seq<char>>
    decreases steps.len(),
{
    if steps.len() == 0 {
        Seq::empty()
    } else {
        step_lines(steps.drop_last()) + listed(seq![steps.last().summary] + steps.last().details)
    }
}

/// The lines that are shown of a plan.
pub open spec fn preview_lines(plan: OperationPlanView) -> Seq<Seq<char>> {
    seq![plan.title + ":"@] + step_lines(plan.steps) + (match plan.confirmation.reason {
        Some(reason) => listed(seq![reason]),
        None => Seq::empty(),
    }) + (if plan.confirmation.prompt.len() > 0 {
        seq![plan.confirmation.prompt]
    } else {
        Seq::empty()
    })
}

/// Adds the lines that are shown of a step.
fn push_step(lines: &mut Vec<String>, step: &OperationStep)
    ensures
        final(lines).deep_view() == old(lines).deep_view() + listed(
            seq![step.deep_view().summary] + step.deep_view().details,
        ),
{
    let ghost start = lines.deep_view();
    let ghost shown = listed(seq![step.deep_view().summary] + step.deep_view().details);
    let line = text::concat2("- ", step.summary.as_str());
    words::push_word(lines, line.as_str());
    assert(lines.deep_view() =~= start + shown.take(1));
    let mut index: usize = 0;
    while index < step.details.len()
        invariant
            index <= step.details@.len(),
            shown == listed(seq![step.deep_view().summary] + step.deep_view().details),
            lines.deep_view() == start + shown.take(index + 1),
        decreases step.details@.len() - index,
    {
        let line = text::concat2("- ", step.details[index].as_str());
        words::push_word(lines, line.as_str());
        index += 1;
        assert(lines.deep_view() =~= start + shown.take(index + 1));
    }
    assert(shown.take(index + 1) =~= shown);
}

impl OperationPlan {
    /// A plan; its risk is the highest of its steps.
    pub fn new(
        request: OperationRequest,
        title: &str,
        steps: Vec<OperationStep>,
        confirmation_prompt: &str,
    ) -> (result: OperationPlan)
        ensures
            result.deep_view() == (OperationPlanView {
                request: request.deep_view(),
                title: title@,
                steps: steps.deep_view(),
                confirmation: confirmation_for(
                    highest_risk(steps.deep_view()),
                    confirmation_prompt@,
                ),
            }),
    {
        let ghost all = steps.deep_view();
        let mut risk_level = RiskLevel::Low;
        let mut index: usize = 0;
        while index < steps.len()
            invariant
                index <= steps@.len(),
                all == steps.deep_view(),
                risk_level == highest_risk(all.take(index as int)),
            decreases steps@.len() - index,
        {
            assert(all.take(index + 1).drop_last() =~= all.take(index as int));
            if risk_level.is_below(steps[index].risk_level) {
                risk_level = steps[index].risk_level;
            }
            index += 1;
        }
        assert(all.take(index as int) =~= all);
        OperationPlan {
            request,
            title: title.to_owned(),
            steps,
            confirmation: ConfirmationMetadata::for_risk(risk_level, confirmation_prompt),
        }
    }

    /// What is shown of this plan.
    pub fn preview_text(&self) -> (result: String)
        ensures
            result@ == text::joined(preview_lines(self.deep_view()), "\n"@),
    {
        let ghost all = self.steps.deep_view();
        let mut lines: Vec<String> = Vec::new();
        let title = text::concat2(self.title.as_str(), ":");
        words::push_word(&mut lines, title.as_str());
        let ghost start = seq![self.title@ + ":"@];
        assert(lines.deep_view() =~= start + step_lines(all.take(0)));
        let mut index: usize = 0;
        while index < self.steps.len()
            invariant
                index <= self.steps@.len(),
                all == self.steps.deep_view(),
                lines.deep_view() == start + step_lines(all.take(index as int)),
            decreases self.steps@.len() - index,
        {
            let step = &self.steps[index];
            let ghost longer = all.take(index + 1);
            assert(longer.drop_last() =~= all.take(index as int));
            assert(longer.last() == step.deep_view());
            push_step(&mut lines, step);
            index += 1;
            assert(lines.deep_view() =~= start + step_lines(longer));
        }
        assert(all.take(index as int) =~= all);
        let ghost plan = self.deep_view();
        match &self.confirmation.reason {
            Some(reason) => {
                let line = text::concat2("- ", reason.as_str());
                words::push_word(&mut lines, line.as_str());
            },
            None => {},
        }
        let ghost reasons = match plan.confirmation.reason {
            Some(reason) => listed(seq![reason]),
            None => Seq::empty(),
        };
        assert(lines.deep_view() =~= start + step_lines(all) + reasons);
        assert(plan.confirmation.prompt.len() == 0 ==> plan.confirmation.prompt
            =~= Seq::<char>::empty());
        proof {
            reveal_strlit("");
            assert(""@ =~= Seq::<char>::empty());
        }
        if !text::same_text(self.confirmation.prompt.as_str(), "") {
            words::push_word(&mut lines, self.confirmation.prompt.as_str());
        }
        assert(lines.deep_view() =~= preview_lines(plan));
        text::join(&lines, "\n")
    }

    /// The first step, where there is one.
    pub fn first_step(&self) -> (result: Option<&OperationStep>)
        ensures
            (match result {
                Some(step) => Some(*step),
                None => None,
            }) == (if self.steps@.len() > 0 {
                Some(self.steps@[0])
            } else {
                None
            }),
    {
        if self.steps.len() > 0 {
            Some(&self.steps[0])
        } else {
            None
        }
    }
}

/// Every step is shown among some steps, with all of its details.
proof fn lemma_steps_are_shown(steps: Seq<OperationStepView>, place: int)
    requires
        0 <= place < steps.len(),
    ensures
        step_lines(steps).contains("- "@ + steps[place].summary),
        forall|i: int|
            0 <= i < steps[place].details.len() ==> step_lines(steps).contains(
                "- "@ + #[trigger] steps[place].details[i],
            ),
    decreases steps.len(),
{
    let before = step_lines(steps.drop_last());
    let last = steps.last();
    let shown = listed(seq![last.summary] + last.details);
    let all = step_lines(steps);
    assert(all == before + shown);
    if place == steps.len() - 1 {
        assert(all[before.len() as int] == "- "@ + last.summary);
        assert forall|i: int| 0 <= i < last.details.len() implies all.contains(
            "- "@ + #[trigger] last.details[i],
        ) by {
            assert(all[before.len() + 1 + i] == "- "@ + last.details[i]);
        }
    } else {
        lemma_steps_are_shown(steps.drop_last(), place);
        assert(steps.drop_last()[place] == steps[place]);
        lemma_held_by_longer(before, shown, "- "@ + steps[place].summary);
        assert forall|i: int| 0 <= i < steps[place].details.len() implies all.contains(
            "- "@ + #[trigger] steps[place].details[i],
        ) by {
            lemma_held_by_longer(before, shown, "- "@ + steps[place].details[i]);
        }
    }
}

/// What a list holds, a longer one holds too.
proof fn lemma_held_by_longer(first: Seq<Seq<char>>, second: Seq<Seq<char>>, line: Seq<char>)
    requires
        first.contains(line),
    ensures
        (first + second).contains(line),
{
    let i = choose|i: int| 0 <= i < first.len() && first[i] == line;
    assert((first + second)[i] == line);
}

/// A preview leaves nothing out: every step of a plan has a line of its own, every detail of it too, and so
/// has the reason that a confirmation is asked for.
pub proof fn preview_shows_every_step(plan: OperationPlanView, place: int)
    requires
        0 <= place < plan.steps.len(),
    ensures
        preview_lines(plan).contains("- "@ + plan.steps[place].summary),
        forall|i: int|
            0 <= i < plan.steps[place].details.len() ==> preview_lines(plan).contains(
                "- "@ + #[trigger] plan.steps[place].details[i],
            ),
        plan.confirmation.reason is Some ==> preview_lines(plan).contains(
            "- "@ + plan.confirmation.reason->Some_0,
        ),
{
    let title = seq![plan.title + ":"@];
    let steps = step_lines(plan.steps);
    let reason = match plan.confirmation.reason {
        Some(reason) => listed(seq![reason]),
        None => Seq::empty(),
    };
    let prompt = if plan.confirmation.prompt.len() > 0 {
        seq![plan.confirmation.prompt]
    } else {
        Seq::empty()
    };
    let lines = preview_lines(plan);
    assert(lines == title + steps + reason + prompt);
    lemma_steps_are_shown(plan.steps, place);
    assert forall|line: Seq<char>| #[trigger] steps.contains(line) implies lines.contains(line) by {
        let i = choose|i: int| 0 <= i < steps.len() && steps[i] == line;
        assert(lines[1 + i] == line);
    }
    assert forall|i: int| 0 <= i < plan.steps[place].details.len() implies lines.contains(
        "- "@ + #[trigger] plan.steps[place].details[i],
    ) by {
        assert(steps.contains("- "@ + plan.steps[place].details[i]));
    }
    if plan.confirmation.reason is Some {
        assert(lines[steps.len() + 1int] == reason[0]);
    }
}

}
