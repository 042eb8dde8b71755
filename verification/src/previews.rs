//! What a plan shows before it is carried out, and the names under which operations are known.
use crate::operation;
use crate::operation::{
    ConfirmationMetadataView, OperationKind, OperationPlanView, OperationStepView, RiskLevel,
};
use vstd::prelude::*;

verus! {

/// A preview starts with the title, then shows each step with its details in their order, then the reason, and ends with
/// what is asked.
pub proof fn previews_start_with_the_title_and_end_with_the_question(
    plan: OperationPlanView,
    step: OperationStepView,
)
    ensures
        ({
            let lines = operation::preview_lines(plan);
            &&& lines.len() > 0
            &&& lines[0] == plan.title + ":"@
            &&& plan.confirmation.prompt.len() > 0 ==> lines.last() == plan.confirmation.prompt
            &&& plan.confirmation.prompt.len() == 0 && plan.confirmation.reason is Some
                ==> lines.last() == "- "@ + plan.confirmation.reason->Some_0
        }),
        operation::step_lines(plan.steps.push(step)) == operation::step_lines(plan.steps) + seq![
            "- "@ + step.summary,
        ] + operation::listed(step.details),
        operation::listed(step.details).len() == step.details.len(),
        forall|i: int|
            0 <= i < step.details.len() ==> #[trigger] operation::listed(step.details)[i] == "- "@
                + step.details[i],
{
    assert(plan.steps.push(step).drop_last() =~= plan.steps);
    let all = operation::listed(seq![step.summary] + step.details);
    assert(all =~= seq!["- "@ + step.summary] + operation::listed(step.details));
    assert(operation::step_lines(plan.steps) + all =~= operation::step_lines(plan.steps) + seq![
        "- "@ + step.summary,
    ] + operation::listed(step.details));
}

/// What is asked before a plan is carried out goes by its risk.
pub proof fn questions_go_by_the_risk(risk: RiskLevel, prompt: Seq<char>)
    ensures
        operation::confirmation_for(risk, prompt) == (ConfirmationMetadataView {
            risk_level: risk,
            requirement: operation::default_requirement(risk),
            prompt,
            reason: None,
        }),
{
}

/// The names under which operations are shown.
pub proof fn operations_are_shown_by_their_names()
    ensures
        operation::kind_label(OperationKind::RefreshStatus) == "refresh status"@,
        operation::kind_label(OperationKind::ViewDiff) == "view diff"@,
        operation::kind_label(OperationKind::Fetch) == "fetch"@,
        operation::kind_label(OperationKind::StagePaths) == "stage"@,
        operation::kind_label(OperationKind::UnstagePaths) == "unstage"@,
        operation::kind_label(OperationKind::StageAll) == "stage all"@,
        operation::kind_label(OperationKind::UnstageAll) == "unstage all"@,
        operation::kind_label(OperationKind::Commit) == "commit"@,
        operation::kind_label(OperationKind::PushCurrentBranch) == "push"@,
        operation::kind_label(OperationKind::PushSetUpstream) == "push"@,
        operation::kind_label(OperationKind::PullFastForward) == "pull"@,
        operation::kind_label(OperationKind::PullRebase) == "pull rebase"@,
        operation::kind_label(OperationKind::Branches) == "branches"@,
        operation::kind_label(OperationKind::CheckoutBranch) == "checkout"@,
        operation::kind_label(OperationKind::CreateBranch) == "create branch"@,
        operation::kind_label(OperationKind::MergeFastForward) == "merge"@,
        operation::kind_label(OperationKind::Rebase) == "rebase"@,
        operation::kind_label(OperationKind::OpenPullRequest) == "open pull request"@,
{
}

/// A name under which an operation is logged tells it from all others.
pub proof fn operations_are_told_apart_in_the_log(left: OperationKind, right: OperationKind)
    ensures
        operation::kind_audit_name(left) == operation::kind_audit_name(right) <==> left == right,
{
    reveal_strlit("refresh_status");
    reveal_strlit("view_diff");
    reveal_strlit("fetch");
    reveal_strlit("stage_path");
    reveal_strlit("unstage_path");
    reveal_strlit("stage_all");
    reveal_strlit("unstage_all");
    reveal_strlit("commit");
    reveal_strlit("push");
    reveal_strlit("push_set_upstream");
    reveal_strlit("pull");
    reveal_strlit("pull_rebase");
    reveal_strlit("branches");
    reveal_strlit("checkout_branch");
    reveal_strlit("create_branch");
    reveal_strlit("merge_ff_only");
    reveal_strlit("rebase");
    reveal_strlit("open_pull_request");
    assert("refresh_status"@.len() == 14);
    assert("view_diff"@.len() == 9);
    assert("fetch"@.len() == 5);
    assert("stage_path"@.len() == 10);
    assert("unstage_path"@.len() == 12);
    assert("stage_all"@.len() == 9);
    assert("unstage_all"@.len() == 11);
    assert("commit"@.len() == 6);
    assert("push"@.len() == 4);
    assert("push_set_upstream"@.len() == 17);
    assert("pull"@.len() == 4);
    assert("pull_rebase"@.len() == 11);
    assert("branches"@.len() == 8);
    assert("checkout_branch"@.len() == 15);
    assert("create_branch"@.len() == 13);
    assert("merge_ff_only"@.len() == 13);
    assert("rebase"@.len() == 6);
    assert("open_pull_request"@.len() == 17);
    assert("push"@[2] == 's' && "pull"@[2] == 'l');
    assert("push_set_upstream"@[0] == 'p' && "open_pull_request"@[0] == 'o');
    assert("create_branch"@[0] == 'c' && "merge_ff_only"@[0] == 'm');
    assert("stage_all"@[0] == 's' && "view_diff"@[0] == 'v');
    assert("commit"@[0] == 'c' && "rebase"@[0] == 'r');
    assert("unstage_all"@[0] == 'u' && "pull_rebase"@[0] == 'p');
}

}
