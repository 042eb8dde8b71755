//! What the guarded operations promise: a command that changes something is asked for only after the
//! guards before it held.
use crate::git::branches;
use crate::git::commands;
use crate::git::commands::GitStep;
use crate::git::remotes;
use crate::git::inspect;
use crate::git::inspect::Pick;
use crate::git::commits;
use crate::git::refs;
use crate::git::types::{BranchKind, BranchTargetView, HeadTargetView, StatusEntryView};
use crate::session::{ActionView, HaltView, ReplyView};
use vstd::prelude::*;

verus! {

/// Whether a Git command only reports something, or writes an object that nothing refers to yet.
pub open spec fn is_query(args: Seq<Seq<char>>) -> bool {
    args.len() > 0 && {
        ||| args[0] == "rev-parse"@
        ||| args[0] == "status"@
        ||| args[0] == "for-each-ref"@
        ||| args[0] == "merge-base"@
        ||| args[0] == "check-ref-format"@
        ||| args[0] == "rev-list"@
        ||| args[0] == "ls-remote"@
        ||| args[0] == "write-tree"@
        ||| args[0] == "remote"@ && args.len() == 2 && args[1] == "-v"@
        ||| args[0] == "symbolic-ref"@ && args.len() == 3 && args[1] == "--quiet"@
        ||| args[0] == "config"@ && args.len() == 3 && args[1] == "--get"@
        ||| args[0] == "config"@ && args.len() == 4 && args[2] == "--get"@
    }
}

/// Whether an action leaves the repository, its remotes and all files as they are.
pub open spec fn looks(action: ActionView) -> bool {
    match action {
        ActionView::Run { args } => is_query(args),
        ActionView::RunRaw { args } => is_query(args),
        ActionView::RunBounded { args: _, optional_locks, policy: _ } => optional_locks,
        ActionView::Enter { .. } => true,
        ActionView::StartDeadline { .. } => true,
        ActionView::CheckDeadline => true,
        ActionView::Exists { .. } => true,
        ActionView::Metadata { .. } => true,
        ActionView::LinkMetadata { .. } => true,
        ActionView::ReadLink { .. } => true,
        ActionView::Open { .. } => true,
        ActionView::Read { .. } => true,
        ActionView::HandleMetadata { .. } => true,
        ActionView::OpenDirectory { .. } => true,
        ActionView::NextChild { .. } => true,
        ActionView::Canonicalize { .. } => true,
        ActionView::IsDirectory { .. } => true,
        ActionView::Environment { .. } => true,
        _ => false,
    }
}

/// Whether a part of an operation, where it waits, waits for an action that changes nothing.
pub open spec fn only_looks<T>(step: GitStep<T>) -> bool {
    match step.result {
        Err(HaltView::Pending(action)) => looks(action),
        _ => true,
    }
}

/// A report that is asked for changes nothing.
proof fn lemma_run(replies: Seq<ReplyView>, at: nat, args: Seq<Seq<char>>)
    requires
        is_query(args),
    ensures
        only_looks(commands::run_step(replies, at, args)),
        only_looks(commands::run_raw_step(replies, at, args)),
        only_looks(commands::tolerated(commands::run_step(replies, at, args))),
{
}

/// Finding a file of the repository's own changes nothing.
proof fn lemma_git_path(replies: Seq<ReplyView>, at: nat, cwd: Seq<u8>, path: Seq<char>)
    ensures
        only_looks(inspect::git_path_step(replies, at, cwd, path)),
{
    lemma_run(replies, at, seq!["rev-parse"@, "--git-path"@, path]);
}

/// Looking for an operation that is in progress changes nothing.
proof fn lemma_repository_operation(replies: Seq<ReplyView>, at: nat, cwd: Seq<u8>)
    ensures
        only_looks(inspect::repository_operation_step(replies, at, cwd)),
{
    lemma_git_path(replies, at, cwd, "rebase-apply"@);
    let apply = inspect::git_path_step(replies, at, cwd, "rebase-apply"@);
    lemma_git_path(replies, apply.next, cwd, "rebase-merge"@);
    assert forall|n: nat| #[trigger]
        only_looks(inspect::merge_operation_step(replies, n, cwd)) by {
        lemma_git_path(replies, n, cwd, "MERGE_HEAD"@);
    }
}

/// Reading the status changes nothing.
proof fn lemma_status(replies: Seq<ReplyView>, at: nat, cwd: Seq<u8>)
    ensures
        only_looks(inspect::status_step(replies, at, cwd)),
        only_looks(inspect::branch_state_step(replies, at, cwd)),
{
    let args = seq!["status"@, "--porcelain=v2"@, "--branch"@, "-z"@];
    lemma_run(replies, at, args);
    let report = commands::run_raw_step(replies, at, args);
    lemma_repository_operation(replies, report.next, cwd);
}

/// Looking for an operation in progress changes nothing.
proof fn lemma_in_progress(replies: Seq<ReplyView>, at: nat, cwd: Seq<u8>)
    ensures
        only_looks(inspect::in_progress_operation_step(replies, at, cwd)),
{
    lemma_repository_operation(replies, at, cwd);
    assert forall|n: nat, operation: Seq<char>, marker: Seq<char>| #[trigger]
        only_looks(
            inspect::in_progress_marker_step(replies, n, cwd, operation, marker),
        ) by {
        lemma_git_path(replies, n, cwd, marker);
    }
    let operation = inspect::repository_operation_step(replies, at, cwd);
    let mail = inspect::in_progress_marker_step(
        replies,
        operation.next,
        cwd,
        "am"@,
        "rebase-apply/applying"@,
    );
    let pick = inspect::in_progress_marker_step(
        replies,
        mail.next,
        cwd,
        "cherry-pick"@,
        "CHERRY_PICK_HEAD"@,
    );
    let revert = inspect::in_progress_marker_step(
        replies,
        pick.next,
        cwd,
        "revert"@,
        "REVERT_HEAD"@,
    );
    assert(only_looks(mail) && only_looks(pick) && only_looks(revert));
}

/// The guard for a clean working tree changes nothing.
proof fn lemma_clean(replies: Seq<ReplyView>, at: nat, cwd: Seq<u8>, operation: Seq<char>)
    ensures
        only_looks(inspect::ensure_clean_worktree_step(replies, at, cwd, operation)),
{
    lemma_in_progress(replies, at, cwd);
    let other = inspect::in_progress_operation_step(replies, at, cwd);
    lemma_status(replies, other.next, cwd);
}

/// Reading where `HEAD` stands changes nothing.
proof fn lemma_head_target(replies: Seq<ReplyView>, at: nat, cwd: Seq<u8>)
    ensures
        only_looks(inspect::head_target_step(replies, at, cwd)),
{
    lemma_status(replies, at, cwd);
    let state = inspect::branch_state_step(replies, at, cwd);
    lemma_run(replies, state.next, seq!["rev-parse"@, "--verify"@, "HEAD"@]);
    let oid = inspect::head_commit_step(replies, at, cwd);
    assert(only_looks(oid));
    lemma_run(replies, oid.next, seq!["symbolic-ref"@, "--quiet"@, "HEAD"@]);
    assert(only_looks(inspect::symbolic_head_step(replies, oid.next)));
}

/// The guard for `HEAD` changes nothing.
proof fn lemma_head_unchanged(
    replies: Seq<ReplyView>,
    at: nat,
    cwd: Seq<u8>,
    expected: HeadTargetView,
    operation: Seq<char>,
)
    ensures
        only_looks(
            inspect::ensure_head_target_unchanged_step(replies, at, cwd, expected, operation),
        ),
{
    lemma_head_target(replies, at, cwd);
}

/// Reading the branches changes nothing.
proof fn lemma_branch_target(replies: Seq<ReplyView>, at: nat, name: Seq<char>)
    ensures
        only_looks(inspect::branch_target_step(replies, at, name)),
{
    assert(only_looks(inspect::branches_step(replies, at)));
}

/// The guard for a branch changes nothing.
pub(crate) proof fn lemma_branch_unchanged(
    replies: Seq<ReplyView>,
    at: nat,
    expected: BranchTargetView,
    operation: Seq<char>,
)
    ensures
        only_looks(
            inspect::ensure_branch_target_unchanged_step(replies, at, expected, operation),
        ),
{
    lemma_branch_target(replies, at, expected.name);
}

/// The guard for a free local name changes nothing.
proof fn lemma_name_is_free(replies: Seq<ReplyView>, at: nat, branch: BranchTargetView)
    ensures
        only_looks(branches::ensure_remote_checkout_target_available_step(replies, at, branch)),
{
    assert forall|name: Seq<char>| #[trigger]
        only_looks(inspect::branch_target_step(replies, at, name)) by {
        lemma_branch_target(replies, at, name);
    }
}

/// The guard for the order of two commits changes nothing.
proof fn lemma_ancestor(
    replies: Seq<ReplyView>,
    at: nat,
    ancestor: Seq<char>,
    descendant: Seq<char>,
    message: Seq<char>,
)
    ensures
        only_looks(
            branches::ensure_ancestor_step(replies, at, ancestor, descendant, message),
        ),
{
    lemma_run(replies, at, seq!["merge-base"@, "--is-ancestor"@, ancestor, descendant]);
}

/// Whether the working tree is clean, with no operation in progress, and `HEAD` and a branch stand where
/// they are expected.
pub open spec fn plan_still_holds(
    replies: Seq<ReplyView>,
    at: nat,
    cwd: Seq<u8>,
    branch: BranchTargetView,
    expected: HeadTargetView,
    operation: Seq<char>,
) -> bool {
    let clean = inspect::ensure_clean_worktree_step(replies, at, cwd, operation);
    let head = inspect::ensure_head_target_unchanged_step(
        replies,
        clean.next,
        cwd,
        expected,
        operation,
    );
    let target = inspect::ensure_branch_target_unchanged_step(
        replies,
        head.next,
        branch,
        operation,
    );
    clean.result is Ok && head.result is Ok && target.result is Ok
}

/// The place behind the three guards of a plan.
pub open spec fn behind_plan(
    replies: Seq<ReplyView>,
    at: nat,
    cwd: Seq<u8>,
    branch: BranchTargetView,
    expected: HeadTargetView,
    operation: Seq<char>,
) -> nat {
    let clean = inspect::ensure_clean_worktree_step(replies, at, cwd, operation);
    let head = inspect::ensure_head_target_unchanged_step(
        replies,
        clean.next,
        cwd,
        expected,
        operation,
    );
    inspect::ensure_branch_target_unchanged_step(replies, head.next, branch, operation).next
}

/// The three guards of a plan change nothing.
proof fn lemma_plan(
    replies: Seq<ReplyView>,
    at: nat,
    cwd: Seq<u8>,
    branch: BranchTargetView,
    expected: HeadTargetView,
    operation: Seq<char>,
)
    ensures
        ({
            let clean = inspect::ensure_clean_worktree_step(replies, at, cwd, operation);
            let head = inspect::ensure_head_target_unchanged_step(
                replies,
                clean.next,
                cwd,
                expected,
                operation,
            );
            let target = inspect::ensure_branch_target_unchanged_step(
                replies,
                head.next,
                branch,
                operation,
            );
            only_looks(clean) && only_looks(head) && only_looks(target)
        }),
{
    let clean = inspect::ensure_clean_worktree_step(replies, at, cwd, operation);
    let head = inspect::ensure_head_target_unchanged_step(
        replies,
        clean.next,
        cwd,
        expected,
        operation,
    );
    lemma_clean(replies, at, cwd, operation);
    lemma_head_unchanged(replies, clean.next, cwd, expected, operation);
    lemma_branch_unchanged(replies, head.next, branch, operation);
}

/// Where the guard for a clean working tree holds, the status that Git reports has no entry.
pub proof fn clean_worktree_has_no_entries(
    replies: Seq<ReplyView>,
    at: nat,
    cwd: Seq<u8>,
    operation: Seq<char>,
)
    requires
        inspect::ensure_clean_worktree_step(replies, at, cwd, operation).result is Ok,
    ensures
        ({
            let other = inspect::in_progress_operation_step(replies, at, cwd);
            let status = inspect::status_step(replies, other.next, cwd);
            &&& other.result is Ok && other.result->Ok_0 is None
            &&& status.result is Ok
            &&& status.result->Ok_0.entries.len() == 0
        }),
{
}

/// A branch is checked out only in a clean working tree, while `HEAD` and the branch stand where they were
/// when it was planned; a remote branch only where no local branch has its name.
pub proof fn checkout_is_guarded(
    replies: Seq<ReplyView>,
    at: nat,
    cwd: Seq<u8>,
    branch: BranchTargetView,
    expected: HeadTargetView,
)
    requires
        !only_looks(branches::checkout_branch_step(replies, at, cwd, branch, expected)),
    ensures
        plan_still_holds(replies, at, cwd, branch, expected, "checkout"@),
        branch.kind == BranchKind::Remote
            ==> branches::ensure_remote_checkout_target_available_step(
            replies,
            behind_plan(replies, at, cwd, branch, expected, "checkout"@),
            branch,
        ).result is Ok,
{
    lemma_plan(replies, at, cwd, branch, expected, "checkout"@);
    lemma_name_is_free(
        replies,
        behind_plan(replies, at, cwd, branch, expected, "checkout"@),
        branch,
    );
}

/// A merge starts only in a clean working tree, while `HEAD` and the branch stand where they were when it
/// was planned, and only where it moves the current branch forward.
pub proof fn merge_is_guarded(
    replies: Seq<ReplyView>,
    at: nat,
    cwd: Seq<u8>,
    branch: BranchTargetView,
    expected: HeadTargetView,
)
    requires
        !only_looks(branches::merge_ff_only_step(replies, at, cwd, branch, expected)),
    ensures
        plan_still_holds(replies, at, cwd, branch, expected, "merge"@),
        expected.oid is Some,
        branches::ensure_ancestor_step(
            replies,
            behind_plan(replies, at, cwd, branch, expected, "merge"@),
            expected.oid->Some_0,
            branch.oid,
            "merge is blocked because it cannot fast-forward cleanly"@,
        ).result is Ok,
{
    lemma_plan(replies, at, cwd, branch, expected, "merge"@);
    lemma_ancestor(
        replies,
        behind_plan(replies, at, cwd, branch, expected, "merge"@),
        expected.oid->Some_0,
        branch.oid,
        "merge is blocked because it cannot fast-forward cleanly"@,
    );
}

/// A rebase starts only in a clean working tree, while `HEAD` and the base stand where they were when it
/// was planned.
pub proof fn rebase_is_guarded(
    replies: Seq<ReplyView>,
    at: nat,
    cwd: Seq<u8>,
    base: BranchTargetView,
    expected: HeadTargetView,
)
    requires
        !only_looks(branches::rebase_onto_step(replies, at, cwd, base, expected)),
    ensures
        plan_still_holds(replies, at, cwd, base, expected, "rebase"@),
{
    lemma_plan(replies, at, cwd, base, expected, "rebase"@);
}

/// A branch is created only under a name that Git takes and no branch has, in a clean working tree, while
/// `HEAD` stands where it was when it was planned.
pub proof fn branch_creation_is_guarded(
    replies: Seq<ReplyView>,
    at: nat,
    cwd: Seq<u8>,
    branch: Seq<char>,
    base: Option<BranchTargetView>,
    expected: HeadTargetView,
)
    requires
        !only_looks(
            branches::create_branch_step(replies, at, cwd, branch, base, expected),
        ),
    ensures
        ({
            let name = branches::ensure_valid_new_branch_name_step(replies, at, branch);
            let clean = inspect::ensure_clean_worktree_step(
                replies,
                name.next,
                cwd,
                "create branch"@,
            );
            let head = inspect::ensure_head_target_unchanged_step(
                replies,
                clean.next,
                cwd,
                expected,
                "create branch"@,
            );
            let taken = inspect::branch_target_step(replies, head.next, branch);
            &&& name.result is Ok
            &&& clean.result is Ok
            &&& head.result is Ok
            &&& taken.result is Ok && taken.result->Ok_0 is None
        }),
{
    lemma_name_is_valid(replies, at, branch);
    let name = branches::ensure_valid_new_branch_name_step(replies, at, branch);
    let clean = inspect::ensure_clean_worktree_step(replies, name.next, cwd, "create branch"@);
    lemma_clean(replies, name.next, cwd, "create branch"@);
    let head = inspect::ensure_head_target_unchanged_step(
        replies,
        clean.next,
        cwd,
        expected,
        "create branch"@,
    );
    lemma_head_unchanged(replies, clean.next, cwd, expected, "create branch"@);
    if name.result is Ok && clean.result is Ok && head.result is Ok {
        assert(branches::create_branch_step(replies, at, cwd, branch, base, expected)
            == branches::start_new_branch_step(replies, head.next, branch, base, expected));
        lemma_new_branch(replies, head.next, branch, base, expected);
    }
}

/// The guard for the name of a branch changes nothing.
proof fn lemma_name_is_valid(replies: Seq<ReplyView>, at: nat, branch: Seq<char>)
    ensures
        only_looks(branches::ensure_valid_new_branch_name_step(replies, at, branch)),
{
    lemma_run(replies, at, seq!["check-ref-format"@, "--branch"@, branch]);
}

/// A branch is created only where no branch has its name.
proof fn lemma_new_branch(
    replies: Seq<ReplyView>,
    at: nat,
    branch: Seq<char>,
    base: Option<BranchTargetView>,
    expected: HeadTargetView,
)
    requires
        !only_looks(branches::start_new_branch_step(replies, at, branch, base, expected)),
    ensures
        ({
            let taken = inspect::branch_target_step(replies, at, branch);
            taken.result is Ok && taken.result->Ok_0 is None
        }),
{
    lemma_branch_target(replies, at, branch);
    let taken = inspect::branch_target_step(replies, at, branch);
    if base is Some {
        lemma_branch_unchanged(replies, taken.next, base->Some_0, "create branch"@);
    }
}

/// A push to a branch that was planned to stand somewhere starts only where the commit that is pushed comes
/// after that place.
pub proof fn push_is_guarded(
    replies: Seq<ReplyView>,
    at: nat,
    remote: Seq<char>,
    branch: Seq<char>,
    source: Seq<char>,
    expected: Option<Seq<char>>,
)
    requires
        !only_looks(
            remotes::push_current_branch_step(replies, at, remote, branch, source, expected),
        ),
    ensures
        remotes::ensure_push_is_fast_forward_step(replies, at, source, expected).result is Ok,
{
    if expected is Some {
        lemma_ancestor(
            replies,
            at,
            expected->Some_0,
            source,
            "push is blocked because it would not fast-forward the planned remote"@,
        );
    }
}

/// A pull that moves forward starts only while the upstream and `HEAD` stand where they were when it was
/// planned.
pub proof fn pull_is_guarded(
    replies: Seq<ReplyView>,
    at: nat,
    cwd: Seq<u8>,
    remote: Seq<char>,
    branch: Seq<char>,
    expected: Option<Seq<char>>,
    target: HeadTargetView,
)
    requires
        !only_looks(
            remotes::pull_ff_only_from_step(replies, at, cwd, remote, branch, expected, target),
        ),
    ensures
        upstream_still_holds(replies, at, cwd, remote, branch, expected, target, "pull"@),
{
    lemma_upstream(replies, at, cwd, remote, branch, expected, target, "pull"@);
}

/// A pull that rebases starts only while the upstream and `HEAD` stand where they were when it was planned.
pub proof fn pull_rebase_is_guarded(
    replies: Seq<ReplyView>,
    at: nat,
    cwd: Seq<u8>,
    remote: Seq<char>,
    branch: Seq<char>,
    expected: Option<Seq<char>>,
    target: HeadTargetView,
)
    requires
        !only_looks(
            remotes::pull_rebase_from_step(replies, at, cwd, remote, branch, expected, target),
        ),
    ensures
        upstream_still_holds(replies, at, cwd, remote, branch, expected, target, "pull rebase"@),
{
    lemma_upstream(replies, at, cwd, remote, branch, expected, target, "pull rebase"@);
}

/// Whether the upstream and `HEAD` stand where they are expected.
pub open spec fn upstream_still_holds(
    replies: Seq<ReplyView>,
    at: nat,
    cwd: Seq<u8>,
    remote: Seq<char>,
    branch: Seq<char>,
    expected: Option<Seq<char>>,
    target: HeadTargetView,
    operation: Seq<char>,
) -> bool {
    let upstream = remotes::ensure_remote_tracking_unchanged_step(
        replies,
        at,
        remote,
        branch,
        expected,
        operation,
    );
    let head = inspect::ensure_head_target_unchanged_step(
        replies,
        upstream.next,
        cwd,
        target,
        operation,
    );
    upstream.result is Ok && head.result is Ok && expected is Some
}

/// The guards of a pull change nothing.
proof fn lemma_upstream(
    replies: Seq<ReplyView>,
    at: nat,
    cwd: Seq<u8>,
    remote: Seq<char>,
    branch: Seq<char>,
    expected: Option<Seq<char>>,
    target: HeadTargetView,
    operation: Seq<char>,
)
    ensures
        ({
            let upstream = remotes::ensure_remote_tracking_unchanged_step(
                replies,
                at,
                remote,
                branch,
                expected,
                operation,
            );
            let head = inspect::ensure_head_target_unchanged_step(
                replies,
                upstream.next,
                cwd,
                target,
                operation,
            );
            only_looks(upstream) && only_looks(head)
        }),
{
    let upstream = remotes::ensure_remote_tracking_unchanged_step(
        replies,
        at,
        remote,
        branch,
        expected,
        operation,
    );
    lemma_run(
        replies,
        at,
        seq!["rev-parse"@, "--verify"@, crate::git::refs::tracking_ref(remote, branch)],
    );
    lemma_head_unchanged(replies, upstream.next, cwd, target, operation);
}

/// Looking for a hook changes nothing.
proof fn lemma_hook_path(replies: Seq<ReplyView>, at: nat, cwd: Seq<u8>, hook: Seq<char>)
    ensures
        only_looks(commits::hook_path_step(replies, at, cwd, hook)),
{
    lemma_config(replies, at, "--path"@, "core.hooksPath"@);
    let setting = commands::config_value_step(replies, at, "--path"@, "core.hooksPath"@);
    lemma_run(replies, setting.next, seq!["rev-parse"@, "--show-toplevel"@]);
    lemma_git_path(replies, setting.next, cwd, "hooks/"@ + hook);
}

/// Reading a setting changes nothing.
proof fn lemma_config(replies: Seq<ReplyView>, at: nat, option: Seq<char>, key: Seq<char>)
    ensures
        only_looks(commands::config_value_step(replies, at, option, key)),
{
    lemma_run(replies, at, seq!["config"@, "--get"@, key]);
    lemma_run(replies, at, seq!["config"@, option, "--get"@, key]);
}

/// Looking for hooks changes nothing.
proof fn lemma_hooks(replies: Seq<ReplyView>, at: nat, cwd: Seq<u8>, hooks: Seq<Seq<char>>)
    ensures
        only_looks(commits::enabled_hooks_step(replies, at, cwd, hooks)),
    decreases hooks.len(),
{
    if hooks.len() > 0 {
        lemma_hooks(replies, at, cwd, hooks.drop_last());
        let before = commits::enabled_hooks_step(replies, at, cwd, hooks.drop_last());
        lemma_hook_path(replies, before.next, cwd, hooks.last());
    }
}

/// A commit is made only where `HEAD` stands where it was when it was planned, something is staged, and Git
/// would neither sign nor run a hook.
pub proof fn commit_is_guarded(
    replies: Seq<ReplyView>,
    at: nat,
    cwd: Seq<u8>,
    message: Seq<char>,
    tree: Seq<char>,
    target: HeadTargetView,
)
    requires
        !only_looks(
            commits::commit_staged_tree_step(replies, at, cwd, message, tree, target),
        ),
    ensures
        ({
            let head = inspect::head_target_step(replies, at, cwd);
            let staged = commits::ensure_staged_tree_is_not_empty_commit_step(
                replies,
                head.next,
                tree,
                target,
            );
            let plain = commits::ensure_guarded_commit_supported_step(replies, staged.next, cwd);
            &&& head.result is Ok && head.result->Ok_0 == target
            &&& staged.result is Ok
            &&& plain.result is Ok
        }),
{
    lemma_head_target(replies, at, cwd);
    let head = inspect::head_target_step(replies, at, cwd);
    if target.oid is Some {
        lemma_run(replies, head.next, seq!["rev-parse"@, target.oid->Some_0 + "^{tree}"@]);
    }
    let staged = commits::ensure_staged_tree_is_not_empty_commit_step(
        replies,
        head.next,
        tree,
        target,
    );
    assert(only_looks(staged));
    lemma_config(replies, staged.next, "--bool"@, "commit.gpgsign"@);
    let signs = commits::config_bool_step(replies, staged.next, "commit.gpgsign"@);
    lemma_hooks(replies, signs.next, cwd, commits::commit_hooks());
}

/// A planned fetch leaves no ref behind: once the fetch was tried, the operation ends only after it asked for
/// its ref to be removed, and got an answer.
pub proof fn planned_fetch_cleans_up(
    replies: Seq<ReplyView>,
    at: nat,
    remote: Seq<char>,
    branch: Seq<char>,
)
    requires
        commands::number_step(replies, at, ActionView::NumberFetch).result is Ok,
        commands::number_step(
            replies,
            commands::number_step(replies, at, ActionView::NumberFetch).next,
            ActionView::ProcessId,
        ).result is Ok,
    ensures
        ({
            let count = commands::number_step(replies, at, ActionView::NumberFetch);
            let process = commands::number_step(replies, count.next, ActionView::ProcessId);
            let staged = remotes::staged_ref(process.result->Ok_0, count.result->Ok_0);
            let step = remotes::fetch_remote_branch_for_plan_step(replies, at, remote, branch);
            ||| step.result is Err && step.result->Err_0 is Pending
            ||| step.next > 0 && commands::run_step(
                replies,
                (step.next - 1) as nat,
                seq!["update-ref"@, "-d"@, staged],
            ).next == step.next
        }),
{
}

/// What a shell has read of a word that is written with single quotes and backslashes alone.
#[verifier::ext_equal]
pub enum ShellReading {
    /// Between quotes.
    Outside(Seq<char>),
    /// Behind a quote that is not closed.
    Inside(Seq<char>),
    /// Behind a backslash.
    Escaped(Seq<char>),
    /// The word has ended, or holds something else.
    Other,
}

/// What a shell has read of a word behind some characters.
pub open spec fn shell_reading(characters: Seq<char>) -> ShellReading
    decreases characters.len(),
{
    if characters.len() == 0 {
        ShellReading::Outside(Seq::empty())
    } else {
        let next = characters.last();
        match shell_reading(characters.drop_last()) {
            ShellReading::Outside(word) => if next == '\'' {
                ShellReading::Inside(word)
            } else if next == '\\' {
                ShellReading::Escaped(word)
            } else {
                ShellReading::Other
            },
            ShellReading::Inside(word) => if next == '\'' {
                ShellReading::Outside(word)
            } else {
                ShellReading::Inside(word.push(next))
            },
            ShellReading::Escaped(word) => ShellReading::Outside(word.push(next)),
            ShellReading::Other => ShellReading::Other,
        }
    }
}

/// What a shell reads with one more character.
proof fn lemma_read_more(characters: Seq<char>, next: char)
    ensures
        shell_reading(characters.push(next)) == (match shell_reading(characters) {
            ShellReading::Outside(word) => if next == '\'' {
                ShellReading::Inside(word)
            } else if next == '\\' {
                ShellReading::Escaped(word)
            } else {
                ShellReading::Other
            },
            ShellReading::Inside(word) => if next == '\'' {
                ShellReading::Outside(word)
            } else {
                ShellReading::Inside(word.push(next))
            },
            ShellReading::Escaped(word) => ShellReading::Outside(word.push(next)),
            ShellReading::Other => ShellReading::Other,
        }),
{
    assert(characters.push(next).drop_last() =~= characters);
}

/// What a shell reads behind an opening quote.
proof fn lemma_read_escaped(value: Seq<char>)
    ensures
        shell_reading("'"@ + refs::escaped(value)) == ShellReading::Inside(value),
    decreases value.len(),
{
    reveal_strlit("'");
    reveal_strlit("'\\''");
    let quote = "'"@;
    if value.len() == 0 {
        lemma_read_more(Seq::empty(), '\'');
        assert(quote + refs::escaped(value) =~= Seq::<char>::empty().push('\''));
        assert(value =~= Seq::<char>::empty());
    } else {
        lemma_read_escaped(value.drop_last());
        let before = quote + refs::escaped(value.drop_last());
        assert(value.drop_last().push(value.last()) =~= value);
        if value.last() == '\'' {
            let first = before.push('\'');
            let second = first.push('\\');
            let third = second.push('\'');
            lemma_read_more(before, '\'');
            lemma_read_more(first, '\\');
            lemma_read_more(second, '\'');
            lemma_read_more(third, '\'');
            assert(quote + refs::escaped(value) =~= third.push('\''));
        } else {
            lemma_read_more(before, value.last());
            assert(quote + refs::escaped(value) =~= before.push(value.last()));
        }
    }
}

/// A quoted value is one word to a shell, and the word is the value: nothing in it means anything to the shell.
pub proof fn quoted_value_is_one_word(value: Seq<char>)
    ensures
        shell_reading(refs::quoted(value)) == ShellReading::Outside(value),
{
    reveal_strlit("'");
    lemma_read_escaped(value);
    let before = "'"@ + refs::escaped(value);
    lemma_read_more(before, '\'');
    assert(refs::quoted(value) =~= before.push('\''));
}

/// A conflicted path is in no other family, and an untracked one is neither staged nor changed: no path is
/// offered for a commit while it is in conflict.
pub proof fn families_stand_apart(entry: StatusEntryView)
    ensures
        inspect::picks(Pick::Conflicted, entry) ==> !inspect::picks(Pick::Staged, entry)
            && !inspect::picks(Pick::Unstaged, entry) && !inspect::picks(Pick::Untracked, entry),
        inspect::picks(Pick::Untracked, entry) ==> !inspect::picks(Pick::Staged, entry)
            && !inspect::picks(Pick::Unstaged, entry),
{
}

}
