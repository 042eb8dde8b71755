//! What the operations carry out: the commands that they wait for, word by word, and what they make of the
//! answers.
use crate::bytes;
use crate::git::branches;
use crate::git::commands;
use crate::git::commands::GitStep;
use crate::git::commits;
use crate::git::inspect;
use crate::git::laws;
use crate::git::refs;
use crate::git::remotes;
use crate::git::types::{
    BranchKind, BranchTargetView, ExitStatusView, GitErrorView, GitOutputView, HeadTargetView,
};
use crate::number;
use crate::session::{ActionView, HaltView, ReplyView};
use crate::text;
use vstd::prelude::*;
use vstd::utf8;

verus! {

/// Whether a part of an operation waits for an action.
pub open spec fn waits_for<T>(step: GitStep<T>, action: ActionView) -> bool {
    step.result == Err::<T, HaltView<GitErrorView>>(HaltView::Pending(action))
}

/// Whether a part of an operation waits for a Git command with some words.
pub open spec fn waits_to_run<T>(step: GitStep<T>, words: Seq<Seq<char>>) -> bool {
    waits_for(step, ActionView::Run { args: words })
}

/// Whether a part of an operation, where it waits for anything that changes something, waits for a Git
/// command with some words.
pub open spec fn changes_only_by<T>(step: GitStep<T>, words: Seq<Seq<char>>) -> bool {
    match step.result {
        Err(HaltView::Pending(action)) => laws::looks(action) || action == (ActionView::Run {
            args: words,
        }),
        _ => true,
    }
}

/// Whether an answer says that a command ended with a code and wrote some text.
pub open spec fn says(
    replies: Seq<ReplyView>,
    at: nat,
    code: i32,
    stdout: Seq<char>,
    stderr: Seq<char>,
) -> bool {
    &&& at < replies.len()
    &&& exists|status: ExitStatusView|
        #![trigger status.code]
        status.code == Some(code) && replies[at as int] == (ReplyView::Output {
            status,
            stdout: utf8::encode_utf8(stdout),
            stderr: utf8::encode_utf8(stderr),
        })
}

/// Whether an operation ends with a Git command with some words: it waits for the command, gives what the
/// command wrote where it succeeds, and fails with what it wrote where it fails.
pub open spec fn ends_with(
    step: GitStep<GitOutputView>,
    replies: Seq<ReplyView>,
    at: nat,
    words: Seq<Seq<char>>,
) -> bool {
    if at >= replies.len() {
        waits_to_run(step, words)
    } else {
        match replies[at as int] {
            ReplyView::Output { status, stdout, stderr } => if !utf8::valid_utf8(stdout)
                || !utf8::valid_utf8(stderr) {
                step.result is Err && step.result->Err_0 is Failed
            } else if status.code == Some(0i32) {
                step.result == Ok::<GitOutputView, HaltView<GitErrorView>>(
                    GitOutputView {
                        status,
                        stdout: utf8::decode_utf8(stdout),
                        stderr: utf8::decode_utf8(stderr),
                    },
                )
            } else {
                step.result == Err::<GitOutputView, HaltView<GitErrorView>>(
                    HaltView::Failed(
                        GitErrorView::GitFailed {
                            args: words,
                            status,
                            stdout: utf8::decode_utf8(stdout),
                            stderr: utf8::decode_utf8(stderr),
                        },
                    ),
                )
            },
            ReplyView::Failed(source) => step.result == Err::<
                GitOutputView,
                HaltView<GitErrorView>,
            >(HaltView::Failed(GitErrorView::Io { args: words, source })),
            _ => waits_to_run(step, words),
        }
    }
}

/// A command is run with the words that it is given, and its output is what it wrote.
proof fn lemma_run(replies: Seq<ReplyView>, at: nat, words: Seq<Seq<char>>)
    ensures
        ends_with(commands::run_step(replies, at, words), replies, at, words),
        changes_only_by(commands::run_step(replies, at, words), words),
{
}

/// What a command wrote is read as it was written.
pub(crate) proof fn lemma_says(
    replies: Seq<ReplyView>,
    at: nat,
    code: i32,
    stdout: Seq<char>,
    stderr: Seq<char>,
    words: Seq<Seq<char>>,
)
    requires
        says(replies, at, code, stdout, stderr),
    ensures
        ({
            let step = commands::run_step(replies, at, words);
            &&& step.next == at + 1
            &&& code == 0 ==> step.result is Ok && step.result->Ok_0.stdout == stdout
                && step.result->Ok_0.stderr == stderr
            &&& code != 0 ==> step.result is Err && step.result->Err_0 is Failed
            &&& code == 1 ==> commands::tolerated(step).result == Ok::<
                Option<GitOutputView>,
                HaltView<GitErrorView>,
            >(None)
            &&& code == 1 ==> commands::tolerated(step).next == at + 1
        }),
{
    utf8::encode_utf8_valid_utf8(stdout);
    utf8::encode_utf8_valid_utf8(stderr);
    utf8::encode_utf8_decode_utf8(stdout);
    utf8::encode_utf8_decode_utf8(stderr);
}

/// Where the plan of a checkout still holds, a local branch is checked out by `git switch -- NAME`, and a
/// remote one, whose local name is free, by `git switch --track -- NAME`.
pub proof fn checkout_switches_to_the_branch(
    replies: Seq<ReplyView>,
    at: nat,
    cwd: Seq<u8>,
    branch: BranchTargetView,
    expected: HeadTargetView,
)
    ensures
        ({
            let step = branches::checkout_branch_step(replies, at, cwd, branch, expected);
            let place = laws::behind_plan(replies, at, cwd, branch, expected, "checkout"@);
            let free = branches::ensure_remote_checkout_target_available_step(
                replies,
                place,
                branch,
            );
            let words = if branch.kind == BranchKind::Local {
                seq!["switch"@, "--"@, branch.name]
            } else {
                seq!["switch"@, "--track"@, "--"@, branch.name]
            };
            &&& changes_only_by(step, words)
            &&& laws::plan_still_holds(replies, at, cwd, branch, expected, "checkout"@) ==> {
                &&& branch.kind == BranchKind::Local ==> ends_with(step, replies, place, words)
                &&& branch.kind == BranchKind::Remote && free.result is Ok ==> ends_with(
                    step,
                    replies,
                    free.next,
                    words,
                )
            }
        }),
{
    let step = branches::checkout_branch_step(replies, at, cwd, branch, expected);
    if !laws::only_looks(step) {
        laws::checkout_is_guarded(replies, at, cwd, branch, expected);
    }
}

/// Where a new branch may be made, it is made by `git switch -c NAME -- START`: it starts at the commit of the
/// base where a base is given, and at the commit of `HEAD` only where none is.
pub proof fn new_branch_starts_at_its_base(
    replies: Seq<ReplyView>,
    at: nat,
    cwd: Seq<u8>,
    branch: Seq<char>,
    base: Option<BranchTargetView>,
    expected: HeadTargetView,
)
    ensures
        ({
            let step = branches::create_branch_step(replies, at, cwd, branch, base, expected);
            let name = branches::ensure_valid_new_branch_name_step(replies, at, branch);
            let clean = inspect::ensure_clean_worktree_step(
                replies,
                name.next,
                cwd,
                "create branch"@,
            );
            let head = inspect::ensure_head_target_unchanged_step(
                replies,
                clean.next,
                cwd,
                expected,
                "create branch"@,
            );
            let taken = inspect::branch_target_step(replies, head.next, branch);
            let held = inspect::ensure_branch_target_unchanged_step(
                replies,
                taken.next,
                base->Some_0,
                "create branch"@,
            );
            let ready = name.result is Ok && clean.result is Ok && head.result is Ok
                && taken.result is Ok && taken.result->Ok_0 is None;
            match base {
                Some(base) => {
                    &&& changes_only_by(step, seq!["switch"@, "-c"@, branch, "--"@, base.oid])
                    &&& ready && held.result is Ok ==> ends_with(
                        step,
                        replies,
                        held.next,
                        seq!["switch"@, "-c"@, branch, "--"@, base.oid],
                    )
                },
                None => match expected.oid {
                    Some(oid) => {
                        &&& changes_only_by(step, seq!["switch"@, "-c"@, branch, "--"@, oid])
                        &&& ready ==> ends_with(
                            step,
                            replies,
                            taken.next,
                            seq!["switch"@, "-c"@, branch, "--"@, oid],
                        )
                    },
                    None => laws::only_looks(step),
                },
            }
        }),
{
    let step = branches::create_branch_step(replies, at, cwd, branch, base, expected);
    if !laws::only_looks(step) {
        laws::branch_creation_is_guarded(replies, at, cwd, branch, base, expected);
    }
    let name = branches::ensure_valid_new_branch_name_step(replies, at, branch);
    let clean = inspect::ensure_clean_worktree_step(replies, name.next, cwd, "create branch"@);
    let head = inspect::ensure_head_target_unchanged_step(
        replies,
        clean.next,
        cwd,
        expected,
        "create branch"@,
    );
    let taken = inspect::branch_target_step(replies, head.next, branch);
    if name.result is Ok && clean.result is Ok && head.result is Ok {
        assert(step == branches::start_new_branch_step(
            replies,
            head.next,
            branch,
            base,
            expected,
        ));
        if base is Some && taken.result is Ok && taken.result->Ok_0 is None {
            laws::lemma_branch_unchanged(replies, taken.next, base->Some_0, "create branch"@);
        }
    }
}

/// Where the plan of a merge still holds and the branch moves the current one forward, the branch is merged by
/// `git merge --ff-only OID`, with the commit that was planned.
pub proof fn merge_moves_forward_to_the_branch(
    replies: Seq<ReplyView>,
    at: nat,
    cwd: Seq<u8>,
    branch: BranchTargetView,
    expected: HeadTargetView,
)
    ensures
        ({
            let step = branches::merge_ff_only_step(replies, at, cwd, branch, expected);
            let place = laws::behind_plan(replies, at, cwd, branch, expected, "merge"@);
            let forward = branches::ensure_ancestor_step(
                replies,
                place,
                expected.oid->Some_0,
                branch.oid,
                "merge is blocked because it cannot fast-forward cleanly"@,
            );
            &&& changes_only_by(step, seq!["merge"@, "--ff-only"@, branch.oid])
            &&& laws::plan_still_holds(replies, at, cwd, branch, expected, "merge"@)
                && expected.oid is Some && forward.result is Ok ==> ends_with(
                step,
                replies,
                forward.next,
                seq!["merge"@, "--ff-only"@, branch.oid],
            )
        }),
{
    let step = branches::merge_ff_only_step(replies, at, cwd, branch, expected);
    if !laws::only_looks(step) {
        laws::merge_is_guarded(replies, at, cwd, branch, expected);
    }
}

/// Where the plan of a rebase still holds, the current branch is rebased by `git rebase OID`, with the commit of
/// the base that was planned.
pub proof fn rebase_goes_onto_the_base(
    replies: Seq<ReplyView>,
    at: nat,
    cwd: Seq<u8>,
    base: BranchTargetView,
    expected: HeadTargetView,
)
    ensures
        ({
            let step = branches::rebase_onto_step(replies, at, cwd, base, expected);
            let place = laws::behind_plan(replies, at, cwd, base, expected, "rebase"@);
            &&& changes_only_by(step, seq!["rebase"@, base.oid])
            &&& laws::plan_still_holds(replies, at, cwd, base, expected, "rebase"@) ==> ends_with(
                step,
                replies,
                place,
                seq!["rebase"@, base.oid],
            )
        }),
{
    let step = branches::rebase_onto_step(replies, at, cwd, base, expected);
    if !laws::only_looks(step) {
        laws::rebase_is_guarded(replies, at, cwd, base, expected);
    }
}

/// Where one commit comes after another is asked by `git merge-base --is-ancestor`: the guard holds where Git
/// succeeds, and refuses where Git ends with one.
pub proof fn order_of_commits_is_asked_of_git(
    replies: Seq<ReplyView>,
    at: nat,
    ancestor: Seq<char>,
    descendant: Seq<char>,
    message: Seq<char>,
    stdout: Seq<char>,
    stderr: Seq<char>,
)
    ensures
        ({
            let step = branches::ensure_ancestor_step(replies, at, ancestor, descendant, message);
            &&& at >= replies.len() ==> waits_to_run(
                step,
                seq!["merge-base"@, "--is-ancestor"@, ancestor, descendant],
            )
            &&& says(replies, at, 0, stdout, stderr) ==> step.result is Ok
            &&& says(replies, at, 1, stdout, stderr) ==> step.result == Err::<
                (),
                HaltView<GitErrorView>,
            >(HaltView::Failed(GitErrorView::Blocked { message }))
        }),
{
    let words = seq!["merge-base"@, "--is-ancestor"@, ancestor, descendant];
    if says(replies, at, 0, stdout, stderr) {
        lemma_says(replies, at, 0, stdout, stderr, words);
    }
    if says(replies, at, 1, stdout, stderr) {
        lemma_says(replies, at, 1, stdout, stderr, words);
    }
}

/// The words of a push of a commit to a branch of a remote. The lease names the commit that the branch is
/// expected at, or none where it is expected not to be there.
pub open spec fn push_words_of(
    remote: Seq<char>,
    branch: Seq<char>,
    source: Seq<char>,
    expected: Option<Seq<char>>,
) -> Seq<Seq<char>> {
    seq![
        "push"@,
        match expected {
            Some(oid) => "--force-with-lease=refs/heads/"@ + branch + ":"@ + oid,
            None => "--force-with-lease=refs/heads/"@ + branch + ":"@,
        },
        "--"@,
        remote,
        source + ":refs/heads/"@ + branch,
    ]
}

/// A push goes to the branch of the remote that was planned, with the commit that was planned and a lease on the
/// commit that is expected there, and only where that commit comes before the one that is pushed.
pub proof fn push_moves_the_planned_branch(
    replies: Seq<ReplyView>,
    at: nat,
    remote: Seq<char>,
    branch: Seq<char>,
    source: Seq<char>,
    expected: Option<Seq<char>>,
)
    ensures
        ({
            let step = remotes::push_current_branch_step(
                replies,
                at,
                remote,
                branch,
                source,
                expected,
            );
            let forward = branches::ensure_ancestor_step(
                replies,
                at,
                expected->Some_0,
                source,
                "push is blocked because it would not fast-forward the planned remote"@,
            );
            let words = push_words_of(remote, branch, source, expected);
            &&& changes_only_by(step, words)
            &&& expected is None ==> ends_with(step, replies, at, words)
            &&& expected is Some && forward.result is Ok ==> ends_with(
                step,
                replies,
                forward.next,
                words,
            )
            &&& expected is Some && forward.result is Err ==> step.result is Err
                && step.result->Err_0 == forward.result->Err_0
        }),
{
    let lease = "--force-with-lease=refs/heads/"@ + branch + ":"@;
    assert(lease + Seq::<char>::empty() =~= lease);
    assert(push_words_of(remote, branch, source, expected) =~= seq![
        "push"@,
        refs::lease_option(branch, expected),
        "--"@,
        remote,
        source + ":refs/heads/"@ + branch,
    ]);
    let step = remotes::push_current_branch_step(replies, at, remote, branch, source, expected);
    if !laws::only_looks(step) {
        laws::push_is_guarded(replies, at, remote, branch, source, expected);
    }
}

/// A push that sets the upstream is a push, and then `git branch --set-upstream-to=refs/remotes/REMOTE/BRANCH
/// BRANCH`.
pub proof fn upstream_is_set_after_the_push(
    replies: Seq<ReplyView>,
    at: nat,
    remote: Seq<char>,
    branch: Seq<char>,
    source: Seq<char>,
    expected: Option<Seq<char>>,
)
    ensures
        ({
            let push = remotes::push_current_branch_step(
                replies,
                at,
                remote,
                branch,
                source,
                expected,
            );
            let step = remotes::push_current_branch_set_upstream_step(
                replies,
                at,
                remote,
                branch,
                source,
                expected,
            );
            let words = seq![
                "branch"@,
                "--set-upstream-to=refs/remotes/"@ + remote + "/"@ + branch,
                branch,
            ];
            &&& push.result is Err ==> step.result is Err && step.result->Err_0
                == push.result->Err_0
            &&& push.result is Ok && push.next >= replies.len() ==> waits_to_run(step, words)
            &&& push.result is Ok && commands::run_step(replies, push.next, words).result is Ok
                ==> step.result is Ok
        }),
{
    reveal_strlit("--set-upstream-to=");
    reveal_strlit("refs/remotes/");
    reveal_strlit("--set-upstream-to=refs/remotes/");
    assert("--set-upstream-to="@ + ("refs/remotes/"@ + remote + "/"@ + branch)
        =~= "--set-upstream-to=refs/remotes/"@ + remote + "/"@ + branch);
}

/// Where the upstream and `HEAD` stand where they were planned, a pull that moves forward ends with
/// `git merge --ff-only OID`, with the upstream commit that was planned, and changes nothing otherwise.
pub proof fn pull_moves_forward_to_the_upstream(
    replies: Seq<ReplyView>,
    at: nat,
    cwd: Seq<u8>,
    remote: Seq<char>,
    branch: Seq<char>,
    expected: Option<Seq<char>>,
    target: HeadTargetView,
)
    ensures
        ({
            let step = remotes::pull_ff_only_from_step(
                replies,
                at,
                cwd,
                remote,
                branch,
                expected,
                target,
            );
            let place = behind_upstream(
                replies,
                at,
                cwd,
                remote,
                branch,
                expected,
                target,
                "pull"@,
            );
            &&& expected is None ==> laws::only_looks(step)
            &&& expected is Some ==> changes_only_by(
                step,
                seq!["merge"@, "--ff-only"@, expected->Some_0],
            )
            &&& laws::upstream_still_holds(
                replies,
                at,
                cwd,
                remote,
                branch,
                expected,
                target,
                "pull"@,
            ) ==> ends_with(
                step,
                replies,
                place,
                seq!["merge"@, "--ff-only"@, expected->Some_0],
            )
        }),
{
    let step = remotes::pull_ff_only_from_step(
        replies,
        at,
        cwd,
        remote,
        branch,
        expected,
        target,
    );
    if !laws::only_looks(step) {
        laws::pull_is_guarded(replies, at, cwd, remote, branch, expected, target);
    }
}

/// Where the upstream and `HEAD` stand where they were planned, a pull that rebases ends with
/// `git rebase OID`, with the upstream commit that was planned, and changes nothing otherwise.
pub proof fn pull_rebases_onto_the_upstream(
    replies: Seq<ReplyView>,
    at: nat,
    cwd: Seq<u8>,
    remote: Seq<char>,
    branch: Seq<char>,
    expected: Option<Seq<char>>,
    target: HeadTargetView,
)
    ensures
        ({
            let step = remotes::pull_rebase_from_step(
                replies,
                at,
                cwd,
                remote,
                branch,
                expected,
                target,
            );
            let place = behind_upstream(
                replies,
                at,
                cwd,
                remote,
                branch,
                expected,
                target,
                "pull rebase"@,
            );
            &&& expected is None ==> laws::only_looks(step)
            &&& expected is Some ==> changes_only_by(step, seq!["rebase"@, expected->Some_0])
            &&& laws::upstream_still_holds(
                replies,
                at,
                cwd,
                remote,
                branch,
                expected,
                target,
                "pull rebase"@,
            ) ==> ends_with(step, replies, place, seq!["rebase"@, expected->Some_0])
        }),
{
    let step = remotes::pull_rebase_from_step(
        replies,
        at,
        cwd,
        remote,
        branch,
        expected,
        target,
    );
    if !laws::only_looks(step) {
        laws::pull_rebase_is_guarded(replies, at, cwd, remote, branch, expected, target);
    }
}

/// The place behind the guards of a pull.
pub open spec fn behind_upstream(
    replies: Seq<ReplyView>,
    at: nat,
    cwd: Seq<u8>,
    remote: Seq<char>,
    branch: Seq<char>,
    expected: Option<Seq<char>>,
    target: HeadTargetView,
    operation: Seq<char>,
) -> nat {
    let upstream = remotes::ensure_remote_tracking_unchanged_step(
        replies,
        at,
        remote,
        branch,
        expected,
        operation,
    );
    inspect::ensure_head_target_unchanged_step(
        replies,
        upstream.next,
        cwd,
        target,
        operation,
    ).next
}

/// The plain transfers are the commands of their names: a fetch, a pull that moves forward, a pull that
/// rebases, and a fetch of one branch into the ref that follows it.
pub proof fn plain_transfers_are_what_they_are_called(
    replies: Seq<ReplyView>,
    at: nat,
    remote: Seq<char>,
    branch: Seq<char>,
)
    ensures
        ends_with(remotes::fetch_default_remote_step(replies, at), replies, at, seq!["fetch"@]),
        ends_with(remotes::pull_step(replies, at), replies, at, seq!["pull"@, "--ff-only"@]),
        ends_with(remotes::pull_rebase_step(replies, at), replies, at, seq!["pull"@, "--rebase"@]),
        ends_with(
            remotes::fetch_remote_branch_step(replies, at, remote, branch),
            replies,
            at,
            seq![
                "fetch"@,
                "--"@,
                remote,
                "+refs/heads/"@ + branch + ":refs/remotes/"@ + remote + "/"@ + branch,
            ],
        ),
{
    reveal_strlit(":");
    reveal_strlit("refs/remotes/");
    reveal_strlit(":refs/remotes/");
    assert("+refs/heads/"@ + branch + ":"@ + ("refs/remotes/"@ + remote + "/"@ + branch)
        =~= "+refs/heads/"@ + branch + ":refs/remotes/"@ + remote + "/"@ + branch);
}

/// A fetched commit is published in the ref that follows the branch, by an update that names the commit that the
/// ref is expected at, or forty zeros where it is expected not to be there.
pub proof fn fetched_commit_is_published_where_it_is_followed(
    replies: Seq<ReplyView>,
    at: nat,
    remote: Seq<char>,
    branch: Seq<char>,
    oid: Seq<char>,
    expected: Option<Seq<char>>,
)
    ensures
        ends_with(
            remotes::publish_remote_tracking_step(replies, at, remote, branch, oid, expected),
            replies,
            at,
            seq![
                "update-ref"@,
                "-m"@,
                "bitbygit pull"@,
                "refs/remotes/"@ + remote + "/"@ + branch,
                oid,
                match expected {
                    Some(before) => before,
                    None => "0000000000000000000000000000000000000000"@,
                },
            ],
        ),
{
    let words = seq![
        "update-ref"@,
        "-m"@,
        "bitbygit pull"@,
        refs::tracking_ref(remote, branch),
        oid,
        remotes::oid_or_zero(expected),
    ];
    assert(words =~= seq![
        "update-ref"@,
        "-m"@,
        "bitbygit pull"@,
        "refs/remotes/"@ + remote + "/"@ + branch,
        oid,
        match expected {
            Some(before) => before,
            None => "0000000000000000000000000000000000000000"@,
        },
    ]);
}

/// A fetch for a plan takes the branch of the remote into a ref of its own, reads the commit there, removes the ref,
/// and gives the commit: no other ref is touched.
pub proof fn planned_fetch_gives_the_fetched_commit(
    replies: Seq<ReplyView>,
    at: nat,
    remote: Seq<char>,
    branch: Seq<char>,
    count: u64,
    process: u64,
    oid: Seq<char>,
    fetched: (Seq<char>, Seq<char>),
    noise: Seq<char>,
    removed: (Seq<char>, Seq<char>),
)
    requires
        at + 1 < replies.len(),
        replies[at as int] == ReplyView::Number(count),
        replies[(at + 1) as int] == ReplyView::Number(process),
    ensures
        ({
            let step = remotes::fetch_remote_branch_for_plan_step(replies, at, remote, branch);
            let staged = "refs/bitbygit/fetch/"@ + number::decimal(process as nat) + "-"@
                + number::decimal(count as nat);
            &&& replies.len() == at + 2 ==> waits_to_run(
                step,
                seq![
                    "fetch"@,
                    "--no-write-fetch-head"@,
                    "--no-tags"@,
                    "--refmap="@,
                    "--"@,
                    remote,
                    "+refs/heads/"@ + branch + ":"@ + staged,
                ],
            )
            &&& says(replies, at + 2, 0, fetched.0, fetched.1) ==> {
                &&& replies.len() == at + 3 ==> waits_to_run(
                    step,
                    seq!["rev-parse"@, "--verify"@, staged],
                )
                &&& says(replies, at + 3, 0, oid, noise) ==> {
                    &&& replies.len() == at + 4 ==> waits_to_run(
                        step,
                        seq!["update-ref"@, "-d"@, staged],
                    )
                    &&& says(replies, at + 4, 0, removed.0, removed.1) ==> step.result == Ok::<
                        Seq<char>,
                        HaltView<GitErrorView>,
                    >(text::trimmed(oid))
                }
            }
        }),
{
    let staged = "refs/bitbygit/fetch/"@ + number::decimal(process as nat) + "-"@
        + number::decimal(count as nat);
    let words = seq![
        "fetch"@,
        "--no-write-fetch-head"@,
        "--no-tags"@,
        "--refmap="@,
        "--"@,
        remote,
        "+refs/heads/"@ + branch + ":"@ + staged,
    ];
    assert(remotes::staged_ref(process, count) == staged);
    if says(replies, at + 2, 0, fetched.0, fetched.1) {
        lemma_says(replies, at + 2, 0, fetched.0, fetched.1, words);
        if says(replies, at + 3, 0, oid, noise) {
            lemma_says(replies, at + 3, 0, oid, noise, seq!["rev-parse"@, "--verify"@, staged]);
            if says(replies, at + 4, 0, removed.0, removed.1) {
                lemma_says(
                    replies,
                    at + 4,
                    0,
                    removed.0,
                    removed.1,
                    seq!["update-ref"@, "-d"@, staged],
                );
            }
        }
    }
}

/// The words that write a commit of a tree with a message. The commit that the target stands at is its parent;
/// where the target has no commit, the new commit has no parent.
pub open spec fn commit_words_of(
    message: Seq<char>,
    tree: Seq<char>,
    target: HeadTargetView,
) -> Seq<Seq<char>> {
    match target.oid {
        Some(parent) => seq!["commit-tree"@, tree, "-p"@, parent, "-m"@, message],
        None => seq!["commit-tree"@, tree, "-m"@, message],
    }
}

/// The words that move the ref of a target, or `HEAD` where it has none, to a commit from the commit that it
/// stands at.
pub open spec fn move_words_of(oid: Seq<char>, target: HeadTargetView) -> Seq<Seq<char>> {
    seq![
        "update-ref"@,
        "-m"@,
        "bitbygit commit"@,
        match target.reference {
            Some(reference) => reference,
            None => "HEAD"@,
        },
        oid,
        match target.oid {
            Some(parent) => parent,
            None => "0000000000000000000000000000000000000000"@,
        },
    ]
}

/// A commit of a confirmed tree changes something by two commands alone. The first writes the commit, with the
/// confirmed tree, the message, and the commit that the target stands at as its only parent. The second moves
/// the target's ref from that commit to the one that was written.
pub proof fn commit_goes_on_top_of_the_target(
    replies: Seq<ReplyView>,
    at: nat,
    cwd: Seq<u8>,
    message: Seq<char>,
    tree: Seq<char>,
    target: HeadTargetView,
    written: (Seq<char>, Seq<char>),
    moved: (Seq<char>, Seq<char>),
)
    ensures
        ({
            let step = commits::commit_staged_tree_step(replies, at, cwd, message, tree, target);
            let head = inspect::head_target_step(replies, at, cwd);
            let staged = commits::ensure_staged_tree_is_not_empty_commit_step(
                replies,
                head.next,
                tree,
                target,
            );
            let plain = commits::ensure_guarded_commit_supported_step(replies, staged.next, cwd);
            let place = plain.next;
            let oid = text::trimmed(written.0);
            &&& match step.result {
                Err(HaltView::Pending(action)) => {
                    ||| laws::looks(action)
                    ||| action == (ActionView::Run {
                        args: commit_words_of(message, tree, target),
                    })
                    ||| place < replies.len() && match replies[place as int] {
                        ReplyView::Output { status: _, stdout, stderr: _ } => action == (
                        ActionView::Run {
                            args: move_words_of(
                                text::trimmed(utf8::decode_utf8(stdout)),
                                target,
                            ),
                        }) && text::trimmed(utf8::decode_utf8(stdout)).len() > 0,
                        _ => false,
                    }
                },
                _ => true,
            }
            &&& head.result is Ok && head.result->Ok_0 == target && staged.result is Ok
                && plain.result is Ok ==> {
                &&& place >= replies.len() ==> waits_to_run(
                    step,
                    commit_words_of(message, tree, target),
                )
                &&& says(replies, place, 0, written.0, written.1) && oid.len() == 0 ==> step.result
                    is Err && step.result->Err_0 is Failed
                &&& says(replies, place, 0, written.0, written.1) && oid.len() > 0 ==> {
                    &&& place + 1 >= replies.len() ==> waits_to_run(
                        step,
                        move_words_of(oid, target),
                    )
                    &&& says(replies, place + 1, 0, moved.0, moved.1) ==> {
                        &&& step.result is Ok
                        &&& step.result->Ok_0.stdout == "["@ + oid.take(
                            if oid.len() < 12 {
                                oid.len() as int
                            } else {
                                12
                            },
                        ) + "] "@ + message + "\n"@
                    }
                }
                &&& says(replies, place, 1, written.0, written.1) ==> step.result is Err
                    && step.result->Err_0 is Failed
            }
        }),
{
    let step = commits::commit_staged_tree_step(replies, at, cwd, message, tree, target);
    let head = inspect::head_target_step(replies, at, cwd);
    let staged = commits::ensure_staged_tree_is_not_empty_commit_step(
        replies,
        head.next,
        tree,
        target,
    );
    let plain = commits::ensure_guarded_commit_supported_step(replies, staged.next, cwd);
    let place = plain.next;
    let words = commit_words_of(message, tree, target);
    let oid = text::trimmed(written.0);
    assert(commits::commit_words(message, tree, target.oid) =~= words);
    assert forall|oid: Seq<char>| #[trigger] commits::update_words(oid, target) == move_words_of(
        oid,
        target,
    ) by {
        assert(commits::update_words(oid, target) =~= move_words_of(oid, target));
    }
    if !laws::only_looks(step) {
        laws::commit_is_guarded(replies, at, cwd, message, tree, target);
    }
    if says(replies, place, 0, written.0, written.1) {
        lemma_says(replies, place, 0, written.0, written.1, words);
        if says(replies, place + 1, 0, moved.0, moved.1) {
            lemma_says(replies, place + 1, 0, moved.0, moved.1, move_words_of(oid, target));
        }
    }
    if says(replies, place, 1, written.0, written.1) {
        lemma_says(replies, place, 1, written.0, written.1, words);
    }
}

/// A commit is one of the tree that `git write-tree` names, on top of where `HEAD` stands.
pub proof fn commit_takes_the_index_and_the_head(
    replies: Seq<ReplyView>,
    at: nat,
    cwd: Seq<u8>,
    message: Seq<char>,
    tree: Seq<char>,
    noise: Seq<char>,
)
    ensures
        ({
            let step = commits::commit_step(replies, at, cwd, message);
            let head = inspect::head_target_step(replies, at + 1, cwd);
            &&& at >= replies.len() ==> waits_to_run(step, seq!["write-tree"@])
            &&& says(replies, at, 0, tree, noise) && head.result is Ok ==> step
                == commits::commit_staged_tree_step(
                replies,
                head.next,
                cwd,
                message,
                text::trimmed(tree),
                head.result->Ok_0,
            )
            &&& says(replies, at, 0, tree, noise) && head.result is Err ==> step.result is Err
                && step.result->Err_0 == head.result->Err_0
        }),
{
    if says(replies, at, 0, tree, noise) {
        lemma_says(replies, at, 0, tree, noise, seq!["write-tree"@]);
    }
}

/// A commit is refused where its tree is that of the commit below it, or the empty tree where there is none, and
/// nowhere else: the tree of the commit below is what Git says it is.
pub proof fn commit_has_changes(
    replies: Seq<ReplyView>,
    at: nat,
    tree: Seq<char>,
    target: HeadTargetView,
    below: Seq<char>,
    noise: Seq<char>,
)
    ensures
        ({
            let step = commits::ensure_staged_tree_is_not_empty_commit_step(
                replies,
                at,
                tree,
                target,
            );
            match target.oid {
                Some(parent) => {
                    &&& at >= replies.len() ==> waits_to_run(
                        step,
                        seq!["rev-parse"@, parent + "^{tree}"@],
                    )
                    &&& says(replies, at, 0, below, noise) ==> step.next == at + 1 && (step.result
                        is Ok <==> text::trimmed(below) != tree)
                },
                None => step.next == at && (step.result is Ok <==> tree
                    != "4b825dc642cb6eb9a060e54bf8d69288fbee4904"@),
            }
        }),
{
    if target.oid is Some && says(replies, at, 0, below, noise) {
        lemma_says(
            replies,
            at,
            0,
            below,
            noise,
            seq!["rev-parse"@, target.oid->Some_0 + "^{tree}"@],
        );
    }
}

/// A file is run as a hook where it is a regular file and its owner, its group or anyone else may run it.
pub proof fn hook_runs_where_anyone_may_run_it(metadata: crate::session::FileMetadata)
    ensures
        commands::runs_as_hook(metadata) <==> metadata.kind == crate::session::FileKind::File && (
        metadata.mode & 0o100 != 0 || metadata.mode & 0o010 != 0 || metadata.mode & 0o001 != 0),
{
    let mode = metadata.mode;
    assert(mode & 0o111 != 0 <==> mode & 0o100 != 0 || mode & 0o010 != 0 || mode & 0o001 != 0)
        by (bit_vector);
}

/// Whether a hook was looked for from a place on and cannot be run.
pub open spec fn hook_is_off(
    replies: Seq<ReplyView>,
    at: nat,
    cwd: Seq<u8>,
    hook: Seq<char>,
) -> bool {
    let path = commits::hook_path_step(replies, at, cwd, hook);
    path.result is Ok && commands::hook_enabled_step(
        replies,
        path.next,
        path.result->Ok_0,
    ).result == Ok::<bool, HaltView<GitErrorView>>(false)
}

/// Whether a hook was looked for and cannot be run.
pub open spec fn hook_was_off(replies: Seq<ReplyView>, cwd: Seq<u8>, hook: Seq<char>) -> bool {
    exists|n: nat| #[trigger] hook_is_off(replies, n, cwd, hook)
}

/// A commit is supported only where Git would not sign it, and where none of the hooks of a commit can be run.
pub proof fn commit_runs_no_hook(
    replies: Seq<ReplyView>,
    at: nat,
    cwd: Seq<u8>,
    value: Seq<char>,
    noise: Seq<char>,
)
    ensures
        ({
            let step = commits::ensure_guarded_commit_supported_step(replies, at, cwd);
            let word = text::trimmed(value);
            &&& at >= replies.len() ==> waits_to_run(
                step,
                seq!["config"@, "--bool"@, "--get"@, "commit.gpgsign"@],
            )
            &&& says(replies, at, 0, value, noise) && (word == "true"@ || word == "yes"@ || word
                == "on"@ || word == "1"@) ==> step.result is Err && step.result->Err_0 is Failed
            &&& step.result is Ok ==> {
                &&& hook_was_off(replies, cwd, "pre-commit"@)
                &&& hook_was_off(replies, cwd, "prepare-commit-msg"@)
                &&& hook_was_off(replies, cwd, "commit-msg"@)
                &&& hook_was_off(replies, cwd, "post-commit"@)
            }
        }),
{
    reveal_strlit("--bool");
    let step = commits::ensure_guarded_commit_supported_step(replies, at, cwd);
    let words = seq!["config"@, "--bool"@, "--get"@, "commit.gpgsign"@];
    if says(replies, at, 0, value, noise) {
        lemma_says(replies, at, 0, value, noise, words);
    }
    if step.result is Ok {
        let signs = commits::config_bool_step(replies, at, "commit.gpgsign"@);
        let hooks = commits::commit_hooks();
        let found = commits::enabled_hooks_step(replies, signs.next, cwd, hooks);
        assert(found.result->Ok_0.len() == 0);
        lemma_hooks_off(replies, signs.next, cwd, hooks);
        assert(hooks[0] == "pre-commit"@);
        assert(hooks[1] == "prepare-commit-msg"@);
        assert(hooks[2] == "commit-msg"@);
        assert(hooks[3] == "post-commit"@);
    }
}

/// Where no hook of a list was found to run, each of them is off.
proof fn lemma_hooks_off(replies: Seq<ReplyView>, at: nat, cwd: Seq<u8>, hooks: Seq<Seq<char>>)
    requires
        commits::enabled_hooks_step(replies, at, cwd, hooks).result is Ok,
        commits::enabled_hooks_step(replies, at, cwd, hooks).result->Ok_0.len() == 0,
    ensures
        forall|i: int|
            0 <= i < hooks.len() ==> hook_was_off(replies, cwd, #[trigger] hooks[i]),
    decreases hooks.len(),
{
    if hooks.len() > 0 {
        let before = commits::enabled_hooks_step(replies, at, cwd, hooks.drop_last());
        assert(before.result is Ok);
        assert(before.result->Ok_0.len() == 0);
        lemma_hooks_off(replies, at, cwd, hooks.drop_last());
        assert(hook_is_off(replies, before.next, cwd, hooks.last()));
        assert forall|i: int| 0 <= i < hooks.len() implies hook_was_off(
            replies,
            cwd,
            #[trigger] hooks[i],
        ) by {
            if i < hooks.len() - 1 {
                assert(hooks.drop_last()[i] == hooks[i]);
            }
        }
    }
}

/// A hook is looked for under the directory that is configured for hooks, from the top directory of the
/// repository where it does not start at the root, and otherwise where Git says that it is.
pub proof fn hook_is_looked_for_where_git_finds_it(
    replies: Seq<ReplyView>,
    at: nat,
    cwd: Seq<u8>,
    hook: Seq<char>,
    answer: (Seq<char>, Seq<char>),
    path: (Seq<char>, Seq<char>),
)
    ensures
        ({
            let step = commits::hook_path_step(replies, at, cwd, hook);
            let directory = utf8::encode_utf8(text::trimmed(answer.0));
            let name = utf8::encode_utf8(hook);
            &&& at >= replies.len() ==> waits_to_run(
                step,
                seq!["config"@, "--path"@, "--get"@, "core.hooksPath"@],
            )
            &&& says(replies, at, 0, answer.0, answer.1) && bytes::absolute(directory)
                ==> step.result == Ok::<Seq<u8>, HaltView<GitErrorView>>(
                bytes::joined_path(directory, name),
            )
            &&& says(replies, at, 0, answer.0, answer.1) && !bytes::absolute(directory)
                && replies.len() == at + 1 ==> waits_for(
                step,
                ActionView::RunRaw { args: seq!["rev-parse"@, "--show-toplevel"@] },
            )
            &&& says(replies, at, 1, answer.0, answer.1) ==> {
                &&& replies.len() == at + 1 ==> waits_to_run(
                    step,
                    seq!["rev-parse"@, "--git-path"@, "hooks/"@ + hook],
                )
                &&& says(replies, at + 1, 0, path.0, path.1) ==> step.result == Ok::<
                    Seq<u8>,
                    HaltView<GitErrorView>,
                >(bytes::joined_path(cwd, utf8::encode_utf8(text::trimmed(path.0))))
            }
        }),
{
    reveal_strlit("--path");
    let words = seq!["config"@, "--path"@, "--get"@, "core.hooksPath"@];
    if says(replies, at, 0, answer.0, answer.1) {
        lemma_says(replies, at, 0, answer.0, answer.1, words);
    }
    if says(replies, at, 1, answer.0, answer.1) {
        lemma_says(replies, at, 1, answer.0, answer.1, words);
        if says(replies, at + 1, 0, path.0, path.1) {
            lemma_says(
                replies,
                at + 1,
                0,
                path.0,
                path.1,
                seq!["rev-parse"@, "--git-path"@, "hooks/"@ + hook],
            );
        }
    }
}

/// Whether a part of an operation waits for a Git command with some words, and behind `--` some paths.
pub open spec fn waits_to_run_on<T>(
    step: GitStep<T>,
    words: Seq<Seq<char>>,
    paths: Seq<Seq<u8>>,
) -> bool {
    match step.result {
        Err(HaltView::Pending(ActionView::RunPaths { args })) => {
            &&& args.len() == words.len() + 1 + paths.len()
            &&& forall|i: int|
                0 <= i < words.len() ==> #[trigger] args[i] == utf8::encode_utf8(words[i])
            &&& args[words.len() as int] == utf8::encode_utf8("--"@)
            &&& args.skip(words.len() as int + 1) == paths
        },
        _ => false,
    }
}

/// A command is run with its words, and behind `--` with its paths.
proof fn lemma_run_on(
    replies: Seq<ReplyView>,
    at: nat,
    words: Seq<Seq<char>>,
    paths: Seq<Seq<u8>>,
)
    requires
        at >= replies.len(),
    ensures
        waits_to_run_on(
            commits::run_paths_step(replies, at, commits::path_words(words), paths),
            words,
            paths,
        ),
        waits_to_run_on(
            commits::run_os_step(replies, at, commits::path_words(words) + paths),
            words,
            paths,
        ),
{
    let args = commits::path_words(words) + paths;
    assert(args.skip(words.len() as int + 1) =~= paths);
    assert(waits_for(
        commits::run_os_step(replies, at, args),
        ActionView::RunPaths { args },
    ));
    assert(waits_for(
        commits::run_paths_step(replies, at, commits::path_words(words), paths),
        ActionView::RunPaths { args },
    ));
}

/// Paths are staged by `git add -- PATHS`, all of them by `git add --all`.
pub proof fn staging_adds_the_paths(replies: Seq<ReplyView>, at: nat, paths: Seq<Seq<u8>>)
    requires
        at >= replies.len(),
    ensures
        waits_to_run_on(commits::stage_paths_step(replies, at, paths), seq!["add"@], paths),
        paths.len() == 1 ==> waits_to_run_on(
            commits::stage_path_step(replies, at, paths[0]),
            seq!["add"@],
            paths,
        ),
        waits_to_run(commits::stage_all_step(replies, at), seq!["add"@, "--all"@]),
{
    lemma_run_on(replies, at, seq!["add"@], paths);
    if paths.len() == 1 {
        assert(paths =~= seq![paths[0]]);
    }
}

/// Paths are taken out of the index and kept in the working tree: by `git restore --staged -- PATHS`, and
/// before the first commit by `git rm --cached --ignore-unmatch -r -- PATHS`; all of them in the same way.
pub proof fn unstaging_keeps_the_working_tree(
    replies: Seq<ReplyView>,
    at: nat,
    cwd: Seq<u8>,
    paths: Seq<Seq<u8>>,
)
    ensures
        ({
            let branch = inspect::branch_state_step(replies, at, cwd);
            let step = commits::unstage_paths_step(replies, at, cwd, paths);
            let one = commits::unstage_path_step(replies, at, cwd, paths[0]);
            let all = commits::unstage_all_step(replies, at, cwd);
            let rm = seq!["rm"@, "--cached"@, "--ignore-unmatch"@, "-r"@];
            let restore = seq!["restore"@, "--staged"@];
            &&& branch.result is Ok && branch.next >= replies.len()
                && branch.result->Ok_0.unborn ==> {
                &&& waits_to_run_on(step, rm, paths)
                &&& paths.len() == 1 ==> waits_to_run_on(one, rm, paths)
                &&& waits_to_run(
                    all,
                    seq!["rm"@, "--cached"@, "--ignore-unmatch"@, "-r"@, ":/"@],
                )
            }
            &&& branch.result is Ok && branch.next >= replies.len()
                && !branch.result->Ok_0.unborn ==> {
                &&& waits_to_run_on(step, restore, paths)
                &&& paths.len() == 1 ==> waits_to_run_on(one, restore, paths)
                &&& waits_to_run(all, seq!["restore"@, "--staged"@, ":/"@])
            }
        }),
{
    let branch = inspect::branch_state_step(replies, at, cwd);
    if branch.result is Ok && branch.next >= replies.len() {
        lemma_run_on(
            replies,
            branch.next,
            seq!["rm"@, "--cached"@, "--ignore-unmatch"@, "-r"@],
            paths,
        );
        lemma_run_on(replies, branch.next, seq!["restore"@, "--staged"@], paths);
        if paths.len() == 1 {
            assert(paths =~= seq![paths[0]]);
        }
    }
}

/// The changes of paths are shown by `git diff -- PATHS`, and those in the index by `git diff --cached -- PATHS`:
/// what is shown is what Git writes.
pub proof fn changes_are_those_of_the_paths(
    replies: Seq<ReplyView>,
    at: nat,
    paths: Seq<Seq<u8>>,
    staged: bool,
    status: ExitStatusView,
    stdout: Seq<char>,
    stderr: Seq<u8>,
)
    ensures
        ({
            let step = commits::diff_paths_step(replies, at, paths, staged);
            let one = commits::diff_path_step(replies, at, paths[0], staged);
            let words = if staged {
                seq!["diff"@, "--cached"@]
            } else {
                seq!["diff"@]
            };
            &&& at >= replies.len() ==> waits_to_run_on(step, words, paths)
            &&& at >= replies.len() && paths.len() == 1 ==> waits_to_run_on(one, words, paths)
            &&& at < replies.len() && status.code == Some(0i32) && replies[at as int] == (
            ReplyView::Output { status, stdout: utf8::encode_utf8(stdout), stderr })
                ==> step.result == Ok::<Seq<char>, HaltView<GitErrorView>>(
                bytes::lossy_text(utf8::encode_utf8(stdout)),
            )
        }),
{
    if at >= replies.len() {
        lemma_run_on(
            replies,
            at,
            if staged {
                seq!["diff"@, "--cached"@]
            } else {
                seq!["diff"@]
            },
            paths,
        );
        if paths.len() == 1 {
            assert(paths =~= seq![paths[0]]);
        }
    }
}

}
