//! What the guards find out and when they hold: the questions that they ask, word by word, and what the answers
//! have to be.
use crate::bytes;
use crate::git::branches;
use crate::git::commands;
use crate::git::commands::GitStep;
use crate::git::commits;
use crate::git::effects;
use crate::git::inspect;
use crate::git::inspect::Pick;
use crate::git::refs;
use crate::git::remotes;
use crate::git::status;
use crate::git::types::{
    BranchInfoView, BranchKind, BranchTargetView, GitErrorView, GitOutputView, HeadTargetView,
    IoFailureView, RepositoryOperation, StatusEntryView,
};
use crate::session::{ActionView, HaltView, ReplyView};
use crate::text;
use vstd::prelude::*;
use vstd::utf8;

verus! {

/// Whether an answer says that a command succeeded and wrote some bytes.
pub open spec fn wrote(replies: Seq<ReplyView>, at: nat, output: Seq<u8>) -> bool {
    &&& at < replies.len()
    &&& match replies[at as int] {
        ReplyView::Output { status, stdout, stderr: _ } => status.code == Some(0i32) && stdout
            == output,
        _ => false,
    }
}

/// Whether an answer says that something is there or not.
pub open spec fn answers(replies: Seq<ReplyView>, at: nat, there: bool) -> bool {
    at < replies.len() && replies[at as int] == ReplyView::Flag(there)
}

/// A path of the repository is asked by `git rev-parse --git-path`, and it is relative to the directory that Git
/// runs in.
pub proof fn paths_of_git_are_asked_of_git(
    replies: Seq<ReplyView>,
    at: nat,
    cwd: Seq<u8>,
    path: Seq<char>,
    place: Seq<char>,
)
    ensures
        ({
            let step = inspect::git_path_step(replies, at, cwd, path);
            &&& at >= replies.len() ==> effects::waits_to_run(
                step,
                seq!["rev-parse"@, "--git-path"@, path],
            )
            &&& effects::says(replies, at, 0, place, Seq::empty()) ==> step.next == at + 1
                && step.result == Ok::<Seq<u8>, HaltView<GitErrorView>>(
                bytes::joined_path(cwd, utf8::encode_utf8(text::trimmed(place))),
            )
        }),
{
    if effects::says(replies, at, 0, place, Seq::empty()) {
        effects::lemma_says(
            replies,
            at,
            0,
            place,
            Seq::empty(),
            seq!["rev-parse"@, "--git-path"@, path],
        );
    }
}

/// A merge is under way if and only if `MERGE_HEAD` is there.
pub proof fn merge_under_way_leaves_its_mark(
    replies: Seq<ReplyView>,
    at: nat,
    cwd: Seq<u8>,
    there: bool,
)
    ensures
        ({
            let path = inspect::git_path_step(replies, at, cwd, "MERGE_HEAD"@);
            let active = inspect::merge_operation_step(replies, at, cwd);
            &&& path.result is Ok && path.next >= replies.len() ==> effects::waits_for(
                active,
                ActionView::Exists { path: path.result->Ok_0 },
            )
            &&& path.result is Ok && answers(replies, path.next, there) ==> active.result == Ok::<
                Option<RepositoryOperation>,
                HaltView<GitErrorView>,
            >(
                if there {
                    Some(RepositoryOperation::Merge)
                } else {
                    None
                },
            )
        }),
{
}

/// A rebase is under way where `rebase-merge` is there, or where `rebase-apply` is there without mail being
/// applied; otherwise a merge may be.
pub proof fn rebase_under_way_leaves_its_marks(
    replies: Seq<ReplyView>,
    at: nat,
    cwd: Seq<u8>,
    marks: (bool, bool, bool),
)
    requires
        ({
            let apply = inspect::git_path_step(replies, at, cwd, "rebase-apply"@);
            let merge = inspect::git_path_step(replies, apply.next, cwd, "rebase-merge"@);
            &&& apply.result is Ok
            &&& merge.result is Ok
        }),
    ensures
        ({
            let apply = inspect::git_path_step(replies, at, cwd, "rebase-apply"@);
            let merge = inspect::git_path_step(replies, apply.next, cwd, "rebase-merge"@);
            let n = merge.next;
            let active = inspect::repository_operation_step(replies, at, cwd);
            let rebase = Ok::<Option<RepositoryOperation>, HaltView<GitErrorView>>(
                Some(RepositoryOperation::Rebase),
            );
            &&& n >= replies.len() ==> effects::waits_for(
                active,
                ActionView::Exists { path: merge.result->Ok_0 },
            )
            &&& answers(replies, n, marks.0) ==> {
                &&& marks.0 ==> active.result == rebase
                &&& !marks.0 && n + 1 >= replies.len() ==> effects::waits_for(
                    active,
                    ActionView::Exists { path: apply.result->Ok_0 },
                )
                &&& !marks.0 && answers(replies, n + 1, marks.1) ==> {
                    &&& !marks.1 ==> active == inspect::merge_operation_step(replies, n + 2, cwd)
                    &&& marks.1 && n + 2 >= replies.len() ==> effects::waits_for(
                        active,
                        ActionView::Exists {
                            path: bytes::joined_path(
                                apply.result->Ok_0,
                                utf8::encode_utf8("applying"@),
                            ),
                        },
                    )
                    &&& marks.1 && answers(replies, n + 2, marks.2) ==> {
                        &&& !marks.2 ==> active.result == rebase
                        &&& marks.2 ==> active == inspect::merge_operation_step(
                            replies,
                            n + 3,
                            cwd,
                        )
                    }
                }
            }
        }),
{
}

/// Whether a mark of an operation is found to be missing.
pub open spec fn unmarked(
    replies: Seq<ReplyView>,
    at: nat,
    cwd: Seq<u8>,
    marker: Seq<char>,
) -> bool {
    let path = inspect::git_path_step(replies, at, cwd, marker);
    path.result is Ok && answers(replies, path.next, false)
}

/// Where the question for a mark ends.
pub open spec fn behind_mark(
    replies: Seq<ReplyView>,
    at: nat,
    cwd: Seq<u8>,
    marker: Seq<char>,
) -> nat {
    inspect::git_path_step(replies, at, cwd, marker).next + 1
}

/// Nothing is under way if and only if no merge and no rebase is, no mail is being applied, and there is no commit
/// being picked or reverted.
pub proof fn nothing_is_under_way_without_marks(replies: Seq<ReplyView>, at: nat, cwd: Seq<u8>)
    ensures
        ({
            let active = inspect::in_progress_operation_step(replies, at, cwd);
            let operation = inspect::repository_operation_step(replies, at, cwd);
            let mail = behind_mark(replies, operation.next, cwd, "rebase-apply/applying"@);
            let pick = behind_mark(replies, mail, cwd, "CHERRY_PICK_HEAD"@);
            active.result == Ok::<Option<Seq<char>>, HaltView<GitErrorView>>(None) <==> {
                &&& operation.result == Ok::<Option<RepositoryOperation>, HaltView<GitErrorView>>(
                    None,
                )
                &&& unmarked(replies, operation.next, cwd, "rebase-apply/applying"@)
                &&& unmarked(replies, mail, cwd, "CHERRY_PICK_HEAD"@)
                &&& unmarked(replies, pick, cwd, "REVERT_HEAD"@)
            }
        }),
{
}

/// The working tree is clean if and only if nothing is under way and the status report lists no path at all.
pub proof fn clean_working_tree_has_no_changes(
    replies: Seq<ReplyView>,
    at: nat,
    cwd: Seq<u8>,
    operation: Seq<char>,
)
    ensures
        ({
            let clean = inspect::ensure_clean_worktree_step(replies, at, cwd, operation);
            let active = inspect::in_progress_operation_step(replies, at, cwd);
            let report = inspect::status_step(replies, active.next, cwd);
            &&& clean.result is Ok <==> {
                &&& active.result == Ok::<Option<Seq<char>>, HaltView<GitErrorView>>(None)
                &&& report.result is Ok
                &&& report.result->Ok_0.entries.len() == 0
            }
            &&& clean.result is Ok ==> clean.next == report.next
        }),
{
    let active = inspect::in_progress_operation_step(replies, at, cwd);
    let report = inspect::status_step(replies, active.next, cwd);
    if report.result is Ok && report.result->Ok_0.entries.len() == 0 {
        assert(inspect::picked(Pick::Conflicted, report.result->Ok_0.entries).len() == 0);
    }
}

/// The state of the working tree is what `git status --porcelain=v2 --branch -z` reports, and the operation that
/// is under way.
pub proof fn status_is_what_git_reports(
    replies: Seq<ReplyView>,
    at: nat,
    cwd: Seq<u8>,
    output: Seq<u8>,
)
    ensures
        ({
            let step = inspect::status_step(replies, at, cwd);
            let report = status::status_of(output);
            let active = inspect::repository_operation_step(replies, at + 1, cwd);
            &&& at >= replies.len() ==> effects::waits_for(
                step,
                ActionView::RunRaw {
                    args: seq!["status"@, "--porcelain=v2"@, "--branch"@, "-z"@],
                },
            )
            &&& wrote(replies, at, output) && report is Ok && active.result is Ok ==> {
                &&& step.result is Ok
                &&& step.result->Ok_0.entries == report->Ok_0.entries
                &&& step.result->Ok_0.branch == report->Ok_0.branch
                &&& step.result->Ok_0.operation == active.result->Ok_0
            }
            &&& step.result is Ok ==> exists|bytes: Seq<u8>|
                #![trigger status::status_of(bytes)]
                wrote(replies, at, bytes) && status::status_of(bytes) is Ok
                    && step.result->Ok_0.entries == status::status_of(bytes)->Ok_0.entries
                    && step.result->Ok_0.branch == status::status_of(bytes)->Ok_0.branch
        }),
{
    let step = inspect::status_step(replies, at, cwd);
    if step.result is Ok {
        let bytes = replies[at as int]->Output_stdout;
        assert(wrote(replies, at, bytes));
        assert(status::status_of(bytes) is Ok);
    }
}

/// The branch, what it follows, and both the branch and the root of a repository are those that Git reports.
pub proof fn branch_and_upstream_are_those_of_the_report(
    replies: Seq<ReplyView>,
    at: nat,
    cwd: Seq<u8>,
)
    ensures
        ({
            let report = inspect::status_step(replies, at, cwd);
            let branch = inspect::branch_state_step(replies, at, cwd);
            let upstream = inspect::upstream_step(replies, at, cwd);
            &&& branch.result is Ok <==> report.result is Ok
            &&& branch.result is Ok ==> branch.result->Ok_0 == report.result->Ok_0.branch
            &&& upstream.result is Ok <==> report.result is Ok
            &&& upstream.result is Ok ==> upstream.result->Ok_0
                == report.result->Ok_0.branch.upstream
        }),
        ({
            let whole = inspect::repository_step(replies, at, cwd);
            let root = inspect::repo_root_step(replies, at);
            let remotes = inspect::remotes_step(replies, root.next);
            let report = inspect::status_step(replies, remotes.next, cwd);
            &&& whole.result is Ok <==> root.result is Ok && remotes.result is Ok
                && report.result is Ok
            &&& whole.result is Ok ==> {
                &&& whole.result->Ok_0.root == root.result->Ok_0
                &&& whole.result->Ok_0.remotes == remotes.result->Ok_0
                &&& whole.result->Ok_0.status == report.result->Ok_0
                &&& whole.result->Ok_0.branch == report.result->Ok_0.branch
            }
        }),
{
}

/// The root of a repository is what `git rev-parse --show-toplevel` writes before the end of its line, whatever is
/// in it.
pub proof fn root_is_what_git_writes(replies: Seq<ReplyView>, at: nat, root: Seq<u8>)
    ensures
        ({
            let step = inspect::repo_root_step(replies, at);
            &&& at >= replies.len() ==> effects::waits_for(
                step,
                ActionView::RunRaw { args: seq!["rev-parse"@, "--show-toplevel"@] },
            )
            &&& wrote(replies, at, root.push(10u8)) ==> step.result == Ok::<
                Seq<u8>,
                HaltView<GitErrorView>,
            >(root)
        }),
{
    assert(root.push(10u8).drop_last() =~= root);
}

/// The commit of `HEAD` is what `git rev-parse --verify HEAD` writes, and there is none before the first commit.
pub proof fn head_commit_is_asked_of_git(
    replies: Seq<ReplyView>,
    at: nat,
    cwd: Seq<u8>,
    output: Seq<char>,
)
    ensures
        ({
            let step = inspect::head_commit_step(replies, at, cwd);
            let branch = inspect::branch_state_step(replies, at, cwd);
            &&& branch.result is Ok && branch.result->Ok_0.unborn ==> step.result == Ok::<
                Option<Seq<char>>,
                HaltView<GitErrorView>,
            >(None)
            &&& branch.result is Ok && !branch.result->Ok_0.unborn && branch.next >= replies.len()
                ==> effects::waits_to_run(step, seq!["rev-parse"@, "--verify"@, "HEAD"@])
            &&& branch.result is Ok && !branch.result->Ok_0.unborn && effects::says(
                replies,
                branch.next,
                0,
                output,
                Seq::empty(),
            ) ==> step.result == Ok::<Option<Seq<char>>, HaltView<GitErrorView>>(
                Some(text::trimmed(output)),
            )
        }),
{
    let branch = inspect::branch_state_step(replies, at, cwd);
    if effects::says(replies, branch.next, 0, output, Seq::empty()) {
        effects::lemma_says(
            replies,
            branch.next,
            0,
            output,
            Seq::empty(),
            seq!["rev-parse"@, "--verify"@, "HEAD"@],
        );
    }
}

/// What `HEAD` refers to is what `git symbolic-ref --quiet HEAD` writes; it refers to nothing where that ends with
/// one.
pub proof fn symbolic_head_is_asked_of_git(
    replies: Seq<ReplyView>,
    at: nat,
    output: Seq<char>,
)
    ensures
        ({
            let step = inspect::symbolic_head_step(replies, at);
            &&& at >= replies.len() ==> effects::waits_to_run(
                step,
                seq!["symbolic-ref"@, "--quiet"@, "HEAD"@],
            )
            &&& effects::says(replies, at, 0, output, Seq::empty()) ==> step.result == Ok::<
                Option<Seq<char>>,
                HaltView<GitErrorView>,
            >(Some(text::trimmed(output)))
            &&& effects::says(replies, at, 1, output, Seq::empty()) ==> step.result == Ok::<
                Option<Seq<char>>,
                HaltView<GitErrorView>,
            >(None)
        }),
{
    let words = seq!["symbolic-ref"@, "--quiet"@, "HEAD"@];
    if effects::says(replies, at, 0, output, Seq::empty()) {
        effects::lemma_says(replies, at, 0, output, Seq::empty(), words);
    }
    if effects::says(replies, at, 1, output, Seq::empty()) {
        effects::lemma_says(replies, at, 1, output, Seq::empty(), words);
    }
}

/// `HEAD` is unchanged if and only if both its commit and what it refers to are those that were planned with.
pub proof fn unchanged_head_has_its_commit_and_reference(
    replies: Seq<ReplyView>,
    at: nat,
    cwd: Seq<u8>,
    expected: HeadTargetView,
    operation: Seq<char>,
)
    ensures
        ({
            let step = inspect::ensure_head_target_unchanged_step(
                replies,
                at,
                cwd,
                expected,
                operation,
            );
            let commit = inspect::head_commit_step(replies, at, cwd);
            let symbolic = inspect::symbolic_head_step(replies, commit.next);
            &&& step.result is Ok <==> {
                &&& commit.result == Ok::<Option<Seq<char>>, HaltView<GitErrorView>>(expected.oid)
                &&& symbolic.result == Ok::<Option<Seq<char>>, HaltView<GitErrorView>>(
                    expected.reference,
                )
            }
            &&& inspect::head_target_step(replies, at, cwd).result is Ok <==> commit.result is Ok
                && symbolic.result is Ok
            &&& commit.result is Ok && symbolic.result is Ok ==> {
                let target = inspect::head_target_step(replies, at, cwd).result->Ok_0;
                target.oid == commit.result->Ok_0 && target.reference == symbolic.result->Ok_0
            }
        }),
{
}

/// How many branches of a list have a name.
pub open spec fn count_named(list: Seq<BranchInfoView>, name: Seq<char>) -> nat {
    inspect::named(list, name).len()
}

/// A branch that is listed once under its name is found, with its reference, its commit and its kind; a name that
/// is not listed is not found, and one that is listed twice is refused.
pub proof fn branches_are_found_by_their_name(
    list: Seq<BranchInfoView>,
    name: Seq<char>,
    place: int,
)
    requires
        0 <= place < list.len(),
        list[place].name == name,
    ensures
        (forall|i: int| 0 <= i < list.len() && i != place ==> (#[trigger] list[i]).name != name)
            ==> inspect::target_named(list, name) == Ok::<Option<BranchTargetView>, GitErrorView>(
            Some(
                BranchTargetView {
                    name: list[place].name,
                    reference: list[place].reference,
                    oid: list[place].oid,
                    kind: list[place].kind,
                },
            ),
        ),
        (exists|i: int| 0 <= i < list.len() && i != place && (#[trigger] list[i]).name == name)
            ==> inspect::target_named(list, name) is Err,
    decreases list.len(),
{
    lemma_named_once(list, name, place);
}

/// A name that no branch of a list has is not found.
pub proof fn unlisted_branches_are_not_found(list: Seq<BranchInfoView>, name: Seq<char>)
    requires
        forall|i: int| 0 <= i < list.len() ==> (#[trigger] list[i]).name != name,
    ensures
        inspect::target_named(list, name) == Ok::<Option<BranchTargetView>, GitErrorView>(None),
{
    lemma_named_none(list, name);
}

/// Nothing is named where no branch has the name.
proof fn lemma_named_none(list: Seq<BranchInfoView>, name: Seq<char>)
    requires
        forall|i: int| 0 <= i < list.len() ==> (#[trigger] list[i]).name != name,
    ensures
        inspect::named(list, name) == Seq::<BranchInfoView>::empty(),
    decreases list.len(),
{
    if list.len() > 0 {
        let rest = list.drop_last();
        assert forall|i: int| 0 <= i < rest.len() implies (#[trigger] rest[i]).name != name by {
            assert(rest[i] == list[i]);
        }
        lemma_named_none(rest, name);
        assert(list.last() == list[list.len() - 1]);
    }
}

/// What is named where one branch has the name, and how many there are where others do.
proof fn lemma_named_once(list: Seq<BranchInfoView>, name: Seq<char>, place: int)
    requires
        0 <= place < list.len(),
        list[place].name == name,
    ensures
        inspect::named(list, name).len() >= 1,
        (forall|i: int| 0 <= i < list.len() && i != place ==> (#[trigger] list[i]).name != name)
            ==> inspect::named(list, name) == seq![list[place]],
        (exists|i: int| 0 <= i < list.len() && i != place && (#[trigger] list[i]).name == name)
            ==> inspect::named(list, name).len() >= 2,
    decreases list.len(),
{
    let rest = list.drop_last();
    let last = list.len() - 1;
    assert(list.last() == list[last]);
    if place == last {
        if forall|i: int| 0 <= i < list.len() && i != place ==> (#[trigger] list[i]).name != name {
            assert forall|i: int| 0 <= i < rest.len() implies (#[trigger] rest[i]).name != name by {
                assert(rest[i] == list[i]);
            }
            lemma_named_none(rest, name);
            assert(inspect::named(list, name) =~= seq![list[place]]);
        }
        if exists|i: int| 0 <= i < list.len() && i != place && (#[trigger] list[i]).name == name {
            let other = choose|i: int|
                0 <= i < list.len() && i != place && (#[trigger] list[i]).name == name;
            assert(rest[other] == list[other]);
            lemma_named_once(rest, name, other);
        }
    } else {
        assert(rest[place] == list[place]);
        lemma_named_once(rest, name, place);
        if forall|i: int| 0 <= i < list.len() && i != place ==> (#[trigger] list[i]).name != name {
            assert forall|i: int| 0 <= i < rest.len() && i != place implies (
            #[trigger] rest[i]).name != name by {
                assert(rest[i] == list[i]);
            }
            assert(list[last].name != name);
        }
        if exists|i: int| 0 <= i < list.len() && i != place && (#[trigger] list[i]).name == name {
            let other = choose|i: int|
                0 <= i < list.len() && i != place && (#[trigger] list[i]).name == name;
            if other != last {
                assert(rest[other] == list[other]);
            }
        }
    }
}

/// Which branches there are is asked of `git for-each-ref`, for local and remote branches alike.
pub proof fn branches_are_asked_of_git(
    replies: Seq<ReplyView>,
    at: nat,
    name: Seq<char>,
    output: Seq<char>,
)
    ensures
        ({
            let step = inspect::branches_step(replies, at);
            let target = inspect::branch_target_step(replies, at, name);
            let words = seq![
                "for-each-ref"@,
                "--format=%(refname)%00%(objectname)%00%(upstream:short)%00%(HEAD)"@,
                "refs/heads"@,
                "refs/remotes"@,
            ];
            &&& at >= replies.len() ==> effects::waits_to_run(step, words)
                && effects::waits_to_run(target, words)
            &&& effects::says(replies, at, 0, output, Seq::empty()) && refs::branches_of(output)
                is Ok ==> {
                &&& step.result == Ok::<Seq<BranchInfoView>, HaltView<GitErrorView>>(
                    refs::branches_of(output)->Ok_0,
                )
                &&& step.next == at + 1
                &&& target.next == at + 1
            }
            &&& target.result is Ok <==> step.result is Ok && inspect::target_named(
                step.result->Ok_0,
                name,
            ) is Ok
            &&& target.result is Ok ==> target.result->Ok_0 == inspect::target_named(
                step.result->Ok_0,
                name,
            )->Ok_0
        }),
{
    let words = seq![
        "for-each-ref"@,
        "--format=%(refname)%00%(objectname)%00%(upstream:short)%00%(HEAD)"@,
        "refs/heads"@,
        "refs/remotes"@,
    ];
    if effects::says(replies, at, 0, output, Seq::empty()) {
        effects::lemma_says(replies, at, 0, output, Seq::empty(), words);
    }
}

/// A branch is unchanged if and only if it is found under its name with the reference, the commit and the kind that
/// it was planned with.
pub proof fn unchanged_branch_has_its_commit_and_reference(
    replies: Seq<ReplyView>,
    at: nat,
    expected: BranchTargetView,
    operation: Seq<char>,
)
    ensures
        ({
            let step = inspect::ensure_branch_target_unchanged_step(
                replies,
                at,
                expected,
                operation,
            );
            let found = inspect::branch_target_step(replies, at, expected.name);
            step.result is Ok <==> {
                &&& found.result is Ok
                &&& found.result->Ok_0 is Some
                &&& found.result->Ok_0->Some_0.name == expected.name
                &&& found.result->Ok_0->Some_0.reference == expected.reference
                &&& found.result->Ok_0->Some_0.oid == expected.oid
                &&& found.result->Ok_0->Some_0.kind == expected.kind
            }
        }),
{
}

/// The commit of a branch that follows a remote is what `git rev-parse --verify` says of its reference, and it is
/// unchanged if and only if it is the planned one.
pub proof fn followed_commit_is_asked_of_git(
    replies: Seq<ReplyView>,
    at: nat,
    remote: Seq<char>,
    branch: Seq<char>,
    expected: Option<Seq<char>>,
    operation: Seq<char>,
    output: Seq<char>,
)
    ensures
        ({
            let step = remotes::remote_tracking_oid_step(replies, at, remote, branch);
            let held = remotes::ensure_remote_tracking_unchanged_step(
                replies,
                at,
                remote,
                branch,
                expected,
                operation,
            );
            &&& at >= replies.len() ==> effects::waits_to_run(
                step,
                seq!["rev-parse"@, "--verify"@, "refs/remotes/"@ + remote + "/"@ + branch],
            )
            &&& effects::says(replies, at, 0, output, Seq::empty()) ==> step.result == Ok::<
                Option<Seq<char>>,
                HaltView<GitErrorView>,
            >(Some(text::trimmed(output)))
            &&& effects::says(replies, at, 1, output, Seq::empty()) ==> step.result == Ok::<
                Option<Seq<char>>,
                HaltView<GitErrorView>,
            >(None)
            &&& held.result is Ok <==> step.result == Ok::<
                Option<Seq<char>>,
                HaltView<GitErrorView>,
            >(expected)
        }),
{
    let words = seq!["rev-parse"@, "--verify"@, "refs/remotes/"@ + remote + "/"@ + branch];
    if effects::says(replies, at, 0, output, Seq::empty()) {
        effects::lemma_says(replies, at, 0, output, Seq::empty(), words);
    }
    if effects::says(replies, at, 1, output, Seq::empty()) {
        effects::lemma_says(replies, at, 1, output, Seq::empty(), words);
    }
}

/// The name of a new branch is valid if and only if it has no dash or white space in front, no white space at its
/// end, is not empty, and `git check-ref-format --branch` accepts it.
pub proof fn names_of_new_branches_are_checked(
    replies: Seq<ReplyView>,
    at: nat,
    branch: Seq<char>,
    output: Seq<char>,
)
    ensures
        ({
            let step = branches::ensure_valid_new_branch_name_step(replies, at, branch);
            let plain = branch.len() > 0 && branch[0] != '-' && !text::is_white(branch[0])
                && !text::is_white(branch.last());
            &&& !plain ==> step.result is Err && step.result->Err_0 is Failed
            &&& plain && at >= replies.len() ==> effects::waits_to_run(
                step,
                seq!["check-ref-format"@, "--branch"@, branch],
            )
            &&& plain && effects::says(replies, at, 0, output, Seq::empty()) ==> step.result is Ok
            &&& effects::says(replies, at, 1, output, Seq::empty()) ==> step.result is Err
                && step.result->Err_0 is Failed
        }),
{
    let words = seq!["check-ref-format"@, "--branch"@, branch];
    if effects::says(replies, at, 0, output, Seq::empty()) {
        effects::lemma_says(replies, at, 0, output, Seq::empty(), words);
    }
    if effects::says(replies, at, 1, output, Seq::empty()) {
        effects::lemma_says(replies, at, 1, output, Seq::empty(), words);
    }
    text::lemma_trimmed_start(branch);
    text::lemma_trimmed_end(text::trimmed_start(branch));
    if branch.len() > 0 {
        if text::is_white(branch[0]) {
            assert(text::trimmed(branch) != branch);
        } else {
            assert(text::trimmed_start(branch) == branch);
            if text::is_white(branch.last()) {
                assert(text::trimmed(branch) != branch);
            } else {
                assert(text::trimmed(branch) == branch);
            }
        }
    }
}

/// The local name of a remote branch is all that stands behind the name of the remote, slashes included, and there
/// is none where nothing does.
pub proof fn remote_branches_have_local_names(remote: Seq<char>, branch: Seq<char>)
    requires
        !remote.contains('/'),
    ensures
        branch.len() > 0 && remote.len() > 0 ==> refs::local_name(remote + seq!['/'] + branch)
            == Some(branch),
        refs::local_name(remote) is None,
{
    let name = remote + seq!['/'] + branch;
    assert forall|i: int| 0 <= i < remote.len() implies name[i] != '/' by {
        assert(name[i] == remote[i]);
        if remote[i] == '/' {
            assert(remote.contains('/'));
        }
    }
    text::lemma_position_unique(name, '/', remote.len() as int);
    assert(name.skip(remote.len() as int + 1) =~= branch);
    assert(name.take(remote.len() as int) =~= remote);
    text::lemma_position(remote, '/');
}

/// A remote branch may be checked out only where no local branch has its local name.
pub proof fn remote_checkout_needs_a_free_name(
    replies: Seq<ReplyView>,
    at: nat,
    branch: BranchTargetView,
    local: Seq<char>,
)
    requires
        branch.kind == BranchKind::Remote,
        refs::local_name(branch.name) == Some(local),
    ensures
        ({
            let step = branches::ensure_remote_checkout_target_available_step(replies, at, branch);
            let taken = inspect::branch_target_step(replies, at, local);
            &&& step.result is Ok ==> taken.result is Ok && (taken.result->Ok_0 is None
                || taken.result->Ok_0->Some_0.kind == BranchKind::Remote)
            &&& taken.result is Ok && taken.result->Ok_0 is None ==> step.result is Ok
            &&& taken.result is Ok && taken.result->Ok_0 is Some && taken.result->Ok_0->Some_0.kind
                == BranchKind::Local ==> step.result is Err && step.result->Err_0 is Failed
        }),
{
}

/// Whether a path counts as staged, as changed in the working tree, as not known, or as in conflict.
pub open spec fn belongs(pick: Pick, entry: StatusEntryView) -> bool {
    let known = entry.entry_type is Ordinary || entry.entry_type is Renamed || entry.entry_type
        is Copied;
    match pick {
        Pick::Staged => known && !(entry.index is Unmodified),
        Pick::Unstaged => known && !(entry.worktree is Unmodified),
        Pick::Untracked => entry.entry_type is Untracked,
        Pick::Conflicted => entry.entry_type is Conflict,
    }
}

/// The staged, changed, untracked and conflicting paths of a report are those that belong there, each of them once
/// and in their order.
pub proof fn paths_are_listed_where_they_belong(
    pick: Pick,
    entries: Seq<StatusEntryView>,
    more: Seq<StatusEntryView>,
    entry: StatusEntryView,
)
    ensures
        inspect::picked(pick, Seq::<StatusEntryView>::empty()).len() == 0,
        inspect::picked(pick, entries.push(entry)) == if belongs(pick, entry) {
            inspect::picked(pick, entries).push(entry)
        } else {
            inspect::picked(pick, entries)
        },
        inspect::picked(pick, entries + more) == inspect::picked(pick, entries) + inspect::picked(
            pick,
            more,
        ),
    decreases more.len(),
{
    assert(entries.push(entry).drop_last() =~= entries);
    if more.len() == 0 {
        assert(entries + more =~= entries);
        assert(inspect::picked(pick, entries) + inspect::picked(pick, more) =~= inspect::picked(
            pick,
            entries,
        ));
    } else {
        let rest = more.drop_last();
        paths_are_listed_where_they_belong(pick, entries, rest, entry);
        assert((entries + more).drop_last() =~= entries + rest);
        assert((entries + more).last() == more.last());
        assert(inspect::picked(pick, entries + more) =~= inspect::picked(pick, entries)
            + inspect::picked(pick, more));
    }
}

/// A commit is not refused for being signed where Git says anything else than that it signs, or says nothing.
pub proof fn commits_are_signed_only_where_git_says_so(
    replies: Seq<ReplyView>,
    at: nat,
    cwd: Seq<u8>,
    value: Seq<char>,
)
    ensures
        ({
            let step = commits::config_bool_step(replies, at, "commit.gpgsign"@);
            let word = text::trimmed(value);
            &&& effects::says(replies, at, 0, value, Seq::empty()) ==> step.result == Ok::<
                bool,
                HaltView<GitErrorView>,
            >(word == "true"@ || word == "yes"@ || word == "on"@ || word == "1"@)
            &&& effects::says(replies, at, 1, value, Seq::empty()) ==> step.result == Ok::<
                bool,
                HaltView<GitErrorView>,
            >(false)
        }),
        ({
            let step = commits::ensure_guarded_commit_supported_step(replies, at, cwd);
            let signs = commits::config_bool_step(replies, at, "commit.gpgsign"@);
            let hooks = commits::enabled_hooks_step(
                replies,
                signs.next,
                cwd,
                commits::commit_hooks(),
            );
            signs.result == Ok::<bool, HaltView<GitErrorView>>(false) && hooks.result is Ok
                && hooks.result->Ok_0.len() == 0 ==> step.result is Ok
        }),
{
    reveal_strlit("--bool");
    let words = seq!["config"@, "--bool"@, "--get"@, "commit.gpgsign"@];
    if effects::says(replies, at, 0, value, Seq::empty()) {
        effects::lemma_says(replies, at, 0, value, Seq::empty(), words);
    }
    if effects::says(replies, at, 1, value, Seq::empty()) {
        effects::lemma_says(replies, at, 1, value, Seq::empty(), words);
    }
}

/// Whether a command gives what it wrote where it succeeds, and fails where it ends with one.
pub open spec fn gives_output(
    step: GitStep<GitOutputView>,
    replies: Seq<ReplyView>,
    at: nat,
    stdout: Seq<char>,
    stderr: Seq<char>,
) -> bool {
    &&& effects::says(replies, at, 0, stdout, stderr) ==> step.result is Ok
        && step.result->Ok_0.stdout == stdout && step.result->Ok_0.stderr == stderr
    &&& effects::says(replies, at, 1, stdout, stderr) ==> step.result is Err && step.result->Err_0
        is Failed
}

/// Staging paths and taking them out of the index gives what Git writes.
pub proof fn commands_on_paths_give_what_git_writes(
    replies: Seq<ReplyView>,
    at: nat,
    cwd: Seq<u8>,
    paths: Seq<Seq<u8>>,
    path: Seq<u8>,
    stdout: Seq<char>,
    stderr: Seq<char>,
)
    ensures
        gives_output(commits::stage_paths_step(replies, at, paths), replies, at, stdout, stderr),
        gives_output(commits::stage_path_step(replies, at, path), replies, at, stdout, stderr),
        gives_output(commits::stage_all_step(replies, at), replies, at, stdout, stderr),
        ({
            let branch = inspect::branch_state_step(replies, at, cwd);
            branch.result is Ok ==> {
                &&& gives_output(
                    commits::unstage_paths_step(replies, at, cwd, paths),
                    replies,
                    branch.next,
                    stdout,
                    stderr,
                )
                &&& gives_output(
                    commits::unstage_path_step(replies, at, cwd, path),
                    replies,
                    branch.next,
                    stdout,
                    stderr,
                )
                &&& gives_output(
                    commits::unstage_all_step(replies, at, cwd),
                    replies,
                    branch.next,
                    stdout,
                    stderr,
                )
            }
        }),
{
    utf8::encode_utf8_valid_utf8(stdout);
    utf8::encode_utf8_valid_utf8(stderr);
    utf8::encode_utf8_decode_utf8(stdout);
    utf8::encode_utf8_decode_utf8(stderr);
}

/// A command that could not be started fails, whichever way its output is taken.
pub proof fn commands_that_do_not_start_fail(
    replies: Seq<ReplyView>,
    at: nat,
    words: Seq<Seq<char>>,
    args: Seq<Seq<u8>>,
    source: IoFailureView,
)
    requires
        at < replies.len(),
        replies[at as int] == ReplyView::Failed(source),
    ensures
        commands::run_step(replies, at, words).result == Err::<
            GitOutputView,
            HaltView<GitErrorView>,
        >(HaltView::Failed(GitErrorView::Io { args: words, source })),
        commands::run_raw_step(replies, at, words).result == Err::<
            Seq<u8>,
            HaltView<GitErrorView>,
        >(HaltView::Failed(GitErrorView::Io { args: words, source })),
        ({
            let step = commits::run_os_step(replies, at, args);
            step.result is Err && step.result->Err_0 is Failed && step.result->Err_0->Failed_0 is Io
        }),
{
}

}
