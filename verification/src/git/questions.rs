//! What Git is asked, name by name, on the way to an answer: the marks of what is under way, and the settings that a
//! push goes by, and what has to hold before a pull, a merge or a new branch.
use crate::git::branches;
use crate::git::commands;
use crate::git::effects;
use crate::git::guards;
use crate::git::inspect;
use crate::git::laws;
use crate::git::remotes;
use crate::git::types::{
    BranchTargetView, GitErrorView, HeadTargetView, RepositoryOperation,
};
use crate::parts;
use crate::session::{HaltView, ReplyView};
use crate::text;
use vstd::prelude::*;

verus! {

/// The words that ask Git for a path of the repository.
pub open spec fn path_words(name: Seq<char>) -> Seq<Seq<char>> {
    seq!["rev-parse"@, "--git-path"@, name]
}

/// The words that ask Git for a setting.
pub open spec fn setting_words(key: Seq<char>) -> Seq<Seq<char>> {
    seq!["config"@, "--get"@, key]
}

/// A merge or a rebase is recognised by `rebase-apply`, `rebase-merge` and `MERGE_HEAD`: these are the paths that Git
/// is asked for.
pub proof fn marks_of_merge_and_rebase_are_asked_for(
    replies: Seq<ReplyView>,
    at: nat,
    cwd: Seq<u8>,
)
    ensures
        ({
            let active = inspect::repository_operation_step(replies, at, cwd);
            let first = inspect::git_path_step(replies, at, cwd, "rebase-apply"@);
            &&& at >= replies.len() ==> effects::waits_to_run(active, path_words("rebase-apply"@))
            &&& first.result is Ok && first.next >= replies.len() ==> effects::waits_to_run(
                active,
                path_words("rebase-merge"@),
            )
        }),
        at >= replies.len() ==> effects::waits_to_run(
            inspect::merge_operation_step(replies, at, cwd),
            path_words("MERGE_HEAD"@),
        ),
{
}

/// Where neither a merge nor a rebase is under way, mail that is being applied is recognised by
/// `rebase-apply/applying`, a commit that is being picked by `CHERRY_PICK_HEAD` and one that is being reverted by
/// `REVERT_HEAD`. Git is asked for these paths, and what is found is called by its name.
pub proof fn other_marks_are_asked_for(replies: Seq<ReplyView>, at: nat, cwd: Seq<u8>)
    requires
        inspect::repository_operation_step(replies, at, cwd).result == Ok::<
            Option<RepositoryOperation>,
            HaltView<GitErrorView>,
        >(None),
    ensures
        ({
            let active = inspect::in_progress_operation_step(replies, at, cwd);
            let n0 = inspect::repository_operation_step(replies, at, cwd).next;
            let first = inspect::git_path_step(replies, n0, cwd, "rebase-apply/applying"@);
            let n1 = first.next + 1;
            let second = inspect::git_path_step(replies, n1, cwd, "CHERRY_PICK_HEAD"@);
            let n2 = second.next + 1;
            let third = inspect::git_path_step(replies, n2, cwd, "REVERT_HEAD"@);
            let no_mail = first.result is Ok && guards::answers(replies, first.next, false);
            let no_pick = no_mail && second.result is Ok && guards::answers(
                replies,
                second.next,
                false,
            );
            let called = |label: Seq<char>|
                active.result == Ok::<Option<Seq<char>>, HaltView<GitErrorView>>(Some(label));
            &&& n0 >= replies.len() ==> effects::waits_to_run(
                active,
                path_words("rebase-apply/applying"@),
            )
            &&& no_mail && n1 >= replies.len() ==> effects::waits_to_run(
                active,
                path_words("CHERRY_PICK_HEAD"@),
            )
            &&& no_pick && n2 >= replies.len() ==> effects::waits_to_run(
                active,
                path_words("REVERT_HEAD"@),
            )
            &&& first.result is Ok && guards::answers(replies, first.next, true) ==> called("am"@)
            &&& no_mail && second.result is Ok && guards::answers(replies, second.next, true)
                ==> called("cherry-pick"@)
            &&& no_pick && third.result is Ok && guards::answers(replies, third.next, true)
                ==> called("revert"@)
        }),
{
}

/// A merge and a rebase that are under way are called by their names.
pub proof fn merge_and_rebase_are_called_by_their_names(
    replies: Seq<ReplyView>,
    at: nat,
    cwd: Seq<u8>,
)
    ensures
        ({
            let active = inspect::in_progress_operation_step(replies, at, cwd);
            let operation = inspect::repository_operation_step(replies, at, cwd);
            operation.result is Ok && operation.result->Ok_0 is Some ==> active.result == Ok::<
                Option<Seq<char>>,
                HaltView<GitErrorView>,
            >(
                Some(
                    match operation.result->Ok_0->Some_0 {
                        RepositoryOperation::Merge => "merge"@,
                        RepositoryOperation::Rebase => "rebase"@,
                    },
                ),
            )
        }),
{
}

/// What a branch follows is read from its settings `remote` and `merge`.
pub proof fn upstream_is_read_from_the_settings_of_the_branch(
    replies: Seq<ReplyView>,
    at: nat,
    branch: Seq<char>,
)
    ensures
        ({
            let step = remotes::upstream_push_target_step(replies, at, branch);
            let first = commands::config_value_step(
                replies,
                at,
                Seq::empty(),
                "branch."@ + branch + ".remote"@,
            );
            &&& at >= replies.len() ==> effects::waits_to_run(
                step,
                setting_words("branch."@ + branch + ".remote"@),
            )
            &&& first.result is Ok && first.next >= replies.len() ==> effects::waits_to_run(
                step,
                setting_words("branch."@ + branch + ".merge"@),
            )
        }),
{
}

/// Where a push goes is read from `pushRemote` of the branch, from `remote.pushDefault`, and where the branch follows
/// another from `push.default`.
pub proof fn push_target_is_read_from_the_settings(
    replies: Seq<ReplyView>,
    at: nat,
    branch: Seq<char>,
    upstream: Option<(Seq<char>, Seq<char>)>,
    default_remote: Option<Seq<char>>,
)
    ensures
        ({
            let step = remotes::typed_push_target_step(
                replies,
                at,
                branch,
                upstream,
                default_remote,
            );
            let own = commands::config_value_step(
                replies,
                at,
                Seq::empty(),
                "branch."@ + branch + ".pushRemote"@,
            );
            let common = commands::config_value_step(
                replies,
                own.next,
                Seq::empty(),
                "remote.pushDefault"@,
            );
            let remote = remotes::push_remote(
                own.result->Ok_0,
                common.result->Ok_0,
                upstream,
                default_remote,
            );
            &&& at >= replies.len() ==> effects::waits_to_run(
                step,
                setting_words("branch."@ + branch + ".pushRemote"@),
            )
            &&& own.result is Ok && own.next >= replies.len() ==> effects::waits_to_run(
                step,
                setting_words("remote.pushDefault"@),
            )
            &&& own.result is Ok && common.result is Ok && common.next >= replies.len()
                && remote is Some && remote->Some_0.len() > 0 && upstream is Some
                ==> effects::waits_to_run(step, setting_words("push.default"@))
        }),
{
}

/// Where Git names the remote of a push and no branch on it, `push.default` decides.
pub proof fn push_without_a_branch_goes_by_the_setting(
    replies: Seq<ReplyView>,
    at: nat,
    branch: Seq<char>,
    remote: Seq<char>,
)
    requires
        remote.len() > 0,
        !remote.contains('\0'),
        text::trimmed(remote.push('\0')) == remote.push('\0'),
        effects::says(replies, at, 0, remote.push('\0'), Seq::empty()),
        replies.len() == at + 1,
    ensures
        effects::waits_to_run(
            remotes::push_target_step(replies, at, branch),
            setting_words("push.default"@),
        ),
{
    let words = seq![
        "for-each-ref"@,
        "--format=%(push:remotename)%00%(push:short)"@,
        "--count=1"@,
        "--"@,
        "refs/heads/"@ + branch,
    ];
    effects::lemma_says(replies, at, 0, remote.push('\0'), Seq::empty(), words);
    let line = remote.push('\0');
    assert(remote + seq!['\0'] + Seq::empty() =~= line);
    parts::lemma_first_part(remote, '\0', Seq::empty());
    assert(line.take(remote.len() as int) =~= remote);
    assert(line.skip(remote.len() as int + 1) =~= Seq::empty());
}

/// Before a pull, Git is asked where the branch of the remote that is pulled from was last seen.
pub proof fn pull_asks_for_the_upstream(
    replies: Seq<ReplyView>,
    at: nat,
    cwd: Seq<u8>,
    remote: Seq<char>,
    branch: Seq<char>,
    expected: Option<Seq<char>>,
    target: HeadTargetView,
    operation: Seq<char>,
)
    requires
        at >= replies.len(),
    ensures
        ({
            let words = seq![
                "rev-parse"@,
                "--verify"@,
                "refs/remotes/"@ + remote + "/"@ + branch,
            ];
            &&& effects::waits_to_run(
                remotes::pull_ff_only_from_step(
                    replies,
                    at,
                    cwd,
                    remote,
                    branch,
                    expected,
                    target,
                ),
                words,
            )
            &&& effects::waits_to_run(
                remotes::pull_rebase_from_step(
                    replies,
                    at,
                    cwd,
                    remote,
                    branch,
                    expected,
                    target,
                ),
                words,
            )
            &&& effects::waits_to_run(
                remotes::ensure_remote_tracking_unchanged_step(
                    replies,
                    at,
                    remote,
                    branch,
                    expected,
                    operation,
                ),
                words,
            )
        }),
{
}

/// Before a merge whose plan still holds, Git is asked whether the commit of `HEAD` comes before that of the branch.
pub proof fn merge_asks_whether_it_moves_forward(
    replies: Seq<ReplyView>,
    at: nat,
    cwd: Seq<u8>,
    branch: BranchTargetView,
    expected: HeadTargetView,
)
    requires
        laws::plan_still_holds(replies, at, cwd, branch, expected, "merge"@),
        expected.oid is Some,
        laws::behind_plan(replies, at, cwd, branch, expected, "merge"@) >= replies.len(),
    ensures
        effects::waits_to_run(
            branches::merge_ff_only_step(replies, at, cwd, branch, expected),
            seq!["merge-base"@, "--is-ancestor"@, expected.oid->Some_0, branch.oid],
        ),
{
}

/// Before a branch is created, Git is asked whether its name is one for a branch.
pub proof fn new_branch_has_its_name_checked(
    replies: Seq<ReplyView>,
    at: nat,
    cwd: Seq<u8>,
    branch: Seq<char>,
    base: Option<BranchTargetView>,
    expected: HeadTargetView,
)
    requires
        at >= replies.len(),
        branch.len() > 0,
        branch[0] != '-',
        !text::is_white(branch[0]),
        !text::is_white(branch.last()),
    ensures
        effects::waits_to_run(
            branches::create_branch_step(replies, at, cwd, branch, base, expected),
            seq!["check-ref-format"@, "--branch"@, branch],
        ),
{
    guards::names_of_new_branches_are_checked(replies, at, branch, Seq::empty());
}

}
