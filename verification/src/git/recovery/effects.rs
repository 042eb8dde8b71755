//! What a recovery carries out: the command that it waits for, word by word, and what has to hold before.
use crate::bytes;
use crate::digest;
use crate::git::commands::GitStep;
use crate::git::effects;
use crate::git::recovery::bounded;
use crate::git::recovery::collisions;
use crate::git::recovery::drivers;
use crate::git::recovery::files;
use crate::git::recovery::laws;
use crate::git::recovery::lock;
use crate::git::recovery::operations;
use crate::git::recovery::operations::RecoveryStateView;
use crate::git::recovery::safety;
use crate::git::recovery::survey::SurveyView;
use crate::git::types::{GitErrorView, GitOutputView, RecoveryAction, RepositoryOperation};
use crate::number;
use crate::session::{
    ActionView, BoundedCommandOutputView, BoundedCommandPolicy, HaltView, ReplyView,
};
use crate::text;
use vstd::prelude::*;
use vstd::utf8;

verus! {

/// The Git command that carries out a recovery. There is none that skips a merge.
pub open spec fn recovery_command(operation: RepositoryOperation, action: RecoveryAction) -> Option<
    Seq<Seq<char>>,
> {
    match (operation, action) {
        (RepositoryOperation::Merge, RecoveryAction::Continue) => Some(
            seq!["merge"@, "--continue"@],
        ),
        (RepositoryOperation::Merge, RecoveryAction::Abort) => Some(seq!["merge"@, "--abort"@]),
        (RepositoryOperation::Merge, RecoveryAction::Skip) => None,
        (RepositoryOperation::Rebase, RecoveryAction::Continue) => Some(
            seq!["rebase"@, "--continue"@],
        ),
        (RepositoryOperation::Rebase, RecoveryAction::Abort) => Some(seq!["rebase"@, "--abort"@]),
        (RepositoryOperation::Rebase, RecoveryAction::Skip) => Some(seq!["rebase"@, "--skip"@]),
    }
}

/// The action that carries out a command of a recovery: it may take locks, and is not stopped.
pub open spec fn carried_out_by(words: Seq<Seq<char>>) -> ActionView {
    ActionView::RunBounded {
        args: words,
        optional_locks: false,
        policy: BoundedCommandPolicy::RecoveryExecution,
    }
}

/// Whether an operation, where it waits for a recovery to be carried out, waits for the command of a recovery.
pub open spec fn carries_out_only<T>(
    step: GitStep<T>,
    operation: RepositoryOperation,
    action: RecoveryAction,
) -> bool {
    match step.result {
        Err(HaltView::Pending(awaited)) => laws::executes(awaited) ==> {
            &&& recovery_command(operation, action) is Some
            &&& awaited == carried_out_by(recovery_command(operation, action)->Some_0)
        },
        _ => true,
    }
}

/// The words of a recovery are those of its command.
proof fn lemma_words(operation: RepositoryOperation, action: RecoveryAction)
    ensures
        recovery_command(operation, action) is Some ==> operations::recovery_words(
            operation,
            action,
        ) == recovery_command(operation, action)->Some_0,
{
    reveal_strlit("--");
    reveal_strlit("continue");
    reveal_strlit("abort");
    reveal_strlit("skip");
    reveal_strlit("--continue");
    reveal_strlit("--abort");
    reveal_strlit("--skip");
    assert("--"@ + "continue"@ =~= "--continue"@);
    assert("--"@ + "abort"@ =~= "--abort"@);
    assert("--"@ + "skip"@ =~= "--skip"@);
}

/// What a recovery makes of the answer to its command: it waits for the command, and gives what the command
/// wrote where it succeeds.
pub open spec fn ends_with_recovery(
    step: GitStep<GitOutputView>,
    replies: Seq<ReplyView>,
    at: nat,
    words: Seq<Seq<char>>,
) -> bool {
    if at >= replies.len() {
        effects::waits_for(step, carried_out_by(words))
    } else {
        match replies[at as int] {
            ReplyView::Captured { output, exceeded: _ } => if output.status.code == Some(0i32) {
                &&& step.result is Ok
                &&& step.result->Ok_0.status == output.status
                &&& !output.stdout.truncated ==> step.result->Ok_0.stdout == bytes::lossy_text(
                    output.stdout.bytes,
                )
                &&& !output.stderr.truncated ==> step.result->Ok_0.stderr == bytes::lossy_text(
                    output.stderr.bytes,
                )
            } else {
                step.result is Err && step.result->Err_0 is Failed
            },
            ReplyView::TimedOut => step.result is Err && step.result->Err_0 is Failed,
            ReplyView::Failed(_) => step.result is Err && step.result->Err_0 is Failed,
            _ => effects::waits_for(step, carried_out_by(words)),
        }
    }
}

/// Carrying out a recovery waits for its command and gives what the command wrote.
proof fn lemma_execution(
    replies: Seq<ReplyView>,
    at: nat,
    operation: RepositoryOperation,
    action: RecoveryAction,
)
    requires
        recovery_command(operation, action) is Some,
    ensures
        ends_with_recovery(
            operations::execution_step(replies, at, operation, action),
            replies,
            at,
            recovery_command(operation, action)->Some_0,
        ),
        carries_out_only(
            operations::execution_step(replies, at, operation, action),
            operation,
            action,
        ),
{
    lemma_words(operation, action);
}

/// Where all that has to hold before does, a recovery is carried out.
#[verifier::spinoff_prover]
#[verifier::rlimit(60)]
proof fn lemma_recover(
    replies: Seq<ReplyView>,
    at: nat,
    milliseconds: u64,
    operation: RepositoryOperation,
    action: RecoveryAction,
)
    ensures
        ({
            let begun = operations::begun_step(replies, at, milliseconds);
            let valid = operations::validate_step(replies, begun.next, operation, action);
            let held = operations::locked_step(replies, valid.next, operation, action);
            let still = operations::validate_step(replies, held.next, operation, action);
            let state = operations::fingerprint_step(
                replies,
                still.next,
                Some((operation, action)),
                Some((held.result->Ok_0, operation, action)),
            );
            begun.result is Ok && valid.result is Ok && held.result is Ok && still.result is Ok
                && state.result is Ok ==> operations::recover_step(
                replies,
                at,
                milliseconds,
                operation,
                action,
            ) == operations::execution_step(replies, state.next, operation, action)
        }),
{
}

/// Where the lock is held and the state is the expected one, a recovery that was prepared is carried out.
#[verifier::spinoff_prover]
#[verifier::rlimit(60)]
proof fn lemma_recover_exact(
    replies: Seq<ReplyView>,
    at: nat,
    milliseconds: u64,
    operation: RepositoryOperation,
    action: RecoveryAction,
    expected: RecoveryStateView,
)
    ensures
        ({
            let begun = operations::begun_step(replies, at, milliseconds);
            let held = operations::locked_step(replies, begun.next, operation, action);
            let state = operations::fingerprint_step(
                replies,
                held.next,
                Some((operation, action)),
                Some((held.result->Ok_0, operation, action)),
            );
            recovery_command(operation, action) is Some && begun.result is Ok && held.result is Ok
                && state.result == Ok::<RecoveryStateView, HaltView<GitErrorView>>(expected)
                ==> operations::recover_exact_step(
                replies,
                at,
                milliseconds,
                operation,
                action,
                expected,
            ) == operations::execution_step(replies, state.next, operation, action)
        }),
{
}

/// A recovery carries out what was asked for and nothing else: `git merge --continue`, `git merge --abort`,
/// `git rebase --continue`, `git rebase --abort` or `git rebase --skip`, as the operation and the action say.
/// Where all that has to hold before does, it waits for that command.
#[verifier::spinoff_prover]
#[verifier::rlimit(60)]
pub proof fn recovery_carries_out_what_was_asked_for(
    replies: Seq<ReplyView>,
    at: nat,
    milliseconds: u64,
    operation: RepositoryOperation,
    action: RecoveryAction,
)
    ensures
        ({
            let step = operations::recover_step(replies, at, milliseconds, operation, action);
            let begun = operations::begun_step(replies, at, milliseconds);
            let valid = operations::validate_step(replies, begun.next, operation, action);
            let held = operations::locked_step(replies, valid.next, operation, action);
            let still = operations::validate_step(replies, held.next, operation, action);
            let state = operations::fingerprint_step(
                replies,
                still.next,
                Some((operation, action)),
                Some((held.result->Ok_0, operation, action)),
            );
            &&& carries_out_only(step, operation, action)
            &&& begun.result is Ok && valid.result is Ok && held.result is Ok && still.result is Ok
                && state.result is Ok ==> {
                &&& recovery_command(operation, action) is Some
                &&& ends_with_recovery(
                    step,
                    replies,
                    state.next,
                    recovery_command(operation, action)->Some_0,
                )
            }
        }),
{
    let step = operations::recover_step(replies, at, milliseconds, operation, action);
    if !laws::holds_back(step) {
        laws::recovery_is_guarded(replies, at, milliseconds, operation, action);
    }
    lemma_recover(replies, at, milliseconds, operation, action);
    let begun = operations::begun_step(replies, at, milliseconds);
    let valid = operations::validate_step(replies, begun.next, operation, action);
    let held = operations::locked_step(replies, valid.next, operation, action);
    let still = operations::validate_step(replies, held.next, operation, action);
    let state = operations::fingerprint_step(
        replies,
        still.next,
        Some((operation, action)),
        Some((held.result->Ok_0, operation, action)),
    );
    valid_recovery_is_of_the_operation_under_way(replies, begun.next, operation, action);
    if recovery_command(operation, action) is Some {
        lemma_execution(replies, state.next, operation, action);
    }
}

/// A recovery that was prepared carries out what was asked for and nothing else. Where the lock is held and the
/// state is the one that it was prepared with, it waits for that command.
#[verifier::spinoff_prover]
#[verifier::rlimit(60)]
pub proof fn prepared_recovery_carries_out_what_was_asked_for(
    replies: Seq<ReplyView>,
    at: nat,
    milliseconds: u64,
    operation: RepositoryOperation,
    action: RecoveryAction,
    expected: RecoveryStateView,
)
    ensures
        ({
            let step = operations::recover_exact_step(
                replies,
                at,
                milliseconds,
                operation,
                action,
                expected,
            );
            let begun = operations::begun_step(replies, at, milliseconds);
            let held = operations::locked_step(replies, begun.next, operation, action);
            let state = operations::fingerprint_step(
                replies,
                held.next,
                Some((operation, action)),
                Some((held.result->Ok_0, operation, action)),
            );
            &&& carries_out_only(step, operation, action)
            &&& recovery_command(operation, action) is Some && begun.result is Ok && held.result
                is Ok && state.result == Ok::<RecoveryStateView, HaltView<GitErrorView>>(expected)
                ==> ends_with_recovery(
                step,
                replies,
                state.next,
                recovery_command(operation, action)->Some_0,
            )
        }),
{
    let step = operations::recover_exact_step(
        replies,
        at,
        milliseconds,
        operation,
        action,
        expected,
    );
    lemma_recover_exact(replies, at, milliseconds, operation, action, expected);
    let begun = operations::begun_step(replies, at, milliseconds);
    let held = operations::locked_step(replies, begun.next, operation, action);
    let state = operations::fingerprint_step(
        replies,
        held.next,
        Some((operation, action)),
        Some((held.result->Ok_0, operation, action)),
    );
    if recovery_command(operation, action) is Some {
        lemma_execution(replies, state.next, operation, action);
    }
    if !laws::holds_back(step) {
        laws::prepared_recovery_is_exact(
            replies,
            at,
            milliseconds,
            operation,
            action,
            expected,
        );
    }
}

/// Whether an answer is that of a command that ended with a code and wrote some bytes, all of which were kept.
pub open spec fn reports(
    replies: Seq<ReplyView>,
    at: nat,
    code: i32,
    output: BoundedCommandOutputView,
) -> bool {
    &&& at < replies.len()
    &&& replies[at as int] == (ReplyView::Captured { output, exceeded: false })
    &&& output.status.code == Some(code)
    &&& !output.stdout.truncated
}

/// The action that looks at a repository with a Git command.
pub open spec fn looked_at_by(words: Seq<Seq<char>>) -> ActionView {
    ActionView::RunBounded {
        args: words,
        optional_locks: true,
        policy: BoundedCommandPolicy::Diagnostic,
    }
}

/// Going on is possible only without conflicts, and Git says by `git diff --quiet --diff-filter=U --` whether
/// there are any: it ends with one where there are.
pub proof fn conflicts_are_asked_of_git(
    replies: Seq<ReplyView>,
    at: nat,
    output: BoundedCommandOutputView,
)
    ensures
        at >= replies.len() ==> effects::waits_for(
            files::conflicts_step(replies, at),
            looked_at_by(seq!["diff"@, "--quiet"@, "--diff-filter=U"@, "--"@]),
        ),
        reports(replies, at, 0, output) ==> files::conflicts_step(replies, at).result == Ok::<
            bool,
            HaltView<GitErrorView>,
        >(false),
        reports(replies, at, 1, output) ==> files::conflicts_step(replies, at).result == Ok::<
            bool,
            HaltView<GitErrorView>,
        >(true),
{
}

/// A recovery is valid if and only if there is a command for it, its operation is the one under way, and, where it
/// goes on, there are no conflicts.
pub proof fn valid_recovery_is_of_the_operation_under_way(
    replies: Seq<ReplyView>,
    at: nat,
    operation: RepositoryOperation,
    action: RecoveryAction,
)
    ensures
        ({
            let step = operations::validate_step(replies, at, operation, action);
            let active = files::operation_until_step(replies, at);
            let conflicts = files::conflicts_step(replies, active.next);
            step.result is Ok <==> {
                &&& recovery_command(operation, action) is Some
                &&& active.result == Ok::<Option<RepositoryOperation>, HaltView<GitErrorView>>(
                    Some(operation),
                )
                &&& action == RecoveryAction::Continue ==> conflicts.result == Ok::<
                    bool,
                    HaltView<GitErrorView>,
                >(false)
            }
        }),
{
}

/// A rebase is under way where `rebase-merge` is there, or where `rebase-apply` is there and no mail is being
/// applied; otherwise a merge is where `MERGE_HEAD` is there.
pub proof fn operation_under_way_leaves_its_marks(
    replies: Seq<ReplyView>,
    at: nat,
    marks: (bool, bool, bool, bool),
)
    requires
        ({
            let apply = bounded::git_path_until_step(replies, at, "rebase-apply"@);
            let merge = bounded::git_path_until_step(replies, apply.next, "rebase-merge"@);
            &&& apply.result is Ok
            &&& merge.result is Ok
            &&& merge.next < replies.len()
            &&& replies[merge.next as int] == ReplyView::Flag(marks.0)
        }),
    ensures
        ({
            let apply = bounded::git_path_until_step(replies, at, "rebase-apply"@);
            let merge = bounded::git_path_until_step(replies, apply.next, "rebase-merge"@);
            let n = merge.next;
            let active = files::operation_until_step(replies, at);
            &&& marks.0 ==> active.result == Ok::<
                Option<RepositoryOperation>,
                HaltView<GitErrorView>,
            >(Some(RepositoryOperation::Rebase))
            &&& !marks.0 && n + 1 == replies.len() ==> effects::waits_for(
                active,
                ActionView::Exists { path: apply.result->Ok_0 },
            )
            &&& !marks.0 && n + 1 < replies.len() && replies[n as int + 1] == ReplyView::Flag(
                marks.1,
            ) ==> {
                &&& marks.1 && n + 2 == replies.len() ==> effects::waits_for(
                    active,
                    ActionView::Exists {
                        path: bytes::joined_path(
                            apply.result->Ok_0,
                            utf8::encode_utf8("applying"@),
                        ),
                    },
                )
                &&& marks.1 && n + 2 < replies.len() && replies[n as int + 2] == ReplyView::Flag(
                    marks.2,
                ) && !marks.2 ==> active.result == Ok::<
                    Option<RepositoryOperation>,
                    HaltView<GitErrorView>,
                >(Some(RepositoryOperation::Rebase))
                &&& !marks.1 ==> {
                    let head = bounded::git_path_until_step(replies, n + 2, "MERGE_HEAD"@);
                    head.result is Ok && head.next < replies.len() && replies[head.next as int]
                        == ReplyView::Flag(marks.3) ==> active.result == Ok::<
                        Option<RepositoryOperation>,
                        HaltView<GitErrorView>,
                    >(
                        if marks.3 {
                            Some(RepositoryOperation::Merge)
                        } else {
                            None
                        },
                    )
                }
            }
        }),
{
}

/// Git is new enough if and only if its version is 2.42 or later, whatever follows the second number.
pub proof fn git_has_to_be_new_enough(major: u64, minor: u64, more: Seq<char>)
    requires
        more.len() == 0 || more[0] == '.',
    ensures
        files::version_suffices(
            "git version "@ + number::decimal(major as nat) + "."@ + number::decimal(minor as nat)
                + more,
        ) <==> major > 2 || (major == 2 && minor >= 42),
{
    reveal_strlit("git version ");
    reveal_strlit(".");
    let one = number::decimal(major as nat);
    let other = number::decimal(minor as nat);
    number::lemma_decimal(major as nat);
    number::lemma_decimal(minor as nat);
    number::written_number_reads_back(major as nat, u64::MAX as nat);
    number::written_number_reads_back(minor as nat, u64::MAX as nat);
    let lead = "git version "@;
    let version = lead + one + "."@ + other + more;
    let rest = version.skip(lead.len() as int);
    assert(rest =~= one + "."@ + other + more);
    assert(version.take(lead.len() as int) =~= lead);
    assert forall|i: int| 0 <= i < one.len() implies rest[i] != '.' by {
        assert(rest[i] == one[i]);
        assert(number::is_digit(one[i]));
    }
    assert(rest[one.len() as int] == '.');
    text::lemma_position_unique(rest, '.', one.len() as int);
    let tail = rest.skip(one.len() as int + 1);
    assert(rest.take(one.len() as int) =~= one);
    assert(tail =~= other + more);
    assert forall|i: int| 0 <= i < other.len() implies tail[i] != '.' by {
        assert(tail[i] == other[i]);
        assert(number::is_digit(other[i]));
    }
    if more.len() > 0 {
        assert(tail[other.len() as int] == '.');
        text::lemma_position_unique(tail, '.', other.len() as int);
        assert(tail.take(other.len() as int) =~= other);
    } else {
        text::lemma_position(tail, '.');
        assert(tail =~= other);
    }
    let components = text::pieces(rest, '.');
    assert(components[0] == one);
    assert(components[1] == text::pieces(tail, '.')[0]);
    assert(components[1] == other);
}

/// A setting that names a program of a filter, of a diff or of a merge is found, whatever the driver is called.
pub proof fn settings_of_programs_are_found(name: Seq<u8>, driver: Seq<char>)
    requires
        ({
            let setting = text::lowered(bytes::lossy_text(name));
            ||| setting == "diff.external"@
            ||| setting == "filter."@ + driver + ".clean"@
            ||| setting == "filter."@ + driver + ".smudge"@
            ||| setting == "filter."@ + driver + ".process"@
            ||| setting == "diff."@ + driver + ".command"@
            ||| setting == "diff."@ + driver + ".textconv"@
            ||| setting == "merge."@ + driver + ".driver"@
        }),
    ensures
        drivers::names_external_driver(name),
        ({
            let setting = text::lowered(bytes::lossy_text(name));
            (setting == "filter."@ + driver + ".clean"@ || setting == "filter."@ + driver
                + ".smudge"@ || setting == "filter."@ + driver + ".process"@) && driver.len() > 0
                ==> drivers::filter_of(name) is Some
        }),
{
    let setting = text::lowered(bytes::lossy_text(name));
    lemma_around(setting, "filter."@, driver, ".clean"@);
    lemma_around(setting, "filter."@, driver, ".smudge"@);
    lemma_around(setting, "filter."@, driver, ".process"@);
    lemma_around(setting, "diff."@, driver, ".command"@);
    lemma_around(setting, "diff."@, driver, ".textconv"@);
    lemma_around(setting, "merge."@, driver, ".driver"@);
    reveal_strlit(".clean");
    reveal_strlit(".smudge");
    reveal_strlit(".process");
    let rest = setting.skip("filter."@.len() as int);
    if setting == "filter."@ + driver + ".clean"@ {
        assert(rest =~= driver + ".clean"@);
        assert(rest.skip(rest.len() - ".clean"@.len()) =~= ".clean"@);
    } else if setting == "filter."@ + driver + ".smudge"@ {
        assert(rest =~= driver + ".smudge"@);
        assert(rest.skip(rest.len() - ".smudge"@.len()) =~= ".smudge"@);
        assert(rest.last() == 'e');
        assert(".clean"@.last() == 'n');
        if text::has_suffix(rest, ".clean"@) {
            assert(rest.skip(rest.len() - ".clean"@.len()).last() == rest.last());
        }
    } else if setting == "filter."@ + driver + ".process"@ {
        assert(rest =~= driver + ".process"@);
        assert(rest.skip(rest.len() - ".process"@.len()) =~= ".process"@);
        assert(rest.last() == 's');
        assert(".clean"@.last() == 'n');
        assert(".smudge"@.last() == 'e');
        if text::has_suffix(rest, ".clean"@) {
            assert(rest.skip(rest.len() - ".clean"@.len()).last() == rest.last());
        }
        if text::has_suffix(rest, ".smudge"@) {
            assert(rest.skip(rest.len() - ".smudge"@.len()).last() == rest.last());
        }
    }
}

/// A text made of three starts with the first and ends with the last.
proof fn lemma_around(value: Seq<char>, first: Seq<char>, middle: Seq<char>, last: Seq<char>)
    ensures
        value == first + middle + last ==> text::has_prefix(value, first) && text::has_suffix(
            value,
            last,
        ),
{
    if value == first + middle + last {
        assert(value.take(first.len() as int) =~= first);
        assert(value.skip(value.len() - last.len()) =~= last);
    }
}

/// Two repositories share a lock only where their directories are the same, unless SHA-256 collides.
pub proof fn repositories_have_locks_of_their_own(root: Seq<u8>, other: Seq<u8>)
    requires
        !digest::collide(root, other),
    ensures
        lock::repository_key(root) == lock::repository_key(other) <==> root == other,
{
    number::written_bytes_read_back(digest::sha256(root));
    number::written_bytes_read_back(digest::sha256(other));
}

/// A lock that is held is that of the repository: a file and its guard named after the repository's key in the
/// directory for locks, both of them locked.
pub proof fn held_lock_is_that_of_the_repository(
    replies: Seq<ReplyView>,
    at: nat,
    root: Seq<u8>,
    home: Seq<u8>,
    operation: RepositoryOperation,
    action: RecoveryAction,
)
    requires
        lock::take_step(replies, at, root, home, operation, action).result is Ok,
    ensures
        ({
            let held = lock::take_step(
                replies,
                at,
                root,
                home,
                operation,
                action,
            ).result->Ok_0;
            let key = number::hex(digest::sha256(root));
            &&& held.repository_root == root
            &&& held.path == bytes::joined_path(home, utf8::encode_utf8(key + ".lock"@))
            &&& held.guard_path == bytes::joined_path(home, utf8::encode_utf8(key + ".guard"@))
            &&& exists|n: nat|
                #![trigger replies[n as int]]
                n + 3 < replies.len() && replies[n as int] == ReplyView::Number(held.guard)
                    && replies[n as int + 1] == ReplyView::Done && replies[n as int + 2]
                    == ReplyView::Number(held.file) && replies[n as int + 3] == ReplyView::Done
        }),
{
    let path = lock::lock_file(home, root, ".lock"@);
    let directory = lock::lock_directory_step(
        replies,
        at,
        bytes::parent(path)->Some_0,
        operation,
        action,
    );
    let n = directory.next;
    assert(replies[n as int] is Number);
}

/// A recovery that goes on found no ignored path that it would overwrite.
pub proof fn recovery_overwrites_no_ignored_path(
    replies: Seq<ReplyView>,
    at: nat,
    operation: RepositoryOperation,
    action: RecoveryAction,
    survey: SurveyView,
)
    requires
        collisions::collisions_step(replies, at, operation, action, survey).result is Ok,
    ensures
        ({
            let target = files::overwrite_target_step(replies, at, operation, action);
            let written = collisions::written_paths_step(
                replies,
                target.next,
                operation,
                action,
                target.result->Ok_0->Some_0,
                survey,
            );
            let ignored = collisions::ignored_step(
                replies,
                written.next,
                written.result->Ok_0.0,
                written.result->Ok_0.1,
                Seq::empty(),
            );
            &&& target.result is Ok
            &&& target.result->Ok_0 is Some ==> written.result is Ok && ignored.result is Ok
                && ignored.result->Ok_0.1.len() == 0
            &&& operation == RepositoryOperation::Merge && action == RecoveryAction::Abort
                ==> target.result->Ok_0 == Some("ORIG_HEAD"@)
            &&& operation == RepositoryOperation::Merge && action != RecoveryAction::Abort
                ==> target.result->Ok_0 is None
            &&& operation == RepositoryOperation::Rebase ==> target.result->Ok_0 is Some
        }),
{
}

/// Nothing may be configured that starts a process that is not contained: a recovery goes on only where no monitor
/// and no signing is on.
pub proof fn recovery_needs_a_quiet_configuration(replies: Seq<ReplyView>, at: nat)
    requires
        safety::process_configuration_step(replies, at).result is Ok,
    ensures
        ({
            let monitor = safety::setting_enabled_step(replies, at, "core.fsmonitor"@);
            let commit = safety::setting_enabled_step(replies, monitor.next, "commit.gpgsign"@);
            let tag = safety::setting_enabled_step(replies, commit.next, "tag.gpgsign"@);
            let off = Ok::<bool, HaltView<GitErrorView>>(false);
            monitor.result == off && commit.result == off && tag.result == off
        }),
{
}

/// A setting is on unless Git does not have it, or its value is empty, `0`, `false`, `no` or `off`.
pub proof fn settings_are_on_unless_they_are_off(
    replies: Seq<ReplyView>,
    at: nat,
    key: Seq<char>,
    output: BoundedCommandOutputView,
)
    ensures
        ({
            let step = safety::setting_enabled_step(replies, at, key);
            let value = text::trimmed(
                bytes::lossy_text(bytes::without_line_ending(output.stdout.bytes)),
            );
            &&& at >= replies.len() ==> effects::waits_for(
                step,
                looked_at_by(seq!["config"@, "--get"@, key]),
            )
            &&& reports(replies, at, 1, output) ==> step.result == Ok::<
                bool,
                HaltView<GitErrorView>,
            >(false)
            &&& reports(replies, at, 0, output) ==> step.result == Ok::<
                bool,
                HaltView<GitErrorView>,
            >(
                value.len() > 0 && value != "0"@ && value != "false"@ && value != "no"@ && value
                    != "off"@,
            )
        }),
{
}

/// An instruction of a rebase plan that takes a commit names it: behind `pick`, `reword`, `edit` or `squash`, behind
/// `fixup` and its flag, and behind the flag of a `merge`.
pub proof fn instructions_name_their_commit(oid: Seq<char>, more: Seq<Seq<char>>)
    requires
        oid != "-C"@,
        oid != "-c"@,
    ensures
        files::instruction_oid(seq!["pick"@, oid] + more) == Some(oid),
        files::instruction_oid(seq!["p"@, oid] + more) == Some(oid),
        files::instruction_oid(seq!["reword"@, oid] + more) == Some(oid),
        files::instruction_oid(seq!["r"@, oid] + more) == Some(oid),
        files::instruction_oid(seq!["edit"@, oid] + more) == Some(oid),
        files::instruction_oid(seq!["e"@, oid] + more) == Some(oid),
        files::instruction_oid(seq!["squash"@, oid] + more) == Some(oid),
        files::instruction_oid(seq!["s"@, oid] + more) == Some(oid),
        files::instruction_oid(seq!["fixup"@, oid] + more) == Some(oid),
        files::instruction_oid(seq!["fixup"@, "-C"@, oid] + more) == Some(oid),
        files::instruction_oid(seq!["fixup"@, "-c"@, oid] + more) == Some(oid),
        files::instruction_oid(seq!["f"@, oid] + more) == Some(oid),
        files::instruction_oid(seq!["merge"@, "-C"@, oid] + more) == Some(oid),
        files::instruction_oid(seq!["merge"@, "-c"@, oid] + more) == Some(oid),
        files::instruction_oid(seq!["m"@, "-C"@, oid] + more) == Some(oid),
{
    reveal_strlit("pick");
    reveal_strlit("p");
    reveal_strlit("reword");
    reveal_strlit("r");
    reveal_strlit("edit");
    reveal_strlit("e");
    reveal_strlit("squash");
    reveal_strlit("s");
    reveal_strlit("fixup");
    reveal_strlit("f");
    reveal_strlit("merge");
    reveal_strlit("m");
    reveal_with_fuel(files::first_plain, 3);
    assert("fixup"@[0] != "pick"@[0] && "fixup"@.len() != "squash"@.len());
    assert("f"@[0] == 'f' && "p"@[0] == 'p' && "r"@[0] == 'r' && "e"@[0] == 'e' && "s"@[0] == 's');
    assert("m"@[0] == 'm');
    assert("merge"@.len() == 5 && "fixup"@.len() == 5);
    assert("merge"@[0] != "fixup"@[0]);
}

}
