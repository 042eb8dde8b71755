//! Going on with a merge or a rebase that stopped, giving it up, or skipping a commit of it.
//!
//! A recovery is prepared, which gives a fingerprint of all that it depends on; it is carried out only
//! where the fingerprint is the same again, under a lock that every recovery of the repository takes.
use crate::digest;
use crate::git::commands;
use crate::git::commands::{Git, GitResult, GitStep};
use crate::git::recovery::bounded;
use crate::git::recovery::collisions;
use crate::git::recovery::fence;
use crate::git::recovery::files;
use crate::git::recovery::lock;
use crate::git::recovery::lock::{RecoveryLock, RecoveryLockView};
use crate::git::recovery::records::Record;
use crate::git::recovery::safety;
use crate::git::recovery::state;
use crate::git::recovery::survey;
use crate::git::recovery::survey::{Survey, SurveyView};
use crate::git::types::{
    GitError, GitErrorView, GitOutput, GitOutputView, RecoveryAction, RepositoryOperation,
};
use crate::session;
use crate::session::{
    BoundedCommandOutputView, BoundedCommandPolicy, Halt, HaltView, Reply, ReplyView, Session, Step,
};
use crate::text;
use crate::words;
use vstd::prelude::*;
use vstd::slice::slice_to_vec;

verus! {

broadcast use crate::bytes::bytes_are_their_view;

/// What a recovery depends on, as a fingerprint.
#[derive(Debug, Clone, PartialEq, Eq)]
pub struct RecoveryState {
    fingerprint: Vec<u8>,
}

/// The values of a [`RecoveryState`].
#[verifier::ext_equal]
pub struct RecoveryStateView {
    pub fingerprint: Seq<u8>,
}

impl DeepView for RecoveryState {
    type V = RecoveryStateView;

    closed spec fn deep_view(&self) -> RecoveryStateView {
        RecoveryStateView { fingerprint: self.fingerprint@ }
    }
}

impl RecoveryState {
    /// Whether two fingerprints are the same.
    pub fn same(&self, other: &RecoveryState) -> (result: bool)
        ensures
            result == (self.deep_view() == other.deep_view()),
    {
        let result = text::same_slice(self.fingerprint.as_slice(), other.fingerprint.as_slice());
        assert(self.deep_view() == other.deep_view() ==> self.fingerprint@
            == other.fingerprint@);
        result
    }
}

/// Takes in what Git reports, and the files of the repository's own.
pub open spec fn repository_survey_step(replies: Seq<ReplyView>, at: nat) -> GitStep<SurveyView> {
    session::followed(
        state::process_settings_step(replies, at, survey::empty_survey()),
        |survey: SurveyView, n: nat|
            session::followed(
                state::outputs_step(replies, n, survey),
                |survey: SurveyView, n: nat|
                    session::followed(
                        state::control_step(replies, n, survey, state::control_paths()),
                        |survey: SurveyView, n: nat| attributes_survey_step(replies, n, survey),
                    ),
            ),
    )
}

/// Takes in the hooks and the attributes files from outside of the repository.
pub open spec fn attributes_survey_step(
    replies: Seq<ReplyView>,
    at: nat,
    survey: SurveyView,
) -> GitStep<
    SurveyView,
> {
    session::followed(
        state::hooks_step(replies, at, survey),
        |survey: SurveyView, n: nat|
            session::followed(
                state::variable_step(replies, n, survey, "GIT_ATTR_SYSTEM"@),
                |survey: SurveyView, n: nat|
                    state::variable_step(replies, n, survey, "GIT_ATTR_GLOBAL"@),
            ),
    )
}

/// Takes in what Git reports, and the files of the repository's own.
fn survey_repository(session: &mut Session, survey: &mut Survey) -> (result: GitResult<()>)
    requires
        old(survey).deep_view() == survey::empty_survey(),
    ensures
        final(session).replies() == old(session).replies(),
        ({
            let step = repository_survey_step(old(session).replies(), old(session).at());
            &&& step.next == final(session).at()
            &&& match result {
                Ok(_) => step.result == Ok::<SurveyView, HaltView<GitErrorView>>(
                    final(survey).deep_view(),
                ),
                Err(halt) => step.result == Err::<SurveyView, _>(halt.deep_view()),
            }
        }),
{
    state::hash_recovery_process_configuration_until(session, survey)?;
    state::take_outputs(session, survey)?;
    let names = state::control_path_names();
    state::take_control_paths(session, survey, &names)?;
    state::take_hooks(session, survey)?;
    state::take_variable(session, survey, "GIT_ATTR_SYSTEM")?;
    state::take_variable(session, survey, "GIT_ATTR_GLOBAL")
}

/// Takes in which recovery is meant, and refuses where it would overwrite an ignored file.
pub open spec fn recovery_survey_step(
    replies: Seq<ReplyView>,
    at: nat,
    recovery: Option<(RepositoryOperation, RecoveryAction)>,
    survey: SurveyView,
) -> GitStep<SurveyView> {
    match recovery {
        None => session::given(survey, at),
        Some(recovery) => collisions::collisions_step(
            replies,
            at,
            recovery.0,
            recovery.1,
            survey::with_record(
                survey,
                Record::Recovery { operation: recovery.0, action: recovery.1 },
            ),
        ),
    }
}

/// Takes in which recovery is meant.
fn survey_recovery(
    session: &mut Session,
    recovery: Option<(RepositoryOperation, RecoveryAction)>,
    survey: &mut Survey,
) -> (result: GitResult<()>)
    ensures
        final(session).replies() == old(session).replies(),
        ({
            let step = recovery_survey_step(
                old(session).replies(),
                old(session).at(),
                recovery,
                old(survey).deep_view(),
            );
            &&& step.next == final(session).at()
            &&& match result {
                Ok(_) => step.result == Ok::<SurveyView, HaltView<GitErrorView>>(
                    final(survey).deep_view(),
                ),
                Err(halt) => step.result == Err::<SurveyView, _>(halt.deep_view()),
            }
        }),
{
    match recovery {
        None => Ok(()),
        Some((operation, action)) => {
            survey.push_recovery(operation, action);
            collisions::ensure_no_ignored_recovery_collisions_until(
                session,
                operation,
                action,
                survey,
            )
        },
    }
}

/// Takes in the working tree: untracked files and attributes files, and which recovery is meant.
pub open spec fn worktree_survey_step(
    replies: Seq<ReplyView>,
    at: nat,
    recovery: Option<(RepositoryOperation, RecoveryAction)>,
    survey: SurveyView,
) -> GitStep<SurveyView> {
    session::followed(
        bounded::repo_root_until_step(replies, at),
        |root: Seq<u8>, n: nat|
            session::followed(
                state::untracked_paths_step(replies, n),
                |paths: Seq<Seq<u8>>, n: nat|
                    session::followed(
                        state::untracked_step(replies, n, survey, root, paths, 0),
                        |survey: SurveyView, n: nat|
                            session::followed(
                                recovery_survey_step(replies, n, recovery, survey),
                                |survey: SurveyView, n: nat|
                                    session::followed(
                                        state::worktree_attributes_step(replies, n),
                                        |files: Seq<Seq<u8>>, n: nat|
                                            state::attributes_step(
                                                replies,
                                                n,
                                                survey,
                                                root,
                                                files,
                                            ),
                                    ),
                            ),
                    ),
            ),
    )
}

/// Takes in the working tree.
fn survey_worktree(
    session: &mut Session,
    recovery: Option<(RepositoryOperation, RecoveryAction)>,
    survey: &mut Survey,
) -> (result: GitResult<()>)
    ensures
        final(session).replies() == old(session).replies(),
        ({
            let step = worktree_survey_step(
                old(session).replies(),
                old(session).at(),
                recovery,
                old(survey).deep_view(),
            );
            &&& step.next == final(session).at()
            &&& match result {
                Ok(_) => step.result == Ok::<SurveyView, HaltView<GitErrorView>>(
                    final(survey).deep_view(),
                ),
                Err(halt) => step.result == Err::<SurveyView, _>(halt.deep_view()),
            }
        }),
{
    let root = bounded::repo_root_until(session)?;
    let paths = state::untracked_worktree_paths_until(session)?;
    state::take_untracked(session, survey, root.as_slice(), &paths)?;
    survey_recovery(session, recovery, survey)?;
    let files = state::worktree_attributes_until(session)?;
    state::take_attributes(session, survey, root.as_slice(), &files)
}

/// Refuses where the lock of a recovery is not the one of the repository any more.
pub open spec fn lock_again_step(
    replies: Seq<ReplyView>,
    at: nat,
    held: RecoveryLockView,
    operation: RepositoryOperation,
    action: RecoveryAction,
) -> GitStep<()> {
    session::followed(
        lock::canonical_root_step(replies, at),
        |root: Seq<u8>, n: nat| lock::identity_step(replies, n, held, root, operation, action),
    )
}

/// Refuses where the lock of a recovery is not the one of the repository any more.
fn ensure_lock_again(
    session: &mut Session,
    held: &RecoveryLock,
    operation: RepositoryOperation,
    action: RecoveryAction,
) -> (result: GitResult<()>)
    ensures
        session::stepped(
            old(session),
            final(session),
            result,
            lock_again_step(
                old(session).replies(),
                old(session).at(),
                held.deep_view(),
                operation,
                action,
            ),
        ),
{
    let root = lock::canonical_repository_root_until(session)?;
    held.ensure_identity(session, root.as_slice(), operation, action)
}

/// Refuses where the lock of a recovery, where there is one, is not the one of the repository any more.
pub open spec fn held_step(
    replies: Seq<ReplyView>,
    at: nat,
    held: Option<(RecoveryLockView, RepositoryOperation, RecoveryAction)>,
) -> GitStep<()> {
    match held {
        None => session::given((), at),
        Some(held) => lock_again_step(replies, at, held.0, held.1, held.2),
    }
}

/// Takes in all that a recovery depends on.
pub open spec fn surveyed_step(
    replies: Seq<ReplyView>,
    at: nat,
    recovery: Option<(RepositoryOperation, RecoveryAction)>,
) -> GitStep<SurveyView> {
    session::followed(
        repository_survey_step(replies, at),
        |survey: SurveyView, n: nat| worktree_survey_step(replies, n, recovery, survey),
    )
}

/// The fingerprint of all that a recovery depends on. All of it is looked at twice more, and the lock in
/// between.
pub open spec fn fingerprint_step(
    replies: Seq<ReplyView>,
    at: nat,
    recovery: Option<(RepositoryOperation, RecoveryAction)>,
    held: Option<(RecoveryLockView, RepositoryOperation, RecoveryAction)>,
) -> GitStep<RecoveryStateView> {
    session::followed(
        surveyed_step(replies, at, recovery),
        |survey: SurveyView, n: nat|
            session::followed(
                fence::fence_step(replies, n, survey),
                |_same: (), n: nat|
                    session::followed(
                        held_step(replies, n, held),
                        |_held: (), n: nat|
                            session::followed(
                                fence::fence_step(replies, n, survey),
                                |_same: (), n: nat|
                                    session::given(
                                        RecoveryStateView {
                                            fingerprint: digest::sha256(survey.transcript),
                                        },
                                        n,
                                    ),
                            ),
                    ),
            ),
    )
}

/// The fingerprint of all that a recovery depends on.
fn recovery_state_fenced_until(
    session: &mut Session,
    recovery: Option<(RepositoryOperation, RecoveryAction)>,
    held: Option<(&RecoveryLock, RepositoryOperation, RecoveryAction)>,
) -> (result: GitResult<RecoveryState>)
    ensures
        session::stepped(
            old(session),
            final(session),
            result,
            fingerprint_step(
                old(session).replies(),
                old(session).at(),
                recovery,
                match held {
                    Some(held) => Some((held.0.deep_view(), held.1, held.2)),
                    None => None,
                },
            ),
        ),
{
    let mut survey = Survey::new();
    survey_repository(session, &mut survey)?;
    survey_worktree(session, recovery, &mut survey)?;
    fence::validate(session, &survey)?;
    match held {
        Some((held, operation, action)) => {
            ensure_lock_again(session, held, operation, action)?;
        },
        None => {},
    }
    fence::validate(session, &survey)?;
    let fingerprint = digest::digest_of(survey.transcript.as_slice());
    let fingerprint = slice_to_vec(fingerprint.as_slice());
    assert(fingerprint@ == digest::sha256(survey.transcript@));
    Ok(RecoveryState { fingerprint })
}

/// Refuses an action that Git does not have.
pub open spec fn action_allowed(operation: RepositoryOperation, action: RecoveryAction) -> Result<
    (),
    GitErrorView,
> {
    if operation == RepositoryOperation::Merge && action == RecoveryAction::Skip {
        Err(commands::refusal("merge skip is blocked because Git does not support it"@))
    } else {
        Ok(())
    }
}

/// Refuses an action that Git does not have.
pub fn validate_recovery_action(operation: RepositoryOperation, action: RecoveryAction) -> (result:
    Result<(), GitError>)
    ensures
        (match result {
            Ok(_) => Ok(()),
            Err(error) => Err(error.deep_view()),
        }) == action_allowed(operation, action),
{
    if operation == RepositoryOperation::Merge && action == RecoveryAction::Skip {
        Err(commands::blocked("merge skip is blocked because Git does not support it"))
    } else {
        Ok(())
    }
}

/// The refusal of a recovery where another operation, or none, is under way.
pub open spec fn inactive_refusal(
    operation: RepositoryOperation,
    action: RecoveryAction,
    active: Option<RepositoryOperation>,
) -> GitErrorView {
    commands::refusal(
        match active {
            Some(active) => lock::about(operation, action, " is blocked because a "@)
                + commands::operation_label(active) + " operation is active"@,
            None => lock::about(operation, action, " is blocked because no "@)
                + commands::operation_label(operation) + " operation is active"@,
        },
    )
}

/// Refuses a recovery that Git does not have, one of an operation that is not under way, and going on
/// while there are conflicts.
pub open spec fn validate_step(
    replies: Seq<ReplyView>,
    at: nat,
    operation: RepositoryOperation,
    action: RecoveryAction,
) -> GitStep<()> {
    match action_allowed(operation, action) {
        Err(error) => session::failed(error, at),
        Ok(_) => session::followed(
            files::operation_until_step(replies, at),
            |active: Option<RepositoryOperation>, n: nat|
                if active != Some(operation) {
                    session::failed(inactive_refusal(operation, action, active), n)
                } else if action == RecoveryAction::Continue {
                    session::followed(
                        files::conflicts_step(replies, n),
                        |conflicts: bool, n: nat|
                            if conflicts {
                                session::failed(
                                    commands::refusal(
                                        commands::operation_label(operation)
                                            + " continue is blocked while unresolved conflicts are present"@,
                                    ),
                                    n,
                                )
                            } else {
                                session::given((), n)
                            },
                    )
                } else {
                    session::given((), n)
                },
        ),
    }
}

/// Refuses a recovery that cannot be carried out now.
fn validate_recovery_until(
    session: &mut Session,
    operation: RepositoryOperation,
    action: RecoveryAction,
) -> (result: GitResult<()>)
    ensures
        session::stepped(
            old(session),
            final(session),
            result,
            validate_step(old(session).replies(), old(session).at(), operation, action),
        ),
{
    commands::settle(validate_recovery_action(operation, action))?;
    match files::repository_operation_until(session)? {
        Some(active) => {
            if active != operation {
                let before = lock::say(operation, action, " is blocked because a ");
                let message = text::concat3(
                    before.as_str(),
                    active.label(),
                    " operation is active",
                );
                return Err(Halt::Failed(commands::blocked(message.as_str())));
            }
        },
        None => {
            let before = lock::say(operation, action, " is blocked because no ");
            let message = text::concat3(
                before.as_str(),
                operation.label(),
                " operation is active",
            );
            return Err(Halt::Failed(commands::blocked(message.as_str())));
        },
    }
    if action == RecoveryAction::Continue {
        if files::has_unresolved_conflicts_until(session)? {
            let message = text::concat2(
                operation.label(),
                " continue is blocked while unresolved conflicts are present",
            );
            return Err(Halt::Failed(commands::blocked(message.as_str())));
        }
    }
    Ok(())
}

/// Sets the deadline, and refuses a Git that is too old.
pub open spec fn begun_step(replies: Seq<ReplyView>, at: nat, milliseconds: u64) -> GitStep<()> {
    session::followed(
        bounded::start_step(replies, at, milliseconds),
        |_started: (), n: nat| files::version_step(replies, n),
    )
}

/// Sets the deadline, and refuses a Git that is too old.
fn begin(session: &mut Session, milliseconds: u64) -> (result: GitResult<()>)
    ensures
        session::stepped(
            old(session),
            final(session),
            result,
            begun_step(old(session).replies(), old(session).at(), milliseconds),
        ),
{
    bounded::start_deadline(session, milliseconds)?;
    files::ensure_recovery_git_version_until(session)
}

/// Sets the deadline, and refuses a Git that is too old or could start processes of its own.
pub open spec fn planned_step(replies: Seq<ReplyView>, at: nat, milliseconds: u64) -> GitStep<()> {
    session::followed(
        begun_step(replies, at, milliseconds),
        |_begun: (), n: nat| safety::process_configuration_step(replies, n),
    )
}

/// Sets the deadline, and refuses a Git that is too old or could start processes of its own.
fn plan(session: &mut Session, milliseconds: u64) -> (result: GitResult<()>)
    ensures
        session::stepped(
            old(session),
            final(session),
            result,
            planned_step(old(session).replies(), old(session).at(), milliseconds),
        ),
{
    begin(session, milliseconds)?;
    safety::ensure_recovery_process_configuration_safe_until(session)
}

/// The fingerprint of a repository, whatever recovery may follow.
pub open spec fn recovery_state_step(
    replies: Seq<ReplyView>,
    at: nat,
    milliseconds: u64,
) -> GitStep<
    RecoveryStateView,
> {
    session::followed(
        planned_step(replies, at, milliseconds),
        |_planned: (), n: nat| fingerprint_step(replies, n, None, None),
    )
}

/// Whether a recovery can be carried out now.
pub open spec fn validate_recovery_step(
    replies: Seq<ReplyView>,
    at: nat,
    milliseconds: u64,
    operation: RepositoryOperation,
    action: RecoveryAction,
) -> GitStep<()> {
    session::followed(
        planned_step(replies, at, milliseconds),
        |_planned: (), n: nat| validate_step(replies, n, operation, action),
    )
}

/// The fingerprint of all that a recovery depends on, where it can be carried out now.
pub open spec fn prepare_recovery_step(
    replies: Seq<ReplyView>,
    at: nat,
    milliseconds: u64,
    operation: RepositoryOperation,
    action: RecoveryAction,
) -> GitStep<RecoveryStateView> {
    session::followed(
        validate_recovery_step(replies, at, milliseconds, operation, action),
        |_valid: (), n: nat| fingerprint_step(replies, n, Some((operation, action)), None),
    )
}

/// The command that carries out a recovery.
pub open spec fn recovery_words(operation: RepositoryOperation, action: RecoveryAction) -> Seq<
    Seq<char>,
> {
    seq![commands::operation_label(operation), "--"@ + lock::action_label(action)]
}

/// The command that carries out a recovery.
fn recovery_args(operation: RepositoryOperation, action: RecoveryAction) -> (result: Vec<String>)
    ensures
        result.deep_view() == recovery_words(operation, action),
{
    let option = text::concat2("--", action.label());
    words::words2(operation.label(), option.as_str())
}

/// Carries out a recovery.
pub open spec fn execution_step(
    replies: Seq<ReplyView>,
    at: nat,
    operation: RepositoryOperation,
    action: RecoveryAction,
) -> GitStep<GitOutputView> {
    let args = recovery_words(operation, action);
    session::followed(
        bounded::bounded_step(replies, at, args, false, BoundedCommandPolicy::RecoveryExecution),
        |output: BoundedCommandOutputView, n: nat|
            if commands::succeeded(output.status) {
                session::given(
                    GitOutputView {
                        status: output.status,
                        stdout: bounded::stream_text(output.stdout),
                        stderr: bounded::stream_text(output.stderr),
                    },
                    n,
                )
            } else {
                session::failed(bounded::command_failure(output, args), n)
            },
    )
}

/// Carries out a recovery.
fn execute(session: &mut Session, operation: RepositoryOperation, action: RecoveryAction) -> (result:
    GitResult<GitOutput>)
    ensures
        session::stepped(
            old(session),
            final(session),
            result,
            execution_step(old(session).replies(), old(session).at(), operation, action),
        ),
{
    let output = bounded::run_bounded(
        session,
        recovery_args(operation, action),
        false,
        BoundedCommandPolicy::RecoveryExecution,
    )?;
    if !output.status.success() {
        return Err(Halt::Failed(output.git_error(recovery_args(operation, action))));
    }
    let stdout = output.stdout.lossy_text();
    let stderr = output.stderr.lossy_text();
    Ok(GitOutput { status: output.status, stdout, stderr })
}

/// Takes the lock of a recovery, while there is time.
pub open spec fn locked_step(
    replies: Seq<ReplyView>,
    at: nat,
    operation: RepositoryOperation,
    action: RecoveryAction,
) -> GitStep<RecoveryLockView> {
    session::followed(
        safety::process_configuration_step(replies, at),
        |_safe: (), n: nat|
            session::followed(
                lock::acquire_step(replies, n, operation, action),
                |held: RecoveryLockView, n: nat|
                    session::followed(
                        bounded::in_time_step(
                            replies,
                            n,
                            GitErrorView::TimedOut { args: recovery_words(operation, action) },
                        ),
                        |_time: (), n: nat|
                            session::followed(
                                lock_again_step(replies, n, held, operation, action),
                                |_held: (), n: nat| session::given(held, n),
                            ),
                    ),
            ),
    )
}

/// Takes the lock of a recovery, while there is time.
fn take_recovery_lock(
    session: &mut Session,
    operation: RepositoryOperation,
    action: RecoveryAction,
) -> (result: GitResult<RecoveryLock>)
    ensures
        session::stepped(
            old(session),
            final(session),
            result,
            locked_step(old(session).replies(), old(session).at(), operation, action),
        ),
{
    safety::ensure_recovery_process_configuration_safe_until(session)?;
    let held = lock::acquire_recovery_lock_until(session, operation, action)?;
    bounded::ensure_in_time(session, recovery_args(operation, action))?;
    ensure_lock_again(session, &held, operation, action)?;
    Ok(held)
}

/// Carries out a recovery, whatever the state of the repository is.
pub open spec fn recover_step(
    replies: Seq<ReplyView>,
    at: nat,
    milliseconds: u64,
    operation: RepositoryOperation,
    action: RecoveryAction,
) -> GitStep<GitOutputView> {
    session::followed(
        begun_step(replies, at, milliseconds),
        |_begun: (), n: nat|
            session::followed(
                validate_step(replies, n, operation, action),
                |_valid: (), n: nat|
                    session::followed(
                        locked_step(replies, n, operation, action),
                        |held: RecoveryLockView, n: nat|
                            session::followed(
                                validate_step(replies, n, operation, action),
                                |_valid: (), n: nat|
                                    session::followed(
                                        fingerprint_step(
                                            replies,
                                            n,
                                            Some((operation, action)),
                                            Some((held, operation, action)),
                                        ),
                                        |_state: RecoveryStateView, n: nat|
                                            execution_step(replies, n, operation, action),
                                    ),
                            ),
                    ),
            ),
    )
}

/// The refusal of a recovery where the repository is not as it was when the recovery was prepared.
pub open spec fn state_changed(operation: RepositoryOperation, action: RecoveryAction) -> GitErrorView {
    commands::refusal(
        lock::about(
            operation,
            action,
            " is blocked because repository state changed after preview"@,
        ),
    )
}

/// The refusal of a recovery where the repository is not as it was when the recovery was prepared.
fn recovery_state_changed(
    operation: RepositoryOperation,
    action: RecoveryAction,
) -> (result: GitError)
    ensures
        result.deep_view() == state_changed(operation, action),
{
    lock::refuse(
        operation,
        action,
        " is blocked because repository state changed after preview",
    )
}

/// What stands in a refusal because of something that changed while a fingerprint was made.
pub open spec fn says_changed(halt: HaltView<GitErrorView>) -> bool {
    match halt {
        HaltView::Failed(GitErrorView::Blocked { message }) => text::contains_text(
            message,
            "changed while it was fingerprinted"@,
        ),
        _ => false,
    }
}

/// Whether a refusal is because of something that changed while a fingerprint was made.
fn is_change(halt: &Halt<GitError>) -> (result: bool)
    ensures
        result == says_changed(halt.deep_view()),
{
    match halt {
        Halt::Failed(GitError::Blocked { message }) => text::holds_part(
            message.as_str(),
            "changed while it was fingerprinted",
        ),
        _ => false,
    }
}

/// What a fingerprint means for a recovery that was prepared with another.
pub open spec fn judged(
    current: Result<RecoveryStateView, HaltView<GitErrorView>>,
    operation: RepositoryOperation,
    action: RecoveryAction,
    expected: RecoveryStateView,
) -> Result<(), HaltView<GitErrorView>> {
    match current {
        Ok(state) => if state == expected {
            Ok(())
        } else {
            Err(HaltView::Failed(state_changed(operation, action)))
        },
        Err(halt) => if says_changed(halt) {
            Err(HaltView::Failed(state_changed(operation, action)))
        } else {
            Err(halt)
        },
    }
}

/// What a fingerprint means for a recovery that was prepared with another.
fn judge(
    current: GitResult<RecoveryState>,
    operation: RepositoryOperation,
    action: RecoveryAction,
    expected: &RecoveryState,
) -> (result: GitResult<()>)
    ensures
        session::outcome(result) == judged(
            session::outcome(current),
            operation,
            action,
            expected.deep_view(),
        ),
{
    match current {
        Ok(state) => {
            if state.same(expected) {
                Ok(())
            } else {
                Err(Halt::Failed(recovery_state_changed(operation, action)))
            }
        },
        Err(halt) => {
            if is_change(&halt) {
                Err(Halt::Failed(recovery_state_changed(operation, action)))
            } else {
                Err(halt)
            }
        },
    }
}

/// Refuses where the fingerprint is not the one that is expected.
pub open spec fn unchanged_step(
    replies: Seq<ReplyView>,
    at: nat,
    operation: RepositoryOperation,
    action: RecoveryAction,
    held: RecoveryLockView,
    expected: RecoveryStateView,
) -> GitStep<()> {
    let state = fingerprint_step(
        replies,
        at,
        Some((operation, action)),
        Some((held, operation, action)),
    );
    Step { result: judged(state.result, operation, action, expected), next: state.next }
}

/// Refuses where the fingerprint is not the one that is expected.
fn ensure_unchanged_state(
    session: &mut Session,
    operation: RepositoryOperation,
    action: RecoveryAction,
    held: &RecoveryLock,
    expected: &RecoveryState,
) -> (result: GitResult<()>)
    ensures
        session::stepped(
            old(session),
            final(session),
            result,
            unchanged_step(
                old(session).replies(),
                old(session).at(),
                operation,
                action,
                held.deep_view(),
                expected.deep_view(),
            ),
        ),
{
    let current = recovery_state_fenced_until(
        session,
        Some((operation, action)),
        Some((held, operation, action)),
    );
    judge(current, operation, action, expected)
}

/// Carries out a recovery as it was prepared.
pub open spec fn recover_exact_step(
    replies: Seq<ReplyView>,
    at: nat,
    milliseconds: u64,
    operation: RepositoryOperation,
    action: RecoveryAction,
    expected: RecoveryStateView,
) -> GitStep<GitOutputView> {
    session::followed(
        begun_step(replies, at, milliseconds),
        |_begun: (), n: nat|
            match action_allowed(operation, action) {
                Err(error) => session::failed(error, n),
                Ok(_) => session::followed(
                    locked_step(replies, n, operation, action),
                    |held: RecoveryLockView, n: nat|
                        session::followed(
                            unchanged_step(replies, n, operation, action, held, expected),
                            |_same: (), n: nat| execution_step(replies, n, operation, action),
                        ),
                ),
            },
    )
}

impl Git {
    /// Goes on with an operation that stopped, gives it up, or skips a commit of it; only where nothing
    /// changes between the checks and the start.
    #[verifier::spinoff_prover]
    #[verifier::rlimit(30)]
    pub fn recover(&self, operation: RepositoryOperation, action: RecoveryAction, replies: &[Reply]) -> (result:
        GitResult<GitOutput>)
        ensures
            session::outcome(result) == recover_step(
                replies.deep_view(),
                0,
                self.recovery_start_timeout,
                operation,
                action,
            ).result,
    {
        let mut session = Session::new(replies);
        begin(&mut session, self.recovery_start_timeout)?;
        validate_recovery_until(&mut session, operation, action)?;
        let held = take_recovery_lock(&mut session, operation, action)?;
        validate_recovery_until(&mut session, operation, action)?;
        recovery_state_fenced_until(
            &mut session,
            Some((operation, action)),
            Some((&held, operation, action)),
        )?;
        execute(&mut session, operation, action)
    }

    /// The fingerprint of all that any recovery of this repository depends on.
    pub fn recovery_state(&self, replies: &[Reply]) -> (result: GitResult<RecoveryState>)
        ensures
            session::outcome(result) == recovery_state_step(
                replies.deep_view(),
                0,
                self.recovery_plan_timeout,
            ).result,
    {
        let mut session = Session::new(replies);
        plan(&mut session, self.recovery_plan_timeout)?;
        recovery_state_fenced_until(&mut session, None, None)
    }

    /// The fingerprint of all that a recovery depends on, where it can be carried out now.
    pub fn prepare_recovery(
        &self,
        operation: RepositoryOperation,
        action: RecoveryAction,
        replies: &[Reply],
    ) -> (result: GitResult<RecoveryState>)
        ensures
            session::outcome(result) == prepare_recovery_step(
                replies.deep_view(),
                0,
                self.recovery_plan_timeout,
                operation,
                action,
            ).result,
    {
        let mut session = Session::new(replies);
        plan(&mut session, self.recovery_plan_timeout)?;
        validate_recovery_until(&mut session, operation, action)?;
        recovery_state_fenced_until(&mut session, Some((operation, action)), None)
    }

    /// Refuses a recovery that cannot be carried out now.
    pub fn validate_recovery(
        &self,
        operation: RepositoryOperation,
        action: RecoveryAction,
        replies: &[Reply],
    ) -> (result: GitResult<()>)
        ensures
            session::outcome(result) == validate_recovery_step(
                replies.deep_view(),
                0,
                self.recovery_plan_timeout,
                operation,
                action,
            ).result,
    {
        let mut session = Session::new(replies);
        plan(&mut session, self.recovery_plan_timeout)?;
        validate_recovery_until(&mut session, operation, action)
    }

    /// Carries out a recovery where the repository is as it was when the recovery was prepared.
    pub fn recover_exact(
        &self,
        operation: RepositoryOperation,
        action: RecoveryAction,
        expected_state: &RecoveryState,
        replies: &[Reply],
    ) -> (result: GitResult<GitOutput>)
        ensures
            session::outcome(result) == recover_exact_step(
                replies.deep_view(),
                0,
                self.recovery_start_timeout,
                operation,
                action,
                expected_state.deep_view(),
            ).result,
    {
        let mut session = Session::new(replies);
        begin(&mut session, self.recovery_start_timeout)?;
        commands::settle(validate_recovery_action(operation, action))?;
        let held = take_recovery_lock(&mut session, operation, action)?;
        ensure_unchanged_state(&mut session, operation, action, &held, expected_state)?;
        execute(&mut session, operation, action)
    }
}

}
