//! What a recovery promises: the command that carries it out is asked for only under the lock of the
//! repository, and only after every check before it held.
use crate::bytes;
use crate::git::commands;
use crate::git::commands::GitStep;
use crate::git::recovery::bounded;
use crate::git::recovery::collisions;
use crate::git::recovery::drivers;
use crate::git::recovery::fence;
use crate::git::recovery::files;
use crate::git::recovery::lock;
use crate::git::recovery::lock::RecoveryLockView;
use crate::git::recovery::operations;
use crate::git::recovery::operations::RecoveryStateView;
use crate::git::recovery::safety;
use crate::git::recovery::safety::RecoveryProbeSafetyView;
use crate::git::recovery::state;
use crate::git::recovery::survey;
use crate::git::recovery::survey::{
    LookView, RecoveryInputView, RecoveryProbeView, RetainedInputView, SurveyView,
};
use crate::git::types::{GitErrorView, RecoveryAction, RepositoryOperation};
use crate::session;
use crate::session::{
    ActionView, BoundedCommandOutputView, BoundedCommandPolicy, FileMetadata, HaltView, ReplyView,
};
use crate::text;
use vstd::prelude::*;
use vstd::utf8;

verus! {

/// Whether an action carries out a recovery: of all bounded commands it alone may take any lock.
pub open spec fn executes(action: ActionView) -> bool {
    match action {
        ActionView::RunBounded { args: _, optional_locks, policy: _ } => !optional_locks,
        _ => false,
    }
}

/// Whether a part of an operation does not wait for a recovery to be carried out.
pub open spec fn holds_back<T>(step: GitStep<T>) -> bool {
    match step.result {
        Err(HaltView::Pending(action)) => !executes(action),
        _ => true,
    }
}

/// How many answers are left.
spec fn left(replies: Seq<ReplyView>, at: nat) -> nat {
    if at <= replies.len() {
        (replies.len() - at) as nat
    } else {
        0
    }
}

/// How many bytes are left until a limit.
spec fn read_measure(limit: u64, contents: Seq<u8>) -> nat {
    if contents.len() <= limit {
        (limit + 1 - contents.len()) as nat
    } else {
        0
    }
}

/// How many inputs are left.
spec fn inputs_left(inputs: Seq<RetainedInputView>, from: nat) -> nat {
    if from <= inputs.len() {
        (inputs.len() - from) as nat
    } else {
        0
    }
}

/// No recovery is carried out by `bounded::bounded_step`.
proof fn lemma_bounded(replies: Seq<ReplyView>)
    ensures
        forall|at: nat, args: Seq<Seq<char>>, optional_locks: bool, policy: BoundedCommandPolicy|
            optional_locks ==> holds_back(
                #[trigger] bounded::bounded_step(replies, at, args, optional_locks, policy),
            ),
{
}

/// No recovery is carried out by `bounded::probe_step`.
proof fn lemma_probe(replies: Seq<ReplyView>)
    ensures
        forall|at: nat, args: Seq<Seq<char>>|
            holds_back(#[trigger] bounded::probe_step(replies, at, args)),
{
    lemma_bounded(replies);
}

/// No recovery is carried out by `bounded::whole_output_step`.
proof fn lemma_whole_output(replies: Seq<ReplyView>)
    ensures
        forall|at: nat, args: Seq<Seq<char>>, too_long: Seq<char>|
            holds_back(#[trigger] bounded::whole_output_step(replies, at, args, too_long)),
{
    lemma_probe(replies);
}

/// No recovery is carried out by `bounded::git_path_until_step`.
proof fn lemma_git_path_until(replies: Seq<ReplyView>)
    ensures
        forall|at: nat, path: Seq<char>|
            holds_back(#[trigger] bounded::git_path_until_step(replies, at, path)),
{
    lemma_whole_output(replies);
}

/// No recovery is carried out by `bounded::repo_root_until_step`.
proof fn lemma_repo_root_until(replies: Seq<ReplyView>)
    ensures
        forall|at: nat| holds_back(#[trigger] bounded::repo_root_until_step(replies, at)),
{
    lemma_whole_output(replies);
}

/// No recovery is carried out by `bounded::in_time_step`.
proof fn lemma_in_time(replies: Seq<ReplyView>)
    ensures
        forall|at: nat, error: GitErrorView|
            holds_back(#[trigger] bounded::in_time_step(replies, at, error)),
{
}

/// No recovery is carried out by `bounded::start_step`.
proof fn lemma_start(replies: Seq<ReplyView>)
    ensures
        forall|at: nat, milliseconds: u64|
            holds_back(#[trigger] bounded::start_step(replies, at, milliseconds)),
{
}

/// No recovery is carried out by `files::metadata_step`.
proof fn lemma_metadata(replies: Seq<ReplyView>)
    ensures
        forall|at: nat, action: ActionView, path: Seq<u8>|
            !executes(action) ==> holds_back(
                #[trigger] files::metadata_step(replies, at, action, path),
            ),
{
}

/// No recovery is carried out by `files::reopened_step`.
proof fn lemma_reopened(replies: Seq<ReplyView>)
    ensures
        forall|at: nat, path: Seq<u8>, handle: u64, metadata: FileMetadata, directory: bool|
            holds_back(
                #[trigger] files::reopened_step(replies, at, path, handle, metadata, directory),
            ),
{
    lemma_metadata(replies);
}

/// The first parts of `files::read_rest_step` carry out no recovery.
proof fn lemma_read_rest_below(replies: Seq<ReplyView>, bound: nat)
    ensures
        forall|at: nat, path: Seq<u8>, handle: u64, limit: u64, contents: Seq<u8>|
            read_measure(limit, contents) < bound ==> holds_back(
                #[trigger] files::read_rest_step(replies, at, path, handle, limit, contents),
            ),
    decreases bound,
{
    if bound > 0 {
        lemma_read_rest_below(replies, (bound - 1) as nat);
        lemma_in_time(replies);
        assert forall|
            at: nat,
            path: Seq<u8>,
            handle: u64,
            limit: u64,
            contents: Seq<u8>,
        | read_measure(limit, contents) < bound implies holds_back(
            #[trigger] files::read_rest_step(replies, at, path, handle, limit, contents),
        ) by {
            let time = bounded::in_time_step(
                replies,
                at,
                bounded::out_of_time("recovery-process-configuration"@),
            );
            let read = session::asked::<GitErrorView>(
                replies,
                time.next,
                ActionView::Read { handle, limit: files::next_read(limit, contents.len()) },
            );
            let chunk = read.result->Ok_0->Bytes_0;
            if contents.len() <= limit && chunk.len() > 0 {
                assert(holds_back(
                    files::read_rest_step(
                        replies,
                        read.next,
                        path,
                        handle,
                        limit,
                        contents + chunk,
                    ),
                ));
            }
        }
    }
}

/// No recovery is carried out by `files::read_rest_step`.
proof fn lemma_read_rest(replies: Seq<ReplyView>)
    ensures
        forall|at: nat, path: Seq<u8>, handle: u64, limit: u64, contents: Seq<u8>|
            holds_back(
                #[trigger] files::read_rest_step(replies, at, path, handle, limit, contents),
            ),
{
    assert forall|
        at: nat,
        path: Seq<u8>,
        handle: u64,
        limit: u64,
        contents: Seq<u8>,
    | holds_back(#[trigger] files::read_rest_step(replies, at, path, handle, limit, contents)) by {
        lemma_read_rest_below(replies, read_measure(limit, contents) + 1);
    }
}

/// No recovery is carried out by `files::optional_file_step`.
proof fn lemma_optional_file(replies: Seq<ReplyView>)
    ensures
        forall|at: nat, path: Seq<u8>, limit: u64|
            holds_back(#[trigger] files::optional_file_step(replies, at, path, limit)),
{
    lemma_reopened(replies);
    lemma_read_rest(replies);
}

/// No recovery is carried out by `files::git_file_step`.
proof fn lemma_git_file(replies: Seq<ReplyView>)
    ensures
        forall|at: nat, relative: Seq<char>|
            holds_back(#[trigger] files::git_file_step(replies, at, relative)),
{
    lemma_git_path_until(replies);
    lemma_optional_file(replies);
}

/// No recovery is carried out by `files::remaining_oids_step`.
proof fn lemma_remaining_oids(replies: Seq<ReplyView>)
    ensures
        forall|at: nat| holds_back(#[trigger] files::remaining_oids_step(replies, at)),
{
    lemma_git_file(replies);
}

/// No recovery is carried out by `files::overwrite_target_step`.
proof fn lemma_overwrite_target(replies: Seq<ReplyView>)
    ensures
        forall|at: nat, operation: RepositoryOperation, action: RecoveryAction|
            holds_back(#[trigger] files::overwrite_target_step(replies, at, operation, action)),
{
    lemma_git_file(replies);
}

/// No recovery is carried out by `files::version_step`.
proof fn lemma_version(replies: Seq<ReplyView>)
    ensures
        forall|at: nat| holds_back(#[trigger] files::version_step(replies, at)),
{
    lemma_probe(replies);
}

/// No recovery is carried out by `files::rebase_marks_step`.
proof fn lemma_rebase_marks(replies: Seq<ReplyView>)
    ensures
        forall|at: nat, merge: Seq<u8>, apply: Seq<u8>|
            holds_back(#[trigger] files::rebase_marks_step(replies, at, merge, apply)),
{
}

/// No recovery is carried out by `files::operation_until_step`.
proof fn lemma_operation_until(replies: Seq<ReplyView>)
    ensures
        forall|at: nat| holds_back(#[trigger] files::operation_until_step(replies, at)),
{
    lemma_git_path_until(replies);
    lemma_rebase_marks(replies);
}

/// No recovery is carried out by `files::conflicts_step`.
proof fn lemma_conflicts(replies: Seq<ReplyView>)
    ensures
        forall|at: nat| holds_back(#[trigger] files::conflicts_step(replies, at)),
{
    lemma_probe(replies);
}

/// The first parts of `drivers::attribute_chunks_step` carry out no recovery.
proof fn lemma_attribute_chunks_below(replies: Seq<ReplyView>, bound: nat)
    ensures
        forall|
            at: nat,
            source: Option<Seq<char>>,
            paths: Seq<Seq<u8>>,
            configured: Seq<Seq<char>>,
            active: Seq<Seq<char>>,
        |
            paths.len() < bound ==> holds_back(
                #[trigger] drivers::attribute_chunks_step(replies, at, source, paths, configured, active),
            ),
    decreases bound,
{
    if bound > 0 {
        lemma_attribute_chunks_below(replies, (bound - 1) as nat);
        lemma_whole_output(replies);
        assert forall|
            at: nat,
            source: Option<Seq<char>>,
            paths: Seq<Seq<u8>>,
            configured: Seq<Seq<char>>,
            active: Seq<Seq<char>>,
        | paths.len() < bound implies holds_back(
            #[trigger] drivers::attribute_chunks_step(replies, at, source, paths, configured, active),
        ) by {
            let count = drivers::chunk_len(paths.len());
            let output = bounded::whole_output_step(
                replies,
                at,
                drivers::attribute_words(source) + drivers::decoded(
                    paths.take(count),
                    Seq::empty(),
                ),
                "recovery is blocked because effective attributes exceed the bounded output limit"@,
            );
            let fields = text::filled(text::pieces(output.result->Ok_0.stdout.bytes, 0u8));
            if paths.len() > 0 {
                assert(holds_back(
                    drivers::attribute_chunks_step(
                        replies,
                        output.next,
                        source,
                        paths.skip(count),
                        configured,
                        drivers::active_in(fields, configured, active)->Ok_0,
                    ),
                ));
            }
        }
    }
}

/// No recovery is carried out by `drivers::attribute_chunks_step`.
proof fn lemma_attribute_chunks(replies: Seq<ReplyView>)
    ensures
        forall|
            at: nat,
            source: Option<Seq<char>>,
            paths: Seq<Seq<u8>>,
            configured: Seq<Seq<char>>,
            active: Seq<Seq<char>>,
        |
            holds_back(
                #[trigger] drivers::attribute_chunks_step(replies, at, source, paths, configured, active),
            ),
{
    assert forall|
        at: nat,
        source: Option<Seq<char>>,
        paths: Seq<Seq<u8>>,
        configured: Seq<Seq<char>>,
        active: Seq<Seq<char>>,
    | holds_back(#[trigger] drivers::attribute_chunks_step(replies, at, source, paths, configured, active)) by {
        lemma_attribute_chunks_below(replies, paths.len() + 1);
    }
}

/// No recovery is carried out by `drivers::source_filters_step`.
proof fn lemma_source_filters(replies: Seq<ReplyView>)
    ensures
        forall|
            at: nat,
            source: Option<Seq<char>>,
            configured: Seq<Seq<char>>,
            active: Seq<Seq<char>>,
        |
            holds_back(
                #[trigger] drivers::source_filters_step(replies, at, source, configured, active),
            ),
{
    lemma_whole_output(replies);
    lemma_attribute_chunks(replies);
}

/// The first parts of `drivers::tree_filters_step` carry out no recovery.
proof fn lemma_tree_filters_below(replies: Seq<ReplyView>, bound: nat)
    ensures
        forall|at: nat, trees: Seq<Seq<char>>, configured: Seq<Seq<char>>, active: Seq<Seq<char>>|
            trees.len() < bound ==> holds_back(
                #[trigger] drivers::tree_filters_step(replies, at, trees, configured, active),
            ),
    decreases bound,
{
    if bound > 0 {
        lemma_tree_filters_below(replies, (bound - 1) as nat);
        lemma_source_filters(replies);
        assert forall|
            at: nat,
            trees: Seq<Seq<char>>,
            configured: Seq<Seq<char>>,
            active: Seq<Seq<char>>,
        | trees.len() < bound implies holds_back(
            #[trigger] drivers::tree_filters_step(replies, at, trees, configured, active),
        ) by {
            let first = drivers::source_filters_step(
                replies,
                at,
                Some(trees[0]),
                configured,
                active,
            );
            if trees.len() > 0 {
                assert(holds_back(
                    drivers::tree_filters_step(
                        replies,
                        first.next,
                        trees.skip(1),
                        configured,
                        first.result->Ok_0,
                    ),
                ));
            }
        }
    }
}

/// No recovery is carried out by `drivers::tree_filters_step`.
proof fn lemma_tree_filters(replies: Seq<ReplyView>)
    ensures
        forall|at: nat, trees: Seq<Seq<char>>, configured: Seq<Seq<char>>, active: Seq<Seq<char>>|
            holds_back(
                #[trigger] drivers::tree_filters_step(replies, at, trees, configured, active),
            ),
{
    assert forall|
        at: nat,
        trees: Seq<Seq<char>>,
        configured: Seq<Seq<char>>,
        active: Seq<Seq<char>>,
    | holds_back(#[trigger] drivers::tree_filters_step(replies, at, trees, configured, active)) by {
        lemma_tree_filters_below(replies, trees.len() + 1);
    }
}

/// No recovery is carried out by `drivers::filter_trees_step`.
proof fn lemma_filter_trees(replies: Seq<ReplyView>)
    ensures
        forall|at: nat| holds_back(#[trigger] drivers::filter_trees_step(replies, at)),
{
    lemma_remaining_oids(replies);
    lemma_overwrite_target(replies);
    lemma_operation_until(replies);
}

/// No recovery is carried out by `drivers::active_filters_step`.
proof fn lemma_active_filters(replies: Seq<ReplyView>)
    ensures
        forall|at: nat, configured: Seq<Seq<char>>|
            holds_back(#[trigger] drivers::active_filters_step(replies, at, configured)),
{
    lemma_source_filters(replies);
    lemma_tree_filters(replies);
    lemma_filter_trees(replies);
}

/// No recovery is carried out by `drivers::external_drivers_step`.
proof fn lemma_external_drivers(replies: Seq<ReplyView>)
    ensures
        forall|at: nat, args: Seq<Seq<char>>, output: BoundedCommandOutputView|
            holds_back(#[trigger] drivers::external_drivers_step(replies, at, args, output)),
{
    lemma_active_filters(replies);
}

/// No recovery is carried out by `safety::setting_enabled_step`.
proof fn lemma_setting_enabled(replies: Seq<ReplyView>)
    ensures
        forall|at: nat, key: Seq<char>|
            holds_back(#[trigger] safety::setting_enabled_step(replies, at, key)),
{
    lemma_probe(replies);
}

/// No recovery is carried out by `safety::hooks_directory_step`.
proof fn lemma_hooks_directory(replies: Seq<ReplyView>)
    ensures
        forall|at: nat, output: Seq<u8>|
            holds_back(#[trigger] safety::hooks_directory_step(replies, at, output)),
{
    lemma_repo_root_until(replies);
}

/// No recovery is carried out by `safety::hooks_path_step`.
proof fn lemma_hooks_path(replies: Seq<ReplyView>)
    ensures
        forall|at: nat| holds_back(#[trigger] safety::hooks_path_step(replies, at)),
{
    lemma_probe(replies);
    lemma_git_path_until(replies);
    lemma_hooks_directory(replies);
}

/// The first parts of `safety::runnable_hooks_step` carry out no recovery.
proof fn lemma_runnable_hooks_below(replies: Seq<ReplyView>, bound: nat)
    ensures
        forall|at: nat, directory: Seq<u8>, hooks: Seq<Seq<char>>|
            hooks.len() < bound ==> holds_back(
                #[trigger] safety::runnable_hooks_step(replies, at, directory, hooks),
            ),
    decreases bound,
{
    if bound > 0 {
        lemma_runnable_hooks_below(replies, (bound - 1) as nat);
        assert forall|
            at: nat,
            directory: Seq<u8>,
            hooks: Seq<Seq<char>>,
        | hooks.len() < bound implies holds_back(
            #[trigger] safety::runnable_hooks_step(replies, at, directory, hooks),
        ) by {
            if hooks.len() > 0 {
                assert(holds_back(
                    safety::runnable_hooks_step(replies, at, directory, hooks.drop_last()),
                ));
            }
        }
    }
}

/// No recovery is carried out by `safety::runnable_hooks_step`.
proof fn lemma_runnable_hooks(replies: Seq<ReplyView>)
    ensures
        forall|at: nat, directory: Seq<u8>, hooks: Seq<Seq<char>>|
            holds_back(#[trigger] safety::runnable_hooks_step(replies, at, directory, hooks)),
{
    assert forall|
        at: nat,
        directory: Seq<u8>,
        hooks: Seq<Seq<char>>,
    | holds_back(#[trigger] safety::runnable_hooks_step(replies, at, directory, hooks)) by {
        lemma_runnable_hooks_below(replies, hooks.len() + 1);
    }
}

/// No recovery is carried out by `safety::blank_file_step`.
proof fn lemma_blank_file(replies: Seq<ReplyView>)
    ensures
        forall|at: nat, relative: Seq<char>, message: Seq<char>|
            holds_back(#[trigger] safety::blank_file_step(replies, at, relative, message)),
{
    lemma_git_file(replies);
}

/// No recovery is carried out by `safety::plan_step`.
proof fn lemma_plan(replies: Seq<ReplyView>)
    ensures
        forall|at: nat, relative: Seq<char>|
            holds_back(#[trigger] safety::plan_step(replies, at, relative)),
{
    lemma_git_file(replies);
}

/// No recovery is carried out by `safety::setting_off_step`.
proof fn lemma_setting_off(replies: Seq<ReplyView>)
    ensures
        forall|at: nat, key: Seq<char>, message: Seq<char>|
            holds_back(#[trigger] safety::setting_off_step(replies, at, key, message)),
{
    lemma_setting_enabled(replies);
}

/// No recovery is carried out by `safety::no_hooks_step`.
proof fn lemma_no_hooks(replies: Seq<ReplyView>)
    ensures
        forall|at: nat| holds_back(#[trigger] safety::no_hooks_step(replies, at)),
{
    lemma_hooks_path(replies);
    lemma_runnable_hooks(replies);
}

/// No recovery is carried out by `safety::no_drivers_step`.
proof fn lemma_no_drivers(replies: Seq<ReplyView>)
    ensures
        forall|at: nat| holds_back(#[trigger] safety::no_drivers_step(replies, at)),
{
    lemma_probe(replies);
    lemma_external_drivers(replies);
}

/// No recovery is carried out by `safety::settings_safe_step`.
proof fn lemma_settings_safe(replies: Seq<ReplyView>)
    ensures
        forall|at: nat| holds_back(#[trigger] safety::settings_safe_step(replies, at)),
{
    lemma_setting_off(replies);
}

/// No recovery is carried out by `safety::strategies_step`.
proof fn lemma_strategies(replies: Seq<ReplyView>)
    ensures
        forall|at: nat| holds_back(#[trigger] safety::strategies_step(replies, at)),
{
    lemma_blank_file(replies);
}

/// No recovery is carried out by `safety::rebase_options_step`.
proof fn lemma_rebase_options(replies: Seq<ReplyView>)
    ensures
        forall|at: nat| holds_back(#[trigger] safety::rebase_options_step(replies, at)),
{
    lemma_blank_file(replies);
    lemma_strategies(replies);
}

/// No recovery is carried out by `safety::process_configuration_step`.
proof fn lemma_process_configuration(replies: Seq<ReplyView>)
    ensures
        forall|at: nat| holds_back(#[trigger] safety::process_configuration_step(replies, at)),
{
    lemma_plan(replies);
    lemma_no_hooks(replies);
    lemma_no_drivers(replies);
    lemma_settings_safe(replies);
    lemma_rebase_options(replies);
}

/// No recovery is carried out by `lock::environment_step`.
proof fn lemma_environment(replies: Seq<ReplyView>)
    ensures
        forall|at: nat, name: Seq<char>|
            holds_back(#[trigger] lock::environment_step(replies, at, name)),
{
}

/// No recovery is carried out by `lock::data_directory_step`.
proof fn lemma_data_directory(replies: Seq<ReplyView>)
    ensures
        forall|at: nat| holds_back(#[trigger] lock::data_directory_step(replies, at)),
{
    lemma_environment(replies);
}

/// No recovery is carried out by `lock::lock_directory_step`.
proof fn lemma_lock_directory(replies: Seq<ReplyView>)
    ensures
        forall|at: nat, path: Seq<u8>, operation: RepositoryOperation, action: RecoveryAction|
            holds_back(#[trigger] lock::lock_directory_step(replies, at, path, operation, action)),
{
}

/// No recovery is carried out by `lock::lock_metadata_step`.
proof fn lemma_lock_metadata(replies: Seq<ReplyView>)
    ensures
        forall|at: nat, ask: ActionView, operation: RepositoryOperation, action: RecoveryAction|
            !executes(ask) ==> holds_back(
                #[trigger] lock::lock_metadata_step(replies, at, ask, operation, action),
            ),
{
}

/// No recovery is carried out by `lock::identity_step`.
proof fn lemma_identity(replies: Seq<ReplyView>)
    ensures
        forall|
            at: nat,
            lock: RecoveryLockView,
            root: Seq<u8>,
            operation: RepositoryOperation,
            action: RecoveryAction,
        |
            holds_back(#[trigger] lock::identity_step(replies, at, lock, root, operation, action)),
{
    lemma_lock_directory(replies);
    lemma_lock_metadata(replies);
}

/// No recovery is carried out by `lock::canonical_root_step`.
proof fn lemma_canonical_root(replies: Seq<ReplyView>)
    ensures
        forall|at: nat| holds_back(#[trigger] lock::canonical_root_step(replies, at)),
{
    lemma_repo_root_until(replies);
}

/// No recovery is carried out by `lock::resolved_home_step`.
proof fn lemma_resolved_home(replies: Seq<ReplyView>)
    ensures
        forall|at: nat, directory: Seq<u8>, operation: RepositoryOperation, action: RecoveryAction|
            holds_back(
                #[trigger] lock::resolved_home_step(replies, at, directory, operation, action),
            ),
{
}

/// No recovery is carried out by `lock::lock_home_step`.
proof fn lemma_lock_home(replies: Seq<ReplyView>)
    ensures
        forall|at: nat, operation: RepositoryOperation, action: RecoveryAction|
            holds_back(#[trigger] lock::lock_home_step(replies, at, operation, action)),
{
    lemma_data_directory(replies);
    lemma_resolved_home(replies);
}

/// No recovery is carried out by `lock::locked_file_step`.
proof fn lemma_locked_file(replies: Seq<ReplyView>)
    ensures
        forall|at: nat, path: Seq<u8>, operation: RepositoryOperation, action: RecoveryAction|
            holds_back(#[trigger] lock::locked_file_step(replies, at, path, operation, action)),
{
}

/// No recovery is carried out by `lock::take_step`.
proof fn lemma_take(replies: Seq<ReplyView>)
    ensures
        forall|
            at: nat,
            root: Seq<u8>,
            home: Seq<u8>,
            operation: RepositoryOperation,
            action: RecoveryAction,
        |
            holds_back(#[trigger] lock::take_step(replies, at, root, home, operation, action)),
{
    lemma_lock_directory(replies);
    lemma_identity(replies);
    lemma_locked_file(replies);
}

/// No recovery is carried out by `lock::acquire_step`.
proof fn lemma_acquire(replies: Seq<ReplyView>)
    ensures
        forall|at: nat, operation: RepositoryOperation, action: RecoveryAction|
            holds_back(#[trigger] lock::acquire_step(replies, at, operation, action)),
{
    lemma_canonical_root(replies);
    lemma_lock_home(replies);
    lemma_take(replies);
}

/// No recovery is carried out by `survey::capacity_step`.
proof fn lemma_capacity(replies: Seq<ReplyView>)
    ensures
        forall|at: nat, entries: nat|
            holds_back(#[trigger] survey::capacity_step(replies, at, entries)),
{
    lemma_in_time(replies);
}

/// No recovery is carried out by `survey::link_metadata_step`.
proof fn lemma_link_metadata(replies: Seq<ReplyView>)
    ensures
        forall|at: nat, path: Seq<u8>|
            holds_back(#[trigger] survey::link_metadata_step(replies, at, path)),
{
    lemma_metadata(replies);
}

/// No recovery is carried out by `survey::read_link_step`.
proof fn lemma_read_link(replies: Seq<ReplyView>)
    ensures
        forall|at: nat, path: Seq<u8>|
            holds_back(#[trigger] survey::read_link_step(replies, at, path)),
{
}

/// No recovery is carried out by `survey::link_step`.
proof fn lemma_link(replies: Seq<ReplyView>)
    ensures
        forall|at: nat, path: Seq<u8>| holds_back(#[trigger] survey::link_step(replies, at, path)),
{
    lemma_link_metadata(replies);
    lemma_read_link(replies);
}

/// No recovery is carried out by `survey::link_again_step`.
proof fn lemma_link_again(replies: Seq<ReplyView>)
    ensures
        forall|at: nat, path: Seq<u8>, target: Seq<u8>, metadata: FileMetadata|
            holds_back(#[trigger] survey::link_again_step(replies, at, path, target, metadata)),
{
    lemma_link_metadata(replies);
    lemma_read_link(replies);
}

/// The first parts of `survey::contents_step` carry out no recovery.
proof fn lemma_contents_below(replies: Seq<ReplyView>, bound: nat)
    ensures
        forall|
            at: nat,
            path: Seq<u8>,
            handle: u64,
            inspected: bool,
            budget: Option<nat>,
            budget_error: Seq<char>,
            contents: Seq<u8>,
        |
            left(replies, at) < bound ==> holds_back(
                #[trigger] survey::contents_step(replies, at, path, handle, inspected, budget, budget_error, contents),
            ),
    decreases bound,
{
    if bound > 0 {
        lemma_contents_below(replies, (bound - 1) as nat);
        lemma_in_time(replies);
        assert forall|
            at: nat,
            path: Seq<u8>,
            handle: u64,
            inspected: bool,
            budget: Option<nat>,
            budget_error: Seq<char>,
            contents: Seq<u8>,
        | left(replies, at) < bound implies holds_back(
            #[trigger] survey::contents_step(replies, at, path, handle, inspected, budget, budget_error, contents),
        ) by {
            let time = bounded::in_time_step(replies, at, survey::survey_late());
            let read = session::asked::<GitErrorView>(
                replies,
                time.next,
                ActionView::Read { handle, limit: survey::READ_SIZE },
            );
            if time.result is Ok && read.result is Ok {
                assert(holds_back(
                    survey::contents_step(
                        replies,
                        read.next,
                        path,
                        handle,
                        inspected,
                        budget,
                        budget_error,
                        contents + read.result->Ok_0->Bytes_0,
                    ),
                ));
            }
        }
    }
}

/// No recovery is carried out by `survey::contents_step`.
proof fn lemma_contents(replies: Seq<ReplyView>)
    ensures
        forall|
            at: nat,
            path: Seq<u8>,
            handle: u64,
            inspected: bool,
            budget: Option<nat>,
            budget_error: Seq<char>,
            contents: Seq<u8>,
        |
            holds_back(
                #[trigger] survey::contents_step(replies, at, path, handle, inspected, budget, budget_error, contents),
            ),
{
    assert forall|
        at: nat,
        path: Seq<u8>,
        handle: u64,
        inspected: bool,
        budget: Option<nat>,
        budget_error: Seq<char>,
        contents: Seq<u8>,
    | holds_back(#[trigger] survey::contents_step(replies, at, path, handle, inspected, budget, budget_error, contents)) by {
        lemma_contents_below(replies, left(replies, at) + 1);
    }
}

/// The first parts of `survey::names_step` carry out no recovery.
proof fn lemma_names_below(replies: Seq<ReplyView>, bound: nat)
    ensures
        forall|at: nat, path: Seq<u8>, handle: u64, entries: nat, names: Seq<Seq<u8>>|
            left(replies, at) < bound ==> holds_back(
                #[trigger] survey::names_step(replies, at, path, handle, entries, names),
            ),
    decreases bound,
{
    if bound > 0 {
        lemma_names_below(replies, (bound - 1) as nat);
        lemma_capacity(replies);
        assert forall|
            at: nat,
            path: Seq<u8>,
            handle: u64,
            entries: nat,
            names: Seq<Seq<u8>>,
        | left(replies, at) < bound implies holds_back(
            #[trigger] survey::names_step(replies, at, path, handle, entries, names),
        ) by {
            let child = session::asked::<GitErrorView>(
                replies,
                at,
                ActionView::NextChild { handle },
            );
            let capacity = survey::capacity_step(replies, child.next, entries);
            let name = child.result->Ok_0->Bytes_0;
            if child.result is Ok && capacity.result is Ok {
                assert(holds_back(
                    survey::names_step(
                        replies,
                        capacity.next,
                        path,
                        handle,
                        entries,
                        if name == seq![46u8] || name == seq![46u8, 46u8] {
                            names
                        } else {
                            names.push(name)
                        },
                    ),
                ));
            }
        }
    }
}

/// No recovery is carried out by `survey::names_step`.
proof fn lemma_names(replies: Seq<ReplyView>)
    ensures
        forall|at: nat, path: Seq<u8>, handle: u64, entries: nat, names: Seq<Seq<u8>>|
            holds_back(#[trigger] survey::names_step(replies, at, path, handle, entries, names)),
{
    assert forall|
        at: nat,
        path: Seq<u8>,
        handle: u64,
        entries: nat,
        names: Seq<Seq<u8>>,
    | holds_back(#[trigger] survey::names_step(replies, at, path, handle, entries, names)) by {
        lemma_names_below(replies, left(replies, at) + 1);
    }
}

/// No recovery is carried out by `survey::children_step`.
proof fn lemma_children(replies: Seq<ReplyView>)
    ensures
        forall|at: nat, path: Seq<u8>, handle: u64, entries: nat|
            holds_back(#[trigger] survey::children_step(replies, at, path, handle, entries)),
{
    lemma_names(replies);
}

/// No recovery is carried out by `survey::file_step`.
proof fn lemma_file(replies: Seq<ReplyView>)
    ensures
        forall|
            at: nat,
            label: Seq<u8>,
            path: Seq<u8>,
            handle: u64,
            metadata: FileMetadata,
            look: LookView,
        |
            holds_back(
                #[trigger] survey::file_step(replies, at, label, path, handle, metadata, look),
            ),
{
    lemma_reopened(replies);
    lemma_contents(replies);
}

/// Looking at the children of directories carries out no recovery, where looking at paths does not.
proof fn lemma_listed_below(replies: Seq<ReplyView>, bound: nat, count: nat)
    requires
        forall|at: nat, label: Seq<u8>, path: Seq<u8>, depth: nat, entries: nat, look: LookView|
            survey::room(entries) < bound ==> holds_back(
                #[trigger] survey::path_step(replies, at, label, path, depth, entries, look),
            ),
    ensures
        forall|
            at: nat,
            label: Seq<u8>,
            path: Seq<u8>,
            depth: nat,
            entries: nat,
            look: LookView,
            names: Seq<Seq<u8>>,
        |
            survey::room(entries) < bound && names.len() < count ==> holds_back(
                #[trigger] survey::listed_step(replies, at, label, path, depth, entries, look, names),
            ),
    decreases count,
{
    if count > 0 {
        lemma_listed_below(replies, bound, (count - 1) as nat);
        lemma_capacity(replies);
        assert forall|
            at: nat,
            label: Seq<u8>,
            path: Seq<u8>,
            depth: nat,
            entries: nat,
            look: LookView,
            names: Seq<Seq<u8>>,
        | survey::room(entries) < bound && names.len() < count implies holds_back(
            #[trigger] survey::listed_step(replies, at, label, path, depth, entries, look, names),
        ) by {
            let before = survey::listed_step(
                replies,
                at,
                label,
                path,
                depth,
                entries,
                look,
                names.drop_last(),
            );
            let done = before.result->Ok_0;
            let capacity = survey::capacity_step(replies, before.next, entries + done.entries);
            let child = survey::path_step(
                replies,
                capacity.next,
                survey::child_label(label, names.last()),
                bytes::joined_path(path, names.last()),
                depth,
                entries + done.entries,
                survey::after(look, done.spent),
            );
            if names.len() > 0 {
                assert(holds_back(before));
                assert(holds_back(child));
            }
        }
    }
}

/// Looking at paths and directories carries out no recovery, as long as there is not too much room left.
proof fn lemma_paths_below(replies: Seq<ReplyView>, bound: nat)
    ensures
        forall|at: nat, label: Seq<u8>, path: Seq<u8>, depth: nat, entries: nat, look: LookView|
            survey::room(entries) < bound ==> holds_back(
                #[trigger] survey::path_step(replies, at, label, path, depth, entries, look),
            ),
        forall|
            at: nat,
            label: Seq<u8>,
            path: Seq<u8>,
            depth: nat,
            entries: nat,
            look: LookView,
            names: Seq<Seq<u8>>,
        |
            survey::room(entries) < bound ==> holds_back(
                #[trigger] survey::listed_step(replies, at, label, path, depth, entries, look, names),
            ),
    decreases bound,
{
    if bound > 0 {
        lemma_paths_below(replies, (bound - 1) as nat);
        lemma_reopened(replies);
        lemma_capacity(replies);
        lemma_link(replies);
        lemma_link_again(replies);
        lemma_children(replies);
        lemma_file(replies);
        assert forall|
            at: nat,
            label: Seq<u8>,
            path: Seq<u8>,
            depth: nat,
            entries: nat,
            look: LookView,
        | survey::room(entries) < bound implies holds_back(
            #[trigger] survey::path_step(replies, at, label, path, depth, entries, look),
        ) by {
            let capacity = survey::capacity_step(replies, at, entries);
            let opened = session::asked::<GitErrorView>(
                replies,
                capacity.next,
                ActionView::Open { path },
            );
            let link = survey::link_step(replies, opened.next, path);
            let space = survey::capacity_step(replies, link.next, entries + 1);
            let handle = opened.result->Ok_0->Opened_handle;
            let names = survey::children_step(replies, opened.next, path, handle, entries + 1);
            if capacity.result is Ok {
                assert(holds_back(
                    survey::path_step(
                        replies,
                        space.next,
                        label,
                        survey::link_destination(path, link.result->Ok_0.1),
                        depth + 1,
                        entries + 1,
                        look,
                    ),
                ));
                assert(holds_back(
                    survey::listed_step(
                        replies,
                        names.next,
                        label,
                        path,
                        depth,
                        entries + 1,
                        look,
                        names.result->Ok_0,
                    ),
                ));
            }
        }
        assert forall|
            at: nat,
            label: Seq<u8>,
            path: Seq<u8>,
            depth: nat,
            entries: nat,
            look: LookView,
            names: Seq<Seq<u8>>,
        | survey::room(entries) < bound implies holds_back(
            #[trigger] survey::listed_step(replies, at, label, path, depth, entries, look, names),
        ) by {
            lemma_listed_below(replies, bound, names.len() + 1);
        }
    }
}

/// No recovery is carried out by `survey::path_step`.
proof fn lemma_path(replies: Seq<ReplyView>)
    ensures
        forall|at: nat, label: Seq<u8>, path: Seq<u8>, depth: nat, entries: nat, look: LookView|
            holds_back(
                #[trigger] survey::path_step(replies, at, label, path, depth, entries, look),
            ),
{
    assert forall|
        at: nat,
        label: Seq<u8>,
        path: Seq<u8>,
        depth: nat,
        entries: nat,
        look: LookView,
    | holds_back(#[trigger] survey::path_step(replies, at, label, path, depth, entries, look)) by {
        lemma_paths_below(replies, survey::room(entries) + 1);
    }
}

/// No recovery is carried out by `state::setting_step`.
proof fn lemma_setting(replies: Seq<ReplyView>)
    ensures
        forall|at: nat, survey: SurveyView, key: Seq<char>|
            holds_back(#[trigger] state::setting_step(replies, at, survey, key)),
{
    lemma_probe(replies);
}

/// No recovery is carried out by `state::driver_settings_step`.
proof fn lemma_driver_settings(replies: Seq<ReplyView>)
    ensures
        forall|at: nat, survey: SurveyView|
            holds_back(#[trigger] state::driver_settings_step(replies, at, survey)),
{
    lemma_probe(replies);
    lemma_external_drivers(replies);
}

/// No recovery is carried out by `state::process_settings_step`.
proof fn lemma_process_settings(replies: Seq<ReplyView>)
    ensures
        forall|at: nat, survey: SurveyView|
            holds_back(#[trigger] state::process_settings_step(replies, at, survey)),
{
    lemma_setting(replies);
    lemma_driver_settings(replies);
}

/// No recovery is carried out by `state::digest_step`.
proof fn lemma_digest(replies: Seq<ReplyView>)
    ensures
        forall|at: nat, survey: SurveyView, args: Seq<Seq<char>>|
            holds_back(#[trigger] state::digest_step(replies, at, survey, args)),
{
    lemma_bounded(replies);
}

/// No recovery is carried out by `state::outputs_step`.
proof fn lemma_outputs(replies: Seq<ReplyView>)
    ensures
        forall|at: nat, survey: SurveyView|
            holds_back(#[trigger] state::outputs_step(replies, at, survey)),
{
    lemma_digest(replies);
}

/// No recovery is carried out by `state::path_into_step`.
proof fn lemma_path_into(replies: Seq<ReplyView>)
    ensures
        forall|at: nat, survey: SurveyView, label: Seq<u8>, path: Seq<u8>|
            holds_back(#[trigger] state::path_into_step(replies, at, survey, label, path)),
{
    lemma_path(replies);
}

/// The first parts of `state::control_step` carry out no recovery.
proof fn lemma_control_below(replies: Seq<ReplyView>, bound: nat)
    ensures
        forall|at: nat, survey: SurveyView, names: Seq<Seq<char>>|
            names.len() < bound ==> holds_back(
                #[trigger] state::control_step(replies, at, survey, names),
            ),
    decreases bound,
{
    if bound > 0 {
        lemma_control_below(replies, (bound - 1) as nat);
        lemma_git_path_until(replies);
        lemma_path_into(replies);
        assert forall|
            at: nat,
            survey: SurveyView,
            names: Seq<Seq<char>>,
        | names.len() < bound implies holds_back(
            #[trigger] state::control_step(replies, at, survey, names),
        ) by {
            let path = bounded::git_path_until_step(replies, at, names[0]);
            let taken = state::path_into_step(
                replies,
                path.next,
                survey,
                utf8::encode_utf8(names[0]),
                path.result->Ok_0,
            );
            if names.len() > 0 {
                assert(holds_back(
                    state::control_step(replies, taken.next, taken.result->Ok_0, names.skip(1)),
                ));
            }
        }
    }
}

/// No recovery is carried out by `state::control_step`.
proof fn lemma_control(replies: Seq<ReplyView>)
    ensures
        forall|at: nat, survey: SurveyView, names: Seq<Seq<char>>|
            holds_back(#[trigger] state::control_step(replies, at, survey, names)),
{
    assert forall|
        at: nat,
        survey: SurveyView,
        names: Seq<Seq<char>>,
    | holds_back(#[trigger] state::control_step(replies, at, survey, names)) by {
        lemma_control_below(replies, names.len() + 1);
    }
}

/// No recovery is carried out by `state::hooks_setting_step`.
proof fn lemma_hooks_setting(replies: Seq<ReplyView>)
    ensures
        forall|at: nat, survey: SurveyView|
            holds_back(#[trigger] state::hooks_setting_step(replies, at, survey)),
{
    lemma_probe(replies);
    lemma_git_path_until(replies);
    lemma_hooks_directory(replies);
}

/// No recovery is carried out by `state::hooks_step`.
proof fn lemma_hooks(replies: Seq<ReplyView>)
    ensures
        forall|at: nat, survey: SurveyView|
            holds_back(#[trigger] state::hooks_step(replies, at, survey)),
{
    lemma_path_into(replies);
    lemma_hooks_setting(replies);
}

/// No recovery is carried out by `state::variable_path_step`.
proof fn lemma_variable_path(replies: Seq<ReplyView>)
    ensures
        forall|at: nat, variable: Seq<char>|
            holds_back(#[trigger] state::variable_path_step(replies, at, variable)),
{
    lemma_probe(replies);
}

/// No recovery is carried out by `state::variable_step`.
proof fn lemma_variable(replies: Seq<ReplyView>)
    ensures
        forall|at: nat, survey: SurveyView, variable: Seq<char>|
            holds_back(#[trigger] state::variable_step(replies, at, survey, variable)),
{
    lemma_path_into(replies);
    lemma_variable_path(replies);
}

/// No recovery is carried out by `state::untracked_paths_step`.
proof fn lemma_untracked_paths(replies: Seq<ReplyView>)
    ensures
        forall|at: nat| holds_back(#[trigger] state::untracked_paths_step(replies, at)),
{
    lemma_whole_output(replies);
}

/// The first parts of `state::untracked_step` carry out no recovery.
proof fn lemma_untracked_below(replies: Seq<ReplyView>, bound: nat)
    ensures
        forall|at: nat, survey: SurveyView, root: Seq<u8>, paths: Seq<Seq<u8>>, spent: nat|
            paths.len() < bound ==> holds_back(
                #[trigger] state::untracked_step(replies, at, survey, root, paths, spent),
            ),
    decreases bound,
{
    if bound > 0 {
        lemma_untracked_below(replies, (bound - 1) as nat);
        lemma_path(replies);
        assert forall|
            at: nat,
            survey: SurveyView,
            root: Seq<u8>,
            paths: Seq<Seq<u8>>,
            spent: nat,
        | paths.len() < bound implies holds_back(
            #[trigger] state::untracked_step(replies, at, survey, root, paths, spent),
        ) by {
            let taken = survey::path_step(
                replies,
                at,
                utf8::encode_utf8("untracked-worktree/"@) + paths[0],
                bytes::joined_path(root, paths[0]),
                0,
                survey.entries,
                state::untracked_look(spent),
            );
            if paths.len() > 0 {
                assert(holds_back(
                    state::untracked_step(
                        replies,
                        taken.next,
                        survey::extended(survey, taken.result->Ok_0),
                        root,
                        paths.skip(1),
                        spent + taken.result->Ok_0.spent,
                    ),
                ));
            }
        }
    }
}

/// No recovery is carried out by `state::untracked_step`.
proof fn lemma_untracked(replies: Seq<ReplyView>)
    ensures
        forall|at: nat, survey: SurveyView, root: Seq<u8>, paths: Seq<Seq<u8>>, spent: nat|
            holds_back(#[trigger] state::untracked_step(replies, at, survey, root, paths, spent)),
{
    assert forall|
        at: nat,
        survey: SurveyView,
        root: Seq<u8>,
        paths: Seq<Seq<u8>>,
        spent: nat,
    | holds_back(#[trigger] state::untracked_step(replies, at, survey, root, paths, spent)) by {
        lemma_untracked_below(replies, paths.len() + 1);
    }
}

/// No recovery is carried out by `state::attribute_files_step`.
proof fn lemma_attribute_files(replies: Seq<ReplyView>)
    ensures
        forall|at: nat, ignored: bool, known: Seq<Seq<u8>>|
            holds_back(#[trigger] state::attribute_files_step(replies, at, ignored, known)),
{
    lemma_whole_output(replies);
}

/// No recovery is carried out by `state::worktree_attributes_step`.
proof fn lemma_worktree_attributes(replies: Seq<ReplyView>)
    ensures
        forall|at: nat| holds_back(#[trigger] state::worktree_attributes_step(replies, at)),
{
    lemma_attribute_files(replies);
}

/// The first parts of `state::attributes_step` carry out no recovery.
proof fn lemma_attributes_below(replies: Seq<ReplyView>, bound: nat)
    ensures
        forall|at: nat, survey: SurveyView, root: Seq<u8>, paths: Seq<Seq<u8>>|
            paths.len() < bound ==> holds_back(
                #[trigger] state::attributes_step(replies, at, survey, root, paths),
            ),
    decreases bound,
{
    if bound > 0 {
        lemma_attributes_below(replies, (bound - 1) as nat);
        lemma_path_into(replies);
        assert forall|
            at: nat,
            survey: SurveyView,
            root: Seq<u8>,
            paths: Seq<Seq<u8>>,
        | paths.len() < bound implies holds_back(
            #[trigger] state::attributes_step(replies, at, survey, root, paths),
        ) by {
            let taken = state::path_into_step(
                replies,
                at,
                survey,
                utf8::encode_utf8("worktree-attributes/"@) + paths[0],
                bytes::joined_path(root, paths[0]),
            );
            if paths.len() > 0 {
                assert(holds_back(
                    state::attributes_step(
                        replies,
                        taken.next,
                        taken.result->Ok_0,
                        root,
                        paths.skip(1),
                    ),
                ));
            }
        }
    }
}

/// No recovery is carried out by `state::attributes_step`.
proof fn lemma_attributes(replies: Seq<ReplyView>)
    ensures
        forall|at: nat, survey: SurveyView, root: Seq<u8>, paths: Seq<Seq<u8>>|
            holds_back(#[trigger] state::attributes_step(replies, at, survey, root, paths)),
{
    assert forall|
        at: nat,
        survey: SurveyView,
        root: Seq<u8>,
        paths: Seq<Seq<u8>>,
    | holds_back(#[trigger] state::attributes_step(replies, at, survey, root, paths)) by {
        lemma_attributes_below(replies, paths.len() + 1);
    }
}

/// The first parts of `collisions::touched_step` carry out no recovery.
proof fn lemma_touched_below(replies: Seq<ReplyView>, bound: nat)
    ensures
        forall|at: nat, survey: SurveyView, oids: Seq<Seq<char>>, known: Seq<Seq<u8>>|
            oids.len() < bound ==> holds_back(
                #[trigger] collisions::touched_step(replies, at, survey, oids, known),
            ),
    decreases bound,
{
    if bound > 0 {
        lemma_touched_below(replies, (bound - 1) as nat);
        lemma_whole_output(replies);
        assert forall|
            at: nat,
            survey: SurveyView,
            oids: Seq<Seq<char>>,
            known: Seq<Seq<u8>>,
        | oids.len() < bound implies holds_back(
            #[trigger] collisions::touched_step(replies, at, survey, oids, known),
        ) by {
            let args = collisions::touched_words(oids[0]);
            let output = bounded::whole_output_step(
                replies,
                at,
                args,
                "recovery planning is blocked because an intermediate rebase commit touches too many paths"@,
            );
            let touched = output.result->Ok_0;
            let more = state::with_inside_paths(
                known,
                text::pieces(touched.stdout.bytes, 0u8),
                collisions::target_refusal(),
            );
            if oids.len() > 0 {
                assert(holds_back(
                    collisions::touched_step(
                        replies,
                        output.next,
                        state::probed(survey, args, touched, RecoveryProbeSafetyView::Unchecked),
                        oids.skip(1),
                        more->Ok_0,
                    ),
                ));
            }
        }
    }
}

/// No recovery is carried out by `collisions::touched_step`.
proof fn lemma_touched(replies: Seq<ReplyView>)
    ensures
        forall|at: nat, survey: SurveyView, oids: Seq<Seq<char>>, known: Seq<Seq<u8>>|
            holds_back(#[trigger] collisions::touched_step(replies, at, survey, oids, known)),
{
    assert forall|
        at: nat,
        survey: SurveyView,
        oids: Seq<Seq<char>>,
        known: Seq<Seq<u8>>,
    | holds_back(#[trigger] collisions::touched_step(replies, at, survey, oids, known)) by {
        lemma_touched_below(replies, oids.len() + 1);
    }
}

/// The first parts of `collisions::ignored_step` carry out no recovery.
proof fn lemma_ignored_below(replies: Seq<ReplyView>, bound: nat)
    ensures
        forall|at: nat, survey: SurveyView, paths: Seq<Seq<u8>>, known: Seq<Seq<u8>>|
            paths.len() < bound ==> holds_back(
                #[trigger] collisions::ignored_step(replies, at, survey, paths, known),
            ),
    decreases bound,
{
    if bound > 0 {
        lemma_ignored_below(replies, (bound - 1) as nat);
        lemma_whole_output(replies);
        assert forall|
            at: nat,
            survey: SurveyView,
            paths: Seq<Seq<u8>>,
            known: Seq<Seq<u8>>,
        | paths.len() < bound implies holds_back(
            #[trigger] collisions::ignored_step(replies, at, survey, paths, known),
        ) by {
            let count = drivers::chunk_len(paths.len());
            let args = collisions::ignored_words(paths.take(count));
            let output = bounded::whole_output_step(
                replies,
                at,
                args,
                "recovery planning is blocked because relevant ignored paths exceed the bounded output limit"@,
            );
            let ignored = output.result->Ok_0;
            if paths.len() > 0 {
                assert(holds_back(
                    collisions::ignored_step(
                        replies,
                        output.next,
                        state::digested(survey, args, ignored),
                        paths.skip(count),
                        collisions::with_paths(
                            known,
                            text::filled(text::pieces(ignored.stdout.bytes, 0u8)),
                        ),
                    ),
                ));
            }
        }
    }
}

/// No recovery is carried out by `collisions::ignored_step`.
proof fn lemma_ignored(replies: Seq<ReplyView>)
    ensures
        forall|at: nat, survey: SurveyView, paths: Seq<Seq<u8>>, known: Seq<Seq<u8>>|
            holds_back(#[trigger] collisions::ignored_step(replies, at, survey, paths, known)),
{
    assert forall|
        at: nat,
        survey: SurveyView,
        paths: Seq<Seq<u8>>,
        known: Seq<Seq<u8>>,
    | holds_back(#[trigger] collisions::ignored_step(replies, at, survey, paths, known)) by {
        lemma_ignored_below(replies, paths.len() + 1);
    }
}

/// No recovery is carried out by `collisions::written_paths_step`.
proof fn lemma_written_paths(replies: Seq<ReplyView>)
    ensures
        forall|
            at: nat,
            operation: RepositoryOperation,
            action: RecoveryAction,
            target: Seq<char>,
            survey: SurveyView,
        |
            holds_back(
                #[trigger] collisions::written_paths_step(replies, at, operation, action, target, survey),
            ),
{
    lemma_whole_output(replies);
    lemma_touched(replies);
}

/// No recovery is carried out by `collisions::collisions_step`.
proof fn lemma_collisions(replies: Seq<ReplyView>)
    ensures
        forall|at: nat, operation: RepositoryOperation, action: RecoveryAction, survey: SurveyView|
            holds_back(
                #[trigger] collisions::collisions_step(replies, at, operation, action, survey),
            ),
{
    lemma_overwrite_target(replies);
    lemma_ignored(replies);
    lemma_written_paths(replies);
}

/// No recovery is carried out by `fence::probe_safety_step`.
proof fn lemma_probe_safety(replies: Seq<ReplyView>)
    ensures
        forall|at: nat, probe: RecoveryProbeView, output: BoundedCommandOutputView|
            holds_back(#[trigger] fence::probe_safety_step(replies, at, probe, output)),
{
    lemma_external_drivers(replies);
}

/// No recovery is carried out by `fence::probe_again_step`.
proof fn lemma_probe_again(replies: Seq<ReplyView>)
    ensures
        forall|at: nat, probe: RecoveryProbeView|
            holds_back(#[trigger] fence::probe_again_step(replies, at, probe)),
{
    lemma_bounded(replies);
    lemma_probe(replies);
    lemma_probe_safety(replies);
}

/// The first parts of `fence::probes_step` carry out no recovery.
proof fn lemma_probes_below(replies: Seq<ReplyView>, bound: nat)
    ensures
        forall|at: nat, probes: Seq<RecoveryProbeView>|
            probes.len() < bound ==> holds_back(
                #[trigger] fence::probes_step(replies, at, probes),
            ),
    decreases bound,
{
    if bound > 0 {
        lemma_probes_below(replies, (bound - 1) as nat);
        lemma_probe_again(replies);
        assert forall|
            at: nat,
            probes: Seq<RecoveryProbeView>,
        | probes.len() < bound implies holds_back(
            #[trigger] fence::probes_step(replies, at, probes),
        ) by {
            let first = fence::probe_again_step(replies, at, probes[0]);
            if probes.len() > 0 {
                assert(holds_back(fence::probes_step(replies, first.next, probes.skip(1))));
            }
        }
    }
}

/// No recovery is carried out by `fence::probes_step`.
proof fn lemma_probes(replies: Seq<ReplyView>)
    ensures
        forall|at: nat, probes: Seq<RecoveryProbeView>|
            holds_back(#[trigger] fence::probes_step(replies, at, probes)),
{
    assert forall|
        at: nat,
        probes: Seq<RecoveryProbeView>,
    | holds_back(#[trigger] fence::probes_step(replies, at, probes)) by {
        lemma_probes_below(replies, probes.len() + 1);
    }
}

/// No recovery is carried out by `fence::still_missing_step`.
proof fn lemma_still_missing(replies: Seq<ReplyView>)
    ensures
        forall|at: nat, path: Seq<u8>|
            holds_back(#[trigger] fence::still_missing_step(replies, at, path)),
{
}

/// No recovery is carried out by `fence::input_again_step`.
proof fn lemma_input_again(replies: Seq<ReplyView>)
    ensures
        forall|at: nat, input: RecoveryInputView|
            holds_back(#[trigger] fence::input_again_step(replies, at, input)),
{
    lemma_in_time(replies);
    lemma_reopened(replies);
    lemma_link_again(replies);
    lemma_still_missing(replies);
}

/// The first parts of `fence::inputs_step` carry out no recovery.
proof fn lemma_inputs_below(replies: Seq<ReplyView>, bound: nat)
    ensures
        forall|at: nat, inputs: Seq<RetainedInputView>, from: nat, but: Option<int>|
            inputs_left(inputs, from) < bound ==> holds_back(
                #[trigger] fence::inputs_step(replies, at, inputs, from, but),
            ),
    decreases bound,
{
    if bound > 0 {
        lemma_inputs_below(replies, (bound - 1) as nat);
        lemma_input_again(replies);
        assert forall|
            at: nat,
            inputs: Seq<RetainedInputView>,
            from: nat,
            but: Option<int>,
        | inputs_left(inputs, from) < bound implies holds_back(
            #[trigger] fence::inputs_step(replies, at, inputs, from, but),
        ) by {
            let first = fence::input_again_step(replies, at, inputs[from as int].input);
            if from < inputs.len() {
                assert(holds_back(fence::inputs_step(replies, at, inputs, from + 1, but)));
                assert(holds_back(fence::inputs_step(replies, first.next, inputs, from + 1, but)));
            }
        }
    }
}

/// No recovery is carried out by `fence::inputs_step`.
proof fn lemma_inputs(replies: Seq<ReplyView>)
    ensures
        forall|at: nat, inputs: Seq<RetainedInputView>, from: nat, but: Option<int>|
            holds_back(#[trigger] fence::inputs_step(replies, at, inputs, from, but)),
{
    assert forall|
        at: nat,
        inputs: Seq<RetainedInputView>,
        from: nat,
        but: Option<int>,
    | holds_back(#[trigger] fence::inputs_step(replies, at, inputs, from, but)) by {
        lemma_inputs_below(replies, inputs_left(inputs, from) + 1);
    }
}

/// No recovery is carried out by `fence::fence_step`.
proof fn lemma_fence(replies: Seq<ReplyView>)
    ensures
        forall|at: nat, survey: SurveyView|
            holds_back(#[trigger] fence::fence_step(replies, at, survey)),
{
    lemma_probes(replies);
    lemma_input_again(replies);
    lemma_inputs(replies);
}

/// No recovery is carried out by `operations::attributes_survey_step`.
proof fn lemma_attributes_survey(replies: Seq<ReplyView>)
    ensures
        forall|at: nat, survey: SurveyView|
            holds_back(#[trigger] operations::attributes_survey_step(replies, at, survey)),
{
    lemma_hooks(replies);
    lemma_variable(replies);
}

/// No recovery is carried out by `operations::repository_survey_step`.
proof fn lemma_repository_survey(replies: Seq<ReplyView>)
    ensures
        forall|at: nat| holds_back(#[trigger] operations::repository_survey_step(replies, at)),
{
    lemma_process_settings(replies);
    lemma_outputs(replies);
    lemma_control(replies);
    lemma_attributes_survey(replies);
}

/// No recovery is carried out by `operations::recovery_survey_step`.
proof fn lemma_recovery_survey(replies: Seq<ReplyView>)
    ensures
        forall|at: nat, recovery: Option<(RepositoryOperation, RecoveryAction)>, survey: SurveyView|
            holds_back(#[trigger] operations::recovery_survey_step(replies, at, recovery, survey)),
{
    lemma_collisions(replies);
}

/// No recovery is carried out by `operations::worktree_survey_step`.
proof fn lemma_worktree_survey(replies: Seq<ReplyView>)
    ensures
        forall|at: nat, recovery: Option<(RepositoryOperation, RecoveryAction)>, survey: SurveyView|
            holds_back(#[trigger] operations::worktree_survey_step(replies, at, recovery, survey)),
{
    lemma_repo_root_until(replies);
    lemma_untracked_paths(replies);
    lemma_untracked(replies);
    lemma_worktree_attributes(replies);
    lemma_attributes(replies);
    lemma_recovery_survey(replies);
}

/// No recovery is carried out by `operations::lock_again_step`.
proof fn lemma_lock_again(replies: Seq<ReplyView>)
    ensures
        forall|
            at: nat,
            held: RecoveryLockView,
            operation: RepositoryOperation,
            action: RecoveryAction,
        |
            holds_back(
                #[trigger] operations::lock_again_step(replies, at, held, operation, action),
            ),
{
    lemma_identity(replies);
    lemma_canonical_root(replies);
}

/// No recovery is carried out by `operations::held_step`.
proof fn lemma_held(replies: Seq<ReplyView>)
    ensures
        forall|at: nat, held: Option<(RecoveryLockView, RepositoryOperation, RecoveryAction)>|
            holds_back(#[trigger] operations::held_step(replies, at, held)),
{
    lemma_lock_again(replies);
}

/// No recovery is carried out by `operations::fingerprint_step`.
proof fn lemma_fingerprint(replies: Seq<ReplyView>)
    ensures
        forall|
            at: nat,
            recovery: Option<(RepositoryOperation, RecoveryAction)>,
            held: Option<(RecoveryLockView, RepositoryOperation, RecoveryAction)>,
        |
            holds_back(#[trigger] operations::fingerprint_step(replies, at, recovery, held)),
{
    lemma_fence(replies);
    lemma_repository_survey(replies);
    lemma_worktree_survey(replies);
    lemma_held(replies);
}

/// No recovery is carried out by `operations::validate_step`.
proof fn lemma_validate(replies: Seq<ReplyView>)
    ensures
        forall|at: nat, operation: RepositoryOperation, action: RecoveryAction|
            holds_back(#[trigger] operations::validate_step(replies, at, operation, action)),
{
    lemma_operation_until(replies);
    lemma_conflicts(replies);
}

/// No recovery is carried out by `operations::begun_step`.
proof fn lemma_begun(replies: Seq<ReplyView>)
    ensures
        forall|at: nat, milliseconds: u64|
            holds_back(#[trigger] operations::begun_step(replies, at, milliseconds)),
{
    lemma_start(replies);
    lemma_version(replies);
}

/// No recovery is carried out by `operations::locked_step`.
proof fn lemma_locked(replies: Seq<ReplyView>)
    ensures
        forall|at: nat, operation: RepositoryOperation, action: RecoveryAction|
            holds_back(#[trigger] operations::locked_step(replies, at, operation, action)),
{
    lemma_in_time(replies);
    lemma_process_configuration(replies);
    lemma_acquire(replies);
    lemma_lock_again(replies);
}

/// A merge cannot be skipped, whatever the state of the repository is.
pub proof fn merge_is_never_skipped(replies: Seq<ReplyView>, at: nat, milliseconds: u64)
    ensures
        operations::validate_step(
            replies,
            at,
            RepositoryOperation::Merge,
            RecoveryAction::Skip,
        ) == session::failed::<(), GitErrorView>(
            commands::refusal("merge skip is blocked because Git does not support it"@),
            at,
        ),
        holds_back(
            operations::recover_step(
                replies,
                at,
                milliseconds,
                RepositoryOperation::Merge,
                RecoveryAction::Skip,
            ),
        ),
{
    lemma_begun(replies);
}

/// A recovery is carried out only with a Git that is new enough, where the operation is under way and can be
/// recovered so, under the lock of the repository, and where nothing that it depends on changed while it
/// was looked at.
pub proof fn recovery_is_guarded(
    replies: Seq<ReplyView>,
    at: nat,
    milliseconds: u64,
    operation: RepositoryOperation,
    action: RecoveryAction,
)
    requires
        !holds_back(operations::recover_step(replies, at, milliseconds, operation, action)),
    ensures
        ({
            let begun = operations::begun_step(replies, at, milliseconds);
            let valid = operations::validate_step(replies, begun.next, operation, action);
            let held = operations::locked_step(replies, valid.next, operation, action);
            let still = operations::validate_step(replies, held.next, operation, action);
            let state = operations::fingerprint_step(
                replies,
                still.next,
                Some((operation, action)),
                Some((held.result->Ok_0, operation, action)),
            );
            &&& begun.result is Ok
            &&& valid.result is Ok
            &&& held.result is Ok
            &&& still.result is Ok
            &&& state.result is Ok
        }),
{
    lemma_begun(replies);
    lemma_validate(replies);
    lemma_locked(replies);
    lemma_fingerprint(replies);
}

/// A recovery that was prepared is carried out only under the lock of the repository, and only where the
/// fingerprint of all that it depends on is the one that it was prepared with.
pub proof fn prepared_recovery_is_exact(
    replies: Seq<ReplyView>,
    at: nat,
    milliseconds: u64,
    operation: RepositoryOperation,
    action: RecoveryAction,
    expected: RecoveryStateView,
)
    requires
        !holds_back(
            operations::recover_exact_step(
                replies,
                at,
                milliseconds,
                operation,
                action,
                expected,
            ),
        ),
    ensures
        ({
            let begun = operations::begun_step(replies, at, milliseconds);
            let held = operations::locked_step(replies, begun.next, operation, action);
            let state = operations::fingerprint_step(
                replies,
                held.next,
                Some((operation, action)),
                Some((held.result->Ok_0, operation, action)),
            );
            &&& begun.result is Ok
            &&& operations::action_allowed(operation, action) is Ok
            &&& held.result is Ok
            &&& state.result is Ok
            &&& state.result->Ok_0 == expected
        }),
{
    lemma_begun(replies);
    lemma_locked(replies);
    lemma_fingerprint(replies);
}

/// Preparing, validating and looking never carry out a recovery.
pub proof fn looking_carries_nothing_out(
    replies: Seq<ReplyView>,
    at: nat,
    milliseconds: u64,
    operation: RepositoryOperation,
    action: RecoveryAction,
)
    ensures
        holds_back(operations::recovery_state_step(replies, at, milliseconds)),
        holds_back(
            operations::validate_recovery_step(replies, at, milliseconds, operation, action),
        ),
        holds_back(
            operations::prepare_recovery_step(replies, at, milliseconds, operation, action),
        ),
{
    lemma_begun(replies);
    lemma_process_configuration(replies);
    lemma_validate(replies);
    lemma_fingerprint(replies);
}

}
