//! How a recovery looks at files, directories, links and locks: what it asks for and when it goes on.
use crate::bytes;
use crate::git::effects;
use crate::git::recovery::bounded;
use crate::git::recovery::collisions;
use crate::git::recovery::drivers;
use crate::git::recovery::effects::{looked_at_by, reports};
use crate::git::recovery::files;
use crate::git::recovery::lock;
use crate::git::recovery::lock::RecoveryLockView;
use crate::git::recovery::operations;
use crate::git::recovery::records::Record;
use crate::git::recovery::safety;
use crate::git::recovery::safety::RecoveryProbeSafetyView;
use crate::git::recovery::state;
use crate::git::recovery::survey;
use crate::git::recovery::survey::{LookView, RecoveryInputView, SurveyView};
use crate::git::types::{
    GitErrorView, RecoveryAction, RepositoryOperation,
};
use crate::order;
use crate::parts;
use crate::session::{
    ActionView, BoundedCommandOutputView, BoundedCommandPolicy, FileKind, FileMetadata, HaltView, ReplyView,
};
use crate::text;
use vstd::prelude::*;
use vstd::utf8;

verus! {

/// The directory for data is asked of the environment, one variable after the other, until one is set.
pub proof fn data_directory_is_asked_of_the_environment(
    replies: Seq<ReplyView>,
    at: nat,
    value: Seq<u8>,
)
    ensures
        ({
            let step = lock::data_directory_step(replies, at);
            let name = utf8::encode_utf8("bitbygit"@);
            let unset = |n: int| at + n < replies.len() && replies[at + n] == ReplyView::Missing;
            let set = |n: int| at + n < replies.len() && replies[at + n] == ReplyView::Bytes(value);
            let ends = |n: int| replies.len() == at + n;
            let asks = |variable: Seq<char>|
                effects::waits_for(step, ActionView::Environment { name: variable });
            let gives = |path: Seq<u8>|
                step.result == Ok::<Option<Seq<u8>>, HaltView<GitErrorView>>(Some(path));
            &&& ends(0) ==> asks("BITBYGIT_DATA_DIR"@)
            &&& set(0) ==> gives(value)
            &&& unset(0) && ends(1) ==> asks("XDG_DATA_HOME"@)
            &&& unset(0) && set(1) ==> gives(bytes::joined_path(value, name))
            &&& unset(0) && unset(1) && ends(2) ==> asks("APPDATA"@)
            &&& unset(0) && unset(1) && set(2) ==> gives(
                bytes::joined_path(bytes::joined_path(value, name), utf8::encode_utf8("data"@)),
            )
            &&& unset(0) && unset(1) && unset(2) && ends(3) ==> asks("HOME"@)
            &&& unset(0) && unset(1) && unset(2) && unset(3) ==> step.result == Ok::<
                Option<Seq<u8>>,
                HaltView<GitErrorView>,
            >(None)
        }),
{
}

/// The root that a lock is for is the one that Git names, with all links resolved.
pub proof fn lock_is_for_the_resolved_root(replies: Seq<ReplyView>, at: nat, resolved: Seq<u8>)
    ensures
        ({
            let step = lock::canonical_root_step(replies, at);
            let root = bounded::repo_root_until_step(replies, at);
            let n = root.next;
            &&& root.result is Ok && n >= replies.len() ==> effects::waits_for(
                step,
                ActionView::Canonicalize { path: root.result->Ok_0 },
            )
            &&& root.result is Ok && n < replies.len() && replies[n as int] == ReplyView::Bytes(
                resolved,
            ) ==> step.result == Ok::<Seq<u8>, HaltView<GitErrorView>>(resolved)
        }),
{
}

/// A lock is looked at by its open files, by what is at their paths, and by its directory, in that order; it holds where
/// all of them are intact.
pub proof fn held_locks_are_looked_at(
    replies: Seq<ReplyView>,
    at: nat,
    held: RecoveryLockView,
    root: Seq<u8>,
    operation: RepositoryOperation,
    action: RecoveryAction,
    seen: (FileMetadata, FileMetadata, FileMetadata, FileMetadata),
    directory: FileMetadata,
    handle: u64,
)
    ensures
        ({
            let step = lock::identity_step(replies, at, held, root, operation, action);
            let one = at < replies.len() && replies[at as int] == ReplyView::Metadata(seen.0);
            let two = one && at + 1 < replies.len() && replies[at as int + 1] == ReplyView::Metadata(
                seen.1,
            );
            let three = two && at + 2 < replies.len() && replies[at as int + 2]
                == ReplyView::Metadata(seen.2);
            let four = three && at + 3 < replies.len() && replies[at as int + 3]
                == ReplyView::Metadata(seen.3);
            let five = four && at + 4 < replies.len() && replies[at as int + 4] == (
            ReplyView::Opened { handle, metadata: directory });
            &&& replies.len() == at ==> effects::waits_for(
                step,
                ActionView::HandleMetadata { handle: held.file },
            )
            &&& one && replies.len() == at + 1 ==> effects::waits_for(
                step,
                ActionView::LinkMetadata { path: held.path },
            )
            &&& two && replies.len() == at + 2 ==> effects::waits_for(
                step,
                ActionView::HandleMetadata { handle: held.guard },
            )
            &&& three && replies.len() == at + 3 ==> effects::waits_for(
                step,
                ActionView::LinkMetadata { path: held.guard_path },
            )
            &&& four && replies.len() == at + 4 ==> effects::waits_for(
                step,
                ActionView::Open { path: held.directory_path },
            )
            &&& five ==> (step.result is Ok <==> lock::lock_intact(
                held,
                root,
                seen.0,
                seen.1,
                seen.2,
                seen.3,
                directory,
            ))
        }),
{
}

/// A file that was read is the same if and only if its state has not changed since it was opened and its path still leads
/// to it; a directory has to be one still.
pub proof fn unchanged_files_are_opened_again(
    replies: Seq<ReplyView>,
    at: nat,
    path: Seq<u8>,
    handle: u64,
    metadata: FileMetadata,
    directory: bool,
    last: FileMetadata,
    other: u64,
    current: FileMetadata,
)
    ensures
        ({
            let step = files::reopened_step(replies, at, path, handle, metadata, directory);
            let one = at < replies.len() && replies[at as int] == ReplyView::Metadata(last);
            let two = one && at + 1 < replies.len() && replies[at as int + 1] == (
            ReplyView::Opened { handle: other, metadata: current });
            &&& replies.len() == at ==> effects::waits_for(
                step,
                ActionView::HandleMetadata { handle },
            )
            &&& one && replies.len() == at + 1 ==> effects::waits_for(
                step,
                ActionView::Open { path },
            )
            &&& two ==> (step.result is Ok <==> {
                &&& files::same_file_state(metadata, last)
                &&& metadata.device == current.device && metadata.inode == current.inode
                &&& directory ==> last.kind == FileKind::Directory
            })
        }),
{
}

/// A file that is not there is no file; a link, or anything but a regular file, is refused. A file of the repository is
/// read from where Git says that it is, one mebibyte of it at most.
pub proof fn only_regular_files_are_read(
    replies: Seq<ReplyView>,
    at: nat,
    name: Seq<char>,
    path: Seq<u8>,
    limit: u64,
    handle: u64,
    metadata: FileMetadata,
)
    ensures
        ({
            let step = files::optional_file_step(replies, at, path, limit);
            &&& replies.len() == at ==> effects::waits_for(step, ActionView::Open { path })
            &&& at < replies.len() && replies[at as int] == ReplyView::Missing ==> step.result
                == Ok::<Option<Seq<char>>, HaltView<GitErrorView>>(None)
            &&& at < replies.len() && replies[at as int] == ReplyView::Symlink ==> step.result
                is Err && step.result->Err_0 is Failed
            &&& at < replies.len() && replies[at as int] == (ReplyView::Opened { handle, metadata })
                && metadata.kind != FileKind::File ==> step.result is Err && step.result->Err_0
                is Failed
        }),
        ({
            let step = files::git_file_step(replies, at, name);
            let path = bounded::git_path_until_step(replies, at, name);
            path.result is Ok ==> step == files::optional_file_step(
                replies,
                path.next,
                path.result->Ok_0,
                1048576,
            )
        }),
{
}

/// A file that was opened is read up to its limit, and given where it fits and has not changed.
pub proof fn short_files_are_given(
    replies: Seq<ReplyView>,
    at: nat,
    path: Seq<u8>,
    limit: u64,
    handle: u64,
    metadata: FileMetadata,
    contents: Seq<u8>,
)
    requires
        at + 4 < replies.len(),
        replies[at as int] == (ReplyView::Opened { handle, metadata }),
        metadata.kind == FileKind::File,
        replies[at as int + 1] == ReplyView::Done,
        replies[at as int + 2] == ReplyView::Bytes(contents),
        0 < contents.len() <= limit,
        contents.len() <= 8192,
        replies[at as int + 3] == ReplyView::Done,
        replies[at as int + 4] == ReplyView::Bytes(Seq::empty()),
    ensures
        ({
            let step = files::optional_file_step(replies, at, path, limit);
            let same = files::reopened_step(replies, at + 5, path, handle, metadata, false);
            &&& same.result is Ok ==> step.result == Ok::<
                Option<Seq<char>>,
                HaltView<GitErrorView>,
            >(Some(bytes::lossy_text(contents)))
            &&& same.result is Err ==> step.result is Err
        }),
{
    reveal_with_fuel(files::read_rest_step, 3);
    assert(Seq::<u8>::empty() + contents =~= contents);
}

/// The commit that a rebase started from and the commits that are left are read from `rebase-merge`, and where the file is
/// not there, from `rebase-apply`.
pub proof fn rebases_are_read_from_their_files(
    replies: Seq<ReplyView>,
    at: nat,
    action: RecoveryAction,
)
    ensures
        ({
            let step = files::overwrite_target_step(
                replies,
                at,
                RepositoryOperation::Rebase,
                action,
            );
            let merge = files::git_file_step(replies, at, "rebase-merge/orig-head"@);
            let apply = files::git_file_step(replies, merge.next, "rebase-apply/orig-head"@);
            &&& merge.result is Ok && merge.result->Ok_0 is Some ==> (step.result is Ok
                <==> files::is_object_name(text::trimmed(merge.result->Ok_0->Some_0)))
            &&& merge.result is Ok && merge.result->Ok_0 is Some && step.result is Ok
                ==> step.result->Ok_0 == Some(text::trimmed(merge.result->Ok_0->Some_0))
            &&& merge.result is Ok && merge.result->Ok_0 is None && apply.result is Ok
                && apply.result->Ok_0 is Some && step.result is Ok ==> step.result->Ok_0 == Some(
                text::trimmed(apply.result->Ok_0->Some_0),
            )
            &&& merge.result is Ok && merge.result->Ok_0 is None && apply.result is Ok
                && apply.result->Ok_0 is None ==> step.result is Err && step.result->Err_0 is Failed
        }),
        ({
            let step = files::remaining_oids_step(replies, at);
            let merge = files::git_file_step(replies, at, "rebase-merge/git-rebase-todo"@);
            let apply = files::git_file_step(replies, merge.next, "rebase-apply/git-rebase-todo"@);
            &&& merge.result is Ok && merge.result->Ok_0 is Some && step.result is Ok
                ==> step.result->Ok_0 == files::plan_oids(
                "rebase-merge/git-rebase-todo"@,
                text::text_lines(merge.result->Ok_0->Some_0),
            )->Ok_0
            &&& merge.result is Ok && merge.result->Ok_0 is None && apply.result is Ok
                && apply.result->Ok_0 is Some && step.result is Ok ==> step.result->Ok_0
                == files::plan_oids(
                "rebase-apply/git-rebase-todo"@,
                text::text_lines(apply.result->Ok_0->Some_0),
            )->Ok_0
            &&& merge.result is Ok && merge.result->Ok_0 is None && apply.result is Ok
                && apply.result->Ok_0 is None ==> step.result == Ok::<
                Seq<Seq<char>>,
                HaltView<GitErrorView>,
            >(Seq::empty())
        }),
{
}

/// The trees that a recovery may check out are searched for filters: where a merge began, and for a rebase where it began
/// and all commits that are left.
pub proof fn trees_of_a_recovery_are_searched(replies: Seq<ReplyView>, at: nat)
    ensures
        ({
            let step = drivers::filter_trees_step(replies, at);
            let active = files::operation_until_step(replies, at);
            let start = files::overwrite_target_step(
                replies,
                active.next,
                RepositoryOperation::Rebase,
                RecoveryAction::Abort,
            );
            let left = files::remaining_oids_step(replies, start.next);
            &&& active.result == Ok::<Option<RepositoryOperation>, HaltView<GitErrorView>>(
                Some(RepositoryOperation::Merge),
            ) ==> step.result == Ok::<Seq<Seq<char>>, HaltView<GitErrorView>>(seq!["ORIG_HEAD"@])
            &&& active.result == Ok::<Option<RepositoryOperation>, HaltView<GitErrorView>>(
                Some(RepositoryOperation::Rebase),
            ) && start.result is Ok && start.result->Ok_0 is Some && left.result is Ok
                ==> step.result == Ok::<Seq<Seq<char>>, HaltView<GitErrorView>>(
                order::inserted(left.result->Ok_0, start.result->Ok_0->Some_0),
            )
        }),
        ({
            let source = drivers::source_filters_step(
                replies,
                at,
                None,
                Seq::empty(),
                Seq::empty(),
            );
            at >= replies.len() ==> effects::waits_for(
                source,
                looked_at_by(seq!["ls-files"@, "--cached"@, "-z"@, "--"@]),
            )
        }),
{
}

/// What is found at a path goes into the survey as what it is: nothing, a regular file with its length, its mode and its
/// contents, or a directory with all that is in it. Anything else is refused, and so is a file that is a runnable hook.
pub proof fn paths_go_in_as_what_they_are(
    replies: Seq<ReplyView>,
    at: nat,
    label: Seq<u8>,
    path: Seq<u8>,
    depth: nat,
    entries: nat,
    look: LookView,
    handle: u64,
    metadata: FileMetadata,
)
    requires
        entries < 100000,
        at < replies.len(),
        replies[at as int] == ReplyView::Done,
    ensures
        ({
            let step = survey::path_step(replies, at, label, path, depth, entries, look);
            let n = at + 1;
            let opened = n < replies.len() && replies[n as int] == (ReplyView::Opened {
                handle,
                metadata,
            });
            let hook = safety::hook_observation(label, metadata, safety::recovery_hooks());
            &&& n == replies.len() ==> effects::waits_for(step, ActionView::Open { path })
            &&& n < replies.len() && replies[n as int] == ReplyView::Missing ==> step.result is Ok
                && step.result->Ok_0.records == seq![Record::Missing { label }]
            &&& opened && hook is Err ==> step.result is Err && step.result->Err_0 is Failed
            &&& opened && hook is Ok && metadata.kind == FileKind::File ==> step
                == survey::file_step(replies, n + 1, label, path, handle, metadata, look)
            &&& opened && metadata.kind != FileKind::File && metadata.kind != FileKind::Directory
                ==> step.result is Err && step.result->Err_0 is Failed
            &&& opened && metadata.kind == FileKind::Directory && step.result is Ok ==> {
                &&& step.result->Ok_0.records.len() > 0
                &&& step.result->Ok_0.records[0] == (Record::Directory {
                    label,
                    length: metadata.length,
                    mode: metadata.mode,
                })
            }
            &&& n < replies.len() && replies[n as int] == ReplyView::Symlink && depth >= 16
                ==> step.result is Err && step.result->Err_0 is Failed
            &&& n < replies.len() && replies[n as int] == ReplyView::Symlink && step.result is Ok
                ==> {
                &&& step.result->Ok_0.records.len() > 0
                &&& step.result->Ok_0.records[0] is Link
                &&& step.result->Ok_0.records[0]->Link_label == label
            }
        }),
{
}

/// A file goes in with its contents, as they were read, where it has not changed since.
pub proof fn files_go_in_with_their_contents(
    replies: Seq<ReplyView>,
    at: nat,
    label: Seq<u8>,
    path: Seq<u8>,
    handle: u64,
    metadata: FileMetadata,
    look: LookView,
)
    ensures
        ({
            let step = survey::file_step(replies, at, label, path, handle, metadata, look);
            let read = survey::contents_step(
                replies,
                at,
                path,
                handle,
                safety::controls_processes(label),
                look.budget,
                look.budget_error,
                Seq::empty(),
            );
            let same = files::reopened_step(replies, read.next, path, handle, metadata, false);
            step.result is Ok ==> {
                &&& read.result is Ok
                &&& same.result is Ok
                &&& step.result->Ok_0.records == seq![
                    Record::File {
                        label,
                        length: metadata.length,
                        mode: metadata.mode,
                        contents: read.result->Ok_0,
                    },
                ]
            }
        }),
{
}

/// A survey stops at a hundred thousand entries.
pub proof fn surveys_are_bounded(replies: Seq<ReplyView>, at: nat, entries: nat)
    ensures
        ({
            let step = survey::capacity_step(replies, at, entries);
            &&& at >= replies.len() ==> effects::waits_for(step, ActionView::CheckDeadline)
            &&& at < replies.len() && replies[at as int] == ReplyView::TimedOut ==> step.result
                is Err && step.result->Err_0 is Failed
            &&& at < replies.len() && replies[at as int] == ReplyView::Done ==> (step.result is Ok
                <==> entries < 100000)
        }),
{
}

/// A link is the same if and only if it leads where it led and its state has not changed.
pub proof fn unchanged_links_lead_where_they_led(
    replies: Seq<ReplyView>,
    at: nat,
    path: Seq<u8>,
    target: Seq<u8>,
    metadata: FileMetadata,
    current: Seq<u8>,
    last: FileMetadata,
)
    ensures
        ({
            let step = survey::link_again_step(replies, at, path, target, metadata);
            &&& at >= replies.len() ==> effects::waits_for(step, ActionView::ReadLink { path })
            &&& at + 1 < replies.len() && replies[at as int] == ReplyView::Bytes(current)
                && replies[at as int + 1] == ReplyView::Metadata(last) ==> (step.result is Ok <==> {
                &&& order::path_parts(current) == order::path_parts(target)
                &&& last.kind == FileKind::Symlink
                &&& files::same_file_state(metadata, last)
            })
        }),
{
}

/// A link that does not start at the root leads on from its directory.
pub proof fn links_lead_on_from_their_directory(path: Seq<u8>, target: Seq<u8>)
    ensures
        bytes::absolute(target) ==> survey::link_destination(path, target) == target,
        !bytes::absolute(target) && bytes::parent(path) is Some ==> survey::link_destination(
            path,
            target,
        ) == bytes::joined_path(bytes::parent(path)->Some_0, target),
{
}

/// The paths that Git does not track, and the files that hold attributes, are asked of `git ls-files`.
pub proof fn other_paths_are_asked_of_git(replies: Seq<ReplyView>, at: nat, known: Seq<Seq<u8>>)
    requires
        at >= replies.len(),
    ensures
        effects::waits_for(
            state::untracked_paths_step(replies, at),
            looked_at_by(
                seq![
                    "ls-files"@,
                    "--others"@,
                    "--exclude-standard"@,
                    "--full-name"@,
                    "-z"@,
                    "--"@,
                ],
            ),
        ),
        effects::waits_for(
            state::attribute_files_step(replies, at, false, known),
            looked_at_by(
                seq![
                    "ls-files"@,
                    "--cached"@,
                    "--others"@,
                    "--exclude-standard"@,
                    "-z"@,
                    "--"@,
                    ":(glob)**/.gitattributes"@,
                ],
            ),
        ),
        effects::waits_for(
            state::attribute_files_step(replies, at, true, known),
            looked_at_by(
                seq![
                    "ls-files"@,
                    "--others"@,
                    "--ignored"@,
                    "--exclude-standard"@,
                    "-z"@,
                    "--"@,
                    ":(glob)**/.gitattributes"@,
                ],
            ),
        ),
        effects::waits_for(
            state::variable_path_step(replies, at, "GIT_ATTR_SYSTEM"@),
            looked_at_by(seq!["var"@, "GIT_ATTR_SYSTEM"@]),
        ),
{
}

/// A file that Git names by a variable is taken from where Git says that it is, which has to start at the root.
pub proof fn files_of_variables_are_where_git_says(
    replies: Seq<ReplyView>,
    at: nat,
    variable: Seq<char>,
    path: Seq<u8>,
    output: BoundedCommandOutputView,
)
    ensures
        ({
            let step = state::variable_path_step(replies, at, variable);
            &&& reports(replies, at, 1, output) ==> step.result == Ok::<
                Option<Seq<u8>>,
                HaltView<GitErrorView>,
            >(None)
            &&& reports(replies, at, 0, output) && output.stdout.bytes == path.push(10u8)
                && bytes::absolute(path) ==> step.result == Ok::<
                Option<Seq<u8>>,
                HaltView<GitErrorView>,
            >(Some(path))
            &&& reports(replies, at, 0, output) && output.stdout.bytes == path.push(10u8)
                && !bytes::absolute(path) ==> step.result is Err && step.result->Err_0 is Failed
        }),
{
    assert(path.push(10u8).drop_last() =~= path);
}

/// What is not tracked is looked at without following links, sixty-four mebibytes of it at most.
pub proof fn untracked_data_is_bounded(spent: nat)
    requires
        spent <= 67108864,
    ensures
        !state::untracked_look(spent).follow,
        state::untracked_look(spent).budget == Some((67108864 - spent) as nat),
{
}

/// Whether some bytes are the label of a file of a rebase, in either place where Git keeps them.
pub open spec fn labelled(label: Seq<u8>, name: Seq<char>) -> bool {
    label == utf8::encode_utf8("rebase-merge/"@ + name) || label == utf8::encode_utf8(
        "rebase-apply/"@ + name,
    )
}

/// What is observed of the options of a rebase is refused where it is more than white space: options to sign, a strategy,
/// and options of a strategy.
pub proof fn observed_options_are_refused(label: Seq<u8>, contents: Seq<u8>, place: int)
    requires
        labelled(label, "gpg_sign_opt"@) || labelled(label, "strategy"@) || labelled(
            label,
            "strategy_opts"@,
        ),
        0 <= place < contents.len(),
        contents[place] != 9 && contents[place] != 10 && contents[place] != 12 && contents[place]
            != 13 && contents[place] != 32,
    ensures
        safety::control_observation(label, contents) is Err,
        safety::controls_processes(label),
{
    reveal_strlit("rebase-merge/");
    reveal_strlit("rebase-apply/");
    reveal_strlit("gpg_sign_opt");
    reveal_strlit("strategy");
    reveal_strlit("strategy_opts");
    reveal_strlit("rebase-merge/gpg_sign_opt");
    reveal_strlit("rebase-apply/gpg_sign_opt");
    reveal_strlit("rebase-merge/strategy");
    reveal_strlit("rebase-apply/strategy");
    reveal_strlit("rebase-merge/strategy_opts");
    reveal_strlit("rebase-apply/strategy_opts");
    assert("rebase-merge/"@ + "gpg_sign_opt"@ =~= "rebase-merge/gpg_sign_opt"@);
    assert("rebase-apply/"@ + "gpg_sign_opt"@ =~= "rebase-apply/gpg_sign_opt"@);
    assert("rebase-merge/"@ + "strategy"@ =~= "rebase-merge/strategy"@);
    assert("rebase-apply/"@ + "strategy"@ =~= "rebase-apply/strategy"@);
    assert("rebase-merge/"@ + "strategy_opts"@ =~= "rebase-merge/strategy_opts"@);
    assert("rebase-apply/"@ + "strategy_opts"@ =~= "rebase-apply/strategy_opts"@);
    assert(!text::ascii_gap(contents[place] as int));
}

/// What is observed of the plan of a rebase is refused where any of its lines runs a command.
pub proof fn observed_plans_are_refused(
    label: Seq<u8>,
    lines: Seq<Seq<u8>>,
    behind: Seq<u8>,
    place: int,
)
    requires
        label == utf8::encode_utf8("rebase-merge/git-rebase-todo"@) || label == utf8::encode_utf8(
            "rebase-apply/git-rebase-todo"@,
        ),
        parts::free_of(lines, 10u8),
        !behind.contains(10u8),
        0 <= place < lines.len(),
        safety::line_runs_command(lines[place]),
    ensures
        safety::control_observation(label, parts::written(lines, 10u8) + behind) is Err,
        safety::controls_processes(label),
{
    let contents = parts::written(lines, 10u8) + behind;
    parts::split_parts_are_those_written(lines, behind, 10u8);
    let all = text::pieces(contents, 10u8);
    assert(all[place] == lines[place]);
    assert(safety::any_line_runs_command(all));
}

/// A list of settings in which a driver is named that belongs to no filter is refused as it is observed.
pub proof fn observed_drivers_are_refused(
    args: Seq<Seq<char>>,
    names: Seq<Seq<u8>>,
    output: BoundedCommandOutputView,
    place: int,
)
    requires
        parts::free_of(names, 0u8),
        output.stdout.bytes == parts::written(names, 0u8),
        0 <= place < names.len(),
        drivers::names_external_driver(names[place]),
        drivers::filter_of(names[place]) is None,
    ensures
        safety::observation(RecoveryProbeSafetyView::ExternalDrivers, args, output) is Err,
{
    assert(parts::written(names, 0u8) + Seq::<u8>::empty() =~= parts::written(names, 0u8));
    parts::split_parts_are_those_written(names, Seq::empty(), 0u8);
    let all = text::pieces(output.stdout.bytes, 0u8);
    assert(all[place] == names[place]);
    lemma_loose_is_found(all, place);
}

/// A driver that belongs to no filter is found.
proof fn lemma_loose_is_found(names: Seq<Seq<u8>>, place: int)
    requires
        0 <= place < names.len(),
        drivers::names_external_driver(names[place]),
        drivers::filter_of(names[place]) is None,
    ensures
        drivers::loose_drivers(names).len() > 0,
    decreases names.len(),
{
    if place < names.len() - 1 {
        assert(names.drop_last()[place] == names[place]);
        lemma_loose_is_found(names.drop_last(), place);
    }
}

/// Where a lock is held, it is looked at again: the root is resolved anew, and the lock has to be intact for it. Where none
/// is held, there is nothing to look at.
pub proof fn held_locks_are_looked_at_again(
    replies: Seq<ReplyView>,
    at: nat,
    held: RecoveryLockView,
    operation: RepositoryOperation,
    action: RecoveryAction,
)
    ensures
        ({
            let step = operations::held_step(replies, at, Some((held, operation, action)));
            let root = lock::canonical_root_step(replies, at);
            let intact = lock::identity_step(
                replies,
                root.next,
                held,
                root.result->Ok_0,
                operation,
                action,
            );
            &&& step.result is Ok <==> root.result is Ok && intact.result is Ok
            &&& root.result is Ok ==> step == intact
            &&& step == operations::lock_again_step(replies, at, held, operation, action)
        }),
        operations::held_step(replies, at, None).result is Ok,
{
}

/// A lock is taken for the resolved root, in the directory for locks.
pub proof fn locks_are_taken_for_the_resolved_root(
    replies: Seq<ReplyView>,
    at: nat,
    operation: RepositoryOperation,
    action: RecoveryAction,
)
    ensures
        ({
            let step = lock::acquire_step(replies, at, operation, action);
            let root = lock::canonical_root_step(replies, at);
            let home = lock::lock_home_step(replies, root.next, operation, action);
            let taken = lock::take_step(
                replies,
                home.next,
                root.result->Ok_0,
                home.result->Ok_0,
                operation,
                action,
            );
            &&& step.result is Ok <==> root.result is Ok && home.result is Ok && taken.result is Ok
            &&& root.result is Ok && home.result is Ok ==> step == taken
        }),
{
}

/// A lock that is taken was found intact right after it was taken.
pub proof fn taken_locks_are_intact(
    replies: Seq<ReplyView>,
    at: nat,
    root: Seq<u8>,
    home: Seq<u8>,
    operation: RepositoryOperation,
    action: RecoveryAction,
)
    requires
        lock::take_step(replies, at, root, home, operation, action).result is Ok,
    ensures
        ({
            let held = lock::take_step(replies, at, root, home, operation, action).result->Ok_0;
            exists|n: nat|
                (#[trigger] lock::identity_step(
                    replies,
                    n,
                    held,
                    root,
                    operation,
                    action,
                )).result is Ok
        }),
{
    let path = lock::lock_file(home, root, ".lock"@);
    let guard_path = lock::lock_file(home, root, ".guard"@);
    let directory_path = bytes::parent(path)->Some_0;
    let directory = lock::lock_directory_step(replies, at, directory_path, operation, action);
    let guard = lock::locked_file_step(replies, directory.next, guard_path, operation, action);
    let file = lock::locked_file_step(replies, guard.next, path, operation, action);
    let held = RecoveryLockView {
        path,
        file: file.result->Ok_0,
        guard_path,
        guard: guard.result->Ok_0,
        directory_path,
        directory: directory.result->Ok_0,
        repository_root: root,
    };
    assert(lock::identity_step(replies, file.next, held, root, operation, action).result is Ok);
}

/// All that goes into a survey is kept to be looked at again: a file and a directory as they were opened, a path that led
/// nowhere, and each command with the digest of what it wrote.
pub proof fn surveys_keep_what_to_look_at_again(
    replies: Seq<ReplyView>,
    at: nat,
    label: Seq<u8>,
    path: Seq<u8>,
    handle: u64,
    metadata: FileMetadata,
    look: LookView,
    known: SurveyView,
    traces: survey::Traces,
    args: Seq<Seq<char>>,
    output: BoundedCommandOutputView,
)
    ensures
        ({
            let step = survey::file_step(replies, at, label, path, handle, metadata, look);
            step.result is Ok ==> step.result->Ok_0.inputs.len() == 1
                && step.result->Ok_0.inputs[0].input == (RecoveryInputView::Opened {
                path,
                handle,
                metadata,
            }) && step.result->Ok_0.inputs[0].label == label
        }),
        survey::extended(known, traces).inputs == known.inputs + traces.inputs,
        survey::extended(known, traces).records == known.records + traces.records,
        survey::extended(known, traces).probes == known.probes,
        ({
            let more = state::digested(known, args, output);
            &&& more.probes.len() == known.probes.len() + 1
            &&& more.probes.last().args == args
            &&& more.probes.last().digest == output.stdout.digest
            &&& more.probes.last().status == output.status.code
            &&& more.records == known.records.push(Record::Output { digest: output.stdout.digest })
        }),
{
}

/// A path that led nowhere, and a directory with all that is in it, are kept to be looked at again.
pub proof fn directories_are_kept_to_be_looked_at_again(
    replies: Seq<ReplyView>,
    at: nat,
    label: Seq<u8>,
    path: Seq<u8>,
    depth: nat,
    entries: nat,
    look: LookView,
    handle: u64,
    metadata: FileMetadata,
)
    requires
        entries < 100000,
        at + 1 < replies.len(),
        replies[at as int] == ReplyView::Done,
    ensures
        ({
            let step = survey::path_step(replies, at, label, path, depth, entries, look);
            let found = replies[at as int + 1];
            &&& found == ReplyView::Missing ==> step.result is Ok && step.result->Ok_0.inputs.len()
                == 1 && step.result->Ok_0.inputs[0].input == (RecoveryInputView::Missing { path })
            &&& found == (ReplyView::Opened { handle, metadata }) && metadata.kind
                == FileKind::Directory && step.result is Ok ==> step.result->Ok_0.inputs.len() > 0
                && step.result->Ok_0.inputs.last().input == (RecoveryInputView::Opened {
                path,
                handle,
                metadata,
            })
            &&& found == ReplyView::Symlink && step.result is Ok ==> step.result->Ok_0.inputs.len()
                > 0 && step.result->Ok_0.inputs.last().input is Symlink
                && step.result->Ok_0.inputs.last().input->Symlink_path == path
        }),
{
}

/// Paths are asked for in turns of a hundred and twenty-eight, and none is left out.
pub proof fn no_path_is_left_out(
    replies: Seq<ReplyView>,
    at: nat,
    known: SurveyView,
    paths: Seq<Seq<u8>>,
    found: Seq<Seq<u8>>,
)
    requires
        paths.len() > 0,
        forall|i: int| 0 <= i < paths.len() ==> utf8::valid_utf8(#[trigger] paths[i]),
    ensures
        ({
            let step = collisions::ignored_step(replies, at, known, paths, found);
            let count = if paths.len() < 128 {
                paths.len() as int
            } else {
                128
            };
            let words = collisions::ignored_words(paths.take(count));
            let output = bounded::whole_output_step(
                replies,
                at,
                words,
                "recovery planning is blocked because relevant ignored paths exceed the bounded output limit"@,
            );
            &&& at >= replies.len() ==> effects::waits_for(step, looked_at_by(words))
            &&& output.result is Ok ==> step == collisions::ignored_step(
                replies,
                output.next,
                state::digested(known, words, output.result->Ok_0),
                paths.skip(count),
                collisions::with_paths(
                    found,
                    text::filled(text::pieces(output.result->Ok_0.stdout.bytes, 0u8)),
                ),
            )
        }),
{
    let count = drivers::chunk_len(paths.len());
    let chunk = paths.take(count);
    assert forall|i: int| 0 <= i < chunk.len() implies utf8::valid_utf8(#[trigger] chunk[i]) by {
        assert(chunk[i] == paths[i]);
    }
}

/// The paths of each commit that is left are asked for, one commit after the other.
pub proof fn no_commit_is_left_out(
    replies: Seq<ReplyView>,
    at: nat,
    known: SurveyView,
    oids: Seq<Seq<char>>,
    paths: Seq<Seq<u8>>,
)
    requires
        oids.len() > 0,
    ensures
        ({
            let step = collisions::touched_step(replies, at, known, oids, paths);
            let words = seq![
                "show"@,
                "--format="@,
                "--name-only"@,
                "--no-renames"@,
                "--no-ext-diff"@,
                "--no-textconv"@,
                "-z"@,
                oids[0],
                "--"@,
            ];
            &&& at >= replies.len() ==> effects::waits_for(step, looked_at_by(words))
            &&& step.result is Ok ==> exists|n: nat, more: SurveyView, all: Seq<Seq<u8>>|
                step == #[trigger] collisions::touched_step(replies, n, more, oids.skip(1), all)
        }),
{
    let step = collisions::touched_step(replies, at, known, oids, paths);
    if step.result is Ok {
        let args = collisions::touched_words(oids[0]);
        let output = bounded::whole_output_step(
            replies,
            at,
            args,
            "recovery planning is blocked because an intermediate rebase commit touches too many paths"@,
        );
        let touched = output.result->Ok_0;
        let more = state::with_inside_paths(
            paths,
            text::pieces(touched.stdout.bytes, 0u8),
            collisions::target_refusal(),
        )->Ok_0;
        assert(step == collisions::touched_step(
            replies,
            output.next,
            state::probed(known, args, touched, RecoveryProbeSafetyView::Unchecked),
            oids.skip(1),
            more,
        ));
    }
}

/// The paths that a recovery writes are those of its target, and for a rebase that goes on those of all commits left.
pub proof fn paths_of_all_commits_are_written(
    replies: Seq<ReplyView>,
    at: nat,
    operation: RepositoryOperation,
    action: RecoveryAction,
    target: Seq<char>,
    known: SurveyView,
)
    ensures
        ({
            let step = collisions::written_paths_step(
                replies,
                at,
                operation,
                action,
                target,
                known,
            );
            let words = collisions::changed_words(action, target);
            let changed = bounded::whole_output_step(
                replies,
                at,
                words,
                "recovery planning is blocked because recovery target paths exceed the bounded output limit"@,
            );
            let paths = state::with_inside_paths(
                Seq::empty(),
                text::pieces(changed.result->Ok_0.stdout.bytes, 0u8),
                collisions::target_refusal(),
            );
            let seen = state::digested(known, words, changed.result->Ok_0);
            &&& at >= replies.len() ==> effects::waits_for(step, looked_at_by(words))
            &&& changed.result is Ok && paths is Ok && operation == RepositoryOperation::Rebase
                && action != RecoveryAction::Abort ==> step == collisions::touched_step(
                replies,
                changed.next,
                seen,
                known.oids,
                paths->Ok_0,
            )
            &&& changed.result is Ok && paths is Ok && (operation == RepositoryOperation::Merge
                || action == RecoveryAction::Abort) ==> step.result == Ok::<
                (SurveyView, Seq<Seq<u8>>),
                HaltView<GitErrorView>,
            >((seen, paths->Ok_0))
        }),
{
}

/// What a command writes is digested without being kept, whatever its length, and refused where the command fails.
pub proof fn outputs_are_digested(
    replies: Seq<ReplyView>,
    at: nat,
    known: SurveyView,
    args: Seq<Seq<char>>,
    output: BoundedCommandOutputView,
    exceeded: bool,
)
    ensures
        ({
            let step = state::digest_step(replies, at, known, args);
            let ended = at < replies.len() && replies[at as int] == (ReplyView::Captured {
                output,
                exceeded,
            });
            &&& at >= replies.len() ==> effects::waits_for(
                step,
                ActionView::RunBounded {
                    args,
                    optional_locks: true,
                    policy: BoundedCommandPolicy::Digest,
                },
            )
            &&& ended && output.status.code == Some(0i32) ==> step.result == Ok::<
                SurveyView,
                HaltView<GitErrorView>,
            >(state::digested(known, args, output))
            &&& ended && output.status.code != Some(0i32) ==> step.result is Err
                && step.result->Err_0 is Failed
        }),
{
}

}
