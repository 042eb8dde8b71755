//! What the store keeps and where: the files that are read and written, and what is in them.
use crate::bytes;
use crate::git::recovery::lock;
use crate::git::types::IoFailureView;
use crate::number;
use crate::order;
use crate::session::{ActionView, HaltView, ReplyView};
use crate::store::files;
use crate::store::formats;
use crate::store::operations;
use crate::store::types;
use crate::store::types::{
    AppStateView, AuditEntryView, RepositoryRecordView, RepositoryStatusView, StoreErrorView,
    StorePathsView, StoreStep,
};
use crate::text;
use vstd::prelude::*;
use vstd::utf8;

verus! {

/// Whether a part of an operation waits for an action.
pub open spec fn waits_for<T>(step: StoreStep<T>, action: ActionView) -> bool {
    step.result == Err::<T, HaltView<StoreErrorView>>(HaltView::Pending(action))
}

/// The registry, the state and the log are `registry.tsv`, `state.tsv` and `audit.tsv` below the directory for data.
pub proof fn files_are_below_the_data_directory(config_dir: Seq<u8>, data_dir: Seq<u8>)
    ensures
        ({
            let paths = types::paths_below(config_dir, data_dir);
            &&& paths.config_dir == config_dir
            &&& paths.data_dir == data_dir
            &&& paths.registry_file == bytes::joined_path(
                data_dir,
                utf8::encode_utf8("registry.tsv"@),
            )
            &&& paths.state_file == bytes::joined_path(data_dir, utf8::encode_utf8("state.tsv"@))
            &&& paths.audit_file == bytes::joined_path(data_dir, utf8::encode_utf8("audit.tsv"@))
        }),
{
}

/// The directory for settings is the one that is set for the application, or else `bitbygit` below the one that is set
/// for the desktop, or below the one of the system, or below `.config` at home.
pub proof fn settings_are_kept_where_the_user_says(
    own: Option<Seq<u8>>,
    desktop: Option<Seq<u8>>,
    windows: Option<Seq<u8>>,
    home: Option<Seq<u8>>,
)
    ensures
        ({
            let name = utf8::encode_utf8("bitbygit"@);
            let chosen = operations::config_directory(own, desktop, windows, home);
            &&& own is Some ==> chosen == own
            &&& own is None && desktop is Some ==> chosen == Some(
                bytes::joined_path(desktop->Some_0, name),
            )
            &&& own is None && desktop is None && windows is Some ==> chosen == Some(
                bytes::joined_path(windows->Some_0, name),
            )
            &&& own is None && desktop is None && windows is None && home is Some ==> chosen
                == Some(
                bytes::joined_path(
                    bytes::joined_path(home->Some_0, utf8::encode_utf8(".config"@)),
                    name,
                ),
            )
            &&& own is None && desktop is None && windows is None && home is None ==> chosen is None
        }),
{
}

/// The directory for data is chosen in the same order, below `data` of the one of the system, and at home below
/// `.local/share`.
pub proof fn data_is_kept_where_the_user_says(
    own: Option<Seq<u8>>,
    desktop: Option<Seq<u8>>,
    windows: Option<Seq<u8>>,
    home: Option<Seq<u8>>,
)
    ensures
        ({
            let name = utf8::encode_utf8("bitbygit"@);
            let chosen = lock::data_directory(own, desktop, windows, home);
            &&& own is Some ==> chosen == own
            &&& own is None && desktop is Some ==> chosen == Some(
                bytes::joined_path(desktop->Some_0, name),
            )
            &&& own is None && desktop is None && windows is Some ==> chosen == Some(
                bytes::joined_path(
                    bytes::joined_path(windows->Some_0, name),
                    utf8::encode_utf8("data"@),
                ),
            )
            &&& own is None && desktop is None && windows is None && home is None ==> chosen is None
            &&& own is None && desktop is None && windows is None && home is Some ==> chosen
                == Some(
                bytes::joined_path(
                    bytes::joined_path(
                        bytes::joined_path(home->Some_0, utf8::encode_utf8(".local"@)),
                        utf8::encode_utf8("share"@),
                    ),
                    name,
                ),
            )
        }),
{
}

/// Whether a variable is set to a value that is not empty, or is not set.
pub open spec fn variable_is(
    replies: Seq<ReplyView>,
    at: nat,
    value: Option<Seq<u8>>,
) -> bool {
    &&& at < replies.len()
    &&& match value {
        Some(value) => value.len() > 0 && replies[at as int] == ReplyView::Bytes(value),
        None => replies[at as int] == ReplyView::Missing || replies[at as int] == ReplyView::Bytes(
            Seq::empty(),
        ),
    }
}

/// The directories are asked of the environment: an empty variable counts as one that is not set.
pub proof fn directories_are_asked_of_the_environment(
    replies: Seq<ReplyView>,
    at: nat,
    own: (Option<Seq<u8>>, Option<Seq<u8>>),
    desktop: (Option<Seq<u8>>, Option<Seq<u8>>),
    windows: Option<Seq<u8>>,
    home: Option<Seq<u8>>,
)
    ensures
        ({
            let step = operations::environment_paths_step(replies, at);
            let settings = operations::config_directory(own.0, desktop.0, windows, home);
            let data = lock::data_directory(own.1, desktop.1, windows, home);
            &&& at >= replies.len() ==> waits_for(
                step,
                ActionView::Environment { name: "BITBYGIT_CONFIG_DIR"@ },
            )
            &&& variable_is(replies, at, own.0) && variable_is(replies, at + 1, desktop.0)
                && variable_is(replies, at + 2, own.1) && variable_is(replies, at + 3, desktop.1)
                && variable_is(replies, at + 4, windows) && variable_is(replies, at + 5, home) ==> {
                &&& settings is Some && data is Some ==> step.result == Ok::<
                    StorePathsView,
                    HaltView<StoreErrorView>,
                >(types::paths_below(settings->Some_0, data->Some_0))
                &&& settings is None || data is None ==> step.result is Err && step.result->Err_0
                    is Failed
            }
        }),
        ({
            let step = operations::environment_paths_step(replies, at);
            &&& variable_is(replies, at, own.0) ==> {
                &&& at + 1 == replies.len() ==> waits_for(
                    step,
                    ActionView::Environment { name: "XDG_CONFIG_HOME"@ },
                )
                &&& variable_is(replies, at + 1, desktop.0) ==> {
                    &&& at + 2 == replies.len() ==> waits_for(
                        step,
                        ActionView::Environment { name: "BITBYGIT_DATA_DIR"@ },
                    )
                    &&& variable_is(replies, at + 2, own.1) ==> {
                        &&& at + 3 == replies.len() ==> waits_for(
                            step,
                            ActionView::Environment { name: "XDG_DATA_HOME"@ },
                        )
                        &&& variable_is(replies, at + 3, desktop.1) ==> {
                            &&& at + 4 == replies.len() ==> waits_for(
                                step,
                                ActionView::Environment { name: "APPDATA"@ },
                            )
                            &&& variable_is(replies, at + 4, windows) && at + 5 == replies.len()
                                ==> waits_for(step, ActionView::Environment { name: "HOME"@ })
                        }
                    }
                }
            }
        }),
{
    lemma_variable(replies, at, "BITBYGIT_CONFIG_DIR"@, own.0);
    lemma_variable(replies, at + 1, "XDG_CONFIG_HOME"@, desktop.0);
    lemma_variable(replies, at + 2, "BITBYGIT_DATA_DIR"@, own.1);
    lemma_variable(replies, at + 3, "XDG_DATA_HOME"@, desktop.1);
    lemma_variable(replies, at + 4, "APPDATA"@, windows);
    lemma_variable(replies, at + 5, "HOME"@, home);
}

/// A variable is read as it is set.
proof fn lemma_variable(
    replies: Seq<ReplyView>,
    at: nat,
    name: Seq<char>,
    value: Option<Seq<u8>>,
)
    ensures
        variable_is(replies, at, value) ==> {
            let step = operations::variable_step(replies, at, name);
            &&& step.result == Ok::<Option<Seq<u8>>, HaltView<StoreErrorView>>(value)
            &&& step.next == at + 1
        },
        at >= replies.len() ==> waits_for(
            operations::variable_step(replies, at, name),
            ActionView::Environment { name },
        ),
{
}

/// Each file is read from its own path, and one that is not there counts as empty.
pub proof fn files_are_read_where_they_are(
    replies: Seq<ReplyView>,
    at: nat,
    paths: StorePathsView,
)
    ensures
        at >= replies.len() ==> {
            &&& waits_for(
                operations::registry_step(replies, at, paths),
                ActionView::ReadText { path: paths.registry_file },
            )
            &&& waits_for(
                operations::state_step(replies, at, paths),
                ActionView::ReadText { path: paths.state_file },
            )
            &&& waits_for(
                operations::audit_step(replies, at, paths),
                ActionView::ReadText { path: paths.audit_file },
            )
        },
        at < replies.len() && replies[at as int] == ReplyView::Missing ==> {
            &&& operations::registry_step(replies, at, paths).result == Ok::<
                Seq<RepositoryRecordView>,
                HaltView<StoreErrorView>,
            >(Seq::empty())
            &&& operations::state_step(replies, at, paths).result == Ok::<
                AppStateView,
                HaltView<StoreErrorView>,
            >(AppStateView { active_repo: None, recent_repos: Seq::empty() })
            &&& operations::audit_step(replies, at, paths).result == Ok::<
                Seq<AuditEntryView>,
                HaltView<StoreErrorView>,
            >(Seq::empty())
        },
{
}

/// An entry is appended to the log as one line, once the directory of the log is there.
pub proof fn entries_are_appended_to_the_log(
    replies: Seq<ReplyView>,
    at: nat,
    paths: StorePathsView,
    entry: AuditEntryView,
)
    ensures
        ({
            let step = operations::append_step(replies, at, paths, entry);
            let parent = bytes::parent(paths.audit_file);
            let append = ActionView::Append {
                path: paths.audit_file,
                contents: formats::entry_line(entry) + "\n"@,
            };
            &&& parent is Some && at >= replies.len() ==> waits_for(
                step,
                ActionView::CreateDirectories { path: parent->Some_0 },
            )
            &&& parent is Some && at + 1 == replies.len() && replies[at as int] == ReplyView::Done
                ==> waits_for(step, append)
            &&& parent is None && at >= replies.len() ==> waits_for(step, append)
            &&& parent is Some && at + 1 < replies.len() && replies[at as int] == ReplyView::Done
                && replies[at as int + 1] == ReplyView::Done ==> step.result is Ok
        }),
{
}

/// A record is its name, its path in hexadecimal digits, and the two times, with tabs between them; an entry of the log
/// is its time, its repository or a dash, and the three texts in hexadecimal digits.
pub proof fn lines_have_their_fields(record: RepositoryRecordView, entry: AuditEntryView)
    ensures
        formats::record_line(record) == record.id + seq!['\t'] + number::hex(record.path) + seq![
            '\t',
        ] + number::decimal(record.added_at as nat) + seq!['\t'] + number::decimal(
            record.last_seen_at as nat,
        ),
        formats::entry_line(entry) == number::decimal(entry.timestamp as nat) + seq!['\t'] + (
        if entry.repo_id is Some {
            entry.repo_id->Some_0
        } else {
            seq!['-']
        }) + seq!['\t'] + number::hex(utf8::encode_utf8(entry.operation)) + seq!['\t']
            + number::hex(utf8::encode_utf8(entry.result)) + seq!['\t'] + number::hex(
            utf8::encode_utf8(entry.message),
        ),
{
    reveal_strlit("\t");
    reveal_strlit("-");
    assert("\t"@ =~= seq!['\t']);
    assert("-"@ =~= seq!['-']);
}

/// The time of an entry is that of the clock, and the rest is what it is given.
pub proof fn entries_have_the_time_of_the_clock(
    replies: Seq<ReplyView>,
    at: nat,
    entry: AuditEntryView,
)
    ensures
        ({
            let step = operations::entry_step(
                replies,
                at,
                entry.repo_id,
                entry.operation,
                entry.result,
                entry.message,
            );
            &&& at >= replies.len() ==> waits_for(step, ActionView::Clock)
            &&& at < replies.len() && replies[at as int] == ReplyView::Number(entry.timestamp)
                ==> step.result == Ok::<AuditEntryView, HaltView<StoreErrorView>>(entry)
        }),
{
}

/// A list without an element is the list of the others.
proof fn lemma_without(list: Seq<Seq<char>>, id: Seq<char>)
    ensures
        operations::without(list, id) == list.filter(|other: Seq<char>| other != id),
    decreases list.len(),
{
    reveal(Seq::filter);
    if list.len() > 0 {
        lemma_without(list.drop_last(), id);
    }
}

/// The recent repositories are the one that was used last and behind it all others in their order, fifty at most.
pub proof fn fifty_repositories_are_recent(recent: Seq<Seq<char>>, id: Seq<char>)
    ensures
        ({
            let all = seq![id] + recent.filter(|other: Seq<char>| other != id);
            operations::with_recent(recent, id) == if all.len() > 50 {
                all.take(50)
            } else {
                all
            }
        }),
{
    lemma_without(recent, id);
}

/// A repository that is removed is left out of the recent ones; the others stay in their order.
pub proof fn removed_repository_is_left_out(state: AppStateView, id: Seq<char>)
    ensures
        operations::forgotten(state, id).recent_repos == state.recent_repos.filter(
            |other: Seq<char>| other != id,
        ),
        operations::forgotten(state, id).active_repo == if state.active_repo == Some(id) {
            None
        } else {
            state.active_repo
        },
{
    lemma_without(state.recent_repos, id);
}

/// Making a repository the active one makes it the most recent one as well; making none active leaves the recent ones.
pub proof fn active_repository_is_recent(state: AppStateView, id: Seq<char>)
    ensures
        operations::activated(state, Some(id)).active_repo == Some(id),
        operations::activated(state, Some(id)).recent_repos == operations::with_recent(
            state.recent_repos,
            id,
        ),
        operations::activated(state, None).active_repo is None,
        operations::activated(state, None).recent_repos == state.recent_repos,
{
}

/// A repository is recorded under the name of its root, with the root as its path. It was seen now; the time at which it
/// was added is kept where it was recorded before.
pub proof fn repositories_are_recorded_with_their_times(
    records: Seq<RepositoryRecordView>,
    root: Seq<u8>,
    now: u64,
)
    ensures
        ({
            let record = operations::seen_record(records, root, now);
            let known = formats::record_of(records, types::id_of_path(root));
            &&& record.path == root
            &&& record.last_seen_at == now
            &&& known is None ==> record.added_at == now && record.id == types::id_of_path(root)
            &&& known is Some ==> record.added_at == known->Some_0.added_at && record.id
                == known->Some_0.id
        }),
{
}

/// Adding a repository asks Git for its root in the directory that was given, and the clock for the time. Once both files
/// are read, it saves the registry with the record and the state with the repository as the most recent one, and gives
/// the record.
pub proof fn added_repository_is_recorded(
    replies: Seq<ReplyView>,
    at: nat,
    paths: StorePathsView,
    path: Seq<u8>,
)
    ensures
        ({
            let step = operations::add_step(replies, at, paths, path);
            let root = operations::root_step(replies, at, path);
            let clock = operations::clock_step(replies, root.next);
            let records = operations::registry_step(replies, clock.next, paths);
            let state = operations::state_step(replies, records.next, paths);
            let record = operations::seen_record(
                records.result->Ok_0,
                root.result->Ok_0->Ok_0,
                clock.result->Ok_0,
            );
            let saved = operations::save_step(
                replies,
                state.next,
                paths,
                records.result->Ok_0,
                formats::with_record(records.result->Ok_0, record),
                AppStateView {
                    active_repo: state.result->Ok_0.active_repo,
                    recent_repos: operations::with_recent(
                        state.result->Ok_0.recent_repos,
                        record.id,
                    ),
                },
            );
            &&& at >= replies.len() ==> waits_for(step, ActionView::Enter { directory: path })
            &&& root.result is Ok && root.result->Ok_0 is Err ==> step.result is Err
                && step.result->Err_0 is Failed
            &&& root.result is Ok && root.result->Ok_0 is Ok && clock.result is Ok && records.result
                is Ok && state.result is Ok ==> {
                &&& saved.result is Ok ==> step.result == Ok::<
                    RepositoryRecordView,
                    HaltView<StoreErrorView>,
                >(record)
                &&& saved.result is Err ==> step.result is Err && step.result->Err_0
                    == saved.result->Err_0
            }
        }),
{
}

/// Removing a repository saves the registry without its record and the state without it, and gives the record that was
/// there.
pub proof fn removed_repository_is_given_back(
    replies: Seq<ReplyView>,
    at: nat,
    paths: StorePathsView,
    id: Seq<char>,
)
    ensures
        ({
            let step = operations::remove_step(replies, at, paths, id);
            let records = operations::registry_step(replies, at, paths);
            let state = operations::state_step(replies, records.next, paths);
            let saved = operations::save_step(
                replies,
                state.next,
                paths,
                records.result->Ok_0,
                formats::without_record(records.result->Ok_0, id),
                operations::forgotten(state.result->Ok_0, id),
            );
            records.result is Ok && state.result is Ok ==> {
                &&& saved.result is Ok ==> step.result == Ok::<
                    Option<RepositoryRecordView>,
                    HaltView<StoreErrorView>,
                >(formats::record_of(records.result->Ok_0, id))
                &&& saved.result is Err ==> step.result is Err && step.result->Err_0
                    == saved.result->Err_0
            }
        }),
{
}

/// Only a repository that is recorded can be made active: the state is written only once it was found.
pub proof fn only_recorded_repositories_become_active(
    replies: Seq<ReplyView>,
    at: nat,
    paths: StorePathsView,
    id: Seq<char>,
)
    ensures
        ({
            let step = operations::activate_step(replies, at, paths, Some(id));
            let records = operations::registry_step(replies, at, paths);
            let state = operations::state_step(replies, records.next, paths);
            let found = formats::record_of(records.result->Ok_0, id);
            &&& records.result is Ok && found is None ==> step.result == Err::<
                (),
                HaltView<StoreErrorView>,
            >(HaltView::Failed(StoreErrorView::UnknownRepository { id }))
            &&& records.result is Ok && found is Some && state.result is Ok ==> step
                == files::write_step(
                replies,
                state.next,
                paths.state_file,
                formats::state_text(operations::activated(state.result->Ok_0, Some(id))),
            )
        }),
        ({
            let step = operations::activate_step(replies, at, paths, None);
            let state = operations::state_step(replies, at, paths);
            state.result is Ok ==> step == files::write_step(
                replies,
                state.next,
                paths.state_file,
                formats::state_text(operations::activated(state.result->Ok_0, None)),
            )
        }),
{
}

/// A repository is valid where its root still is where it was recorded.
pub proof fn valid_repositories_are_where_they_were(
    replies: Seq<ReplyView>,
    at: nat,
    record: RepositoryRecordView,
)
    ensures
        ({
            let step = operations::status_step(replies, at, record);
            let root = operations::root_step(replies, at, record.path);
            &&& at >= replies.len() ==> waits_for(
                step,
                ActionView::Enter { directory: record.path },
            )
            &&& root.result is Ok ==> {
                &&& step.result is Ok
                &&& step.result->Ok_0.record == record
                &&& step.result->Ok_0.status is Valid <==> root.result->Ok_0 is Ok
                    && order::path_parts(root.result->Ok_0->Ok_0) == order::path_parts(record.path)
            }
        }),
{
}

/// A repository that is asked for by its name is the recorded one, and an unknown name is refused.
pub proof fn repositories_are_found_by_their_name(
    replies: Seq<ReplyView>,
    at: nat,
    paths: StorePathsView,
    id: Seq<char>,
)
    ensures
        ({
            let step = operations::status_by_id_step(replies, at, paths, id);
            let records = operations::registry_step(replies, at, paths);
            let found = formats::record_of(records.result->Ok_0, id);
            &&& records.result is Ok && found is Some ==> step == operations::status_step(
                replies,
                records.next,
                found->Some_0,
            )
            &&& records.result is Ok && found is None ==> step.result == Err::<
                RepositoryStatusView,
                HaltView<StoreErrorView>,
            >(HaltView::Failed(StoreErrorView::UnknownRepository { id }))
        }),
{
}

/// The states of all repositories are those of the records, one for each and in their order.
pub proof fn each_repository_has_a_status(
    replies: Seq<ReplyView>,
    at: nat,
    records: Seq<RepositoryRecordView>,
)
    ensures
        ({
            let step = operations::statuses_step(replies, at, records);
            step.result is Ok ==> {
                &&& step.result->Ok_0.len() == records.len()
                &&& forall|i: int|
                    0 <= i < records.len() ==> (#[trigger] step.result->Ok_0[i]).record
                        == records[i]
            }
        }),
    decreases records.len(),
{
    if records.len() > 0 {
        each_repository_has_a_status(replies, at, records.drop_last());
    }
}

/// A name that is taken is followed by another one; after a hundred of them the writing fails.
pub proof fn names_are_tried_one_after_the_other(
    replies: Seq<ReplyView>,
    at: nat,
    path: Seq<u8>,
    contents: Seq<char>,
    process: u64,
    attempt: nat,
    last: Option<IoFailureView>,
    source: IoFailureView,
)
    ensures
        ({
            let step = files::attempts_step(replies, at, path, contents, process, attempt, last);
            &&& attempt >= 100 ==> step.result is Err && step.result->Err_0 is Failed
            &&& attempt < 100 && at < replies.len() && replies[at as int] == ReplyView::Exists(
                source,
            ) ==> step == files::attempts_step(
                replies,
                at + 1,
                path,
                contents,
                process,
                attempt + 1,
                Some(source),
            )
        }),
        forall|other: nat|
            #![trigger files::temporary_name(path, process, other)]
            files::temporary_name(path, process, other) == files::temporary_name(
                path,
                process,
                attempt,
            ) ==> other == attempt,
{
    assert forall|other: nat|
        #![trigger files::temporary_name(path, process, other)]
        files::temporary_name(path, process, other) == files::temporary_name(
            path,
            process,
            attempt,
        ) implies other == attempt by {
        let name = match bytes::file_name(path) {
            Some(name) => bytes::lossy_text(name),
            None => "store"@,
        };
        let lead = "."@ + name + ".tmp-"@ + number::decimal(process as nat) + "-"@;
        let one = lead + number::decimal(other);
        let two = lead + number::decimal(attempt);
        assert(one.skip(lead.len() as int) =~= number::decimal(other));
        assert(two.skip(lead.len() as int) =~= number::decimal(attempt));
        number::lemma_decimal(other);
        number::lemma_decimal(attempt);
    }
}

/// A file is written under another name first, with all of its contents, and then renamed.
pub proof fn files_are_written_under_another_name(
    replies: Seq<ReplyView>,
    at: nat,
    path: Seq<u8>,
    contents: Seq<char>,
    process: u64,
)
    requires
        bytes::parent(path) is Some,
        at + 1 < replies.len(),
        replies[at as int] == ReplyView::Done,
        replies[at as int + 1] == ReplyView::Number(process),
    ensures
        ({
            let step = files::write_step(replies, at, path, contents);
            let first = files::temporary_path(path, process, 0);
            &&& at + 2 == replies.len() ==> waits_for(
                step,
                ActionView::WriteNew { path: first, contents },
            )
            &&& at + 2 < replies.len() && replies[at as int + 2] == ReplyView::Done ==> {
                &&& at + 3 == replies.len() ==> waits_for(
                    step,
                    ActionView::Rename { from: first, to: path },
                )
                &&& at + 3 < replies.len() && replies[at as int + 3] == ReplyView::Done ==> {
                    &&& at + 4 == replies.len() ==> waits_for(
                        step,
                        ActionView::SyncDirectory { path: bytes::parent(path)->Some_0 },
                    )
                    &&& at + 4 < replies.len() && replies[at as int + 4] == ReplyView::Done
                        ==> step.result is Ok
                }
            }
        }),
{
    reveal_with_fuel(files::attempts_step, 2);
}

/// The name of a repository comes from the FNV-1a hash of its path.
pub proof fn names_come_from_the_hash_of_the_path(path: Seq<u8>, byte: u8)
    ensures
        types::fnv1a_hash(Seq::empty()) == 0xcbf29ce484222325u64,
        types::fnv1a_hash(path.push(byte)) == (types::fnv1a_hash(path) ^ (byte as u64)).wrapping_mul(
            0x100000001b3u64,
        ),
        types::id_of_path(path) == "repo-"@ + number::hex_number(types::fnv1a_hash(path)),
{
    assert(path.push(byte).drop_last() =~= path);
}

/// The state is two lines: the active repository behind `active`, and the recent ones, with commas between them, behind
/// `recent`.
pub proof fn state_is_two_lines(state: AppStateView)
    ensures
        formats::state_text(state) == "active\t"@ + (if state.active_repo is Some {
            state.active_repo->Some_0
        } else {
            Seq::empty()
        }) + "\nrecent\t"@ + text::joined(state.recent_repos, ","@) + "\n"@,
{
    reveal_strlit("");
    assert(""@ =~= Seq::<char>::empty());
}

/// The name of a repository is made of ASCII letters, digits, dashes and underscores, at least one of them.
pub proof fn names_of_repositories_are_plain(value: Seq<char>)
    ensures
        types::is_repo_id(value) <==> value.len() > 0 && forall|i: int|
            #![trigger value[i]]
            0 <= i < value.len() ==> {
                ||| 'a' <= value[i] <= 'z'
                ||| 'A' <= value[i] <= 'Z'
                ||| '0' <= value[i] <= '9'
                ||| value[i] == '-'
                ||| value[i] == '_'
            },
{
    assert(types::is_repo_id(value) ==> forall|i: int|
        #![trigger value[i]]
        0 <= i < value.len() ==> types::is_id_character(value[i]));
}

/// A line of the state that is neither that of the active repository nor that of the recent ones is refused, and so is a
/// name that is none.
pub proof fn unknown_lines_of_the_state_are_refused(state: AppStateView, line: Seq<char>)
    ensures
        line.len() > 0 && !text::has_prefix(line, "active\t"@) && !text::has_prefix(
            line,
            "recent\t"@,
        ) ==> formats::state_after(state, line) is Err,
        line.len() > 0 && !types::is_repo_id(line) ==> formats::state_after(
            state,
            "active\t"@ + line,
        ) is Err,
        types::is_repo_id(line) ==> formats::state_after(state, "active\t"@ + line) == Ok::<
            AppStateView,
            Seq<char>,
        >(AppStateView { active_repo: Some(line), recent_repos: state.recent_repos }),
{
    let whole = "active\t"@ + line;
    assert(whole.take("active\t"@.len() as int) =~= "active\t"@);
    assert(whole.skip("active\t"@.len() as int) =~= line);
}

/// A record is refused where its name is not that of its path, and where it has not four fields.
pub proof fn records_go_under_the_name_of_their_path(fields: Seq<Seq<char>>, line: nat)
    ensures
        formats::record_in(fields, line) is Ok ==> {
            &&& fields.len() == 4
            &&& formats::record_in(fields, line)->Ok_0.id == fields[0]
            &&& fields[0] == types::id_of_path(formats::record_in(fields, line)->Ok_0.path)
        },
        formats::entry_in(fields, line) is Ok ==> fields.len() == 5,
{
}

}
