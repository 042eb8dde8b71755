//! Operations on what is kept. Each takes the answers that it has got so far (see [`crate::session`]).
use crate::bytes;
use crate::git::commands::Git;
use crate::git::inspect;
use crate::git::errors;
use crate::git::recovery::lock;
use crate::order;
use crate::session;
use crate::session::{Action, ActionView, Halt, HaltView, Reply, ReplyView, Session};
use crate::store::files;
use crate::store::formats;
use crate::store::types;
use crate::store::types::{
    AppState, AppStateView, AuditEntry, AuditEntryView, LocalStore, RepoId, RepositoryHealth,
    RepositoryHealthView, RepositoryRecord, RepositoryRecordView, RepositoryStatus,
    RepositoryStatusView, StoreError, StoreErrorView, StorePaths, StorePathsView, StoreResult,
    StoreStep,
};
use crate::text;
use vstd::prelude::*;
use vstd::utf8;

verus! {

broadcast use crate::bytes::bytes_are_their_view;

/// How many recent repositories are kept.
pub const RECENT_LIMIT: usize = 50;

/// The value of an environment variable that is set and not empty.
pub open spec fn variable_step(replies: Seq<ReplyView>, at: nat, name: Seq<char>) -> StoreStep<
    Option<Seq<u8>>,
> {
    session::followed(
        session::asked(replies, at, ActionView::Environment { name }),
        |reply: ReplyView, n: nat|
            match reply {
                ReplyView::Bytes(value) => if value.len() > 0 {
                    session::given(Some(value), n)
                } else {
                    session::given(None, n)
                },
                _ => session::given(None, n),
            },
    )
}

/// The value of an environment variable that is set and not empty.
fn env_path(session: &mut Session, name: &str) -> (result: StoreResult<Option<Vec<u8>>>)
    ensures
        session::stepped(
            old(session),
            final(session),
            result,
            variable_step(old(session).replies(), old(session).at(), name@),
        ),
{
    match session.ask(Action::Environment { name: name.to_owned() })? {
        Reply::Bytes(value) => {
            if value.len() > 0 {
                Ok(Some(bytes::copy_bytes(value.as_slice())))
            } else {
                Ok(None)
            }
        },
        _ => Ok(None),
    }
}

/// The directory for settings: the one set for this application, the one of the desktop, the one of
/// Windows, or one in the home directory.
pub open spec fn config_directory(
    own: Option<Seq<u8>>,
    desktop: Option<Seq<u8>>,
    windows: Option<Seq<u8>>,
    home: Option<Seq<u8>>,
) -> Option<Seq<u8>> {
    let name = utf8::encode_utf8("bitbygit"@);
    if own is Some {
        own
    } else if desktop is Some {
        Some(bytes::joined_path(desktop->Some_0, name))
    } else if windows is Some {
        Some(bytes::joined_path(windows->Some_0, name))
    } else if home is Some {
        Some(
            bytes::joined_path(
                bytes::joined_path(home->Some_0, utf8::encode_utf8(".config"@)),
                name,
            ),
        )
    } else {
        None
    }
}

/// The directory for settings.
pub fn resolve_config_dir(
    own: Option<&[u8]>,
    desktop: Option<&[u8]>,
    windows: Option<&[u8]>,
    home: Option<&[u8]>,
) -> (result: Option<Vec<u8>>)
    ensures
        result.deep_view() == config_directory(
            lock::optional_bytes(own),
            lock::optional_bytes(desktop),
            lock::optional_bytes(windows),
            lock::optional_bytes(home),
        ),
{
    if let Some(own) = own {
        return Some(bytes::copy_bytes(own));
    }
    if let Some(desktop) = desktop {
        return Some(bytes::join_name(desktop, "bitbygit"));
    }
    if let Some(windows) = windows {
        return Some(bytes::join_name(windows, "bitbygit"));
    }
    match home {
        Some(home) => {
            let settings = bytes::join_name(home, ".config");
            Some(bytes::join_name(settings.as_slice(), "bitbygit"))
        },
        None => None,
    }
}

/// The paths that environment variables give.
pub open spec fn resolved_paths(
    config_dir: Option<Seq<u8>>,
    data_dir: Option<Seq<u8>>,
) -> Result<StorePathsView, StoreErrorView> {
    if config_dir is None || data_dir is None {
        Err(StoreErrorView::HomeDirectoryUnavailable)
    } else {
        Ok(types::paths_below(config_dir->Some_0, data_dir->Some_0))
    }
}

/// The paths that the environment gives.
pub open spec fn environment_paths_step(replies: Seq<ReplyView>, at: nat) -> StoreStep<StorePathsView> {
    session::followed(
        variable_step(replies, at, "BITBYGIT_CONFIG_DIR"@),
        |own_config: Option<Seq<u8>>, n: nat|
            session::followed(
                variable_step(replies, n, "XDG_CONFIG_HOME"@),
                |desktop_config: Option<Seq<u8>>, n: nat|
                    session::followed(
                        variable_step(replies, n, "BITBYGIT_DATA_DIR"@),
                        |own_data: Option<Seq<u8>>, n: nat|
                            session::followed(
                                variable_step(replies, n, "XDG_DATA_HOME"@),
                                |desktop_data: Option<Seq<u8>>, n: nat|
                                    session::followed(
                                        variable_step(replies, n, "APPDATA"@),
                                        |windows: Option<Seq<u8>>, n: nat|
                                            session::followed(
                                                variable_step(replies, n, "HOME"@),
                                                |home: Option<Seq<u8>>, n: nat|
                                                    settled_step(
                                                        resolved_paths(
                                                            config_directory(
                                                                own_config,
                                                                desktop_config,
                                                                windows,
                                                                home,
                                                            ),
                                                            lock::data_directory(
                                                                own_data,
                                                                desktop_data,
                                                                windows,
                                                                home,
                                                            ),
                                                        ),
                                                        n,
                                                    ),
                                            ),
                                    ),
                            ),
                    ),
            ),
    )
}

/// A part of an operation that asks for nothing.
pub open spec fn settled_step<T>(result: Result<T, StoreErrorView>, at: nat) -> StoreStep<T> {
    match result {
        Ok(value) => session::given(value, at),
        Err(error) => session::failed(error, at),
    }
}

/// An optional path, borrowed.
fn borrow(path: &Option<Vec<u8>>) -> (result: Option<&[u8]>)
    ensures
        lock::optional_bytes(result) == path.deep_view(),
{
    match path {
        Some(path) => Some(path.as_slice()),
        None => None,
    }
}

impl StorePaths {
    /// The paths that the environment gives.
    pub fn from_environment(replies: &[Reply]) -> (result: StoreResult<StorePaths>)
        ensures
            session::outcome(result) == environment_paths_step(replies.deep_view(), 0).result,
    {
        let mut session = Session::new(replies);
        let own_config = env_path(&mut session, "BITBYGIT_CONFIG_DIR")?;
        let desktop_config = env_path(&mut session, "XDG_CONFIG_HOME")?;
        let own_data = env_path(&mut session, "BITBYGIT_DATA_DIR")?;
        let desktop_data = env_path(&mut session, "XDG_DATA_HOME")?;
        let windows = env_path(&mut session, "APPDATA")?;
        let home = env_path(&mut session, "HOME")?;
        let config_dir = resolve_config_dir(
            borrow(&own_config),
            borrow(&desktop_config),
            borrow(&windows),
            borrow(&home),
        );
        let data_dir = lock::resolve_recovery_data_dir(
            borrow(&own_data),
            borrow(&desktop_data),
            borrow(&windows),
            borrow(&home),
        );
        match (config_dir, data_dir) {
            (Some(config_dir), Some(data_dir)) => Ok(StorePaths::from_roots(config_dir, data_dir)),
            _ => Err(Halt::Failed(StoreError::HomeDirectoryUnavailable)),
        }
    }
}

/// The seconds since the Unix epoch.
pub open spec fn clock_step(replies: Seq<ReplyView>, at: nat) -> StoreStep<u64> {
    session::followed(
        session::asked(replies, at, ActionView::Clock),
        |reply: ReplyView, n: nat|
            match reply {
                ReplyView::Number(seconds) => session::given(seconds, n),
                _ => session::failed(StoreErrorView::ClockBeforeUnixEpoch, n),
            },
    )
}

/// The seconds since the Unix epoch.
fn now_secs(session: &mut Session) -> (result: StoreResult<u64>)
    ensures
        session::stepped(
            old(session),
            final(session),
            result,
            clock_step(old(session).replies(), old(session).at()),
        ),
{
    match session.ask(Action::Clock)? {
        Reply::Number(seconds) => Ok(*seconds),
        _ => Err(Halt::Failed(StoreError::ClockBeforeUnixEpoch)),
    }
}

/// An entry with the time.
pub open spec fn entry_step(
    replies: Seq<ReplyView>,
    at: nat,
    repo_id: Option<Seq<char>>,
    operation: Seq<char>,
    result: Seq<char>,
    message: Seq<char>,
) -> StoreStep<AuditEntryView> {
    session::followed(
        clock_step(replies, at),
        |timestamp: u64, n: nat|
            session::given(
                AuditEntryView { timestamp, repo_id, operation, result, message },
                n,
            ),
    )
}

impl AuditEntry {
    /// An entry about something that is done now.
    pub fn new(
        repo_id: Option<RepoId>,
        operation: &str,
        outcome: &str,
        message: &str,
        replies: &[Reply],
    ) -> (result: StoreResult<AuditEntry>)
        ensures
            session::outcome(result) == entry_step(
                replies.deep_view(),
                0,
                repo_id.deep_view(),
                operation@,
                outcome@,
                message@,
            ).result,
    {
        let mut session = Session::new(replies);
        let timestamp = now_secs(&mut session)?;
        Ok(
            AuditEntry {
                timestamp,
                repo_id,
                operation: operation.to_owned(),
                result: outcome.to_owned(),
                message: message.to_owned(),
            },
        )
    }
}

/// What was read from a file; the error of what could not be read names the file.
pub open spec fn read_from<T>(read: formats::Read<T>, path: Seq<u8>) -> Result<T, StoreErrorView> {
    match read {
        Ok(value) => Ok(value),
        Err(message) => Err(StoreErrorView::Parse { path: Some(path), message }),
    }
}

/// The error of what could not be read, with the file.
fn attach_parse_path(error: StoreError, file_path: &[u8]) -> (result: StoreError)
    ensures
        result.deep_view() == (match error.deep_view() {
            StoreErrorView::Parse { path: None, message } => StoreErrorView::Parse {
                path: Some(file_path@),
                message,
            },
            other => other,
        }),
{
    match error {
        StoreError::Parse { path: None, message } => StoreError::Parse {
            path: Some(bytes::copy_bytes(file_path)),
            message,
        },
        other => other,
    }
}

/// The registered repositories; none where there is no registry.
pub open spec fn registry_step(
    replies: Seq<ReplyView>,
    at: nat,
    paths: StorePathsView,
) -> StoreStep<
    Seq<RepositoryRecordView>,
> {
    session::followed(
        files::read_step(replies, at, paths.registry_file),
        |contents: Option<Seq<char>>, n: nat|
            match contents {
                None => session::given(Seq::empty(), n),
                Some(contents) => settled_step(
                    read_from(
                        formats::registry_in(text::text_lines(contents)),
                        paths.registry_file,
                    ),
                    n,
                ),
            },
    )
}

/// The active and recent repositories; none where there is no state.
pub open spec fn state_step(replies: Seq<ReplyView>, at: nat, paths: StorePathsView) -> StoreStep<
    AppStateView,
> {
    session::followed(
        files::read_step(replies, at, paths.state_file),
        |contents: Option<Seq<char>>, n: nat|
            match contents {
                None => session::given(types::empty_state(), n),
                Some(contents) => settled_step(
                    read_from(formats::state_in(text::text_lines(contents)), paths.state_file),
                    n,
                ),
            },
    )
}

/// The log; empty where there is none.
pub open spec fn audit_step(replies: Seq<ReplyView>, at: nat, paths: StorePathsView) -> StoreStep<
    Seq<AuditEntryView>,
> {
    session::followed(
        files::read_step(replies, at, paths.audit_file),
        |contents: Option<Seq<char>>, n: nat|
            match contents {
                None => session::given(Seq::empty(), n),
                Some(contents) => settled_step(
                    read_from(formats::audit_in(text::text_lines(contents)), paths.audit_file),
                    n,
                ),
            },
    )
}

/// Adds to the log.
pub open spec fn append_step(
    replies: Seq<ReplyView>,
    at: nat,
    paths: StorePathsView,
    entry: AuditEntryView,
) -> StoreStep<()> {
    session::followed(
        files::create_parent_step(replies, at, paths.audit_file),
        |_created: (), n: nat|
            files::done_step(
                replies,
                n,
                ActionView::Append {
                    path: paths.audit_file,
                    contents: formats::entry_line(entry) + "\n"@,
                },
                paths.audit_file,
            ),
    )
}

/// The top directory of the repository that a directory is in, or what Git says instead.
pub open spec fn root_step(replies: Seq<ReplyView>, at: nat, directory: Seq<u8>) -> StoreStep<
    Result<Seq<u8>, Seq<char>>,
> {
    session::followed(
        session::asked(replies, at, ActionView::Enter { directory }),
        |_entered: ReplyView, n: nat|
            {
                let root = inspect::repo_root_step(replies, n);
                match root.result {
                    Ok(path) => session::given(Ok(path), root.next),
                    Err(HaltView::Failed(error)) => session::given(
                        Err(errors::git_message(error)),
                        root.next,
                    ),
                    Err(HaltView::Pending(action)) => session::pending(action, root.next),
                }
            },
    )
}

/// The values of a path, or of what is said instead.
pub open spec fn root_view(root: Result<Vec<u8>, String>) -> Result<Seq<u8>, Seq<char>> {
    match root {
        Ok(path) => Ok(path@),
        Err(message) => Err(message@),
    }
}

/// The top directory of the repository that a directory is in, or what Git says instead.
fn find_root(session: &mut Session, directory: &[u8]) -> (result: StoreResult<
    Result<Vec<u8>, String>,
>)
    ensures
        final(session).replies() == old(session).replies(),
        ({
            let step = root_step(old(session).replies(), old(session).at(), directory@);
            &&& step.next == final(session).at()
            &&& match result {
                Ok(root) => step.result == Ok::<_, HaltView<StoreErrorView>>(root_view(root)),
                Err(halt) => step.result == Err::<Result<Seq<u8>, Seq<char>>, _>(halt.deep_view()),
            }
        }),
{
    session.ask::<StoreError>(Action::Enter { directory: bytes::copy_bytes(directory) })?;
    let git = Git::new(bytes::copy_bytes(directory));
    match git.repo_root_in(session) {
        Ok(path) => Ok(Ok(path)),
        Err(Halt::Failed(error)) => Ok(Err(error.message())),
        Err(Halt::Pending(action)) => Err(Halt::Pending(action)),
    }
}

/// A list of names without one of them.
pub open spec fn without(list: Seq<Seq<char>>, id: Seq<char>) -> Seq<Seq<char>>
    decreases list.len(),
{
    if list.len() == 0 {
        Seq::empty()
    } else if list.last() == id {
        without(list.drop_last(), id)
    } else {
        without(list.drop_last(), id).push(list.last())
    }
}

/// The recent repositories after one is used: it comes first, and there are not too many.
pub open spec fn with_recent(recent: Seq<Seq<char>>, id: Seq<char>) -> Seq<Seq<char>> {
    let all = seq![id] + without(recent, id);
    if all.len() > RECENT_LIMIT {
        all.take(RECENT_LIMIT as int)
    } else {
        all
    }
}

/// A list of names without one of them.
fn retain_others(list: &Vec<RepoId>, id: &RepoId) -> (result: Vec<RepoId>)
    ensures
        result.deep_view() == without(list.deep_view(), id@),
{
    let ghost all = list.deep_view();
    let mut kept: Vec<RepoId> = Vec::new();
    let mut index: usize = 0;
    assert(kept.deep_view() =~= without(all.take(0), id@));
    while index < list.len()
        invariant
            index <= list@.len(),
            all == list.deep_view(),
            kept.deep_view() == without(all.take(index as int), id@),
        decreases list@.len() - index,
    {
        let ghost longer = all.take(index + 1);
        assert(longer.drop_last() =~= all.take(index as int));
        assert(longer.last() == list@[index as int]@);
        if !list[index].same(id) {
            let ghost before = kept.deep_view();
            kept.push(list[index].clone());
            assert(kept.deep_view() =~= before.push(longer.last()));
        }
        index += 1;
    }
    assert(all.take(index as int) =~= all);
    kept
}

/// The recent repositories after one is used.
pub fn push_recent(recent: &Vec<RepoId>, id: &RepoId) -> (result: Vec<RepoId>)
    ensures
        result.deep_view() == with_recent(recent.deep_view(), id@),
{
    let others = retain_others(recent, id);
    let ghost all = seq![id@] + without(recent.deep_view(), id@);
    let mut result: Vec<RepoId> = Vec::new();
    result.push(id.clone());
    let mut index: usize = 0;
    assert(result.deep_view() =~= all.take(1));
    assert(all.len() == others@.len() + 1);
    while index < others.len() && result.len() < RECENT_LIMIT
        invariant
            index <= others@.len(),
            all == seq![id@] + others.deep_view(),
            all.len() == others@.len() + 1,
            result@.len() == index + 1 <= RECENT_LIMIT,
            result.deep_view() == all.take(index + 1),
        decreases others@.len() - index,
    {
        result.push(others[index].clone());
        index += 1;
        assert(result.deep_view() =~= all.take(index + 1));
    }
    assert(all.take(all.len() as int) =~= all);
    assert(result.deep_view() =~= with_recent(recent.deep_view(), id@));
    result
}

/// The record of a repository that is registered now: the one that it has, seen again, or a new one.
pub open spec fn seen_record(records: Seq<RepositoryRecordView>, root: Seq<u8>, now: u64) -> RepositoryRecordView {
    let id = types::id_of_path(root);
    match formats::record_of(records, id) {
        Some(record) => RepositoryRecordView { path: root, last_seen_at: now, ..record },
        None => RepositoryRecordView { id, path: root, added_at: now, last_seen_at: now },
    }
}

/// Writes the registry and then the state; where the state cannot be written, the registry is written as
/// it was.
pub open spec fn save_step(
    replies: Seq<ReplyView>,
    at: nat,
    paths: StorePathsView,
    before: Seq<RepositoryRecordView>,
    records: Seq<RepositoryRecordView>,
    state: AppStateView,
) -> StoreStep<()> {
    session::followed(
        files::write_step(replies, at, paths.registry_file, formats::registry_text(records)),
        |_written: (), n: nat|
            {
                let saved = files::write_step(
                    replies,
                    n,
                    paths.state_file,
                    formats::state_text(state),
                );
                match saved.result {
                    Err(HaltView::Failed(error)) => session::followed(
                        files::write_step(
                            replies,
                            saved.next,
                            paths.registry_file,
                            formats::registry_text(before),
                        ),
                        |_restored: (), n: nat| session::failed(error, n),
                    ),
                    _ => saved,
                }
            },
    )
}

/// Registers the repository that a path is in.
pub open spec fn add_step(
    replies: Seq<ReplyView>,
    at: nat,
    paths: StorePathsView,
    path: Seq<u8>,
) -> StoreStep<
    RepositoryRecordView,
> {
    session::followed(
        root_step(replies, at, path),
        |root: Result<Seq<u8>, Seq<char>>, n: nat|
            match root {
                Err(message) => session::failed(
                    StoreErrorView::InvalidRepository { path, message },
                    n,
                ),
                Ok(root) => session::followed(
                    clock_step(replies, n),
                    |now: u64, n: nat|
                        session::followed(
                            registry_step(replies, n, paths),
                            |records: Seq<RepositoryRecordView>, n: nat|
                                session::followed(
                                    state_step(replies, n, paths),
                                    |state: AppStateView, n: nat|
                                        {
                                            let record = seen_record(records, root, now);
                                            session::followed(
                                                save_step(
                                                    replies,
                                                    n,
                                                    paths,
                                                    records,
                                                    formats::with_record(records, record),
                                                    AppStateView {
                                                        recent_repos: with_recent(
                                                            state.recent_repos,
                                                            record.id,
                                                        ),
                                                        ..state
                                                    },
                                                ),
                                                |_saved: (), n: nat| session::given(record, n),
                                            )
                                        },
                                ),
                        ),
                ),
            },
    )
}

/// A state in which a repository is neither active nor recent.
pub open spec fn forgotten(state: AppStateView, id: Seq<char>) -> AppStateView {
    AppStateView {
        active_repo: if state.active_repo == Some(id) {
            None
        } else {
            state.active_repo
        },
        recent_repos: without(state.recent_repos, id),
    }
}

/// Takes a repository out of the registry and the state. The repository itself is not touched.
pub open spec fn remove_step(
    replies: Seq<ReplyView>,
    at: nat,
    paths: StorePathsView,
    id: Seq<char>,
) -> StoreStep<
    Option<RepositoryRecordView>,
> {
    session::followed(
        registry_step(replies, at, paths),
        |records: Seq<RepositoryRecordView>, n: nat|
            session::followed(
                state_step(replies, n, paths),
                |state: AppStateView, n: nat|
                    session::followed(
                        save_step(
                            replies,
                            n,
                            paths,
                            records,
                            formats::without_record(records, id),
                            forgotten(state, id),
                        ),
                        |_saved: (), n: nat| session::given(formats::record_of(records, id), n),
                    ),
            ),
    )
}

/// Whether a registered repository can be used, given where Git finds its top.
pub open spec fn health_of(path: Seq<u8>, root: Result<Seq<u8>, Seq<char>>) -> RepositoryHealthView {
    match root {
        Ok(root) => if order::path_parts(root) == order::path_parts(path) {
            RepositoryHealthView::Valid
        } else {
            RepositoryHealthView::Invalid {
                message: "repository root moved to "@ + bytes::lossy_text(root),
            }
        },
        Err(message) => RepositoryHealthView::Invalid { message },
    }
}

/// A record with its health.
pub open spec fn status_step(
    replies: Seq<ReplyView>,
    at: nat,
    record: RepositoryRecordView,
) -> StoreStep<
    RepositoryStatusView,
> {
    session::followed(
        root_step(replies, at, record.path),
        |root: Result<Seq<u8>, Seq<char>>, n: nat|
            session::given(
                RepositoryStatusView { record, status: health_of(record.path, root) },
                n,
            ),
    )
}

/// Records with their health.
pub open spec fn statuses_step(
    replies: Seq<ReplyView>,
    at: nat,
    records: Seq<RepositoryRecordView>,
) -> StoreStep<Seq<RepositoryStatusView>>
    decreases records.len(),
{
    if records.len() == 0 {
        session::given(Seq::empty(), at)
    } else {
        let before = statuses_step(replies, at, records.drop_last());
        let last = status_step(replies, before.next, records.last());
        if before.result is Err {
            before
        } else if last.result is Err {
            session::halted(last)
        } else {
            session::given(before.result->Ok_0.push(last.result->Ok_0), last.next)
        }
    }
}

/// All registered repositories with their health.
pub open spec fn all_statuses_step(
    replies: Seq<ReplyView>,
    at: nat,
    paths: StorePathsView,
) -> StoreStep<
    Seq<RepositoryStatusView>,
> {
    session::followed(
        registry_step(replies, at, paths),
        |records: Seq<RepositoryRecordView>, n: nat| statuses_step(replies, n, records),
    )
}

/// A registered repository with its health.
pub open spec fn status_by_id_step(
    replies: Seq<ReplyView>,
    at: nat,
    paths: StorePathsView,
    id: Seq<char>,
) -> StoreStep<RepositoryStatusView> {
    session::followed(
        registry_step(replies, at, paths),
        |records: Seq<RepositoryRecordView>, n: nat|
            match formats::record_of(records, id) {
                Some(record) => status_step(replies, n, record),
                None => session::failed(StoreErrorView::UnknownRepository { id }, n),
            },
    )
}

/// Fails where a repository is not registered.
pub open spec fn registered_step(
    replies: Seq<ReplyView>,
    at: nat,
    paths: StorePathsView,
    id: Option<Seq<char>>,
) -> StoreStep<()> {
    match id {
        None => session::given((), at),
        Some(id) => session::followed(
            registry_step(replies, at, paths),
            |records: Seq<RepositoryRecordView>, n: nat|
                if formats::record_of(records, id) is Some {
                    session::given((), n)
                } else {
                    session::failed(StoreErrorView::UnknownRepository { id }, n)
                },
        ),
    }
}

/// A state with another active repository.
pub open spec fn activated(state: AppStateView, id: Option<Seq<char>>) -> AppStateView {
    AppStateView {
        active_repo: id,
        recent_repos: match id {
            Some(id) => with_recent(state.recent_repos, id),
            None => state.recent_repos,
        },
    }
}

/// Makes a registered repository, or none, the active one.
pub open spec fn activate_step(
    replies: Seq<ReplyView>,
    at: nat,
    paths: StorePathsView,
    id: Option<Seq<char>>,
) -> StoreStep<()> {
    session::followed(
        registered_step(replies, at, paths, id),
        |_registered: (), n: nat|
            session::followed(
                state_step(replies, n, paths),
                |state: AppStateView, n: nat|
                    files::write_step(
                        replies,
                        n,
                        paths.state_file,
                        formats::state_text(activated(state, id)),
                    ),
            ),
    )
}

/// Creates the directories of the store.
pub open spec fn open_step(replies: Seq<ReplyView>, at: nat, paths: StorePathsView) -> StoreStep<
    StorePathsView,
> {
    session::followed(
        files::create_step(replies, at, paths.config_dir),
        |_created: (), n: nat|
            session::followed(
                files::create_step(replies, n, paths.data_dir),
                |_created: (), n: nat| session::given(paths, n),
            ),
    )
}

impl DeepView for LocalStore {
    type V = StorePathsView;

    open spec fn deep_view(&self) -> StorePathsView {
        self.paths.deep_view()
    }
}

/// Where a status cannot be had, none of the list can.
proof fn lemma_halted_statuses(
    replies: Seq<ReplyView>,
    at: nat,
    records: Seq<RepositoryRecordView>,
    count: int,
)
    requires
        0 <= count <= records.len(),
        statuses_step(replies, at, records.take(count)).result is Err,
    ensures
        statuses_step(replies, at, records) == statuses_step(replies, at, records.take(count)),
    decreases records.len() - count,
{
    if count < records.len() {
        assert(records.take(count + 1).drop_last() =~= records.take(count));
        lemma_halted_statuses(replies, at, records, count + 1);
    } else {
        assert(records.take(count) =~= records);
    }
}

impl LocalStore {
    /// Creates the directories of a store.
    pub fn open(paths: StorePaths, replies: &[Reply]) -> (result: StoreResult<LocalStore>)
        ensures
            session::outcome(result) == open_step(
                replies.deep_view(),
                0,
                paths.deep_view(),
            ).result,
    {
        let mut session = Session::new(replies);
        files::create_directories(&mut session, paths.config_dir.as_slice())?;
        files::create_directories(&mut session, paths.data_dir.as_slice())?;
        Ok(LocalStore { paths })
    }

    /// The paths of the store.
    pub fn paths(&self) -> (result: &StorePaths)
        ensures
            *result == self.paths,
    {
        &self.paths
    }

    fn load_registry_map(&self, session: &mut Session) -> (result: StoreResult<
        Vec<RepositoryRecord>,
    >)
        ensures
            session::stepped(
                old(session),
                final(session),
                result,
                registry_step(old(session).replies(), old(session).at(), self.paths.deep_view()),
            ),
    {
        let path = self.paths.registry_file.as_slice();
        match files::read_optional(session, path)? {
            None => {
                let none: Vec<RepositoryRecord> = Vec::new();
                assert(none.deep_view() =~= Seq::<RepositoryRecordView>::empty());
                Ok(none)
            },
            Some(contents) => match formats::parse_registry(contents.as_str()) {
                Ok(records) => Ok(records),
                Err(error) => Err(Halt::Failed(attach_parse_path(error, path))),
            },
        }
    }

    fn load_state_in(&self, session: &mut Session) -> (result: StoreResult<AppState>)
        ensures
            session::stepped(
                old(session),
                final(session),
                result,
                state_step(old(session).replies(), old(session).at(), self.paths.deep_view()),
            ),
    {
        let path = self.paths.state_file.as_slice();
        match files::read_optional(session, path)? {
            None => Ok(AppState::default()),
            Some(contents) => match formats::parse_state(contents.as_str()) {
                Ok(state) => Ok(state),
                Err(error) => Err(Halt::Failed(attach_parse_path(error, path))),
            },
        }
    }

    fn save_registry(&self, session: &mut Session, records: &Vec<RepositoryRecord>) -> (result:
        StoreResult<()>)
        ensures
            session::stepped(
                old(session),
                final(session),
                result,
                files::write_step(
                    old(session).replies(),
                    old(session).at(),
                    self.paths.registry_file@,
                    formats::registry_text(records.deep_view()),
                ),
            ),
    {
        let contents = formats::format_registry(records);
        files::write_atomic(session, self.paths.registry_file.as_slice(), contents.as_str())
    }

    fn save_state(&self, session: &mut Session, state: &AppState) -> (result: StoreResult<()>)
        ensures
            session::stepped(
                old(session),
                final(session),
                result,
                files::write_step(
                    old(session).replies(),
                    old(session).at(),
                    self.paths.state_file@,
                    formats::state_text(state.deep_view()),
                ),
            ),
    {
        let contents = formats::format_state(state);
        files::write_atomic(session, self.paths.state_file.as_slice(), contents.as_str())
    }

    fn save(
        &self,
        session: &mut Session,
        before: &Vec<RepositoryRecord>,
        records: &Vec<RepositoryRecord>,
        state: &AppState,
    ) -> (result: StoreResult<()>)
        ensures
            session::stepped(
                old(session),
                final(session),
                result,
                save_step(
                    old(session).replies(),
                    old(session).at(),
                    self.paths.deep_view(),
                    before.deep_view(),
                    records.deep_view(),
                    state.deep_view(),
                ),
            ),
    {
        self.save_registry(session, records)?;
        match self.save_state(session, state) {
            Ok(_) => Ok(()),
            Err(Halt::Pending(action)) => Err(Halt::Pending(action)),
            Err(Halt::Failed(error)) => {
                self.save_registry(session, before)?;
                Err(Halt::Failed(error))
            },
        }
    }

    /// Registers the repository that a path is in, or marks it as seen, and makes it the most recent.
    pub fn add_repository(&self, path: &[u8], replies: &[Reply]) -> (result: StoreResult<
        RepositoryRecord,
    >)
        ensures
            session::outcome(result) == add_step(
                replies.deep_view(),
                0,
                self.paths.deep_view(),
                path@,
            ).result,
    {
        let mut session = Session::new(replies);
        let root = match find_root(&mut session, path)? {
            Ok(root) => root,
            Err(message) => {
                return Err(
                    Halt::Failed(
                        StoreError::InvalidRepository { path: bytes::copy_bytes(path), message },
                    ),
                );
            },
        };
        let now = now_secs(&mut session)?;
        let records = self.load_registry_map(&mut session)?;
        let state = self.load_state_in(&mut session)?;
        let id = RepoId::from_path(root.as_slice());
        let record = match formats::find_record(&records, &id) {
            Some(known) => RepositoryRecord {
                id: known.id.clone(),
                path: root,
                added_at: known.added_at,
                last_seen_at: now,
            },
            None => RepositoryRecord { id, path: root, added_at: now, last_seen_at: now },
        };
        let mut changed = formats::copy_records(&records);
        formats::put_record(&mut changed, record.copied());
        let recent = push_recent(&state.recent_repos, &record.id);
        let state = AppState { recent_repos: recent, ..state };
        self.save(&mut session, &records, &changed, &state)?;
        Ok(record)
    }

    /// Takes a repository out of the store. Its files stay as they are.
    pub fn remove_repository(&self, id: &RepoId, replies: &[Reply]) -> (result: StoreResult<
        Option<RepositoryRecord>,
    >)
        ensures
            session::outcome(result) == remove_step(
                replies.deep_view(),
                0,
                self.paths.deep_view(),
                id@,
            ).result,
    {
        let mut session = Session::new(replies);
        let records = self.load_registry_map(&mut session)?;
        let state = self.load_state_in(&mut session)?;
        let removed = match formats::find_record(&records, id) {
            Some(record) => Some(record.copied()),
            None => None,
        };
        let kept = formats::drop_record(formats::copy_records(&records), id);
        let active_repo = match state.active_repo {
            Some(active) => {
                if active.same(id) {
                    None
                } else {
                    Some(active)
                }
            },
            None => None,
        };
        let state = AppState { active_repo, recent_repos: retain_others(&state.recent_repos, id) };
        self.save(&mut session, &records, &kept, &state)?;
        Ok(removed)
    }

    /// The registered repositories, ordered by name.
    pub fn list_repositories(&self, replies: &[Reply]) -> (result: StoreResult<
        Vec<RepositoryRecord>,
    >)
        ensures
            session::outcome(result) == registry_step(
                replies.deep_view(),
                0,
                self.paths.deep_view(),
            ).result,
    {
        let mut session = Session::new(replies);
        self.load_registry_map(&mut session)
    }

    /// The registered repositories with their health.
    pub fn list_repository_statuses(&self, replies: &[Reply]) -> (result: StoreResult<
        Vec<RepositoryStatus>,
    >)
        ensures
            session::outcome(result) == all_statuses_step(
                replies.deep_view(),
                0,
                self.paths.deep_view(),
            ).result,
    {
        let mut session = Session::new(replies);
        let records = self.load_registry_map(&mut session)?;
        let ghost all = records.deep_view();
        let ghost start = session.at();
        let ghost answers = session.replies();
        let mut statuses: Vec<RepositoryStatus> = Vec::new();
        let mut index: usize = 0;
        assert(statuses.deep_view() =~= Seq::<RepositoryStatusView>::empty());
        while index < records.len()
            invariant
                index <= records@.len(),
                all == records.deep_view(),
                answers == replies.deep_view(),
                session.replies() == answers,
                all_statuses_step(answers, 0, self.paths.deep_view()) == statuses_step(
                    answers,
                    start,
                    all,
                ),
                statuses_step(answers, start, all.take(index as int)) == session::given::<
                    _,
                    StoreErrorView,
                >(statuses.deep_view(), session.at()),
            decreases records@.len() - index,
        {
            let ghost longer = all.take(index + 1);
            assert(longer.drop_last() =~= all.take(index as int));
            assert(longer.last() == records@[index as int].deep_view());
            match status_in(&mut session, records[index].copied()) {
                Ok(status) => {
                    let ghost before = statuses.deep_view();
                    statuses.push(status);
                    assert(statuses.deep_view() =~= before.push(status.deep_view()));
                },
                Err(halt) => {
                    proof {
                        lemma_halted_statuses(answers, start, all, index + 1);
                    }
                    return Err(halt);
                },
            }
            index += 1;
        }
        assert(all.take(index as int) =~= all);
        Ok(statuses)
    }

    /// A registered repository with its health.
    pub fn repository_status_by_id(&self, id: &RepoId, replies: &[Reply]) -> (result: StoreResult<
        RepositoryStatus,
    >)
        ensures
            session::outcome(result) == status_by_id_step(
                replies.deep_view(),
                0,
                self.paths.deep_view(),
                id@,
            ).result,
    {
        let mut session = Session::new(replies);
        let records = self.load_registry_map(&mut session)?;
        match formats::find_record(&records, id) {
            Some(record) => status_in(&mut session, record.copied()),
            None => Err(Halt::Failed(StoreError::UnknownRepository { id: id.clone() })),
        }
    }

    /// A record with its health.
    pub fn repository_status(&self, record: RepositoryRecord, replies: &[Reply]) -> (result:
        StoreResult<RepositoryStatus>)
        ensures
            session::outcome(result) == status_step(
                replies.deep_view(),
                0,
                record.deep_view(),
            ).result,
    {
        let mut session = Session::new(replies);
        status_in(&mut session, record)
    }

    /// The active and recent repositories.
    pub fn load_state(&self, replies: &[Reply]) -> (result: StoreResult<AppState>)
        ensures
            session::outcome(result) == state_step(
                replies.deep_view(),
                0,
                self.paths.deep_view(),
            ).result,
    {
        let mut session = Session::new(replies);
        self.load_state_in(&mut session)
    }

    /// Makes a registered repository, or none, the active one.
    pub fn set_active_repository(&self, id: Option<RepoId>, replies: &[Reply]) -> (result:
        StoreResult<()>)
        ensures
            session::outcome(result) == activate_step(
                replies.deep_view(),
                0,
                self.paths.deep_view(),
                id.deep_view(),
            ).result,
    {
        let mut session = Session::new(replies);
        self.require_registered(&mut session, &id)?;
        let state = self.load_state_in(&mut session)?;
        let recent_repos = match &id {
            Some(id) => push_recent(&state.recent_repos, id),
            None => state.recent_repos,
        };
        let state = AppState { active_repo: id, recent_repos };
        self.save_state(&mut session, &state)
    }

    fn require_registered(&self, session: &mut Session, id: &Option<RepoId>) -> (result:
        StoreResult<()>)
        ensures
            session::stepped(
                old(session),
                final(session),
                result,
                registered_step(
                    old(session).replies(),
                    old(session).at(),
                    self.paths.deep_view(),
                    id.deep_view(),
                ),
            ),
    {
        match id {
            None => Ok(()),
            Some(id) => {
                let records = self.load_registry_map(session)?;
                if formats::find_record(&records, id).is_some() {
                    Ok(())
                } else {
                    Err(Halt::Failed(StoreError::UnknownRepository { id: id.clone() }))
                }
            },
        }
    }

    /// Adds to the log.
    pub fn append_audit(&self, entry: &AuditEntry, replies: &[Reply]) -> (result: StoreResult<()>)
        ensures
            session::outcome(result) == append_step(
                replies.deep_view(),
                0,
                self.paths.deep_view(),
                entry.deep_view(),
            ).result,
    {
        let mut session = Session::new(replies);
        let path = self.paths.audit_file.as_slice();
        files::create_parent(&mut session, path)?;
        let action = Action::Append {
            path: bytes::copy_bytes(path),
            contents: formats::format_audit_entry(entry),
        };
        files::ask_done(&mut session, action, path)
    }

    /// The log.
    pub fn list_audit_entries(&self, replies: &[Reply]) -> (result: StoreResult<Vec<AuditEntry>>)
        ensures
            session::outcome(result) == audit_step(
                replies.deep_view(),
                0,
                self.paths.deep_view(),
            ).result,
    {
        let mut session = Session::new(replies);
        let path = self.paths.audit_file.as_slice();
        match files::read_optional(&mut session, path)? {
            None => {
                let none: Vec<AuditEntry> = Vec::new();
                assert(none.deep_view() =~= Seq::<AuditEntryView>::empty());
                Ok(none)
            },
            Some(contents) => match formats::parse_audit_entries(contents.as_str()) {
                Ok(entries) => Ok(entries),
                Err(error) => Err(Halt::Failed(attach_parse_path(error, path))),
            },
        }
    }
}

/// A record with its health.
fn status_in(session: &mut Session, record: RepositoryRecord) -> (result: StoreResult<
    RepositoryStatus,
>)
    ensures
        session::stepped(
            old(session),
            final(session),
            result,
            status_step(old(session).replies(), old(session).at(), record.deep_view()),
        ),
{
    let status = match find_root(session, record.path.as_slice())? {
        Ok(root) => {
            if order::same_path(root.as_slice(), record.path.as_slice()) {
                RepositoryHealth::Valid
            } else {
                let shown = bytes::lossy(root.as_slice());
                RepositoryHealth::Invalid {
                    message: text::concat2("repository root moved to ", shown.as_str()),
                }
            }
        },
        Err(message) => RepositoryHealth::Invalid { message },
    };
    Ok(RepositoryStatus { record, status })
}

}
