//! The lock that keeps two recoveries of one repository apart.
use crate::bytes;
use crate::digest;
use crate::git::commands;
use crate::git::commands::{GitResult, GitStep};
use crate::git::recovery::bounded;
use crate::git::recovery::files;
use crate::git::types::{
    GitError, GitErrorView, IoFailure, IoFailureView, RecoveryAction, RepositoryOperation,
};
use crate::number;
use crate::order;
use crate::session;
use crate::session::{
    Action, ActionView, FileKind, FileMetadata, Halt, Reply, ReplyView, Session,
};
use crate::text;
use crate::words;
use vstd::prelude::*;
use vstd::utf8;

verus! {

broadcast use crate::bytes::bytes_are_their_view;

/// The name of the directory that holds the locks.
pub const RECOVERY_LOCK_DIRECTORY: &'static str = "recovery-locks";

/// The name of a recovery action.
pub open spec fn action_label(action: RecoveryAction) -> Seq<char> {
    match action {
        RecoveryAction::Continue => "continue"@,
        RecoveryAction::Abort => "abort"@,
        RecoveryAction::Skip => "skip"@,
    }
}

impl RecoveryAction {
    /// The name of a recovery action.
    pub fn label(self) -> (result: &'static str)
        ensures
            result@ == action_label(self),
    {
        match self {
            RecoveryAction::Continue => "continue",
            RecoveryAction::Abort => "abort",
            RecoveryAction::Skip => "skip",
        }
    }
}

/// A message that starts with the recovery it is about.
pub open spec fn about(
    operation: RepositoryOperation,
    action: RecoveryAction,
    message: Seq<char>,
) -> Seq<char> {
    commands::operation_label(operation) + " "@ + action_label(action) + message
}

/// A message that starts with the recovery it is about.
pub(crate) fn say(operation: RepositoryOperation, action: RecoveryAction, message: &str) -> (result:
    String)
    ensures
        result@ == about(operation, action, message@),
{
    text::concat4(operation.label(), " ", action.label(), message)
}

/// A refusal that starts with the recovery it is about.
pub(crate) fn refuse(operation: RepositoryOperation, action: RecoveryAction, message: &str) -> (result:
    GitError)
    ensures
        result.deep_view() == commands::refusal(about(operation, action, message@)),
{
    let text = say(operation, action, message);
    commands::blocked(text.as_str())
}

/// The error of a request about the lock that the file system refused.
pub open spec fn lock_failure(
    operation: RepositoryOperation,
    action: RecoveryAction,
    source: IoFailureView,
) -> GitErrorView {
    GitErrorView::Io {
        args: seq![about(operation, action, " BitByGit recovery lock"@)],
        source,
    }
}

/// The error of a request about the lock that the file system refused.
pub(crate) fn recovery_lock_io(
    operation: RepositoryOperation,
    action: RecoveryAction,
    source: &IoFailure,
) -> (result: GitError)
    ensures
        result.deep_view() == lock_failure(operation, action, source.deep_view()),
{
    let what = say(operation, action, " BitByGit recovery lock");
    GitError::Io { args: words::words1(what.as_str()), source: source.copied() }
}

/// The error of a lock that was refused: a refusal where another recovery holds it.
pub open spec fn lock_refusal(
    operation: RepositoryOperation,
    action: RecoveryAction,
    source: IoFailureView,
    contended: Option<i32>,
) -> GitErrorView {
    if source.code == contended {
        commands::refusal(
            about(
                operation,
                action,
                " is blocked because another BitByGit recovery is active for this repository"@,
            ),
        )
    } else {
        lock_failure(operation, action, source)
    }
}

/// The error of a lock that was refused.
pub fn recovery_lock_error(
    operation: RepositoryOperation,
    action: RecoveryAction,
    source: &IoFailure,
    contended: Option<i32>,
) -> (result: GitError)
    ensures
        result.deep_view() == lock_refusal(operation, action, source.deep_view(), contended),
{
    let held = match (source.code, contended) {
        (Some(code), Some(held)) => code == held,
        (None, None) => true,
        _ => false,
    };
    if held {
        refuse(
            operation,
            action,
            " is blocked because another BitByGit recovery is active for this repository",
        )
    } else {
        recovery_lock_io(operation, action, source)
    }
}

/// The refusal where the lock is no longer the one that was taken.
pub open spec fn identity_refusal(operation: RepositoryOperation, action: RecoveryAction) -> GitErrorView {
    commands::refusal(
        about(
            operation,
            action,
            " is blocked because the BitByGit recovery lock identity changed"@,
        ),
    )
}

/// The refusal where the lock is no longer the one that was taken.
fn refuse_identity(operation: RepositoryOperation, action: RecoveryAction) -> (result: GitError)
    ensures
        result.deep_view() == identity_refusal(operation, action),
{
    refuse(
        operation,
        action,
        " is blocked because the BitByGit recovery lock identity changed",
    )
}

/// The directory for the application's data, by the environment: its own variable, the data directory
/// of the desktop, that of Windows, or the one below the home directory.
pub open spec fn data_directory(
    own: Option<Seq<u8>>,
    desktop: Option<Seq<u8>>,
    windows: Option<Seq<u8>>,
    home: Option<Seq<u8>>,
) -> Option<Seq<u8>> {
    let name = utf8::encode_utf8("bitbygit"@);
    if own is Some {
        own
    } else if desktop is Some {
        Some(bytes::joined_path(desktop->Some_0, name))
    } else if windows is Some {
        Some(
            bytes::joined_path(
                bytes::joined_path(windows->Some_0, name),
                utf8::encode_utf8("data"@),
            ),
        )
    } else if home is Some {
        Some(
            bytes::joined_path(
                bytes::joined_path(
                    bytes::joined_path(home->Some_0, utf8::encode_utf8(".local"@)),
                    utf8::encode_utf8("share"@),
                ),
                name,
            ),
        )
    } else {
        None
    }
}

/// The directory for the application's data, by the environment.
pub fn resolve_recovery_data_dir(
    own: Option<&[u8]>,
    desktop: Option<&[u8]>,
    windows: Option<&[u8]>,
    home: Option<&[u8]>,
) -> (result: Option<Vec<u8>>)
    ensures
        result.deep_view() == data_directory(
            optional_bytes(own),
            optional_bytes(desktop),
            optional_bytes(windows),
            optional_bytes(home),
        ),
{
    if let Some(own) = own {
        return Some(bytes::copy_bytes(own));
    }
    if let Some(desktop) = desktop {
        return Some(bytes::join_name(desktop, "bitbygit"));
    }
    if let Some(windows) = windows {
        let base = bytes::join_name(windows, "bitbygit");
        return Some(bytes::join_name(base.as_slice(), "data"));
    }
    if let Some(home) = home {
        let local = bytes::join_name(home, ".local");
        let share = bytes::join_name(local.as_slice(), "share");
        return Some(bytes::join_name(share.as_slice(), "bitbygit"));
    }
    None
}

/// The bytes of an optional slice.
pub open spec fn optional_bytes(value: Option<&[u8]>) -> Option<Seq<u8>> {
    match value {
        Some(value) => Some(value@),
        None => None,
    }
}

/// Reads an environment variable.
pub open spec fn environment_step(replies: Seq<ReplyView>, at: nat, name: Seq<char>) -> GitStep<
    Option<Seq<u8>>,
> {
    session::followed(
        session::asked(replies, at, ActionView::Environment { name }),
        |reply: ReplyView, n: nat|
            match reply {
                ReplyView::Bytes(value) => session::given(Some(value), n),
                _ => session::given(None, n),
            },
    )
}

/// Reads an environment variable.
fn read_environment(session: &mut Session, name: &str) -> (result: GitResult<Option<Vec<u8>>>)
    ensures
        session::stepped(
            old(session),
            final(session),
            result,
            environment_step(old(session).replies(), old(session).at(), name@),
        ),
{
    match session.ask(Action::Environment { name: name.to_owned() })? {
        Reply::Bytes(value) => Ok(Some(bytes::copy_bytes(value.as_slice()))),
        _ => Ok(None),
    }
}

/// The directory for the application's data. A variable is read only where those before it are not
/// set.
pub open spec fn data_directory_step(replies: Seq<ReplyView>, at: nat) -> GitStep<Option<Seq<u8>>> {
    session::followed(
        environment_step(replies, at, "BITBYGIT_DATA_DIR"@),
        |own: Option<Seq<u8>>, n: nat|
            if own is Some {
                session::given(data_directory(own, None, None, None), n)
            } else {
                session::followed(
                    environment_step(replies, n, "XDG_DATA_HOME"@),
                    |desktop: Option<Seq<u8>>, n: nat|
                        if desktop is Some {
                            session::given(data_directory(None, desktop, None, None), n)
                        } else {
                            session::followed(
                                environment_step(replies, n, "APPDATA"@),
                                |windows: Option<Seq<u8>>, n: nat|
                                    if windows is Some {
                                        session::given(
                                            data_directory(None, None, windows, None),
                                            n,
                                        )
                                    } else {
                                        session::followed(
                                            environment_step(replies, n, "HOME"@),
                                            |home: Option<Seq<u8>>, n: nat|
                                                session::given(
                                                    data_directory(None, None, None, home),
                                                    n,
                                                ),
                                        )
                                    },
                            )
                        },
                )
            },
    )
}

/// The directory for the application's data.
fn find_data_directory(session: &mut Session) -> (result: GitResult<Option<Vec<u8>>>)
    ensures
        session::stepped(
            old(session),
            final(session),
            result,
            data_directory_step(old(session).replies(), old(session).at()),
        ),
{
    if let Some(own) = read_environment(session, "BITBYGIT_DATA_DIR")? {
        return Ok(resolve_recovery_data_dir(Some(own.as_slice()), None, None, None));
    }
    if let Some(desktop) = read_environment(session, "XDG_DATA_HOME")? {
        return Ok(resolve_recovery_data_dir(None, Some(desktop.as_slice()), None, None));
    }
    if let Some(windows) = read_environment(session, "APPDATA")? {
        return Ok(resolve_recovery_data_dir(None, None, Some(windows.as_slice()), None));
    }
    match read_environment(session, "HOME")? {
        Some(home) => Ok(resolve_recovery_data_dir(None, None, None, Some(home.as_slice()))),
        None => Ok(None),
    }
}

/// The key of a repository: the hexadecimal digits of the digest of its path.
pub open spec fn repository_key(root: Seq<u8>) -> Seq<char> {
    number::hex(digest::sha256(root))
}

/// The key of a repository.
pub fn recovery_repository_key(root: &[u8]) -> (result: String)
    ensures
        result@ == repository_key(root@),
        result@.len() == 64,
        files::all_hex(result@),
{
    let sum = digest::digest_of(root);
    proof {
        lemma_hex_key(sum@);
    }
    number::encode_hex(sum.as_slice())
}

/// Two hexadecimal digits stand for each byte.
proof fn lemma_hex_key(bytes: Seq<u8>)
    ensures
        number::hex(bytes).len() == 2 * bytes.len(),
        files::all_hex(number::hex(bytes)),
    decreases bytes.len(),
{
    if bytes.len() > 0 {
        lemma_hex_key(bytes.drop_last());
    }
}

/// The key that the path of a lock holds, where it holds one: 64 hexadecimal digits before `.lock`.
pub open spec fn key_in_path(path: Seq<u8>) -> Option<Seq<char>> {
    match bytes::file_name(path) {
        None => None,
        Some(name) => if !utf8::valid_utf8(name) {
            None
        } else {
            let shown = utf8::decode_utf8(name);
            let key = shown.take(shown.len() - ".lock"@.len());
            if text::has_suffix(shown, ".lock"@) && key.len() == 64 && files::all_hex(key) {
                Some(key)
            } else {
                None
            }
        },
    }
}

/// The key that the path of a lock holds.
pub fn recovery_lock_key_from_path(path: &[u8]) -> (result: Option<String>)
    ensures
        result.deep_view() == key_in_path(path@),
{
    let name = match bytes::file_name_of(path) {
        Some(name) => name,
        None => {
            return None;
        },
    };
    assert(name.deep_view() =~= name@);
    let shown = match bytes::utf8_text(name) {
        Ok(shown) => shown,
        Err(_) => {
            return None;
        },
    };
    let characters = text::chars_of(shown.as_str());
    match text::strip_text_suffix(characters.as_slice(), ".lock") {
        Some(key) => {
            if key.len() == 64 && files::is_all_hex(key) {
                Some(text::string_of(key))
            } else {
                None
            }
        },
        None => None,
    }
}

/// The lock that a recovery holds: two open files that are locked, their paths, the directory that
/// holds them and the repository that they are for.
#[derive(Debug, Clone, PartialEq, Eq)]
pub struct RecoveryLock {
    pub path: Vec<u8>,
    pub file: u64,
    pub guard_path: Vec<u8>,
    pub guard: u64,
    pub directory_path: Vec<u8>,
    pub directory: FileMetadata,
    pub repository_root: Vec<u8>,
}

/// The values of a [`RecoveryLock`].
#[verifier::ext_equal]
pub struct RecoveryLockView {
    pub path: Seq<u8>,
    pub file: u64,
    pub guard_path: Seq<u8>,
    pub guard: u64,
    pub directory_path: Seq<u8>,
    pub directory: FileMetadata,
    pub repository_root: Seq<u8>,
}

impl DeepView for RecoveryLock {
    type V = RecoveryLockView;

    open spec fn deep_view(&self) -> RecoveryLockView {
        RecoveryLockView {
            path: self.path.deep_view(),
            file: self.file,
            guard_path: self.guard_path.deep_view(),
            guard: self.guard,
            directory_path: self.directory_path.deep_view(),
            directory: self.directory,
            repository_root: self.repository_root.deep_view(),
        }
    }
}

/// Opens the directory of the locks.
pub open spec fn lock_directory_step(
    replies: Seq<ReplyView>,
    at: nat,
    path: Seq<u8>,
    operation: RepositoryOperation,
    action: RecoveryAction,
) -> GitStep<FileMetadata> {
    session::followed(
        session::asked(replies, at, ActionView::Open { path }),
        |reply: ReplyView, n: nat|
            match reply {
                ReplyView::Opened { handle: _, metadata } => if metadata.kind
                    == FileKind::Directory {
                    session::given(metadata, n)
                } else {
                    session::failed(identity_refusal(operation, action), n)
                },
                ReplyView::Failed(source) => session::failed(
                    lock_failure(operation, action, source),
                    n,
                ),
                _ => session::failed(identity_refusal(operation, action), n),
            },
    )
}

/// Opens the directory of the locks.
fn open_recovery_lock_directory(
    session: &mut Session,
    path: &[u8],
    operation: RepositoryOperation,
    action: RecoveryAction,
) -> (result: GitResult<FileMetadata>)
    ensures
        session::stepped(
            old(session),
            final(session),
            result,
            lock_directory_step(
                old(session).replies(),
                old(session).at(),
                path@,
                operation,
                action,
            ),
        ),
{
    match session.ask(Action::Open { path: bytes::copy_bytes(path) })? {
        Reply::Opened { handle: _, metadata } => {
            if metadata.kind == FileKind::Directory {
                Ok(*metadata)
            } else {
                Err(Halt::Failed(refuse_identity(operation, action)))
            }
        },
        Reply::Failed(source) => Err(Halt::Failed(recovery_lock_io(operation, action, source))),
        _ => Err(Halt::Failed(refuse_identity(operation, action))),
    }
}

/// Looks at a lock file.
pub open spec fn lock_metadata_step(
    replies: Seq<ReplyView>,
    at: nat,
    ask: ActionView,
    operation: RepositoryOperation,
    action: RecoveryAction,
) -> GitStep<FileMetadata> {
    session::followed(
        session::asked(replies, at, ask),
        |reply: ReplyView, n: nat|
            match reply {
                ReplyView::Metadata(metadata) => session::given(metadata, n),
                ReplyView::Failed(source) => session::failed(
                    lock_failure(operation, action, source),
                    n,
                ),
                _ => session::pending(ask, n),
            },
    )
}

/// Looks at an open lock file.
fn lock_handle_metadata(
    session: &mut Session,
    handle: u64,
    operation: RepositoryOperation,
    action: RecoveryAction,
) -> (result: GitResult<FileMetadata>)
    ensures
        session::stepped(
            old(session),
            final(session),
            result,
            lock_metadata_step(
                old(session).replies(),
                old(session).at(),
                ActionView::HandleMetadata { handle },
                operation,
                action,
            ),
        ),
{
    match session.ask(Action::HandleMetadata { handle })? {
        Reply::Metadata(metadata) => Ok(*metadata),
        Reply::Failed(source) => Err(Halt::Failed(recovery_lock_io(operation, action, source))),
        _ => Err(Halt::Pending(Action::HandleMetadata { handle })),
    }
}

/// Looks at the path of a lock file.
fn lock_path_metadata(
    session: &mut Session,
    path: &[u8],
    operation: RepositoryOperation,
    action: RecoveryAction,
) -> (result: GitResult<FileMetadata>)
    ensures
        session::stepped(
            old(session),
            final(session),
            result,
            lock_metadata_step(
                old(session).replies(),
                old(session).at(),
                ActionView::LinkMetadata { path: path@ },
                operation,
                action,
            ),
        ),
{
    match session.ask(Action::LinkMetadata { path: bytes::copy_bytes(path) })? {
        Reply::Metadata(metadata) => Ok(*metadata),
        Reply::Failed(source) => Err(Halt::Failed(recovery_lock_io(operation, action, source))),
        _ => Err(Halt::Pending(Action::LinkMetadata { path: bytes::copy_bytes(path) })),
    }
}

/// Whether an open file is a regular file with one name, and its path still leads to it.
pub open spec fn still_in_place(opened: FileMetadata, current: FileMetadata) -> bool {
    &&& opened.kind == FileKind::File
    &&& current.kind == FileKind::File
    &&& files::same_file_state(opened, current)
    &&& opened.links == 1
}

/// Whether a lock is still the one that was taken, for the repository that it was taken for.
pub open spec fn lock_intact(
    lock: RecoveryLockView,
    root: Seq<u8>,
    opened: FileMetadata,
    current: FileMetadata,
    opened_guard: FileMetadata,
    current_guard: FileMetadata,
    directory: FileMetadata,
) -> bool {
    &&& order::path_parts(root) == order::path_parts(lock.repository_root)
    &&& lock.directory.kind == FileKind::Directory
    &&& directory.kind == FileKind::Directory
    &&& files::same_file(lock.directory, directory)
    &&& still_in_place(opened, current)
    &&& still_in_place(opened_guard, current_guard)
    &&& key_in_path(lock.path) == Some(repository_key(root))
}

/// Refuses where a lock is no longer the one that was taken.
pub open spec fn identity_step(
    replies: Seq<ReplyView>,
    at: nat,
    lock: RecoveryLockView,
    root: Seq<u8>,
    operation: RepositoryOperation,
    action: RecoveryAction,
) -> GitStep<()> {
    let look = |n: nat, ask: ActionView| lock_metadata_step(replies, n, ask, operation, action);
    session::followed(
        look(at, ActionView::HandleMetadata { handle: lock.file }),
        |opened: FileMetadata, n: nat|
            session::followed(
                look(n, ActionView::LinkMetadata { path: lock.path }),
                |current: FileMetadata, n: nat|
                    session::followed(
                        look(n, ActionView::HandleMetadata { handle: lock.guard }),
                        |opened_guard: FileMetadata, n: nat|
                            session::followed(
                                look(n, ActionView::LinkMetadata { path: lock.guard_path }),
                                |current_guard: FileMetadata, n: nat|
                                    session::followed(
                                        lock_directory_step(
                                            replies,
                                            n,
                                            lock.directory_path,
                                            operation,
                                            action,
                                        ),
                                        |directory: FileMetadata, n: nat|
                                            if lock_intact(
                                                lock,
                                                root,
                                                opened,
                                                current,
                                                opened_guard,
                                                current_guard,
                                                directory,
                                            ) {
                                                session::given((), n)
                                            } else {
                                                session::failed(
                                                    identity_refusal(operation, action),
                                                    n,
                                                )
                                            },
                                    ),
                            ),
                    ),
            ),
    )
}

/// Whether an open file is a regular file with one name, and its path still leads to it.
fn is_in_place(opened: &FileMetadata, current: &FileMetadata) -> (result: bool)
    ensures
        result == still_in_place(*opened, *current),
{
    opened.kind == FileKind::File && current.kind == FileKind::File && files::same_recovery_file(
        opened,
        current,
    ) && opened.links == 1
}

impl RecoveryLock {
    /// Refuses where the lock is no longer the one that was taken.
    pub(crate) fn ensure_identity(
        &self,
        session: &mut Session,
        root: &[u8],
        operation: RepositoryOperation,
        action: RecoveryAction,
    ) -> (result: GitResult<()>)
        ensures
            session::stepped(
                old(session),
                final(session),
                result,
                identity_step(
                    old(session).replies(),
                    old(session).at(),
                    self.deep_view(),
                    root@,
                    operation,
                    action,
                ),
            ),
    {
        let opened = lock_handle_metadata(session, self.file, operation, action)?;
        let current = lock_path_metadata(session, self.path.as_slice(), operation, action)?;
        let opened_guard = lock_handle_metadata(session, self.guard, operation, action)?;
        let current_guard = lock_path_metadata(
            session,
            self.guard_path.as_slice(),
            operation,
            action,
        )?;
        let directory = open_recovery_lock_directory(
            session,
            self.directory_path.as_slice(),
            operation,
            action,
        )?;
        let expected = recovery_repository_key(root);
        let key_matches = match recovery_lock_key_from_path(self.path.as_slice()) {
            Some(key) => text::same_text(key.as_str(), expected.as_str()),
            None => false,
        };
        if order::same_path(root, self.repository_root.as_slice()) && self.directory.kind
            == FileKind::Directory && directory.kind == FileKind::Directory
            && files::same_path_identity(&self.directory, &directory) && is_in_place(
            &opened,
            &current,
        ) && is_in_place(&opened_guard, &current_guard) && key_matches {
            Ok(())
        } else {
            Err(Halt::Failed(refuse_identity(operation, action)))
        }
    }
}

/// The top directory of the repository, resolved.
pub open spec fn canonical_root_step(replies: Seq<ReplyView>, at: nat) -> GitStep<Seq<u8>> {
    session::followed(
        bounded::repo_root_until_step(replies, at),
        |root: Seq<u8>, n: nat|
            session::followed(
                session::asked(replies, n, ActionView::Canonicalize { path: root }),
                |reply: ReplyView, n: nat|
                    match reply {
                        ReplyView::Bytes(path) => session::given(path, n),
                        ReplyView::Failed(source) => session::failed(
                            GitErrorView::Io {
                                args: seq!["canonicalize recovery repository identity"@],
                                source,
                            },
                            n,
                        ),
                        _ => session::pending(ActionView::Canonicalize { path: root }, n),
                    },
            ),
    )
}

/// The top directory of the repository, resolved.
pub(crate) fn canonical_repository_root_until(session: &mut Session) -> (result: GitResult<Vec<u8>>)
    ensures
        session::stepped(
            old(session),
            final(session),
            result,
            canonical_root_step(old(session).replies(), old(session).at()),
        ),
{
    let root = bounded::repo_root_until(session)?;
    match session.ask(Action::Canonicalize { path: bytes::copy_bytes(root.as_slice()) })? {
        Reply::Bytes(path) => Ok(bytes::copy_bytes(path.as_slice())),
        Reply::Failed(source) => Err(
            Halt::Failed(
                GitError::Io {
                    args: words::words1("canonicalize recovery repository identity"),
                    source: source.copied(),
                },
            ),
        ),
        _ => Err(Halt::Pending(Action::Canonicalize { path: root })),
    }
}

/// The directory of the locks, created where it is missing.
pub open spec fn lock_home_step(
    replies: Seq<ReplyView>,
    at: nat,
    operation: RepositoryOperation,
    action: RecoveryAction,
) -> GitStep<Seq<u8>> {
    session::followed(
        data_directory_step(replies, at),
        |data: Option<Seq<u8>>, n: nat|
            if data is None {
                session::failed(
                    commands::refusal(
                        "recovery is blocked because BitByGit's application data directory is unavailable"@,
                    ),
                    n,
                )
            } else {
                resolved_home_step(
                    replies,
                    n,
                    bytes::joined_path(data->Some_0, utf8::encode_utf8(RECOVERY_LOCK_DIRECTORY@)),
                    operation,
                    action,
                )
            },
    )
}

/// A directory for locks, created where it is missing and resolved.
pub open spec fn resolved_home_step(
    replies: Seq<ReplyView>,
    at: nat,
    directory: Seq<u8>,
    operation: RepositoryOperation,
    action: RecoveryAction,
) -> GitStep<Seq<u8>> {
    session::followed(
        session::asked(replies, at, ActionView::CreateDirectories { path: directory }),
        |created: ReplyView, n: nat|
            match created {
                ReplyView::Failed(source) => session::failed(
                    lock_failure(operation, action, source),
                    n,
                ),
                _ => session::followed(
                    session::asked(replies, n, ActionView::Canonicalize { path: directory }),
                    |resolved: ReplyView, n: nat|
                        match resolved {
                            ReplyView::Bytes(path) => session::followed(
                                session::asked(replies, n, ActionView::IsDirectory { path }),
                                |is_directory: ReplyView, n: nat|
                                    if is_directory == ReplyView::Flag(true) {
                                        session::given(path, n)
                                    } else {
                                        session::failed(
                                            commands::refusal(
                                                "recovery is blocked because BitByGit's recovery lock path is not a directory"@,
                                            ),
                                            n,
                                        )
                                    },
                            ),
                            ReplyView::Failed(source) => session::failed(
                                lock_failure(operation, action, source),
                                n,
                            ),
                            _ => session::pending(
                                ActionView::Canonicalize { path: directory },
                                n,
                            ),
                        },
                ),
            },
    )
}

/// A directory for locks, created where it is missing and resolved.
fn resolve_home(
    session: &mut Session,
    directory: &[u8],
    operation: RepositoryOperation,
    action: RecoveryAction,
) -> (result: GitResult<Vec<u8>>)
    ensures
        session::stepped(
            old(session),
            final(session),
            result,
            resolved_home_step(
                old(session).replies(),
                old(session).at(),
                directory@,
                operation,
                action,
            ),
        ),
{
    match session.ask(Action::CreateDirectories { path: bytes::copy_bytes(directory) })? {
        Reply::Failed(source) => {
            return Err(Halt::Failed(recovery_lock_io(operation, action, source)));
        },
        _ => {},
    }
    match session.ask(Action::Canonicalize { path: bytes::copy_bytes(directory) })? {
        Reply::Bytes(path) => {
            match session.ask(Action::IsDirectory { path: bytes::copy_bytes(path.as_slice()) })? {
                Reply::Flag(true) => Ok(bytes::copy_bytes(path.as_slice())),
                _ => Err(
                    Halt::Failed(
                        commands::blocked(
                            "recovery is blocked because BitByGit's recovery lock path is not a directory",
                        ),
                    ),
                ),
            }
        },
        Reply::Failed(source) => Err(Halt::Failed(recovery_lock_io(operation, action, source))),
        _ => Err(Halt::Pending(Action::Canonicalize { path: bytes::copy_bytes(directory) })),
    }
}

/// The directory of the locks, created where it is missing.
fn find_lock_home(
    session: &mut Session,
    operation: RepositoryOperation,
    action: RecoveryAction,
) -> (result: GitResult<Vec<u8>>)
    ensures
        session::stepped(
            old(session),
            final(session),
            result,
            lock_home_step(old(session).replies(), old(session).at(), operation, action),
        ),
{
    let data = match find_data_directory(session)? {
        Some(data) => data,
        None => {
            return Err(
                Halt::Failed(
                    commands::blocked(
                        "recovery is blocked because BitByGit's application data directory is unavailable",
                    ),
                ),
            );
        },
    };
    let directory = bytes::join_name(data.as_slice(), RECOVERY_LOCK_DIRECTORY);
    resolve_home(session, directory.as_slice(), operation, action)
}

/// Opens a lock file and locks it.
pub open spec fn locked_file_step(
    replies: Seq<ReplyView>,
    at: nat,
    path: Seq<u8>,
    operation: RepositoryOperation,
    action: RecoveryAction,
) -> GitStep<u64> {
    session::followed(
        session::asked(replies, at, ActionView::OpenLock { path }),
        |opened: ReplyView, n: nat|
            match opened {
                ReplyView::Number(handle) => session::followed(
                    session::asked(replies, n, ActionView::Lock { handle }),
                    |locked: ReplyView, n: nat|
                        match locked {
                            ReplyView::Refused { source, contended } => session::failed(
                                lock_refusal(operation, action, source, contended),
                                n,
                            ),
                            _ => session::given(handle, n),
                        },
                ),
                ReplyView::Failed(source) => session::failed(
                    lock_failure(operation, action, source),
                    n,
                ),
                _ => session::pending(ActionView::OpenLock { path }, n),
            },
    )
}

/// Opens a lock file and locks it.
fn open_locked_file(
    session: &mut Session,
    path: &[u8],
    operation: RepositoryOperation,
    action: RecoveryAction,
) -> (result: GitResult<u64>)
    ensures
        session::stepped(
            old(session),
            final(session),
            result,
            locked_file_step(
                old(session).replies(),
                old(session).at(),
                path@,
                operation,
                action,
            ),
        ),
{
    match session.ask(Action::OpenLock { path: bytes::copy_bytes(path) })? {
        Reply::Number(handle) => {
            match session.ask(Action::Lock { handle: *handle })? {
                Reply::Refused { source, contended } => Err(
                    Halt::Failed(recovery_lock_error(operation, action, source, *contended)),
                ),
                _ => Ok(*handle),
            }
        },
        Reply::Failed(source) => Err(Halt::Failed(recovery_lock_io(operation, action, source))),
        _ => Err(Halt::Pending(Action::OpenLock { path: bytes::copy_bytes(path) })),
    }
}

/// Takes the lock of the repository: first the guard, then the lock itself.
pub open spec fn acquire_step(
    replies: Seq<ReplyView>,
    at: nat,
    operation: RepositoryOperation,
    action: RecoveryAction,
) -> GitStep<RecoveryLockView> {
    session::followed(
        canonical_root_step(replies, at),
        |root: Seq<u8>, n: nat|
            session::followed(
                lock_home_step(replies, n, operation, action),
                |home: Seq<u8>, n: nat| take_step(replies, n, root, home, operation, action),
            ),
    )
}

/// The path of a file of a repository's lock.
pub open spec fn lock_file(home: Seq<u8>, root: Seq<u8>, extension: Seq<char>) -> Seq<u8> {
    bytes::joined_path(home, utf8::encode_utf8(repository_key(root) + extension))
}

/// Takes the lock of a repository in a directory.
pub open spec fn take_step(
    replies: Seq<ReplyView>,
    at: nat,
    root: Seq<u8>,
    home: Seq<u8>,
    operation: RepositoryOperation,
    action: RecoveryAction,
) -> GitStep<RecoveryLockView> {
    let path = lock_file(home, root, ".lock"@);
    let guard_path = lock_file(home, root, ".guard"@);
    match bytes::parent(path) {
        None => session::failed(
            commands::refusal(
                "recovery is blocked because the BitByGit recovery lock directory is unavailable"@,
            ),
            at,
        ),
        Some(directory_path) => session::followed(
            lock_directory_step(replies, at, directory_path, operation, action),
            |directory: FileMetadata, n: nat|
                session::followed(
                    locked_file_step(replies, n, guard_path, operation, action),
                    |guard: u64, n: nat|
                        session::followed(
                            locked_file_step(replies, n, path, operation, action),
                            |file: u64, n: nat|
                                {
                                    let lock = RecoveryLockView {
                                        path,
                                        file,
                                        guard_path,
                                        guard,
                                        directory_path,
                                        directory,
                                        repository_root: root,
                                    };
                                    session::followed(
                                        identity_step(replies, n, lock, root, operation, action),
                                        |_intact: (), n: nat| session::given(lock, n),
                                    )
                                },
                        ),
                ),
        ),
    }
}

/// Takes the lock of a repository in a directory.
fn take_lock(
    session: &mut Session,
    root: Vec<u8>,
    home: &[u8],
    operation: RepositoryOperation,
    action: RecoveryAction,
) -> (result: GitResult<RecoveryLock>)
    ensures
        session::stepped(
            old(session),
            final(session),
            result,
            take_step(
                old(session).replies(),
                old(session).at(),
                root@,
                home@,
                operation,
                action,
            ),
        ),
{
    let key = recovery_repository_key(root.as_slice());
    let lock_name = text::concat2(key.as_str(), ".lock");
    let guard_name = text::concat2(key.as_str(), ".guard");
    let path = bytes::join_name(home, lock_name.as_str());
    let guard_path = bytes::join_name(home, guard_name.as_str());
    let directory_path = match bytes::parent_path(path.as_slice()) {
        Some(parent) => {
            assert(parent.deep_view() =~= parent@);
            bytes::copy_bytes(parent)
        },
        None => {
            return Err(
                Halt::Failed(
                    commands::blocked(
                        "recovery is blocked because the BitByGit recovery lock directory is unavailable",
                    ),
                ),
            );
        },
    };
    let directory = open_recovery_lock_directory(
        session,
        directory_path.as_slice(),
        operation,
        action,
    )?;
    let guard: u64 = open_locked_file(session, guard_path.as_slice(), operation, action)?;
    let file: u64 = open_locked_file(session, path.as_slice(), operation, action)?;
    let expected_root = bytes::copy_bytes(root.as_slice());
    let lock = RecoveryLock {
        path,
        file,
        guard_path,
        guard,
        directory_path,
        directory,
        repository_root: root,
    };
    lock.ensure_identity(session, expected_root.as_slice(), operation, action)?;
    Ok(lock)
}

/// Takes the lock of the repository.
pub(crate) fn acquire_recovery_lock_until(
    session: &mut Session,
    operation: RepositoryOperation,
    action: RecoveryAction,
) -> (result: GitResult<RecoveryLock>)
    ensures
        session::stepped(
            old(session),
            final(session),
            result,
            acquire_step(old(session).replies(), old(session).at(), operation, action),
        ),
{
    let root = canonical_repository_root_until(session)?;
    let home = find_lock_home(session, operation, action)?;
    take_lock(session, root, home.as_slice(), operation, action)
}

}
