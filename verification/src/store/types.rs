//! The data that is kept, and the errors of keeping it.
use crate::bytes;
use crate::git::types::{IoFailure, IoFailureView};
use crate::number;
use crate::session::{Halt, Step};
use crate::text;
use vstd::prelude::*;
use vstd::utf8;

verus! {

broadcast use crate::bytes::bytes_are_their_view;

/// The result of an operation on the store, or why there is none yet.
pub type StoreResult<T> = Result<T, Halt<StoreError>>;

/// A part of an operation on the store.
pub type StoreStep<T> = Step<T, StoreErrorView>;

/// The paths of what is kept.
#[derive(Debug, Clone, PartialEq, Eq)]
pub struct StorePaths {
    pub config_dir: Vec<u8>,
    pub data_dir: Vec<u8>,
    pub registry_file: Vec<u8>,
    pub state_file: Vec<u8>,
    pub audit_file: Vec<u8>,
}

/// The values of a [`StorePaths`].
#[verifier::ext_equal]
pub struct StorePathsView {
    pub config_dir: Seq<u8>,
    pub data_dir: Seq<u8>,
    pub registry_file: Seq<u8>,
    pub state_file: Seq<u8>,
    pub audit_file: Seq<u8>,
}

impl DeepView for StorePaths {
    type V = StorePathsView;

    open spec fn deep_view(&self) -> StorePathsView {
        StorePathsView {
            config_dir: self.config_dir@,
            data_dir: self.data_dir@,
            registry_file: self.registry_file@,
            state_file: self.state_file@,
            audit_file: self.audit_file@,
        }
    }
}

/// The paths of what is kept below two directories.
pub open spec fn paths_below(config_dir: Seq<u8>, data_dir: Seq<u8>) -> StorePathsView {
    StorePathsView {
        config_dir,
        data_dir,
        registry_file: bytes::joined_path(data_dir, utf8::encode_utf8("registry.tsv"@)),
        state_file: bytes::joined_path(data_dir, utf8::encode_utf8("state.tsv"@)),
        audit_file: bytes::joined_path(data_dir, utf8::encode_utf8("audit.tsv"@)),
    }
}

impl StorePaths {
    /// The paths of what is kept below two directories.
    pub fn from_roots(config_dir: Vec<u8>, data_dir: Vec<u8>) -> (result: StorePaths)
        ensures
            result.deep_view() == paths_below(config_dir@, data_dir@),
    {
        StorePaths {
            config_dir,
            registry_file: bytes::join_name(data_dir.as_slice(), "registry.tsv"),
            state_file: bytes::join_name(data_dir.as_slice(), "state.tsv"),
            audit_file: bytes::join_name(data_dir.as_slice(), "audit.tsv"),
            data_dir,
        }
    }
}

/// Whether a character may stand in the name of a repository.
pub open spec fn is_id_character(character: char) -> bool {
    ||| 'a' <= character <= 'z'
    ||| 'A' <= character <= 'Z'
    ||| '0' <= character <= '9'
    ||| character == '-'
    ||| character == '_'
}

/// Whether a text can be the name of a repository.
pub open spec fn is_repo_id(value: Seq<char>) -> bool {
    value.len() > 0 && forall|i: int| 0 <= i < value.len() ==> is_id_character(#[trigger] value[i])
}

/// The name of a repository in the store: letters, digits, `-` and `_`.
#[derive(Debug, PartialEq, Eq, PartialOrd, Ord, Hash)]
pub struct RepoId(String);

impl View for RepoId {
    type V = Seq<char>;

    closed spec fn view(&self) -> Seq<char> {
        self.0@
    }
}

impl DeepView for RepoId {
    type V = Seq<char>;

    open spec fn deep_view(&self) -> Seq<char> {
        self@
    }
}

impl Clone for RepoId {
    fn clone(&self) -> (result: RepoId)
        ensures
            result@ == self@,
    {
        proof {
            use_type_invariant(self);
        }
        RepoId(self.0.as_str().to_owned())
    }
}

/// The answer to a text that cannot be the name of a repository.
pub open spec fn id_refusal() -> Seq<char> {
    "repository id contains invalid characters"@
}

/// The 64-bit FNV-1a hash of some bytes.
pub open spec fn fnv1a_hash(bytes: Seq<u8>) -> u64
    decreases bytes.len(),
{
    if bytes.len() == 0 {
        0xcbf29ce484222325u64
    } else {
        (fnv1a_hash(bytes.drop_last()) ^ (bytes.last() as u64)).wrapping_mul(0x100000001b3u64)
    }
}

/// The 64-bit FNV-1a hash of some bytes.
pub fn fnv1a(bytes: &[u8]) -> (result: u64)
    ensures
        result == fnv1a_hash(bytes@),
{
    let mut hash: u64 = 0xcbf29ce484222325;
    let mut index: usize = 0;
    while index < bytes.len()
        invariant
            index <= bytes@.len(),
            hash == fnv1a_hash(bytes@.take(index as int)),
        decreases bytes@.len() - index,
    {
        assert(bytes@.take(index + 1).drop_last() =~= bytes@.take(index as int));
        hash = (hash ^ (bytes[index] as u64)).wrapping_mul(0x100000001b3);
        index += 1;
    }
    assert(bytes@.take(index as int) =~= bytes@);
    hash
}

/// The name of the repository at a path.
pub open spec fn id_of_path(path: Seq<u8>) -> Seq<char> {
    "repo-"@ + number::hex_number(fnv1a_hash(path))
}

/// The name of a repository at a path is acceptable.
pub proof fn id_of_path_is_acceptable(path: Seq<u8>)
    ensures
        is_repo_id(id_of_path(path)),
{
    reveal_strlit("repo-");
    let digits = number::hex_number(fnv1a_hash(path));
    assert forall|i: int| 0 <= i < id_of_path(path).len() implies is_id_character(
        #[trigger] id_of_path(path)[i],
    ) by {
        if i < 5 {
            assert(id_of_path(path)[i] == "repo-"@[i]);
        } else {
            assert(id_of_path(path)[i] == digits[i - 5]);
        }
    }
}

impl RepoId {
    #[verifier::type_invariant]
    spec fn acceptable(&self) -> bool {
        is_repo_id(self.0@)
    }

    /// The name of a repository from a text, where it is acceptable.
    pub fn parse(value: &str) -> (result: Result<RepoId, StoreError>)
        ensures
            result is Ok == is_repo_id(value@),
            result matches Ok(id) ==> id@ == value@,
            result matches Err(error) ==> error.deep_view() == (StoreErrorView::Parse {
                path: None,
                message: id_refusal(),
            }),
    {
        let characters = text::chars_of(value);
        let mut index: usize = 0;
        let mut good = characters.len() > 0;
        while index < characters.len() && good
            invariant
                index <= characters@.len(),
                characters@ == value@,
                good ==> characters@.len() > 0,
                good ==> forall|i: int| 0 <= i < index ==> is_id_character(#[trigger] value@[i]),
                !good ==> !is_repo_id(value@),
            decreases characters@.len() - index,
        {
            let character = characters[index];
            good = ('a' <= character && character <= 'z') || ('A' <= character && character <= 'Z')
                || ('0' <= character && character <= '9') || character == '-' || character == '_';
            assert(!good ==> !is_id_character(value@[index as int]));
            index += 1;
        }
        if good {
            Ok(RepoId(value.to_owned()))
        } else {
            Err(
                StoreError::Parse {
                    path: None,
                    message: "repository id contains invalid characters".to_owned(),
                },
            )
        }
    }

    /// The name as a text.
    pub fn as_str(&self) -> (result: &str)
        ensures
            result@ == self@,
            is_repo_id(result@),
    {
        proof {
            use_type_invariant(self);
        }
        self.0.as_str()
    }

    /// The name of the repository at a path.
    pub fn from_path(path: &[u8]) -> (result: RepoId)
        ensures
            result@ == id_of_path(path@),
    {
        let digits = number::hex_number_of(fnv1a(path));
        proof {
            id_of_path_is_acceptable(path@);
        }
        RepoId(text::concat2("repo-", digits.as_str()))
    }

    /// Whether two names are the same.
    pub fn same(&self, other: &RepoId) -> (result: bool)
        ensures
            result == (self@ == other@),
    {
        text::same_text(self.0.as_str(), other.0.as_str())
    }
}

/// A repository that is registered.
#[derive(Debug, Clone, PartialEq, Eq)]
pub struct RepositoryRecord {
    pub id: RepoId,
    pub path: Vec<u8>,
    /// When it was registered, in seconds since the Unix epoch.
    pub added_at: u64,
    /// When it was last registered or seen, in seconds since the Unix epoch.
    pub last_seen_at: u64,
}

/// The values of a [`RepositoryRecord`].
#[verifier::ext_equal]
pub struct RepositoryRecordView {
    pub id: Seq<char>,
    pub path: Seq<u8>,
    pub added_at: u64,
    pub last_seen_at: u64,
}

impl DeepView for RepositoryRecord {
    type V = RepositoryRecordView;

    open spec fn deep_view(&self) -> RepositoryRecordView {
        RepositoryRecordView {
            id: self.id@,
            path: self.path@,
            added_at: self.added_at,
            last_seen_at: self.last_seen_at,
        }
    }
}

impl RepositoryRecord {
    /// A copy of a record.
    pub fn copied(&self) -> (result: RepositoryRecord)
        ensures
            result.deep_view() == self.deep_view(),
    {
        RepositoryRecord {
            id: self.id.clone(),
            path: bytes::copy_bytes(self.path.as_slice()),
            added_at: self.added_at,
            last_seen_at: self.last_seen_at,
        }
    }
}

/// Whether a registered repository can be used.
#[derive(Debug, Clone, PartialEq, Eq)]
pub enum RepositoryHealth {
    Valid,
    Invalid { message: String },
}

/// The values of a [`RepositoryHealth`].
#[verifier::ext_equal]
pub enum RepositoryHealthView {
    Valid,
    Invalid { message: Seq<char> },
}

impl DeepView for RepositoryHealth {
    type V = RepositoryHealthView;

    open spec fn deep_view(&self) -> RepositoryHealthView {
        match self {
            RepositoryHealth::Valid => RepositoryHealthView::Valid,
            RepositoryHealth::Invalid { message } => RepositoryHealthView::Invalid {
                message: message@,
            },
        }
    }
}

/// A registered repository with its health.
#[derive(Debug, Clone, PartialEq, Eq)]
pub struct RepositoryStatus {
    pub record: RepositoryRecord,
    pub status: RepositoryHealth,
}

/// The values of a [`RepositoryStatus`].
#[verifier::ext_equal]
pub struct RepositoryStatusView {
    pub record: RepositoryRecordView,
    pub status: RepositoryHealthView,
}

impl DeepView for RepositoryStatus {
    type V = RepositoryStatusView;

    open spec fn deep_view(&self) -> RepositoryStatusView {
        RepositoryStatusView {
            record: self.record.deep_view(),
            status: self.status.deep_view(),
        }
    }
}

/// The active repository and the recent ones, the last used first.
#[derive(Debug, Clone, PartialEq, Eq)]
pub struct AppState {
    pub active_repo: Option<RepoId>,
    pub recent_repos: Vec<RepoId>,
}

/// The values of an [`AppState`].
#[verifier::ext_equal]
pub struct AppStateView {
    pub active_repo: Option<Seq<char>>,
    pub recent_repos: Seq<Seq<char>>,
}

impl DeepView for AppState {
    type V = AppStateView;

    open spec fn deep_view(&self) -> AppStateView {
        AppStateView {
            active_repo: self.active_repo.deep_view(),
            recent_repos: self.recent_repos.deep_view(),
        }
    }
}

/// No repository is active or recent.
pub open spec fn empty_state() -> AppStateView {
    AppStateView { active_repo: None, recent_repos: Seq::empty() }
}

impl Default for AppState {
    fn default() -> (result: AppState)
        ensures
            result.deep_view() == empty_state(),
    {
        let result = AppState { active_repo: None, recent_repos: Vec::new() };
        assert(result.deep_view() =~= empty_state());
        result
    }
}

/// Something that was done.
#[derive(Debug, Clone, PartialEq, Eq)]
pub struct AuditEntry {
    /// When it was done, in seconds since the Unix epoch.
    pub timestamp: u64,
    pub repo_id: Option<RepoId>,
    pub operation: String,
    pub result: String,
    pub message: String,
}

/// The values of an [`AuditEntry`].
#[verifier::ext_equal]
pub struct AuditEntryView {
    pub timestamp: u64,
    pub repo_id: Option<Seq<char>>,
    pub operation: Seq<char>,
    pub result: Seq<char>,
    pub message: Seq<char>,
}

impl DeepView for AuditEntry {
    type V = AuditEntryView;

    open spec fn deep_view(&self) -> AuditEntryView {
        AuditEntryView {
            timestamp: self.timestamp,
            repo_id: self.repo_id.deep_view(),
            operation: self.operation@,
            result: self.result@,
            message: self.message@,
        }
    }
}

/// Why an operation on the store failed.
#[derive(Debug)]
pub enum StoreError {
    HomeDirectoryUnavailable,
    ClockBeforeUnixEpoch,
    /// The file system refused.
    Io { path: Vec<u8>, source: IoFailure },
    /// What is kept has an unknown form.
    Parse { path: Option<Vec<u8>>, message: String },
    /// A path is not in a repository.
    InvalidRepository { path: Vec<u8>, message: String },
    UnknownRepository { id: RepoId },
}

/// The values of a [`StoreError`].
#[verifier::ext_equal]
pub enum StoreErrorView {
    HomeDirectoryUnavailable,
    ClockBeforeUnixEpoch,
    Io { path: Seq<u8>, source: IoFailureView },
    Parse { path: Option<Seq<u8>>, message: Seq<char> },
    InvalidRepository { path: Seq<u8>, message: Seq<char> },
    UnknownRepository { id: Seq<char> },
}

impl DeepView for StoreError {
    type V = StoreErrorView;

    open spec fn deep_view(&self) -> StoreErrorView {
        match self {
            StoreError::HomeDirectoryUnavailable => StoreErrorView::HomeDirectoryUnavailable,
            StoreError::ClockBeforeUnixEpoch => StoreErrorView::ClockBeforeUnixEpoch,
            StoreError::Io { path, source } => StoreErrorView::Io {
                path: path@,
                source: source.deep_view(),
            },
            StoreError::Parse { path, message } => StoreErrorView::Parse {
                path: path.deep_view(),
                message: message@,
            },
            StoreError::InvalidRepository { path, message } => StoreErrorView::InvalidRepository {
                path: path@,
                message: message@,
            },
            StoreError::UnknownRepository { id } => StoreErrorView::UnknownRepository {
                id: id@,
            },
        }
    }
}

/// What is said of an operation on the store that failed.
pub open spec fn store_message(error: StoreErrorView) -> Seq<char> {
    match error {
        StoreErrorView::HomeDirectoryUnavailable => "home directory is unavailable"@,
        StoreErrorView::ClockBeforeUnixEpoch => "system clock is before Unix epoch"@,
        StoreErrorView::Io { path, source } => "failed to access "@ + bytes::lossy_text(path)
            + ": "@ + source.message,
        StoreErrorView::Parse { path: Some(path), message } => "failed to parse "@
            + bytes::lossy_text(path) + ": "@ + message,
        StoreErrorView::Parse { path: None, message } => "failed to parse store data: "@ + message,
        StoreErrorView::InvalidRepository { path, message } => bytes::lossy_text(path)
            + " is not a usable Git repository: "@ + message,
        StoreErrorView::UnknownRepository { id } => "unknown repository id "@ + id,
    }
}

impl StoreError {
    /// What is said of this error.
    pub fn message(&self) -> (result: String)
        ensures
            result@ == store_message(self.deep_view()),
    {
        match self {
            StoreError::HomeDirectoryUnavailable => "home directory is unavailable".to_owned(),
            StoreError::ClockBeforeUnixEpoch => "system clock is before Unix epoch".to_owned(),
            StoreError::Io { path, source } => {
                let shown = bytes::lossy(path.as_slice());
                text::concat4("failed to access ", shown.as_str(), ": ", source.message.as_str())
            },
            StoreError::Parse { path: Some(path), message } => {
                let shown = bytes::lossy(path.as_slice());
                text::concat4("failed to parse ", shown.as_str(), ": ", message.as_str())
            },
            StoreError::Parse { path: None, message } => text::concat2(
                "failed to parse store data: ",
                message.as_str(),
            ),
            StoreError::InvalidRepository { path, message } => {
                let shown = bytes::lossy(path.as_slice());
                text::concat3(
                    shown.as_str(),
                    " is not a usable Git repository: ",
                    message.as_str(),
                )
            },
            StoreError::UnknownRepository { id } => text::concat2(
                "unknown repository id ",
                id.as_str(),
            ),
        }
    }
}

/// The files that are kept.
#[derive(Debug, Clone)]
pub struct LocalStore {
    pub paths: StorePaths,
}

}
