//! What the Git commands and the files of a repository say, as plain values.
//!
//! Paths are sequences of bytes, with `/` between their parts. Each type that holds text or lists
//! has a mathematical view, over which the contracts of this library are stated.
use vstd::prelude::*;

verus! {

/// How a command ended: the code it exited with, where it was not stopped by a signal, and that in
/// words.
#[derive(Debug, Clone, PartialEq, Eq)]
pub struct ExitStatus {
    pub code: Option<i32>,
    pub description: String,
}

/// The values of a [`ExitStatus`].
#[verifier::ext_equal]
pub struct ExitStatusView {
    pub code: Option<i32>,
    pub description: Seq<char>,
}

impl DeepView for ExitStatus {
    type V = ExitStatusView;

    open spec fn deep_view(&self) -> ExitStatusView {
        ExitStatusView {
            code: self.code.deep_view(),
            description: self.description.deep_view(),
        }
    }
}

/// What the operating system said of a request that it refused.
#[derive(Debug, Clone, PartialEq, Eq)]
pub struct IoFailure {
    /// Whether the thing asked for does not exist.
    pub not_found: bool,
    /// The number of the error, where the system gave one.
    pub code: Option<i32>,
    /// The error in words.
    pub message: String,
}

/// The values of a [`IoFailure`].
#[verifier::ext_equal]
pub struct IoFailureView {
    pub not_found: bool,
    pub code: Option<i32>,
    pub message: Seq<char>,
}

impl DeepView for IoFailure {
    type V = IoFailureView;

    open spec fn deep_view(&self) -> IoFailureView {
        IoFailureView {
            not_found: self.not_found,
            code: self.code.deep_view(),
            message: self.message.deep_view(),
        }
    }
}

/// One of the two streams that a command writes to.
#[derive(Debug, Clone, Copy, PartialEq, Eq, Structural)]
pub enum OutputStream {
    Stdout,
    Stderr,
}

impl DeepView for OutputStream {
    type V = OutputStream;

    open spec fn deep_view(&self) -> OutputStream {
        *self
    }
}

/// Why an operation on a repository was refused or failed.
#[derive(Debug, Clone, PartialEq, Eq)]
pub enum GitError {
    /// The command, or the request that `args` names, could not be carried out.
    Io { args: Vec<String>, source: IoFailure },
    /// A command wrote something that is not UTF-8; `detail` says where.
    Utf8 { args: Vec<String>, stream: OutputStream, detail: String },
    /// A command ended without success.
    GitFailed { args: Vec<String>, status: ExitStatus, stdout: String, stderr: String },
    /// The time allowed for an operation ran out.
    TimedOut { args: Vec<String> },
    /// A guard refused the operation.
    Blocked { message: String },
    /// The output of a command has an unknown form.
    Parse { message: String },
}

/// The values of a [`GitError`].
#[verifier::ext_equal]
pub enum GitErrorView {
    Io { args: Seq<Seq<char>>, source: IoFailureView },
    Utf8 { args: Seq<Seq<char>>, stream: OutputStream, detail: Seq<char> },
    GitFailed { args: Seq<Seq<char>>, status: ExitStatusView, stdout: Seq<char>, stderr: Seq<char> },
    TimedOut { args: Seq<Seq<char>> },
    Blocked { message: Seq<char> },
    Parse { message: Seq<char> },
}

impl DeepView for GitError {
    type V = GitErrorView;

    open spec fn deep_view(&self) -> GitErrorView {
        match self {
            GitError::Io { args, source } => GitErrorView::Io {
                args: args.deep_view(),
                source: source.deep_view(),
            },
            GitError::Utf8 { args, stream, detail } => GitErrorView::Utf8 {
                args: args.deep_view(),
                stream: *stream,
                detail: detail.deep_view(),
            },
            GitError::GitFailed { args, status, stdout, stderr } => GitErrorView::GitFailed {
                args: args.deep_view(),
                status: status.deep_view(),
                stdout: stdout.deep_view(),
                stderr: stderr.deep_view(),
            },
            GitError::TimedOut { args } => GitErrorView::TimedOut {
                args: args.deep_view(),
            },
            GitError::Blocked { message } => GitErrorView::Blocked {
                message: message.deep_view(),
            },
            GitError::Parse { message } => GitErrorView::Parse {
                message: message.deep_view(),
            },
        }
    }
}

/// What a successful command wrote.
#[derive(Debug, Clone, PartialEq, Eq)]
pub struct GitOutput {
    pub status: ExitStatus,
    pub stdout: String,
    pub stderr: String,
}

/// The values of a [`GitOutput`].
#[verifier::ext_equal]
pub struct GitOutputView {
    pub status: ExitStatusView,
    pub stdout: Seq<char>,
    pub stderr: Seq<char>,
}

impl DeepView for GitOutput {
    type V = GitOutputView;

    open spec fn deep_view(&self) -> GitOutputView {
        GitOutputView {
            status: self.status.deep_view(),
            stdout: self.stdout.deep_view(),
            stderr: self.stderr.deep_view(),
        }
    }
}

/// The commit that `HEAD` stands at and the branch that it names, where there is one.
#[derive(Debug, Clone, PartialEq, Eq)]
pub struct HeadTarget {
    pub oid: Option<String>,
    pub reference: Option<String>,
}

/// The values of a [`HeadTarget`].
#[verifier::ext_equal]
pub struct HeadTargetView {
    pub oid: Option<Seq<char>>,
    pub reference: Option<Seq<char>>,
}

impl DeepView for HeadTarget {
    type V = HeadTargetView;

    open spec fn deep_view(&self) -> HeadTargetView {
        HeadTargetView {
            oid: self.oid.deep_view(),
            reference: self.reference.deep_view(),
        }
    }
}

/// Where a branch lives.
#[derive(Debug, Clone, Copy, PartialEq, Eq, Structural)]
pub enum BranchKind {
    Local,
    Remote,
}

impl DeepView for BranchKind {
    type V = BranchKind;

    open spec fn deep_view(&self) -> BranchKind {
        *self
    }
}

/// One branch of the branch list.
#[derive(Debug, Clone, PartialEq, Eq)]
pub struct BranchInfo {
    pub name: String,
    pub reference: String,
    pub oid: String,
    pub upstream: Option<String>,
    pub current: bool,
    pub kind: BranchKind,
}

/// The values of a [`BranchInfo`].
#[verifier::ext_equal]
pub struct BranchInfoView {
    pub name: Seq<char>,
    pub reference: Seq<char>,
    pub oid: Seq<char>,
    pub upstream: Option<Seq<char>>,
    pub current: bool,
    pub kind: BranchKind,
}

impl DeepView for BranchInfo {
    type V = BranchInfoView;

    open spec fn deep_view(&self) -> BranchInfoView {
        BranchInfoView {
            name: self.name.deep_view(),
            reference: self.reference.deep_view(),
            oid: self.oid.deep_view(),
            upstream: self.upstream.deep_view(),
            current: self.current,
            kind: self.kind,
        }
    }
}

/// A branch and the commit that it stood at when it was looked up.
#[derive(Debug, Clone, PartialEq, Eq)]
pub struct BranchTarget {
    pub name: String,
    pub reference: String,
    pub oid: String,
    pub kind: BranchKind,
}

/// The values of a [`BranchTarget`].
#[verifier::ext_equal]
pub struct BranchTargetView {
    pub name: Seq<char>,
    pub reference: Seq<char>,
    pub oid: Seq<char>,
    pub kind: BranchKind,
}

impl DeepView for BranchTarget {
    type V = BranchTargetView;

    open spec fn deep_view(&self) -> BranchTargetView {
        BranchTargetView {
            name: self.name.deep_view(),
            reference: self.reference.deep_view(),
            oid: self.oid.deep_view(),
            kind: self.kind,
        }
    }
}

/// What is checked out.
#[derive(Debug, Clone, PartialEq, Eq)]
pub enum Head {
    Branch(String),
    Detached(String),
    Unborn,
}

/// The values of a [`Head`].
#[verifier::ext_equal]
pub enum HeadView {
    Branch(Seq<char>),
    Detached(Seq<char>),
    Unborn,
}

impl DeepView for Head {
    type V = HeadView;

    open spec fn deep_view(&self) -> HeadView {
        match self {
            Head::Branch(value) => HeadView::Branch(value.deep_view()),
            Head::Detached(value) => HeadView::Detached(value.deep_view()),
            Head::Unborn => HeadView::Unborn,
        }
    }
}

/// The branch part of a status report.
#[derive(Debug, Clone, PartialEq, Eq)]
pub struct BranchState {
    pub head: Head,
    pub upstream: Option<String>,
    pub ahead: u32,
    pub behind: u32,
    pub unborn: bool,
}

/// The values of a [`BranchState`].
#[verifier::ext_equal]
pub struct BranchStateView {
    pub head: HeadView,
    pub upstream: Option<Seq<char>>,
    pub ahead: u32,
    pub behind: u32,
    pub unborn: bool,
}

impl DeepView for BranchState {
    type V = BranchStateView;

    open spec fn deep_view(&self) -> BranchStateView {
        BranchStateView {
            head: self.head.deep_view(),
            upstream: self.upstream.deep_view(),
            ahead: self.ahead,
            behind: self.behind,
            unborn: self.unborn,
        }
    }
}

/// A multi-step operation that a repository can be in the middle of.
#[derive(Debug, Clone, Copy, PartialEq, Eq, Structural)]
pub enum RepositoryOperation {
    Merge,
    Rebase,
}

impl DeepView for RepositoryOperation {
    type V = RepositoryOperation;

    open spec fn deep_view(&self) -> RepositoryOperation {
        *self
    }
}

/// A way to end or go on with an operation in progress.
#[derive(Debug, Clone, Copy, PartialEq, Eq, Structural)]
pub enum RecoveryAction {
    Continue,
    Abort,
    Skip,
}

impl DeepView for RecoveryAction {
    type V = RecoveryAction;

    open spec fn deep_view(&self) -> RecoveryAction {
        *self
    }
}

/// A remote repository and its addresses.
#[derive(Debug, Clone, PartialEq, Eq)]
pub struct Remote {
    pub name: String,
    pub fetch_url: Option<String>,
    pub push_url: Option<String>,
}

/// The values of a [`Remote`].
#[verifier::ext_equal]
pub struct RemoteView {
    pub name: Seq<char>,
    pub fetch_url: Option<Seq<char>>,
    pub push_url: Option<Seq<char>>,
}

impl DeepView for Remote {
    type V = RemoteView;

    open spec fn deep_view(&self) -> RemoteView {
        RemoteView {
            name: self.name.deep_view(),
            fetch_url: self.fetch_url.deep_view(),
            push_url: self.push_url.deep_view(),
        }
    }
}

/// The family of a status record.
#[derive(Debug, Clone, Copy, PartialEq, Eq, Structural)]
pub enum StatusEntryType {
    Ordinary,
    Renamed,
    /// Porcelain v2 reserves the `2` record family for renames and copies. Git
    /// status does not normally emit copies, but the parser keeps the model
    /// explicit for forward-compatible callers.
    Copied,
    Untracked,
    Ignored,
    Conflict,
}

impl DeepView for StatusEntryType {
    type V = StatusEntryType;

    open spec fn deep_view(&self) -> StatusEntryType {
        *self
    }
}

/// How a path differs in the index or in the working tree.
#[derive(Debug, Clone, Copy, PartialEq, Eq, Structural)]
pub enum ChangeKind {
    Unmodified,
    Modified,
    Added,
    Deleted,
    Renamed,
    Copied,
    Unmerged,
    Untracked,
    Ignored,
    Unknown(char),
}

impl DeepView for ChangeKind {
    type V = ChangeKind;

    open spec fn deep_view(&self) -> ChangeKind {
        *self
    }
}

/// One changed path of a status report.
#[derive(Debug, Clone, PartialEq, Eq)]
pub struct StatusEntry {
    pub path: Vec<u8>,
    pub original_path: Option<Vec<u8>>,
    pub index: ChangeKind,
    pub worktree: ChangeKind,
    pub entry_type: StatusEntryType,
}

/// The values of a [`StatusEntry`].
#[verifier::ext_equal]
pub struct StatusEntryView {
    pub path: Seq<u8>,
    pub original_path: Option<Seq<u8>>,
    pub index: ChangeKind,
    pub worktree: ChangeKind,
    pub entry_type: StatusEntryType,
}

impl DeepView for StatusEntry {
    type V = StatusEntryView;

    open spec fn deep_view(&self) -> StatusEntryView {
        StatusEntryView {
            path: self.path.deep_view(),
            original_path: self.original_path.deep_view(),
            index: self.index,
            worktree: self.worktree,
            entry_type: self.entry_type,
        }
    }
}

/// A status report.
#[derive(Debug, Clone, PartialEq, Eq)]
pub struct WorktreeStatus {
    pub branch: BranchState,
    pub entries: Vec<StatusEntry>,
    pub operation: Option<RepositoryOperation>,
}

/// The values of a [`WorktreeStatus`].
#[verifier::ext_equal]
pub struct WorktreeStatusView {
    pub branch: BranchStateView,
    pub entries: Seq<StatusEntryView>,
    pub operation: Option<RepositoryOperation>,
}

impl DeepView for WorktreeStatus {
    type V = WorktreeStatusView;

    open spec fn deep_view(&self) -> WorktreeStatusView {
        WorktreeStatusView {
            branch: self.branch.deep_view(),
            entries: self.entries.deep_view(),
            operation: self.operation.deep_view(),
        }
    }
}

/// A repository with its remotes and its status.
#[derive(Debug, Clone, PartialEq, Eq)]
pub struct Repository {
    pub root: Vec<u8>,
    pub branch: BranchState,
    pub remotes: Vec<Remote>,
    pub status: WorktreeStatus,
}

/// The values of a [`Repository`].
#[verifier::ext_equal]
pub struct RepositoryView {
    pub root: Seq<u8>,
    pub branch: BranchStateView,
    pub remotes: Seq<RemoteView>,
    pub status: WorktreeStatusView,
}

impl DeepView for Repository {
    type V = RepositoryView;

    open spec fn deep_view(&self) -> RepositoryView {
        RepositoryView {
            root: self.root.deep_view(),
            branch: self.branch.deep_view(),
            remotes: self.remotes.deep_view(),
            status: self.status.deep_view(),
        }
    }
}

}
