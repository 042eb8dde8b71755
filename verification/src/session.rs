//! Operations that ask the outside world and decide on what it answers.
//!
//! An operation is a function of its arguments and of the answers that it has got so far. Where it
//! needs one more answer it says which [`Action`] to carry out; the caller carries it out, appends
//! the [`Reply`] to the list and asks again. An answer of another kind than the action asks for
//! leaves the action pending.

use crate::git::types::{ExitStatus, ExitStatusView, IoFailure, IoFailureView};
use crate::github::{PullRequest, PullRequestView};
use vstd::prelude::*;

verus! {

broadcast use crate::bytes::bytes_are_their_view;

/// What a path stands for.
#[derive(Debug, Clone, Copy, PartialEq, Eq, Structural)]
pub enum FileKind {
    File,
    Directory,
    Symlink,
    Other,
}

impl DeepView for FileKind {
    type V = FileKind;

    open spec fn deep_view(&self) -> FileKind {
        *self
    }
}

/// What the file system says of a file.
#[derive(Debug, Clone, Copy, PartialEq, Eq, Structural)]
pub struct FileMetadata {
    pub kind: FileKind,
    pub device: u64,
    pub inode: u64,
    pub mode: u32,
    pub links: u64,
    pub length: u64,
    pub modified: i64,
    pub modified_nanoseconds: i64,
    pub changed: i64,
    pub changed_nanoseconds: i64,
}

impl DeepView for FileMetadata {
    type V = FileMetadata;

    open spec fn deep_view(&self) -> FileMetadata {
        *self
    }
}

/// What is kept of the output of a bounded command, and what ends it.
#[derive(Debug, Clone, Copy, PartialEq, Eq, Structural)]
pub enum BoundedCommandPolicy {
    /// Output is kept up to a limit and hashed; far too much of it ends the command.
    Diagnostic,
    /// All of the output is hashed.
    Digest,
    /// The command runs to its end, whatever it writes.
    RecoveryExecution,
}

impl DeepView for BoundedCommandPolicy {
    type V = BoundedCommandPolicy;

    open spec fn deep_view(&self) -> BoundedCommandPolicy {
        *self
    }
}

/// What was kept of a stream: its first bytes, a digest, and whether there was more.
#[derive(Debug, Clone, PartialEq, Eq)]
pub struct CapturedStream {
    pub bytes: Vec<u8>,
    pub digest: Vec<u8>,
    pub truncated: bool,
}

/// The values of a [`CapturedStream`].
#[verifier::ext_equal]
pub struct CapturedStreamView {
    pub bytes: Seq<u8>,
    pub digest: Seq<u8>,
    pub truncated: bool,
}

impl DeepView for CapturedStream {
    type V = CapturedStreamView;

    open spec fn deep_view(&self) -> CapturedStreamView {
        CapturedStreamView {
            bytes: self.bytes.deep_view(),
            digest: self.digest.deep_view(),
            truncated: self.truncated,
        }
    }
}

/// How a bounded command ended and what was kept of its output.
#[derive(Debug, Clone, PartialEq, Eq)]
pub struct BoundedCommandOutput {
    pub status: ExitStatus,
    pub stdout: CapturedStream,
    pub stderr: CapturedStream,
}

/// The values of a [`BoundedCommandOutput`].
#[verifier::ext_equal]
pub struct BoundedCommandOutputView {
    pub status: ExitStatusView,
    pub stdout: CapturedStreamView,
    pub stderr: CapturedStreamView,
}

impl DeepView for BoundedCommandOutput {
    type V = BoundedCommandOutputView;

    open spec fn deep_view(&self) -> BoundedCommandOutputView {
        BoundedCommandOutputView {
            status: self.status.deep_view(),
            stdout: self.stdout.deep_view(),
            stderr: self.stderr.deep_view(),
        }
    }
}

/// Something for the caller to do.
#[derive(Debug, Clone, PartialEq, Eq)]
pub enum Action {
    /// Run Git with these arguments.
    Run { args: Vec<String> },
    /// Run Git with these arguments and no ssh setting of its own.
    RunRaw { args: Vec<String> },
    /// Run Git with these arguments, paths taken literally.
    RunPaths { args: Vec<Vec<u8>> },
    /// Run Git within the deadline, in a process group of its own.
    RunBounded { args: Vec<String>, optional_locks: bool, policy: BoundedCommandPolicy },
    /// Run Git in this directory from now on.
    Enter { directory: Vec<u8> },
    /// Set the deadline for the rest of the operation.
    StartDeadline { milliseconds: u64 },
    /// Look whether the deadline has passed.
    CheckDeadline,
    /// Look whether a path leads to something.
    Exists { path: Vec<u8> },
    /// Look at what a path leads to.
    Metadata { path: Vec<u8> },
    /// Look at a path itself, also where it is a symbolic link.
    LinkMetadata { path: Vec<u8> },
    /// Read where a symbolic link points.
    ReadLink { path: Vec<u8> },
    /// Open a path for reading, unless it is a symbolic link.
    Open { path: Vec<u8> },
    /// Read up to `limit` more bytes of an open file.
    Read { handle: u64, limit: u64 },
    /// Look at an open file.
    HandleMetadata { handle: u64 },
    /// Start to list an open directory.
    OpenDirectory { handle: u64 },
    /// Read the next name of an open directory.
    NextChild { handle: u64 },
    /// Resolve a path.
    Canonicalize { path: Vec<u8> },
    /// Create a directory and those above it.
    CreateDirectories { path: Vec<u8> },
    /// Look whether a path leads to a directory.
    IsDirectory { path: Vec<u8> },
    /// Open a lock file, or create it for its owner alone; follow no symbolic link.
    OpenLock { path: Vec<u8> },
    /// Lock an open file, without waiting.
    Lock { handle: u64 },
    /// Read an environment variable.
    Environment { name: String },
    /// Number a staged fetch: the process and a count within it.
    NumberFetch,
    /// Run the GitHub CLI with these arguments.
    RunGh { args: Vec<String> },
    /// Read the seconds since the Unix epoch.
    Clock,
    /// Read a text file.
    ReadText { path: Vec<u8> },
    /// Read the number of this process.
    ProcessId,
    /// Create a file that does not exist yet, write it and flush it to disk.
    WriteNew { path: Vec<u8>, contents: String },
    /// Remove a file.
    Remove { path: Vec<u8> },
    /// Rename a file over another.
    Rename { from: Vec<u8>, to: Vec<u8> },
    /// Flush a directory to disk.
    SyncDirectory { path: Vec<u8> },
    /// Append to a file, or create it.
    Append { path: Vec<u8>, contents: String },
    /// Read a description of a repository on GitHub.
    DecodeRepository { json: String },
    /// Read a list of pull requests.
    DecodePullRequests { json: String },
}

/// The values of a [`Action`].
#[verifier::ext_equal]
pub enum ActionView {
    Run { args: Seq<Seq<char>> },
    RunRaw { args: Seq<Seq<char>> },
    RunPaths { args: Seq<Seq<u8>> },
    RunBounded { args: Seq<Seq<char>>, optional_locks: bool, policy: BoundedCommandPolicy },
    Enter { directory: Seq<u8> },
    StartDeadline { milliseconds: u64 },
    CheckDeadline,
    Exists { path: Seq<u8> },
    Metadata { path: Seq<u8> },
    LinkMetadata { path: Seq<u8> },
    ReadLink { path: Seq<u8> },
    Open { path: Seq<u8> },
    Read { handle: u64, limit: u64 },
    HandleMetadata { handle: u64 },
    OpenDirectory { handle: u64 },
    NextChild { handle: u64 },
    Canonicalize { path: Seq<u8> },
    CreateDirectories { path: Seq<u8> },
    IsDirectory { path: Seq<u8> },
    OpenLock { path: Seq<u8> },
    Lock { handle: u64 },
    Environment { name: Seq<char> },
    NumberFetch,
    RunGh { args: Seq<Seq<char>> },
    Clock,
    ReadText { path: Seq<u8> },
    ProcessId,
    WriteNew { path: Seq<u8>, contents: Seq<char> },
    Remove { path: Seq<u8> },
    Rename { from: Seq<u8>, to: Seq<u8> },
    SyncDirectory { path: Seq<u8> },
    Append { path: Seq<u8>, contents: Seq<char> },
    DecodeRepository { json: Seq<char> },
    DecodePullRequests { json: Seq<char> },
}

impl DeepView for Action {
    type V = ActionView;

    open spec fn deep_view(&self) -> ActionView {
        match self {
            Action::Run { args } => ActionView::Run {
                args: args.deep_view(),
            },
            Action::RunRaw { args } => ActionView::RunRaw {
                args: args.deep_view(),
            },
            Action::RunPaths { args } => ActionView::RunPaths {
                args: args.deep_view(),
            },
            Action::RunBounded { args, optional_locks, policy } => ActionView::RunBounded {
                args: args.deep_view(),
                optional_locks: *optional_locks,
                policy: *policy,
            },
            Action::Enter { directory } => ActionView::Enter { directory: directory.deep_view() },
            Action::StartDeadline { milliseconds } => ActionView::StartDeadline {
                milliseconds: *milliseconds,
            },
            Action::CheckDeadline => ActionView::CheckDeadline,
            Action::Exists { path } => ActionView::Exists {
                path: path.deep_view(),
            },
            Action::Metadata { path } => ActionView::Metadata {
                path: path.deep_view(),
            },
            Action::LinkMetadata { path } => ActionView::LinkMetadata {
                path: path.deep_view(),
            },
            Action::ReadLink { path } => ActionView::ReadLink {
                path: path.deep_view(),
            },
            Action::Open { path } => ActionView::Open {
                path: path.deep_view(),
            },
            Action::Read { handle, limit } => ActionView::Read {
                handle: *handle,
                limit: *limit,
            },
            Action::HandleMetadata { handle } => ActionView::HandleMetadata {
                handle: *handle,
            },
            Action::OpenDirectory { handle } => ActionView::OpenDirectory {
                handle: *handle,
            },
            Action::NextChild { handle } => ActionView::NextChild {
                handle: *handle,
            },
            Action::Canonicalize { path } => ActionView::Canonicalize {
                path: path.deep_view(),
            },
            Action::CreateDirectories { path } => ActionView::CreateDirectories {
                path: path.deep_view(),
            },
            Action::IsDirectory { path } => ActionView::IsDirectory {
                path: path.deep_view(),
            },
            Action::OpenLock { path } => ActionView::OpenLock {
                path: path.deep_view(),
            },
            Action::Lock { handle } => ActionView::Lock {
                handle: *handle,
            },
            Action::Environment { name } => ActionView::Environment {
                name: name.deep_view(),
            },
            Action::NumberFetch => ActionView::NumberFetch,
            Action::RunGh { args } => ActionView::RunGh {
                args: args.deep_view(),
            },
            Action::Clock => ActionView::Clock,
            Action::ReadText { path } => ActionView::ReadText {
                path: path.deep_view(),
            },
            Action::ProcessId => ActionView::ProcessId,
            Action::WriteNew { path, contents } => ActionView::WriteNew {
                path: path.deep_view(),
                contents: contents.deep_view(),
            },
            Action::Remove { path } => ActionView::Remove {
                path: path.deep_view(),
            },
            Action::Rename { from, to } => ActionView::Rename {
                from: from.deep_view(),
                to: to.deep_view(),
            },
            Action::SyncDirectory { path } => ActionView::SyncDirectory {
                path: path.deep_view(),
            },
            Action::Append { path, contents } => ActionView::Append {
                path: path.deep_view(),
                contents: contents.deep_view(),
            },
            Action::DecodeRepository { json } => ActionView::DecodeRepository {
                json: json.deep_view(),
            },
            Action::DecodePullRequests { json } => ActionView::DecodePullRequests {
                json: json.deep_view(),
            },
        }
    }
}

/// What came of an action.
#[derive(Debug, Clone, PartialEq, Eq)]
pub enum Reply {
    /// A command ended.
    Output { status: ExitStatus, stdout: Vec<u8>, stderr: Vec<u8> },
    /// A bounded command ended; `exceeded` says that it wrote more than may be captured.
    Captured { output: BoundedCommandOutput, exceeded: bool },
    /// The operating system refused.
    Failed(IoFailure),
    /// The deadline has passed.
    TimedOut,
    /// It is done.
    Done,
    /// Yes or no.
    Flag(bool),
    /// The bytes that were asked for.
    Bytes(Vec<u8>),
    /// There is no such thing, or no more of them.
    Missing,
    /// The path is a symbolic link.
    Symlink,
    /// A file is open.
    Opened { handle: u64, metadata: FileMetadata },
    /// What the file system says.
    Metadata(FileMetadata),
    /// A lock was refused; `contended` is the number of the error that a held lock gives.
    Refused { source: IoFailure, contended: Option<i32> },
    /// A number.
    Number(u64),
    /// The text that was asked for.
    Text(String),
    /// There is such a file already.
    Exists(IoFailure),
    /// A new file was created and could not be written.
    Unwritten(IoFailure),
    /// A repository on GitHub.
    Repository { name_with_owner: String, default_branch: Option<String> },
    /// Pull requests.
    PullRequests(Vec<PullRequest>),
}

/// The values of a [`Reply`].
#[verifier::ext_equal]
pub enum ReplyView {
    Output { status: ExitStatusView, stdout: Seq<u8>, stderr: Seq<u8> },
    Captured { output: BoundedCommandOutputView, exceeded: bool },
    Failed(IoFailureView),
    TimedOut,
    Done,
    Flag(bool),
    Bytes(Seq<u8>),
    Missing,
    Symlink,
    Opened { handle: u64, metadata: FileMetadata },
    Metadata(FileMetadata),
    Refused { source: IoFailureView, contended: Option<i32> },
    Number(u64),
    Text(Seq<char>),
    Exists(IoFailureView),
    Unwritten(IoFailureView),
    Repository { name_with_owner: Seq<char>, default_branch: Option<Seq<char>> },
    PullRequests(Seq<PullRequestView>),
}

impl DeepView for Reply {
    type V = ReplyView;

    open spec fn deep_view(&self) -> ReplyView {
        match self {
            Reply::Output { status, stdout, stderr } => ReplyView::Output {
                status: status.deep_view(),
                stdout: stdout.deep_view(),
                stderr: stderr.deep_view(),
            },
            Reply::Captured { output, exceeded } => ReplyView::Captured {
                output: output.deep_view(),
                exceeded: *exceeded,
            },
            Reply::Failed(value) => ReplyView::Failed(value.deep_view()),
            Reply::TimedOut => ReplyView::TimedOut,
            Reply::Done => ReplyView::Done,
            Reply::Flag(value) => ReplyView::Flag(*value),
            Reply::Bytes(value) => ReplyView::Bytes(value.deep_view()),
            Reply::Missing => ReplyView::Missing,
            Reply::Symlink => ReplyView::Symlink,
            Reply::Opened { handle, metadata } => ReplyView::Opened {
                handle: *handle,
                metadata: *metadata,
            },
            Reply::Metadata(value) => ReplyView::Metadata(*value),
            Reply::Refused { source, contended } => ReplyView::Refused {
                source: source.deep_view(),
                contended: contended.deep_view(),
            },
            Reply::Number(value) => ReplyView::Number(*value),
            Reply::Text(value) => ReplyView::Text(value.deep_view()),
            Reply::Exists(value) => ReplyView::Exists(value.deep_view()),
            Reply::Unwritten(value) => ReplyView::Unwritten(value.deep_view()),
            Reply::Repository { name_with_owner, default_branch } => ReplyView::Repository {
                name_with_owner: name_with_owner.deep_view(),
                default_branch: default_branch.deep_view(),
            },
            Reply::PullRequests(value) => ReplyView::PullRequests(value.deep_view()),
        }
    }
}

/// Why an operation has no result: it waits for an answer, or it failed.
pub enum Halt<E> {
    Pending(Action),
    Failed(E),
}

/// The values of a [`Halt`].
#[verifier::ext_equal]
pub enum HaltView<E> {
    Pending(ActionView),
    Failed(E),
}

impl<E: DeepView> DeepView for Halt<E> {
    type V = HaltView<E::V>;

    open spec fn deep_view(&self) -> HaltView<E::V> {
        match self {
            Halt::Pending(action) => HaltView::Pending(action.deep_view()),
            Halt::Failed(error) => HaltView::Failed(error.deep_view()),
        }
    }
}

/// The values of the result of an operation.
pub open spec fn outcome<T: DeepView, E: DeepView>(result: Result<T, Halt<E>>) -> Result<
    T::V,
    HaltView<E::V>,
> {
    match result {
        Ok(value) => Ok(value.deep_view()),
        Err(halt) => Err(halt.deep_view()),
    }
}

/// A part of an operation: its result, and the place of the first answer that it did not use.
#[verifier::ext_equal]
pub struct Step<T, E> {
    pub result: Result<T, HaltView<E>>,
    pub next: nat,
}

/// The part of an operation that gives a value and uses no answer.
pub open spec fn given<T, E>(value: T, next: nat) -> Step<T, E> {
    Step { result: Ok(value), next }
}

/// The part of an operation that fails and uses no answer.
pub open spec fn failed<T, E>(error: E, next: nat) -> Step<T, E> {
    Step { result: Err(HaltView::Failed(error)), next }
}

/// The part of an operation that waits for an answer.
pub open spec fn pending<T, E>(action: ActionView, next: nat) -> Step<T, E> {
    Step { result: Err(HaltView::Pending(action)), next }
}

/// One part of an operation and what follows it where it gave a value.
pub open spec fn followed<A, B, E>(step: Step<A, E>, follow: spec_fn(A, nat) -> Step<B, E>) -> Step<
    B,
    E,
> {
    match step.result {
        Ok(value) => follow(value, step.next),
        Err(halt) => Step { result: Err(halt), next: step.next },
    }
}

/// A part of an operation that has no value, as the whole of it.
pub open spec fn halted<A, B, E>(step: Step<A, E>) -> Step<B, E> {
    Step { result: Err(step.result->Err_0), next: step.next }
}

/// The answer to an action, where there is one.
pub open spec fn answer(replies: Seq<ReplyView>, at: nat) -> Option<ReplyView> {
    if at < replies.len() {
        Some(replies[at as int])
    } else {
        None
    }
}

/// The answers that an operation has got, and how many of them it has used.
pub struct Session<'a> {
    replies: &'a [Reply],
    used: usize,
}

impl<'a> Session<'a> {
    /// The answers.
    pub closed spec fn replies(&self) -> Seq<ReplyView> {
        self.replies.deep_view()
    }

    /// How many answers were used.
    pub closed spec fn at(&self) -> nat {
        self.used as nat
    }

    /// No more answers were used than there are.
    #[verifier::type_invariant]
    closed spec fn in_range(&self) -> bool {
        self.used <= self.replies@.len()
    }

    /// A session in which no answer was used.
    pub fn new(replies: &'a [Reply]) -> (result: Session<'a>)
        ensures
            result.replies() == replies.deep_view(),
            result.at() == 0,
    {
        Session { replies, used: 0 }
    }

    /// The next answer.
    pub fn peek(&self) -> (result: Option<&'a Reply>)
        ensures
            result.deep_view() == answer(self.replies(), self.at()),
    {
        if self.used < self.replies.len() {
            Some(&self.replies[self.used])
        } else {
            None
        }
    }

    /// Marks the next answer as used.
    pub fn advance(&mut self)
        requires
            answer(old(self).replies(), old(self).at()) is Some,
        ensures
            final(self).replies() == old(self).replies(),
            final(self).at() == old(self).at() + 1,
    {
        proof {
            use_type_invariant(&*self);
        }
        if self.used < self.replies.len() {
            self.used = self.used + 1;
        }
    }
}

/// A session after a part of an operation: the part's result and place are the ones stated.
pub open spec fn stepped<T: DeepView, E: DeepView>(
    before: &Session,
    after: &Session,
    result: Result<T, Halt<E>>,
    step: Step<T::V, E::V>,
) -> bool {
    &&& after.replies() == before.replies()
    &&& step.result == outcome(result)
    &&& step.next == after.at()
}

/// Whether an answer is of a kind that an action asks for.
pub open spec fn fits(action: ActionView, reply: ReplyView) -> bool {
    match action {
        ActionView::Run { .. } | ActionView::RunRaw { .. } | ActionView::RunPaths { .. } | ActionView::RunGh { .. } => match reply {
            ReplyView::Output { .. } | ReplyView::Failed(_) => true,
            _ => false,
        },
        ActionView::RunBounded { .. } => match reply {
            ReplyView::Captured { .. } | ReplyView::Failed(_) | ReplyView::TimedOut => true,
            _ => false,
        },
        ActionView::Enter { .. } | ActionView::StartDeadline { .. } => match reply {
            ReplyView::Done => true,
            _ => false,
        },
        ActionView::CheckDeadline => match reply {
            ReplyView::Done | ReplyView::TimedOut => true,
            _ => false,
        },
        ActionView::Exists { .. } | ActionView::IsDirectory { .. } => match reply {
            ReplyView::Flag(_) => true,
            _ => false,
        },
        ActionView::Metadata { .. } | ActionView::LinkMetadata { .. } | ActionView::HandleMetadata { .. } => match reply {
            ReplyView::Metadata(_) | ReplyView::Failed(_) => true,
            _ => false,
        },
        ActionView::ReadLink { .. } | ActionView::Canonicalize { .. } => match reply {
            ReplyView::Bytes(_) | ReplyView::Failed(_) => true,
            _ => false,
        },
        ActionView::Open { .. } => match reply {
            ReplyView::Opened { .. } | ReplyView::Missing | ReplyView::Symlink | ReplyView::Failed(
                _,
            ) => true,
            _ => false,
        },
        ActionView::Read { limit, .. } => match reply {
            ReplyView::Bytes(bytes) => bytes.len() <= limit,
            ReplyView::Failed(_) => true,
            _ => false,
        },
        ActionView::OpenDirectory { .. } | ActionView::CreateDirectories { .. } | ActionView::Remove { .. } | ActionView::Rename { .. } | ActionView::SyncDirectory { .. } | ActionView::Append { .. } => match reply {
            ReplyView::Done | ReplyView::Failed(_) => true,
            _ => false,
        },
        ActionView::NextChild { .. } => match reply {
            ReplyView::Bytes(_) | ReplyView::Missing | ReplyView::Failed(_) => true,
            _ => false,
        },
        ActionView::OpenLock { .. } => match reply {
            ReplyView::Number(_) | ReplyView::Failed(_) => true,
            _ => false,
        },
        ActionView::Lock { .. } => match reply {
            ReplyView::Done | ReplyView::Refused { .. } => true,
            _ => false,
        },
        ActionView::Environment { .. } => match reply {
            ReplyView::Bytes(_) | ReplyView::Missing => true,
            _ => false,
        },
        ActionView::NumberFetch | ActionView::ProcessId => match reply {
            ReplyView::Number(_) => true,
            _ => false,
        },
        ActionView::Clock => match reply {
            ReplyView::Number(_) | ReplyView::Missing => true,
            _ => false,
        },
        ActionView::ReadText { .. } => match reply {
            ReplyView::Text(_) | ReplyView::Missing | ReplyView::Failed(_) => true,
            _ => false,
        },
        ActionView::WriteNew { .. } => match reply {
            ReplyView::Done | ReplyView::Exists(
                _,
            ) | ReplyView::Failed(_) | ReplyView::Unwritten(_) => true,
            _ => false,
        },
        ActionView::DecodeRepository { .. } => match reply {
            ReplyView::Repository { .. } | ReplyView::Missing => true,
            _ => false,
        },
        ActionView::DecodePullRequests { .. } => match reply {
            ReplyView::PullRequests(_) | ReplyView::Missing => true,
            _ => false,
        },
    }
}

/// The part of an operation that asks for an action.
pub open spec fn asked<E>(replies: Seq<ReplyView>, at: nat, action: ActionView) -> Step<
    ReplyView,
    E,
> {
    match answer(replies, at) {
        Some(reply) => if fits(action, reply) {
            given(reply, at + 1)
        } else {
            pending(action, at)
        },
        None => pending(action, at),
    }
}

/// Whether an answer is of a kind that an action asks for.
fn is_fitting(action: &Action, reply: &Reply) -> (result: bool)
    ensures
        result == fits(action.deep_view(), reply.deep_view()),
{
    match action {
        Action::Run { .. } | Action::RunRaw { .. } | Action::RunPaths { .. } | Action::RunGh { .. } => match reply {
            Reply::Output { .. } | Reply::Failed(_) => true,
            _ => false,
        },
        Action::RunBounded { .. } => match reply {
            Reply::Captured { .. } | Reply::Failed(_) | Reply::TimedOut => true,
            _ => false,
        },
        Action::Enter { .. } | Action::StartDeadline { .. } => match reply {
            Reply::Done => true,
            _ => false,
        },
        Action::CheckDeadline => match reply {
            Reply::Done | Reply::TimedOut => true,
            _ => false,
        },
        Action::Exists { .. } | Action::IsDirectory { .. } => match reply {
            Reply::Flag(_) => true,
            _ => false,
        },
        Action::Metadata { .. } | Action::LinkMetadata { .. } | Action::HandleMetadata { .. } => match reply {
            Reply::Metadata(_) | Reply::Failed(_) => true,
            _ => false,
        },
        Action::ReadLink { .. } | Action::Canonicalize { .. } => match reply {
            Reply::Bytes(_) | Reply::Failed(_) => true,
            _ => false,
        },
        Action::Open { .. } => match reply {
            Reply::Opened { .. } | Reply::Missing | Reply::Symlink | Reply::Failed(_) => true,
            _ => false,
        },
        Action::Read { limit, .. } => match reply {
            Reply::Bytes(bytes) => bytes.len() as u64 <= *limit,
            Reply::Failed(_) => true,
            _ => false,
        },
        Action::OpenDirectory { .. } | Action::CreateDirectories { .. } | Action::Remove { .. } | Action::Rename { .. } | Action::SyncDirectory { .. } | Action::Append { .. } => match reply {
            Reply::Done | Reply::Failed(_) => true,
            _ => false,
        },
        Action::NextChild { .. } => match reply {
            Reply::Bytes(_) | Reply::Missing | Reply::Failed(_) => true,
            _ => false,
        },
        Action::OpenLock { .. } => match reply {
            Reply::Number(_) | Reply::Failed(_) => true,
            _ => false,
        },
        Action::Lock { .. } => match reply {
            Reply::Done | Reply::Refused { .. } => true,
            _ => false,
        },
        Action::Environment { .. } => match reply {
            Reply::Bytes(_) | Reply::Missing => true,
            _ => false,
        },
        Action::NumberFetch | Action::ProcessId => match reply {
            Reply::Number(_) => true,
            _ => false,
        },
        Action::Clock => match reply {
            Reply::Number(_) | Reply::Missing => true,
            _ => false,
        },
        Action::ReadText { .. } => match reply {
            Reply::Text(_) | Reply::Missing | Reply::Failed(_) => true,
            _ => false,
        },
        Action::WriteNew { .. } => match reply {
            Reply::Done | Reply::Exists(_) | Reply::Failed(_) | Reply::Unwritten(_) => true,
            _ => false,
        },
        Action::DecodeRepository { .. } => match reply {
            Reply::Repository { .. } | Reply::Missing => true,
            _ => false,
        },
        Action::DecodePullRequests { .. } => match reply {
            Reply::PullRequests(_) | Reply::Missing => true,
            _ => false,
        },
    }
}

impl<'a> Session<'a> {
    /// Asks for an action.
    pub fn ask<E: DeepView>(&mut self, action: Action) -> (result: Result<&'a Reply, Halt<E>>)
        ensures
            stepped(
                old(self),
                final(self),
                result,
                asked(old(self).replies(), old(self).at(), action.deep_view()),
            ),
            result is Ok ==> fits(action.deep_view(), result->Ok_0.deep_view()),
    {
        match self.peek() {
            Some(reply) => {
                if is_fitting(&action, reply) {
                    self.advance();
                    Ok(reply)
                } else {
                    Err(Halt::Pending(action))
                }
            },
            None => Err(Halt::Pending(action)),
        }
    }
}

}
