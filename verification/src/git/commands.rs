//! Running Git: the commands that an operation asks for and what is made of their output.
//!
//! Each operation takes the answers that it has got so far (see [`crate::session`]) and gives its
//! result, or the action that it waits for. What it asks for, and what it makes of each answer, is
//! stated by a function of the same name with `_step` behind it.
use crate::bytes;
use crate::git::commits;
use crate::git::types::{
    ExitStatus, ExitStatusView, GitError, GitErrorView, GitOutput, GitOutputView, IoFailure,
    OutputStream, RepositoryOperation,
};
use crate::session;
use crate::session::{Action, ActionView, Halt, HaltView, Reply, ReplyView, Session, Step};
use crate::text;
use crate::words;
use vstd::prelude::*;
use vstd::utf8;

verus! {

broadcast use crate::bytes::bytes_are_their_view;

/// The result of an operation on a repository, or why there is none yet.
pub type GitResult<T> = Result<T, Halt<GitError>>;

/// A part of an operation on a repository.
pub type GitStep<T> = Step<T, GitErrorView>;

/// A repository's working directory and how Git is run in it.
#[derive(Debug, Clone)]
pub struct Git {
    pub cwd: Vec<u8>,
    pub ssh_executable: Option<Vec<u8>>,
    /// How long planning a recovery may take, in milliseconds.
    pub recovery_plan_timeout: u64,
    /// How long the checks before a recovery may take, in milliseconds.
    pub recovery_start_timeout: u64,
    pub recovery_output_limit: usize,
    pub isolated_test_config: bool,
}

/// The error of an operation that a guard refused.
pub open spec fn refusal(message: Seq<char>) -> GitErrorView {
    GitErrorView::Blocked { message }
}

/// The error of an operation that a guard refused.
pub fn blocked(message: &str) -> (result: GitError)
    ensures
        result.deep_view() == refusal(message@),
{
    GitError::Blocked { message: message.to_owned() }
}

/// Whether a command succeeded.
pub open spec fn succeeded(status: ExitStatusView) -> bool {
    status.code == Some(0i32)
}

impl ExitStatus {
    /// Whether a command succeeded.
    pub fn success(&self) -> (result: bool)
        ensures
            result == succeeded(self.deep_view()),
    {
        match self.code {
            Some(code) => code == 0,
            None => false,
        }
    }

    /// A copy of a status.
    pub fn copied(&self) -> (result: ExitStatus)
        ensures
            result.deep_view() == self.deep_view(),
    {
        ExitStatus { code: self.code, description: self.description.clone() }
    }
}

impl IoFailure {
    /// A copy of a failure.
    pub fn copied(&self) -> (result: IoFailure)
        ensures
            result.deep_view() == self.deep_view(),
    {
        IoFailure { not_found: self.not_found, code: self.code, message: self.message.clone() }
    }
}

/// What is made of the output of a command that writes text.
pub open spec fn text_output(
    args: Seq<Seq<char>>,
    status: ExitStatusView,
    stdout: Seq<u8>,
    stderr: Seq<u8>,
) -> Result<GitOutputView, GitErrorView> {
    if !utf8::valid_utf8(stdout) {
        Err(
            GitErrorView::Utf8 {
                args,
                stream: OutputStream::Stdout,
                detail: bytes::utf8_error_text(stdout),
            },
        )
    } else if !utf8::valid_utf8(stderr) {
        Err(
            GitErrorView::Utf8 {
                args,
                stream: OutputStream::Stderr,
                detail: bytes::utf8_error_text(stderr),
            },
        )
    } else if !succeeded(status) {
        Err(
            GitErrorView::GitFailed {
                args,
                status,
                stdout: utf8::decode_utf8(stdout),
                stderr: utf8::decode_utf8(stderr),
            },
        )
    } else {
        Ok(
            GitOutputView {
                status,
                stdout: utf8::decode_utf8(stdout),
                stderr: utf8::decode_utf8(stderr),
            },
        )
    }
}

/// A result that needs no answer, as a part of an operation.
pub open spec fn settled<T>(result: Result<T, GitErrorView>, at: nat) -> GitStep<T> {
    match result {
        Ok(value) => session::given(value, at),
        Err(error) => session::failed(error, at),
    }
}

/// Runs Git for text.
pub open spec fn run_step(replies: Seq<ReplyView>, at: nat, args: Seq<Seq<char>>) -> GitStep<
    GitOutputView,
> {
    session::followed(
        session::asked(replies, at, ActionView::Run { args }),
        |reply: ReplyView, n: nat|
            match reply {
                ReplyView::Output { status, stdout, stderr } => settled(
                    text_output(args, status, stdout, stderr),
                    n,
                ),
                ReplyView::Failed(source) => session::failed(GitErrorView::Io { args, source }, n),
                _ => session::pending(ActionView::Run { args }, n),
            },
    )
}

/// Runs Git for bytes.
pub open spec fn run_raw_step(replies: Seq<ReplyView>, at: nat, args: Seq<Seq<char>>) -> GitStep<
    Seq<u8>,
> {
    session::followed(
        session::asked(replies, at, ActionView::RunRaw { args }),
        |reply: ReplyView, n: nat|
            match reply {
                ReplyView::Output { status, stdout, stderr } => if succeeded(status) {
                    session::given(stdout, n)
                } else {
                    session::failed(
                        GitErrorView::GitFailed {
                            args,
                            status,
                            stdout: bytes::lossy_text(stdout),
                            stderr: bytes::lossy_text(stderr),
                        },
                        n,
                    )
                },
                ReplyView::Failed(source) => session::failed(GitErrorView::Io { args, source }, n),
                _ => session::pending(ActionView::RunRaw { args }, n),
            },
    )
}

/// Decodes the output of a command that writes text.
pub(crate) fn decode_output(
    args: Vec<String>,
    status: &ExitStatus,
    stdout: &Vec<u8>,
    stderr: &Vec<u8>,
) -> (result: Result<GitOutput, GitError>)
    ensures
        (match result {
            Ok(output) => Ok(output.deep_view()),
            Err(error) => Err(error.deep_view()),
        }) == text_output(args.deep_view(), status.deep_view(), stdout@, stderr@),
{
    let stdout = match bytes::utf8_text(stdout.as_slice()) {
        Ok(stdout) => stdout,
        Err(detail) => {
            return Err(GitError::Utf8 { args, stream: OutputStream::Stdout, detail });
        },
    };
    let stderr = match bytes::utf8_text(stderr.as_slice()) {
        Ok(stderr) => stderr,
        Err(detail) => {
            return Err(GitError::Utf8 { args, stream: OutputStream::Stderr, detail });
        },
    };
    if !status.success() {
        return Err(GitError::GitFailed { args, status: status.copied(), stdout, stderr });
    }
    Ok(GitOutput { status: status.copied(), stdout, stderr })
}

/// A result that needs no answer, as the result of an operation.
pub fn settle<T: DeepView>(result: Result<T, GitError>) -> (settled_result: GitResult<T>)
    ensures
        session::outcome(settled_result) == (match result {
            Ok(value) => Ok::<T::V, HaltView<GitErrorView>>(value.deep_view()),
            Err(error) => Err(HaltView::Failed(error.deep_view())),
        }),
        settled_result is Ok == result is Ok,
        result is Ok ==> settled_result->Ok_0 == result->Ok_0,
{
    match result {
        Ok(value) => Ok(value),
        Err(error) => Err(Halt::Failed(error)),
    }
}

/// Runs Git for text.
pub(crate) fn run(session: &mut Session, args: Vec<String>) -> (result: GitResult<GitOutput>)
    ensures
        session::stepped(
            old(session),
            final(session),
            result,
            run_step(old(session).replies(), old(session).at(), args.deep_view()),
        ),
{
    match session.ask(Action::Run { args: text::clone_texts(&args) })? {
        Reply::Output { status, stdout, stderr } => settle(
            decode_output(args, status, stdout, stderr),
        ),
        Reply::Failed(source) => Err(Halt::Failed(GitError::Io { args, source: source.copied() })),
        _ => Err(Halt::Pending(Action::Run { args })),
    }
}

/// Runs Git for bytes.
pub(crate) fn run_raw(session: &mut Session, args: Vec<String>) -> (result: GitResult<Vec<u8>>)
    ensures
        session::stepped(
            old(session),
            final(session),
            result,
            run_raw_step(old(session).replies(), old(session).at(), args.deep_view()),
        ),
{
    match session.ask(Action::RunRaw { args: text::clone_texts(&args) })? {
        Reply::Output { status, stdout, stderr } => {
            if status.success() {
                Ok(bytes::copy_bytes(stdout.as_slice()))
            } else {
                Err(
                    Halt::Failed(
                        GitError::GitFailed {
                            args,
                            status: status.copied(),
                            stdout: bytes::lossy(stdout.as_slice()),
                            stderr: bytes::lossy(stderr.as_slice()),
                        },
                    ),
                )
            }
        },
        Reply::Failed(source) => Err(Halt::Failed(GitError::Io { args, source: source.copied() })),
        _ => Err(Halt::Pending(Action::RunRaw { args })),
    }
}

/// The output of a command, or none where it ended with code 1.
pub open spec fn tolerated(step: GitStep<GitOutputView>) -> GitStep<Option<GitOutputView>> {
    match step.result {
        Ok(output) => session::given(Some(output), step.next),
        Err(
            HaltView::Failed(GitErrorView::GitFailed { args, status, stdout, stderr }),
        ) => if status.code
            == Some(1i32) {
            session::given(None, step.next)
        } else {
            session::failed(GitErrorView::GitFailed { args, status, stdout, stderr }, step.next)
        },
        Err(halt) => Step { result: Err(halt), next: step.next },
    }
}

/// Runs Git for text; a command that ends with code 1 gives none.
pub(crate) fn run_tolerant(session: &mut Session, args: Vec<String>) -> (result: GitResult<
    Option<GitOutput>,
>)
    ensures
        session::stepped(
            old(session),
            final(session),
            result,
            tolerated(run_step(old(session).replies(), old(session).at(), args.deep_view())),
        ),
{
    match run(session, args) {
        Ok(output) => Ok(Some(output)),
        Err(Halt::Failed(GitError::GitFailed { args, status, stdout, stderr })) => {
            let missing = match status.code {
                Some(code) => code == 1,
                None => false,
            };
            if missing {
                Ok(None)
            } else {
                Err(Halt::Failed(GitError::GitFailed { args, status, stdout, stderr }))
            }
        },
        Err(halt) => Err(halt),
    }
}

/// The path that a line of output names, taken from the working directory.
pub open spec fn path_in(cwd: Seq<u8>, output: Seq<char>) -> Seq<u8> {
    bytes::joined_path(cwd, utf8::encode_utf8(text::trimmed(output)))
}

/// The path that a line of output names, taken from the working directory.
pub(crate) fn path_from(cwd: &[u8], output: &str) -> (result: Vec<u8>)
    ensures
        result@ == path_in(cwd@, output@),
{
    let trimmed = text::trimmed_text(output);
    bytes::join_name(cwd, trimmed.as_str())
}

/// Looks whether a path leads to something.
pub open spec fn exists_step(replies: Seq<ReplyView>, at: nat, path: Seq<u8>) -> GitStep<bool> {
    session::followed(
        session::asked(replies, at, ActionView::Exists { path }),
        |reply: ReplyView, n: nat|
            match reply {
                ReplyView::Flag(flag) => session::given(flag, n),
                _ => session::pending(ActionView::Exists { path }, n),
            },
    )
}

/// Looks whether a path leads to something.
pub(crate) fn path_exists(session: &mut Session, path: Vec<u8>) -> (result: GitResult<bool>)
    ensures
        session::stepped(
            old(session),
            final(session),
            result,
            exists_step(old(session).replies(), old(session).at(), path@),
        ),
{
    match session.ask(Action::Exists { path: bytes::copy_bytes(path.as_slice()) })? {
        Reply::Flag(flag) => Ok(*flag),
        _ => Err(Halt::Pending(Action::Exists { path })),
    }
}

/// Whether a file is a hook that Git would run.
pub open spec fn runs_as_hook(metadata: session::FileMetadata) -> bool {
    metadata.kind == session::FileKind::File && metadata.mode & 0o111 != 0
}

/// Looks whether a path leads to a hook that Git would run.
pub open spec fn hook_enabled_step(replies: Seq<ReplyView>, at: nat, path: Seq<u8>) -> GitStep<
    bool,
> {
    session::followed(
        session::asked(replies, at, ActionView::Metadata { path }),
        |reply: ReplyView, n: nat|
            match reply {
                ReplyView::Metadata(metadata) => session::given(runs_as_hook(metadata), n),
                _ => session::given(false, n),
            },
    )
}

/// Looks whether a path leads to a hook that Git would run.
pub(crate) fn hook_is_enabled(session: &mut Session, path: Vec<u8>) -> (result: GitResult<bool>)
    ensures
        session::stepped(
            old(session),
            final(session),
            result,
            hook_enabled_step(old(session).replies(), old(session).at(), path@),
        ),
{
    match session.ask(Action::Metadata { path })? {
        Reply::Metadata(metadata) => Ok(
            metadata.kind == session::FileKind::File && metadata.mode & 0o111 != 0,
        ),
        _ => Ok(false),
    }
}

/// A step whose failure is a value, to be looked at.
pub open spec fn attempted<T>(step: GitStep<T>) -> GitStep<Result<T, GitErrorView>> {
    match step.result {
        Ok(value) => session::given(Ok(value), step.next),
        Err(HaltView::Failed(error)) => session::given(Err(error), step.next),
        Err(HaltView::Pending(action)) => session::pending(action, step.next),
    }
}

/// The name of an operation in progress.
pub open spec fn operation_label(operation: RepositoryOperation) -> Seq<char> {
    match operation {
        RepositoryOperation::Merge => "merge"@,
        RepositoryOperation::Rebase => "rebase"@,
    }
}

impl RepositoryOperation {
    /// The name of an operation in progress.
    pub fn label(self) -> (result: &'static str)
        ensures
            result@ == operation_label(self),
    {
        match self {
            RepositoryOperation::Merge => "merge",
            RepositoryOperation::Rebase => "rebase",
        }
    }
}

/// What a command printed, without the white space around it.
pub open spec fn trimmed_stdout(output: Option<GitOutputView>) -> Option<Seq<char>> {
    match output {
        Some(output) => Some(text::trimmed(output.stdout)),
        None => None,
    }
}

/// What a command printed, without the white space around it.
pub(crate) fn stdout_of(output: Option<GitOutput>) -> (result: Option<String>)
    ensures
        result.deep_view() == trimmed_stdout(output.deep_view()),
{
    match output {
        Some(output) => Some(text::trimmed_text(output.stdout.as_str())),
        None => None,
    }
}

/// Asks for a number.
pub open spec fn number_step(replies: Seq<ReplyView>, at: nat, action: ActionView) -> GitStep<u64> {
    session::followed(
        session::asked(replies, at, action),
        |reply: ReplyView, n: nat|
            match reply {
                ReplyView::Number(number) => session::given(number, n),
                _ => session::pending(action, n),
            },
    )
}

/// Asks for a number.
pub(crate) fn ask_number(session: &mut Session, action: Action) -> (result: GitResult<u64>)
    requires
        action is NumberFetch || action is ProcessId,
    ensures
        session::stepped(
            old(session),
            final(session),
            result,
            number_step(old(session).replies(), old(session).at(), action.deep_view()),
        ),
{
    match session.ask(action)? {
        Reply::Number(number) => Ok(*number),
        _ => Ok(0),
    }
}

/// A copy of a list of byte strings.
pub(crate) fn copy_list(list: &Vec<Vec<u8>>) -> (result: Vec<Vec<u8>>)
    ensures
        result.deep_view() == list.deep_view(),
{
    let empty: Vec<Vec<u8>> = Vec::new();
    assert(empty.deep_view() + list.deep_view() =~= list.deep_view());
    commits::with_paths(empty, list)
}

/// The commit that a ref stands at, where there is such a ref.
pub open spec fn ref_oid_step(
    replies: Seq<ReplyView>,
    at: nat,
    reference: Seq<char>,
) -> GitStep<Option<Seq<char>>> {
    session::followed(
        tolerated(run_step(replies, at, seq!["rev-parse"@, "--verify"@, reference])),
        |output: Option<GitOutputView>, n: nat|
            session::given(trimmed_stdout(output), n)
    )
}

/// The value of a setting that a command prints, where it is set.
pub open spec fn config_value_step(
    replies: Seq<ReplyView>,
    at: nat,
    option: Seq<char>,
    key: Seq<char>,
) -> GitStep<Option<Seq<char>>> {
    session::followed(
        tolerated(
            run_step(
                replies,
                at,
                if option.len() == 0 {
                    seq!["config"@, "--get"@, key]
                } else {
                    seq!["config"@, option, "--get"@, key]
                },
            ),
        ),
        |output: Option<GitOutputView>, n: nat| session::given(trimmed_stdout(output), n),
    )
}

impl Git {
    /// The commit that a ref stands at, where there is such a ref.
    pub(crate) fn ref_oid_in(
        &self,
        session: &mut Session,
        reference: &str,
    ) -> (result: GitResult<Option<String>>)
        ensures
            session::stepped(
                old(session),
                final(session),
                result,
                ref_oid_step(old(session).replies(), old(session).at(), reference@),
            ),
    {
        let output = run_tolerant(session, words::words3("rev-parse", "--verify", reference))?;
        Ok(stdout_of(output))
    }

    /// The value of a setting that a command prints, where it is set.
    pub(crate) fn config_value_in(
        &self,
        session: &mut Session,
        option: &str,
        key: &str,
    ) -> (result: GitResult<Option<String>>)
        ensures
            session::stepped(
                old(session),
                final(session),
                result,
                config_value_step(old(session).replies(), old(session).at(), option@, key@),
            ),
    {
        let args = if option.is_empty() {
            words::words3("config", "--get", key)
        } else {
            words::words4("config", option, "--get", key)
        };
        let output = run_tolerant(session, args)?;
        Ok(stdout_of(output))
    }

    /// The value of a setting, where it is set.
    pub(crate) fn get_config(
        &self,
        session: &mut Session,
        key: &str,
    ) -> (result: GitResult<Option<String>>)
        ensures
            session::stepped(
                old(session),
                final(session),
                result,
                config_value_step(old(session).replies(), old(session).at(), Seq::empty(), key@),
            ),
    {
        proof {
            reveal_strlit("");
            assert(""@ =~= Seq::<char>::empty());
        }
        self.config_value_in(session, "", key)
    }
}

}
