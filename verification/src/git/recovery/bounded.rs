//! Commands with bounds: a deadline, and limits on the output that is kept.
use crate::bytes;
use crate::digest;
use crate::digest::Hasher;
use crate::git::commands;
use crate::git::commands::{GitResult, GitStep};
use crate::git::types::{GitError, GitErrorView};
use crate::session;
use crate::session::{
    Action, ActionView, BoundedCommandOutput, BoundedCommandOutputView, BoundedCommandPolicy,
    CapturedStream, CapturedStreamView, Halt, Reply, ReplyView, Session,
};
use crate::text;
use crate::words;
use vstd::prelude::*;
use vstd::slice::slice_subrange;

verus! {

broadcast use crate::bytes::bytes_are_their_view;

/// How many bytes of the output of a diagnostic command are kept.
pub const RECOVERY_DIAGNOSTIC_LIMIT: usize = 65536;

/// How many bytes of the output of a recovery command are kept.
pub const RECOVERY_OUTPUT_LIMIT: usize = 262144;

/// How many bytes a diagnostic command may write.
pub const RECOVERY_DIAGNOSTIC_CAPTURE_LIMIT: usize = 67108864;

/// How many bytes a command may write.
pub open spec fn capture_bound(policy: BoundedCommandPolicy) -> usize {
    if policy == BoundedCommandPolicy::Diagnostic {
        RECOVERY_DIAGNOSTIC_CAPTURE_LIMIT
    } else {
        usize::MAX
    }
}

/// How many bytes a command may write.
pub fn capture_limit(policy: BoundedCommandPolicy) -> (result: usize)
    ensures
        result == capture_bound(policy),
{
    if policy == BoundedCommandPolicy::Diagnostic {
        RECOVERY_DIAGNOSTIC_CAPTURE_LIMIT
    } else {
        usize::MAX
    }
}

/// Whether the digest of a command's output covers more than what is kept.
pub fn digests_all_output(policy: BoundedCommandPolicy) -> (result: bool)
    ensures
        result == (policy != BoundedCommandPolicy::RecoveryExecution),
{
    policy != BoundedCommandPolicy::RecoveryExecution
}

/// What to do with a running command.
#[derive(Debug, Clone, Copy, PartialEq, Eq, Structural)]
pub enum BoundedRunDecision {
    /// Let it run to its end, whatever the clock says: stopping Git in the middle of a recovery
    /// could leave a partial working tree or a stale lock.
    WaitForEnd,
    /// It wrote too much: end it and its descendants.
    StopForOutput,
    /// It has ended.
    Collect,
    /// The deadline has passed: end it and its descendants, and report that.
    StopForTime,
    /// Look again in a moment.
    LookAgain,
}

/// What to do with a running command, by what was seen of it in this order: that it wrote too much,
/// that it ended, that the deadline has passed.
pub open spec fn run_decision(
    policy: BoundedCommandPolicy,
    exceeded: bool,
    ended: bool,
    expired: bool,
) -> BoundedRunDecision {
    if policy == BoundedCommandPolicy::RecoveryExecution {
        BoundedRunDecision::WaitForEnd
    } else if policy == BoundedCommandPolicy::Diagnostic && exceeded {
        BoundedRunDecision::StopForOutput
    } else if ended {
        BoundedRunDecision::Collect
    } else if expired {
        BoundedRunDecision::StopForTime
    } else {
        BoundedRunDecision::LookAgain
    }
}

/// What to do with a running command.
pub fn decide_run(policy: BoundedCommandPolicy, exceeded: bool, ended: bool, expired: bool) -> (result:
    BoundedRunDecision)
    ensures
        result == run_decision(policy, exceeded, ended, expired),
{
    if policy == BoundedCommandPolicy::RecoveryExecution {
        BoundedRunDecision::WaitForEnd
    } else if policy == BoundedCommandPolicy::Diagnostic && exceeded {
        BoundedRunDecision::StopForOutput
    } else if ended {
        BoundedRunDecision::Collect
    } else if expired {
        BoundedRunDecision::StopForTime
    } else {
        BoundedRunDecision::LookAgain
    }
}

/// A recovery command that is running is never stopped.
pub proof fn running_recovery_is_not_stopped(exceeded: bool, ended: bool, expired: bool)
    ensures
        run_decision(BoundedCommandPolicy::RecoveryExecution, exceeded, ended, expired)
            == BoundedRunDecision::WaitForEnd,
{
}

/// How long to wait before looking again, in milliseconds: five, or less where the deadline is
/// nearer.
pub fn poll_delay(milliseconds_left: u64) -> (result: u64)
    ensures
        result == if milliseconds_left < 5 {
            milliseconds_left
        } else {
            5
        },
{
    if milliseconds_left < 5 {
        milliseconds_left
    } else {
        5
    }
}

/// The lesser of two numbers.
pub open spec fn lesser(left: nat, right: nat) -> nat {
    if left < right {
        left
    } else {
        right
    }
}

/// What is kept of a stream: as many bytes as both limits allow, the digest of as many as the second
/// allows or of those that are kept, and whether there was more than the first allows.
pub open spec fn captured(
    all: Seq<u8>,
    output_limit: usize,
    capture_limit: usize,
    digest_all: bool,
) -> CapturedStreamView {
    let within = all.take(lesser(capture_limit as nat, all.len()) as int);
    let kept = within.take(lesser(output_limit as nat, within.len()) as int);
    CapturedStreamView {
        bytes: kept,
        digest: digest::sha256(
            if digest_all {
                within
            } else {
                kept
            },
        ),
        truncated: lesser(all.len(), usize::MAX as nat) > output_limit,
    }
}

/// The digests of two outputs that were read whole are the same if and only if the outputs are, unless
/// the outputs are a collision of SHA-256.
pub proof fn digest_tells_outputs_apart(
    left: Seq<u8>,
    right: Seq<u8>,
    output_limit: usize,
    policy: BoundedCommandPolicy,
)
    requires
        left.len() <= capture_bound(policy),
        right.len() <= capture_bound(policy),
        !digest::collide(left, right),
    ensures
        captured(left, output_limit, capture_bound(policy), true).digest == captured(
            right,
            output_limit,
            capture_bound(policy),
            true,
        ).digest <==> left == right,
{
    assert(left.take(left.len() as int) =~= left);
    assert(right.take(right.len() as int) =~= right);
}

/// No more bytes are kept than either limit allows.
pub proof fn capture_is_bounded(
    all: Seq<u8>,
    output_limit: usize,
    capture_limit: usize,
    digest_all: bool,
)
    ensures
        captured(all, output_limit, capture_limit, digest_all).bytes.len() <= output_limit,
        captured(all, output_limit, capture_limit, digest_all).bytes.len() <= capture_limit,
        captured(all, output_limit, capture_limit, digest_all).bytes == all.take(
            captured(all, output_limit, capture_limit, digest_all).bytes.len() as int,
        ),
{
    let kept = captured(all, output_limit, capture_limit, digest_all).bytes;
    assert(kept =~= all.take(kept.len() as int));
}

/// Takes the output of a command in, chunk by chunk, and keeps no more of it than its limits allow.
pub struct OutputDrain {
    hasher: Hasher,
    bytes: Vec<u8>,
    total: usize,
    output_limit: usize,
    capture_limit: usize,
    digest_all: bool,
    received: Ghost<Seq<u8>>,
}

impl OutputDrain {
    /// All that was taken in.
    pub closed spec fn received(&self) -> Seq<u8> {
        self.received@
    }

    /// The limit on what is kept.
    pub closed spec fn output_limit(&self) -> usize {
        self.output_limit
    }

    /// The limit on what is taken in.
    pub closed spec fn capture_limit(&self) -> usize {
        self.capture_limit
    }

    /// Whether the digest covers all that is taken in.
    pub closed spec fn digest_all(&self) -> bool {
        self.digest_all
    }

    /// What is kept is the start of what was taken in.
    #[verifier::type_invariant]
    closed spec fn consistent(&self) -> bool {
        let all = self.received@;
        let within = all.take(lesser(self.capture_limit as nat, all.len()) as int);
        &&& self.total as nat == lesser(all.len(), usize::MAX as nat)
        &&& self.bytes@ == within.take(lesser(self.output_limit as nat, within.len()) as int)
        &&& digest::absorbed(self.hasher) == if self.digest_all {
            within
        } else {
            Seq::empty()
        }
    }

    /// A drain that took nothing in.
    pub fn new(output_limit: usize, capture_limit: usize, digest_all: bool) -> (result: OutputDrain)
        ensures
            result.received() == Seq::<u8>::empty(),
            result.output_limit() == output_limit,
            result.capture_limit() == capture_limit,
            result.digest_all() == digest_all,
    {
        let bytes: Vec<u8> = Vec::new();
        let hasher = Hasher::new();
        let ghost empty = Seq::<u8>::empty();
        assert(empty.take(0).take(0) =~= empty);
        assert(empty.take(0) =~= empty);
        OutputDrain {
            hasher,
            bytes,
            total: 0,
            output_limit,
            capture_limit,
            digest_all,
            received: Ghost(Seq::empty()),
        }
    }

    /// The drain after one more chunk, and whether more was taken in than the limit allows.
    pub fn push(self, chunk: &[u8]) -> (result: (OutputDrain, bool))
        ensures
            result.0.received() == self.received() + chunk@,
            result.0.output_limit() == self.output_limit(),
            result.0.capture_limit() == self.capture_limit(),
            result.0.digest_all() == self.digest_all(),
            result.1 == (lesser((self.received() + chunk@).len(), usize::MAX as nat)
                > self.capture_limit()),
    {
        proof {
            use_type_invariant(&self);
        }
        let ghost all = self.received@;
        let ghost longer = all + chunk@;
        let OutputDrain {
            mut hasher,
            mut bytes,
            total,
            output_limit,
            capture_limit,
            digest_all,
            received,
        } = self;
        let room: usize = if capture_limit > total {
            capture_limit - total
        } else {
            0
        };
        let within: usize = if room < chunk.len() {
            room
        } else {
            chunk.len()
        };
        let part = slice_subrange(chunk, 0, within);
        let ghost before = all.take(lesser(capture_limit as nat, all.len()) as int);
        let ghost after = longer.take(lesser(capture_limit as nat, longer.len()) as int);
        assert(after =~= before + part@);
        if digest_all {
            hasher.update(part);
        }
        let space: usize = if output_limit > bytes.len() {
            output_limit - bytes.len()
        } else {
            0
        };
        let retained: usize = if space < within {
            space
        } else {
            within
        };
        let kept = slice_subrange(chunk, 0, retained);
        let ghost old_bytes = bytes@;
        bytes.extend_from_slice(kept);
        assert(bytes@ =~= after.take(lesser(output_limit as nat, after.len()) as int)) by {
            assert(bytes@ == old_bytes + kept@);
            assert(old_bytes == before.take(lesser(output_limit as nat, before.len()) as int));
        }
        let total: usize = if chunk.len() > usize::MAX - total {
            usize::MAX
        } else {
            total + chunk.len()
        };
        let exceeded = total > capture_limit;
        (
            OutputDrain {
                hasher,
                bytes,
                total,
                output_limit,
                capture_limit,
                digest_all,
                received: Ghost(received@ + chunk@),
            },
            exceeded,
        )
    }

    /// What is kept of the stream.
    pub fn finish(self) -> (result: CapturedStream)
        ensures
            result.deep_view() == captured(
                self.received(),
                self.output_limit(),
                self.capture_limit(),
                self.digest_all(),
            ),
    {
        proof {
            use_type_invariant(&self);
        }
        let OutputDrain { mut hasher, bytes, total, output_limit, digest_all, .. } = self;
        if !digest_all {
            hasher.update(bytes.as_slice());
            assert(Seq::<u8>::empty() + bytes@ =~= bytes@);
        }
        let sum = hasher.finalize();
        let digest = vstd::slice::slice_to_vec(sum.as_slice());
        CapturedStream { bytes, digest, truncated: total > output_limit }
    }
}

/// What is shown of a stream; a mark says that there was more.
pub open spec fn stream_text(stream: CapturedStreamView) -> Seq<char> {
    let shown = bytes::lossy_text(stream.bytes);
    let mark = "[output truncated by bitbygit]\n"@;
    if !stream.truncated {
        shown
    } else if shown.len() > 0 && shown.last() != '\n' {
        shown.push('\n') + mark
    } else {
        shown + mark
    }
}

impl CapturedStream {
    /// What is shown of a stream.
    pub fn lossy_text(&self) -> (result: String)
        ensures
            result@ == stream_text(self.deep_view()),
    {
        let mut shown = bytes::lossy(self.bytes.as_slice());
        if self.truncated {
            let characters = text::chars_of(shown.as_str());
            if characters.len() > 0 && characters[characters.len() - 1] != '\n' {
                shown.push('\n');
            }
            shown.append("[output truncated by bitbygit]\n");
        }
        shown
    }

    /// A copy of what is kept of a stream.
    pub fn copied(&self) -> (result: CapturedStream)
        ensures
            result.deep_view() == self.deep_view(),
    {
        CapturedStream {
            bytes: bytes::copy_bytes(self.bytes.as_slice()),
            digest: bytes::copy_bytes(self.digest.as_slice()),
            truncated: self.truncated,
        }
    }
}

/// The error of a command that ended without success.
pub open spec fn command_failure(output: BoundedCommandOutputView, args: Seq<Seq<char>>) -> GitErrorView {
    GitErrorView::GitFailed {
        args,
        status: output.status,
        stdout: stream_text(output.stdout),
        stderr: stream_text(output.stderr),
    }
}

impl BoundedCommandOutput {
    /// The error of a command that ended without success.
    pub fn git_error(&self, args: Vec<String>) -> (result: GitError)
        ensures
            result.deep_view() == command_failure(self.deep_view(), args.deep_view()),
    {
        GitError::GitFailed {
            args,
            status: self.status.copied(),
            stdout: self.stdout.lossy_text(),
            stderr: self.stderr.lossy_text(),
        }
    }

    /// A copy of an output.
    pub fn copied(&self) -> (result: BoundedCommandOutput)
        ensures
            result.deep_view() == self.deep_view(),
    {
        BoundedCommandOutput {
            status: self.status.copied(),
            stdout: self.stdout.copied(),
            stderr: self.stderr.copied(),
        }
    }

    /// Whether the command ended with a code.
    pub fn ended_with(&self, code: i32) -> (result: bool)
        ensures
            result == (self.deep_view().status.code == Some(code)),
    {
        match self.status.code {
            Some(found) => found == code,
            None => false,
        }
    }
}

/// Runs Git with bounds.
pub open spec fn bounded_step(
    replies: Seq<ReplyView>,
    at: nat,
    args: Seq<Seq<char>>,
    optional_locks: bool,
    policy: BoundedCommandPolicy,
) -> GitStep<BoundedCommandOutputView> {
    let action = ActionView::RunBounded { args, optional_locks, policy };
    session::followed(
        session::asked(replies, at, action),
        |reply: ReplyView, n: nat|
            match reply {
                ReplyView::Captured { output, exceeded } => if policy
                    == BoundedCommandPolicy::Diagnostic && exceeded {
                    session::failed(
                        commands::refusal(
                            "git "@ + text::joined(args, " "@)
                                + " output exceeded the bounded capture limit"@,
                        ),
                        n,
                    )
                } else {
                    session::given(output, n)
                },
                ReplyView::TimedOut => session::failed(GitErrorView::TimedOut { args }, n),
                ReplyView::Failed(source) => session::failed(GitErrorView::Io { args, source }, n),
                _ => session::pending(action, n),
            },
    )
}

/// Runs Git with bounds.
pub(crate) fn run_bounded(
    session: &mut Session,
    args: Vec<String>,
    optional_locks: bool,
    policy: BoundedCommandPolicy,
) -> (result: GitResult<BoundedCommandOutput>)
    ensures
        session::stepped(
            old(session),
            final(session),
            result,
            bounded_step(
                old(session).replies(),
                old(session).at(),
                args.deep_view(),
                optional_locks,
                policy,
            ),
        ),
{
    let action = Action::RunBounded { args: text::clone_texts(&args), optional_locks, policy };
    match session.ask(action)? {
        Reply::Captured { output, exceeded } => {
            if policy == BoundedCommandPolicy::Diagnostic && *exceeded {
                let shown = text::join(&args, " ");
                let message = text::concat3(
                    "git ",
                    shown.as_str(),
                    " output exceeded the bounded capture limit",
                );
                Err(Halt::Failed(commands::blocked(message.as_str())))
            } else {
                Ok(output.copied())
            }
        },
        Reply::TimedOut => Err(Halt::Failed(GitError::TimedOut { args })),
        Reply::Failed(source) => Err(Halt::Failed(GitError::Io { args, source: source.copied() })),
        _ => Err(Halt::Pending(Action::RunBounded { args, optional_locks, policy })),
    }
}

/// Runs a diagnostic command.
pub open spec fn probe_step(replies: Seq<ReplyView>, at: nat, args: Seq<Seq<char>>) -> GitStep<
    BoundedCommandOutputView,
> {
    bounded_step(replies, at, args, true, BoundedCommandPolicy::Diagnostic)
}

/// Runs a diagnostic command.
pub(crate) fn probe(session: &mut Session, args: Vec<String>) -> (result: GitResult<
    BoundedCommandOutput,
>)
    ensures
        session::stepped(
            old(session),
            final(session),
            result,
            probe_step(old(session).replies(), old(session).at(), args.deep_view()),
        ),
{
    run_bounded(session, args, true, BoundedCommandPolicy::Diagnostic)
}

/// Runs a diagnostic command that has to succeed, and whose output has to be kept whole: `too_long`
/// is the refusal where it is not.
pub open spec fn whole_output_step(
    replies: Seq<ReplyView>,
    at: nat,
    args: Seq<Seq<char>>,
    too_long: Seq<char>,
) -> GitStep<BoundedCommandOutputView> {
    session::followed(
        probe_step(replies, at, args),
        |output: BoundedCommandOutputView, n: nat|
            if !commands::succeeded(output.status) {
                session::failed(command_failure(output, args), n)
            } else if output.stdout.truncated {
                session::failed(commands::refusal(too_long), n)
            } else {
                session::given(output, n)
            },
    )
}

/// Runs a diagnostic command that has to succeed, and whose output has to be kept whole.
pub(crate) fn whole_output(session: &mut Session, args: Vec<String>, too_long: &str) -> (result:
    GitResult<BoundedCommandOutput>)
    ensures
        session::stepped(
            old(session),
            final(session),
            result,
            whole_output_step(
                old(session).replies(),
                old(session).at(),
                args.deep_view(),
                too_long@,
            ),
        ),
{
    let output = probe(session, text::clone_texts(&args))?;
    if !output.status.success() {
        return Err(Halt::Failed(output.git_error(args)));
    }
    if output.stdout.truncated {
        return Err(Halt::Failed(commands::blocked(too_long)));
    }
    Ok(output)
}

/// The refusal of a repository path that is too long.
pub open spec fn git_path_too_long(path: Seq<char>) -> Seq<char> {
    "recovery planning is blocked because Git path "@ + path + " is too long"@
}

/// The path of a file of the repository's own.
pub open spec fn git_path_until_step(replies: Seq<ReplyView>, at: nat, path: Seq<char>) -> GitStep<
    Seq<u8>,
> {
    session::followed(
        whole_output_step(
            replies,
            at,
            seq!["rev-parse"@, "--path-format=absolute"@, "--git-path"@, path],
            git_path_too_long(path),
        ),
        |output: BoundedCommandOutputView, n: nat|
            session::given(bytes::without_line_ending(output.stdout.bytes), n),
    )
}

/// The path of a file of the repository's own.
pub(crate) fn git_path_until(session: &mut Session, path: &str) -> (result: GitResult<Vec<u8>>)
    ensures
        session::stepped(
            old(session),
            final(session),
            result,
            git_path_until_step(old(session).replies(), old(session).at(), path@),
        ),
{
    let too_long = text::concat3(
        "recovery planning is blocked because Git path ",
        path,
        " is too long",
    );
    let output = whole_output(
        session,
        words::words4("rev-parse", "--path-format=absolute", "--git-path", path),
        too_long.as_str(),
    )?;
    Ok(bytes::copy_bytes(bytes::strip_byte_line_ending(output.stdout.bytes.as_slice())))
}

/// The top directory of the repository.
pub open spec fn repo_root_until_step(replies: Seq<ReplyView>, at: nat) -> GitStep<Seq<u8>> {
    session::followed(
        whole_output_step(
            replies,
            at,
            seq!["rev-parse"@, "--show-toplevel"@],
            "recovery planning is blocked because the repository path is too long"@,
        ),
        |output: BoundedCommandOutputView, n: nat|
            session::given(bytes::without_line_ending(output.stdout.bytes), n),
    )
}

/// The top directory of the repository.
pub(crate) fn repo_root_until(session: &mut Session) -> (result: GitResult<Vec<u8>>)
    ensures
        session::stepped(
            old(session),
            final(session),
            result,
            repo_root_until_step(old(session).replies(), old(session).at()),
        ),
{
    let output = whole_output(
        session,
        words::words2("rev-parse", "--show-toplevel"),
        "recovery planning is blocked because the repository path is too long",
    )?;
    Ok(bytes::copy_bytes(bytes::strip_byte_line_ending(output.stdout.bytes.as_slice())))
}

/// The error where the deadline has passed; `what` names the work that it was for.
pub open spec fn out_of_time(what: Seq<char>) -> GitErrorView {
    GitErrorView::TimedOut { args: seq![what] }
}

/// Fails where the deadline has passed.
pub open spec fn in_time_step(replies: Seq<ReplyView>, at: nat, error: GitErrorView) -> GitStep<()> {
    session::followed(
        session::asked(replies, at, ActionView::CheckDeadline),
        |reply: ReplyView, n: nat|
            match reply {
                ReplyView::TimedOut => session::failed(error, n),
                _ => session::given((), n),
            },
    )
}

/// Fails where the deadline has passed.
pub(crate) fn ensure_in_time(session: &mut Session, args: Vec<String>) -> (result: GitResult<()>)
    ensures
        session::stepped(
            old(session),
            final(session),
            result,
            in_time_step(
                old(session).replies(),
                old(session).at(),
                GitErrorView::TimedOut { args: args.deep_view() },
            ),
        ),
{
    match session.ask(Action::CheckDeadline)? {
        Reply::TimedOut => Err(Halt::Failed(GitError::TimedOut { args })),
        _ => Ok(()),
    }
}

/// Sets the deadline.
pub open spec fn start_step(replies: Seq<ReplyView>, at: nat, milliseconds: u64) -> GitStep<()> {
    session::followed(
        session::asked(replies, at, ActionView::StartDeadline { milliseconds }),
        |_reply: ReplyView, n: nat| session::given((), n),
    )
}

/// Sets the deadline.
pub(crate) fn start_deadline(session: &mut Session, milliseconds: u64) -> (result: GitResult<()>)
    ensures
        session::stepped(
            old(session),
            final(session),
            result,
            start_step(old(session).replies(), old(session).at(), milliseconds),
        ),
{
    session.ask(Action::StartDeadline { milliseconds })?;
    Ok(())
}

}
