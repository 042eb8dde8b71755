//! What is said of an operation that failed.
use crate::git::types::{GitError, GitErrorView, OutputStream};
use crate::text;
use vstd::prelude::*;

verus! {

/// What an output stream is called.
pub open spec fn stream_label(stream: OutputStream) -> Seq<char> {
    match stream {
        OutputStream::Stdout => "stdout"@,
        OutputStream::Stderr => "stderr"@,
    }
}

impl OutputStream {
    /// What this output stream is called.
    pub fn label(self) -> (result: &'static str)
        ensures
            result@ == stream_label(self),
    {
        match self {
            OutputStream::Stdout => "stdout",
            OutputStream::Stderr => "stderr",
        }
    }
}

/// What is shown of a command that failed: what it wrote about errors, or else what it wrote.
pub open spec fn failure_detail(stdout: Seq<char>, stderr: Seq<char>) -> Seq<char> {
    if text::trimmed(stderr).len() > 0 {
        text::trimmed(stderr)
    } else if text::trimmed(stdout).len() > 0 {
        text::trimmed(stdout)
    } else {
        "no output"@
    }
}

/// What is said of an operation that failed.
pub open spec fn git_message(error: GitErrorView) -> Seq<char> {
    match error {
        GitErrorView::Io { args, source } => "failed to run git "@ + text::joined(args, " "@)
            + ": "@ + source.message,
        GitErrorView::Utf8 { args, stream, detail } => "git "@ + text::joined(args, " "@)
            + " returned non-UTF-8 "@ + stream_label(stream) + ": "@ + detail,
        GitErrorView::GitFailed { args, status, stdout, stderr } => "git "@ + text::joined(
            args,
            " "@,
        ) + " failed with status "@ + status.description + ": "@ + failure_detail(stdout, stderr),
        GitErrorView::TimedOut { args } => "git "@ + text::joined(args, " "@) + " timed out"@,
        GitErrorView::Blocked { message } => message,
        GitErrorView::Parse { message } => "failed to parse git output: "@ + message,
    }
}

/// What is shown of a command that failed.
fn show_detail(stdout: &str, stderr: &str) -> (result: String)
    ensures
        result@ == failure_detail(stdout@, stderr@),
{
    let errors = text::chars_of(stderr);
    let said = text::trim(errors.as_slice());
    if said.len() > 0 {
        return text::string_of(said);
    }
    let output = text::chars_of(stdout);
    let said = text::trim(output.as_slice());
    if said.len() > 0 {
        return text::string_of(said);
    }
    "no output".to_owned()
}

impl GitError {
    /// What is said of this error.
    pub fn message(&self) -> (result: String)
        ensures
            result@ == git_message(self.deep_view()),
    {
        match self {
            GitError::Io { args, source } => {
                let command = text::join(args, " ");
                text::concat4(
                    "failed to run git ",
                    command.as_str(),
                    ": ",
                    source.message.as_str(),
                )
            },
            GitError::Utf8 { args, stream, detail } => {
                let command = text::join(args, " ");
                let before = text::concat4(
                    "git ",
                    command.as_str(),
                    " returned non-UTF-8 ",
                    stream.label(),
                );
                text::concat3(before.as_str(), ": ", detail.as_str())
            },
            GitError::GitFailed { args, status, stdout, stderr } => {
                let command = text::join(args, " ");
                let detail = show_detail(stdout.as_str(), stderr.as_str());
                let before = text::concat4(
                    "git ",
                    command.as_str(),
                    " failed with status ",
                    status.description.as_str(),
                );
                text::concat3(before.as_str(), ": ", detail.as_str())
            },
            GitError::TimedOut { args } => {
                let command = text::join(args, " ");
                text::concat3("git ", command.as_str(), " timed out")
            },
            GitError::Blocked { message } => message.as_str().to_owned(),
            GitError::Parse { message } => text::concat2(
                "failed to parse git output: ",
                message.as_str(),
            ),
        }
    }
}

}
