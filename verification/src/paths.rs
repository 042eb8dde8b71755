//! Paths, quoted texts and messages: what is put together can be taken apart again.
use crate::bytes;
use crate::git::errors;
use crate::git::recovery::files;
use crate::git::recovery::lock;
use crate::git::refs;
use crate::git::types::{ExitStatusView, GitErrorView, IoFailureView, OutputStream};
use crate::github;
use crate::github::{GhErrorView, GhSetupStatus};
use crate::parts;
use crate::store::types;
use crate::store::types::StoreErrorView;
use crate::text;
use vstd::prelude::*;
use vstd::utf8;

verus! {

/// Whether some bytes are the name of something in a directory.
pub open spec fn is_name(name: Seq<u8>) -> bool {
    name.len() > 0 && !name.contains(47u8) && name != seq![46u8] && name != seq![46u8, 46u8]
}

/// Whether a path ends as a directory is written: not with a slash or a dot behind one.
pub open spec fn is_plain_directory(path: Seq<u8>) -> bool {
    &&& path.len() > 0
    &&& path.last() != 47
    &&& !(path.len() > 1 && path.last() == 46 && path[path.len() - 2] == 47)
}

/// A name below a directory stands behind one slash; a path that starts at the root stands alone.
pub proof fn names_stand_behind_their_directory(base: Seq<u8>, tail: Seq<u8>)
    ensures
        tail.len() > 0 && tail[0] == 47 ==> bytes::joined_path(base, tail) == tail,
        (tail.len() == 0 || tail[0] != 47) && base.len() > 0 && base.last() != 47
            ==> bytes::joined_path(base, tail) == base + seq![47u8] + tail,
        (tail.len() == 0 || tail[0] != 47) && base.len() > 0 && base.last() == 47
            ==> bytes::joined_path(base, tail) == base + tail,
        bytes::joined_path(Seq::empty(), tail) == tail,
{
    assert(base.push(47) + tail =~= base + seq![47u8] + tail);
    assert(Seq::<u8>::empty() + tail =~= tail);
}

/// The name and the directory of a path are those that it was made of.
pub proof fn paths_are_taken_apart(base: Seq<u8>, name: Seq<u8>)
    requires
        is_plain_directory(base),
        is_name(name),
    ensures
        bytes::file_name(bytes::joined_path(base, name)) == Some(name),
        bytes::parent(bytes::joined_path(base, name)) == Some(base),
{
    let path = bytes::joined_path(base, name);
    if name[0] == 47 {
        assert(name.contains(47u8));
    }
    names_stand_behind_their_directory(base, name);
    lemma_kept_name(base + seq![47u8], name);
    let at = base.len() as int;
    assert(path.take(at + 1) =~= base.push(47));
    assert(path.skip(at + 1) =~= name);
    assert(base.push(47).drop_last() =~= base);
    assert(bytes::trimmed_path(base) == base);
    assert(bytes::trimmed_path(base.push(47)) == base);
    assert(path.len() > 1);
}

/// Nothing is trimmed from a path that ends with a name, and the last slash stands before the name.
proof fn lemma_kept_name(lead: Seq<u8>, name: Seq<u8>)
    requires
        lead.len() > 0,
        lead.last() == 47,
        is_name(name),
    ensures
        bytes::trimmed_path(lead + name) == lead + name,
        text::last_position_of(lead + name, 47u8) == lead.len() - 1,
{
    let path = lead + name;
    assert(path.last() == name.last());
    if name.last() == 47 {
        assert(name[name.len() - 1] == 47);
        assert(name.contains(47u8));
    }
    if path.last() == 46 && path[path.len() - 2] == 47 {
        if name.len() >= 2 {
            assert(path[path.len() - 2] == name[name.len() - 2]);
            assert(name.contains(47u8));
        } else {
            assert(name =~= seq![46u8]);
        }
    }
    text::lemma_last_position(path, 47u8);
    let found = text::last_position_of(path, 47u8);
    assert(path[lead.len() - 1] == 47);
    if found >= lead.len() {
        assert(path[found] == name[found - lead.len()]);
        assert(name.contains(47u8));
    }
}

/// The key of a lock is read back from the path of its file.
pub proof fn keys_of_locks_are_read_back(home: Seq<u8>, key: Seq<char>)
    requires
        is_plain_directory(home),
        key.len() == 64,
        files::all_hex(key),
    ensures
        lock::key_in_path(bytes::joined_path(home, utf8::encode_utf8(key + ".lock"@))) == Some(key),
{
    reveal_strlit(".lock");
    let shown = key + ".lock"@;
    let name = utf8::encode_utf8(shown);
    assert forall|i: int| 0 <= i < shown.len() implies '\0' <= #[trigger] shown[i] <= '\u{7f}'
        && shown[i] != '/' by {
        if i < key.len() {
            assert(files::is_hex(key[i]));
            assert(shown[i] == key[i]);
        } else {
            assert(shown[i] == ".lock"@[i - key.len()]);
        }
    }
    assert(utf8::is_ascii_chars(shown));
    utf8::is_ascii_chars_encode_utf8(shown);
    if name.contains(47u8) {
        let at = choose|at: int| 0 <= at < name.len() && name[at] == 47u8;
        assert(shown[at] as u8 == 47u8);
        assert(shown[at] == '/');
    }
    assert(name.len() > 2);
    paths_are_taken_apart(home, name);
    utf8::encode_utf8_valid_utf8(shown);
    utf8::encode_utf8_decode_utf8(shown);
    assert(shown.take(shown.len() - 5) =~= key);
    assert(shown.skip(shown.len() - 5) =~= ".lock"@);
}

/// A path with `..` as one of its parts climbs, wherever in the path it is, and one without does not.
pub proof fn paths_climb_by_two_dots(before: Seq<Seq<u8>>, behind: Seq<u8>)
    requires
        parts::free_of(before, 47u8),
        !behind.contains(47u8),
    ensures
        bytes::climbs(parts::written(before.push(seq![46u8, 46u8]), 47u8) + behind),
        bytes::climbs(parts::written(before, 47u8) + seq![46u8, 46u8]),
        bytes::climbs(parts::written(before, 47u8) + behind) <==> before.push(behind).contains(
            seq![46u8, 46u8],
        ),
{
    let dots = seq![46u8, 46u8];
    let longer = before.push(dots);
    assert(!dots.contains(47u8));
    assert forall|i: int| 0 <= i < longer.len() implies !(#[trigger] longer[i]).contains(47u8) by {
        if i < before.len() {
            assert(longer[i] == before[i]);
        }
    }
    parts::split_parts_are_those_written(longer, behind, 47u8);
    parts::split_parts_are_those_written(before, dots, 47u8);
    parts::split_parts_are_those_written(before, behind, 47u8);
    assert(longer.push(behind)[before.len() as int] == dots);
    assert(before.push(dots)[before.len() as int] == dots);
}

/// How a shell reads a text: within single quotes everything stands for itself, and outside of them a backslash makes the
/// next character stand for itself.
pub open spec fn shell_reads(value: Seq<char>, quoted: bool) -> Option<Seq<char>>
    decreases value.len(),
{
    if value.len() == 0 {
        if quoted {
            None
        } else {
            Some(Seq::empty())
        }
    } else if value[0] == '\'' {
        shell_reads(value.skip(1), !quoted)
    } else if !quoted && value[0] == '\\' {
        if value.len() < 2 {
            None
        } else {
            match shell_reads(value.skip(2), false) {
                Some(rest) => Some(seq![value[1]] + rest),
                None => None,
            }
        }
    } else {
        match shell_reads(value.skip(1), quoted) {
            Some(rest) => Some(seq![value[0]] + rest),
            None => None,
        }
    }
}

/// A quoted text is read by a shell as the text itself, quotes, spaces and dollar signs included.
pub proof fn quoted_texts_are_read_as_they_are(value: Seq<char>)
    ensures
        shell_reads(refs::quoted(value), false) == Some(value),
{
    reveal_strlit("'");
    let end = "'"@;
    let whole = refs::quoted(value);
    assert(end.skip(1) =~= Seq::<char>::empty());
    reveal_with_fuel(shell_reads, 2);
    assert(shell_reads(end, true) == Some(Seq::<char>::empty()));
    lemma_escaped(value, end, Seq::empty());
    assert(whole[0] == '\'');
    assert(whole.skip(1) =~= refs::escaped(value) + end);
    assert(value + Seq::<char>::empty() =~= value);
}

/// An escaped text within quotes is read as the text itself, and what follows it as it is.
#[verifier::spinoff_prover]
proof fn lemma_escaped(value: Seq<char>, more: Seq<char>, rest: Seq<char>)
    requires
        shell_reads(more, true) == Some(rest),
    ensures
        shell_reads(refs::escaped(value) + more, true) == Some(value + rest),
    decreases value.len(),
{
    if value.len() == 0 {
        assert(refs::escaped(value) + more =~= more);
        assert(value + rest =~= rest);
    } else {
        let last = value.last();
        let before = value.drop_last();
        if last == '\'' {
            reveal_strlit("'\\''");
            let mark = "'\\''"@;
            let tail = mark + more;
            let t1 = tail.skip(1);
            let t2 = t1.skip(2);
            assert(tail[0] == '\'');
            assert(t1[0] == '\\' && t1[1] == '\'' && t1.len() >= 2);
            assert(t2[0] == '\'');
            assert(t2.skip(1) =~= more);
            assert(shell_reads(t2, false) == Some(rest));
            assert(shell_reads(t1, false) == Some(seq!['\''] + rest));
            assert(shell_reads(tail, true) == Some(seq!['\''] + rest));
            lemma_escaped(before, tail, seq!['\''] + rest);
            assert(refs::escaped(value) + more =~= refs::escaped(before) + tail);
            assert(before + (seq!['\''] + rest) =~= value + rest);
        } else {
            let tail = seq![last] + more;
            assert(tail[0] == last);
            assert(tail.skip(1) =~= more);
            assert(shell_reads(tail, true) == Some(seq![last] + rest));
            lemma_escaped(before, tail, seq![last] + rest);
            assert(refs::escaped(value) + more =~= refs::escaped(before) + tail);
            assert(before + (seq![last] + rest) =~= value + rest);
        }
    }
}

/// One more text is joined behind the separator.
pub proof fn texts_are_joined_in_order(
    list: Seq<Seq<char>>,
    last: Seq<char>,
    separator: Seq<char>,
)
    ensures
        text::joined(Seq::empty(), separator) == Seq::<char>::empty(),
        text::joined(seq![last], separator) == last,
        list.len() > 0 ==> text::joined(list.push(last), separator) == text::joined(list, separator)
            + separator + last,
{
    assert(list.push(last).drop_last() =~= list);
}

/// A command that failed is told with its words, its status and what it wrote to its error output, or else to its output.
pub proof fn failed_commands_tell_what_they_wrote(
    args: Seq<Seq<char>>,
    status: ExitStatusView,
    stdout: Seq<char>,
    stderr: Seq<char>,
)
    ensures
        ({
            let lead = "git "@ + text::joined(args, " "@) + " failed with status "@
                + status.description + ": "@;
            let told = errors::git_message(
                GitErrorView::GitFailed { args, status, stdout, stderr },
            );
            &&& text::trimmed(stderr).len() > 0 ==> told == lead + text::trimmed(stderr)
            &&& text::trimmed(stderr).len() == 0 && text::trimmed(stdout).len() > 0 ==> told == lead
                + text::trimmed(stdout)
            &&& text::trimmed(stderr).len() == 0 && text::trimmed(stdout).len() == 0 ==> told
                == lead + "no output"@
        }),
        errors::git_message(GitErrorView::Blocked { message: stdout }) == stdout,
{
}

/// The other faults of Git are told by the words of the command and what went wrong.
pub proof fn faults_of_git_are_told(
    args: Seq<Seq<char>>,
    source: IoFailureView,
    detail: Seq<char>,
)
    ensures
        ({
            let command = "git "@ + text::joined(args, " "@);
            &&& errors::git_message(GitErrorView::Io { args, source }) == "failed to run git "@
                + text::joined(args, " "@) + ": "@ + source.message
            &&& errors::git_message(GitErrorView::TimedOut { args }) == command + " timed out"@
            &&& errors::git_message(
                GitErrorView::Utf8 { args, stream: OutputStream::Stdout, detail },
            ) == command + " returned non-UTF-8 "@ + "stdout"@ + ": "@ + detail
            &&& errors::git_message(
                GitErrorView::Utf8 { args, stream: OutputStream::Stderr, detail },
            ) == command + " returned non-UTF-8 "@ + "stderr"@ + ": "@ + detail
            &&& errors::git_message(GitErrorView::Parse { message: detail })
                == "failed to parse git output: "@ + detail
        }),
{
}

/// The faults of the GitHub tool are told by what went wrong, and by what to do where it is missing or knows no user.
pub proof fn faults_of_github_are_told(
    source: IoFailureView,
    status: ExitStatusView,
    name: Seq<char>,
)
    ensures
        github::gh_message(GhErrorView::MissingCli)
            == "GitHub CLI (gh) is not installed. Install it from https://cli.github.com/."@,
        github::gh_message(GhErrorView::NotAuthenticated)
            == "GitHub CLI is not authenticated. Run `gh auth login` and try again."@,
        github::gh_message(GhErrorView::Io { source }) == "failed to run GitHub CLI: "@
            + source.message,
        github::gh_message(GhErrorView::CommandFailed { status })
            == "GitHub CLI failed with status "@ + status.description,
        github::gh_message(GhErrorView::InvalidInput { name }) == "pull request "@ + name
            + " must not be empty"@,
        github::gh_message(GhErrorView::InvalidOutput { operation: name })
            == "GitHub CLI returned invalid output for "@ + name,
        github::setup_guidance(GhSetupStatus::Ready) is None,
        github::setup_guidance(GhSetupStatus::MissingCli) == Some(
            github::gh_message(GhErrorView::MissingCli),
        ),
        github::setup_guidance(GhSetupStatus::NotAuthenticated) == Some(
            github::gh_message(GhErrorView::NotAuthenticated),
        ),
{
}

/// The faults of the store are told by the path and what went wrong.
pub proof fn faults_of_the_store_are_told(
    path: Seq<u8>,
    source: IoFailureView,
    message: Seq<char>,
)
    ensures
        ({
            let shown = bytes::lossy_text(path);
            &&& types::store_message(StoreErrorView::HomeDirectoryUnavailable)
                == "home directory is unavailable"@
            &&& types::store_message(StoreErrorView::ClockBeforeUnixEpoch)
                == "system clock is before Unix epoch"@
            &&& types::store_message(StoreErrorView::Io { path, source }) == "failed to access "@
                + shown + ": "@ + source.message
            &&& types::store_message(StoreErrorView::Parse { path: Some(path), message })
                == "failed to parse "@ + shown + ": "@ + message
            &&& types::store_message(StoreErrorView::Parse { path: None, message })
                == "failed to parse store data: "@ + message
            &&& types::store_message(StoreErrorView::InvalidRepository { path, message }) == shown
                + " is not a usable Git repository: "@ + message
            &&& types::store_message(StoreErrorView::UnknownRepository { id: message })
                == "unknown repository id "@ + message
        }),
{
}

}
