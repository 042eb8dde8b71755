//! Pushing, pulling and fetching, and where a push goes.
use crate::git::branches;
use crate::git::commands;
use crate::git::commands::{Git, GitResult, GitStep};
use crate::git::inspect;
use crate::git::refs;
use crate::git::status;
use crate::git::types::{
    GitError, GitErrorView, GitOutput, GitOutputView, HeadTarget, HeadTargetView,
};
use crate::number;
use crate::session;
use crate::session::{Action, ActionView, Halt, Reply, ReplyView, Session};
use crate::text;
use crate::words;
use vstd::prelude::*;

verus! {

broadcast use crate::bytes::bytes_are_their_view;

/// The object name that stands for no object.
pub const ZERO_OID: &'static str = "0000000000000000000000000000000000000000";

/// The first word of the first line of some output.
pub open spec fn first_word(output: Seq<char>) -> Option<Seq<char>> {
    let lines = text::text_lines(output);
    if lines.len() > 0 && text::words(lines[0]).len() > 0 {
        Some(text::words(lines[0])[0])
    } else {
        None
    }
}

/// The first word of the first line of some output.
fn first_word_of(output: &str) -> (result: Option<String>)
    ensures
        result.deep_view() == first_word(output@),
{
    let characters = text::chars_of(output);
    let lines = text::lines(characters.as_slice());
    assert(lines@.len() == text::slices(lines@).len());
    if lines.len() == 0 {
        return None;
    }
    assert(text::slices(lines@)[0] == lines@[0]@);
    let parts = text::split_whitespace(lines[0]);
    assert(parts@.len() == text::slices(parts@).len());
    if parts.len() == 0 {
        return None;
    }
    assert(text::slices(parts@)[0] == parts@[0]@);
    Some(text::string_of(parts[0]))
}

/// Lines without the white space around them; blank ones are left out.
pub open spec fn filled_lines(lines: Seq<Seq<char>>) -> Seq<Seq<char>>
    decreases lines.len(),
{
    if lines.len() == 0 {
        Seq::empty()
    } else if text::trimmed(lines.last()).len() == 0 {
        filled_lines(lines.drop_last())
    } else {
        filled_lines(lines.drop_last()).push(text::trimmed(lines.last()))
    }
}

/// The lines of some output without the white space around them; blank ones are left out.
pub(crate) fn filled_lines_of(output: &str) -> (result: Vec<String>)
    ensures
        result.deep_view() == filled_lines(text::text_lines(output@)),
{
    let characters = text::chars_of(output);
    let lines = text::lines(characters.as_slice());
    let ghost all = text::slices(lines@);
    let mut result: Vec<String> = Vec::new();
    assert(result.deep_view() =~= Seq::<Seq<char>>::empty());
    let mut index: usize = 0;
    assert(all.take(0) =~= Seq::<Seq<char>>::empty());
    while index < lines.len()
        invariant
            index <= lines@.len(),
            all == text::slices(lines@),
            result.deep_view() == filled_lines(all.take(index as int)),
        decreases lines@.len() - index,
    {
        assert(all.take(index + 1).drop_last() =~= all.take(index as int));
        assert(all.take(index + 1).last() == lines@[index as int]@);
        let line = text::trim(lines[index]);
        if line.len() > 0 {
            let shown = text::string_of(line);
            words::push_word(&mut result, shown.as_str());
        }
        index += 1;
    }
    assert(all.take(index as int) =~= all);
    result
}

/// A text without a prefix, where it has it.
pub open spec fn without_prefix(value: Seq<char>, prefix: Seq<char>) -> Seq<char> {
    if text::has_prefix(value, prefix) {
        value.skip(prefix.len() as int)
    } else {
        value
    }
}

/// A text without a prefix, where it has it.
fn strip_start(value: &str, prefix: &str) -> (result: String)
    ensures
        result@ == without_prefix(value@, prefix@),
{
    let characters = text::chars_of(value);
    match text::strip_text_prefix(characters.as_slice(), prefix) {
        Some(rest) => text::string_of(rest),
        None => value.to_owned(),
    }
}

/// The value of `push.default`, which is `simple` where it is not set.
pub open spec fn setting_or_simple(setting: Option<Seq<char>>) -> Seq<char> {
    match setting {
        Some(value) => value,
        None => "simple"@,
    }
}

/// Where a push goes to a remote for which Git names no branch.
pub open spec fn simple_target(
    setting: Option<Seq<char>>,
    remote: Seq<char>,
    upstream: Option<(Seq<char>, Seq<char>)>,
    branch: Seq<char>,
) -> Option<(Seq<char>, Seq<char>)> {
    if setting_or_simple(setting) != "simple"@ || upstream is None {
        None
    } else if upstream->Some_0.0 == remote {
        Some((remote, upstream->Some_0.1))
    } else {
        Some((remote, branch))
    }
}

/// Where a push goes to a remote for which Git names no branch.
fn pick_simple_target(
    setting: Option<String>,
    remote: &[char],
    upstream: Option<(String, String)>,
    branch: &str,
) -> (result: Option<(String, String)>)
    ensures
        result.deep_view() == simple_target(
            setting.deep_view(),
            remote@,
            upstream.deep_view(),
            branch@,
        ),
{
    let simple = match &setting {
        Some(value) => text::same_text(value.as_str(), "simple"),
        None => true,
    };
    if !simple {
        return None;
    }
    match upstream {
        Some((upstream_remote, upstream_branch)) => {
            if text::is_text(remote, upstream_remote.as_str()) {
                Some((text::string_of(remote), upstream_branch))
            } else {
                Some((text::string_of(remote), branch.to_owned()))
            }
        },
        None => None,
    }
}

/// The remote that a push goes to: the branch's own setting, the common setting, the upstream's
/// remote or the default one.
pub open spec fn push_remote(
    own: Option<Seq<char>>,
    common: Option<Seq<char>>,
    upstream: Option<(Seq<char>, Seq<char>)>,
    default_remote: Option<Seq<char>>,
) -> Option<Seq<char>> {
    if own is Some {
        own
    } else if common is Some {
        common
    } else if upstream is Some {
        Some(upstream->Some_0.0)
    } else {
        default_remote
    }
}

/// The remote that a push goes to.
fn choose_push_remote(
    own: Option<String>,
    common: Option<String>,
    upstream: Option<(&str, &str)>,
    default_remote: Option<&str>,
) -> (result: Option<String>)
    ensures
        result.deep_view() == push_remote(
            own.deep_view(),
            common.deep_view(),
            upstream.deep_view(),
            default_remote.deep_view(),
        ),
{
    if own.is_some() {
        return own;
    }
    if common.is_some() {
        return common;
    }
    match (upstream, default_remote) {
        (Some((remote, _)), _) => Some(remote.to_owned()),
        (None, Some(remote)) => Some(remote.to_owned()),
        (None, None) => None,
    }
}

/// Where a push goes by the value of `push.default`.
pub open spec fn push_target_by(
    setting: Seq<char>,
    remote: Seq<char>,
    upstream: (Seq<char>, Seq<char>),
    branch: Seq<char>,
) -> Result<Option<(Seq<char>, Seq<char>)>, GitErrorView> {
    if setting == "simple"@ && remote != upstream.0 {
        Ok(Some((remote, branch)))
    } else if setting == "simple"@ || setting == "upstream"@ || setting == "tracking"@ {
        Ok(Some(upstream))
    } else if setting == "current"@ || setting == "matching"@ {
        Ok(Some((remote, branch)))
    } else if setting == "nothing"@ {
        Ok(None)
    } else {
        Err(commands::refusal("push.default has unsupported value "@ + setting))
    }
}

/// Where a push goes by the value of `push.default`.
fn decide_push_target(
    setting: Option<String>,
    remote: String,
    upstream_remote: &str,
    upstream_branch: &str,
    branch: &str,
) -> (result: Result<Option<(String, String)>, GitError>)
    ensures
        (match result {
            Ok(target) => Ok(target.deep_view()),
            Err(error) => Err(error.deep_view()),
        }) == push_target_by(
            setting_or_simple(setting.deep_view()),
            remote@,
            (upstream_remote@, upstream_branch@),
            branch@,
        ),
{
    let value = match setting {
        Some(value) => value,
        None => "simple".to_owned(),
    };
    let name = value.as_str();
    if text::same_text(name, "simple") && !text::same_text(remote.as_str(), upstream_remote) {
        return Ok(Some((remote, branch.to_owned())));
    }
    if text::same_text(name, "simple") || text::same_text(name, "upstream") || text::same_text(
        name,
        "tracking",
    ) {
        return Ok(Some((upstream_remote.to_owned(), upstream_branch.to_owned())));
    }
    if text::same_text(name, "current") || text::same_text(name, "matching") {
        return Ok(Some((remote, branch.to_owned())));
    }
    if text::same_text(name, "nothing") {
        return Ok(None);
    }
    let message = text::concat2("push.default has unsupported value ", name);
    Err(commands::blocked(message.as_str()))
}

/// The ref that a staged fetch writes.
pub open spec fn staged_ref(process: u64, count: u64) -> Seq<char> {
    "refs/bitbygit/fetch/"@ + number::decimal(process as nat) + "-"@ + number::decimal(count as nat)
}

/// The ref that a staged fetch writes.
fn staged_ref_of(process: u64, count: u64) -> (result: String)
    ensures
        result@ == staged_ref(process, count),
{
    let process_digits = number::decimal_of(process);
    let count_digits = number::decimal_of(count);
    text::concat4("refs/bitbygit/fetch/", process_digits.as_str(), "-", count_digits.as_str())
}

/// The commit that a staged fetch brought.
pub open spec fn fetched_oid(oid: Result<Option<Seq<char>>, GitErrorView>) -> Result<
    Seq<char>,
    GitErrorView,
> {
    match oid {
        Err(error) => Err(error),
        Ok(Some(oid)) => Ok(oid),
        Ok(None) => Err(status::unreadable("staged fetch did not produce a branch target"@)),
    }
}

/// The two counts that some output holds.
pub open spec fn counts_of(output: Seq<char>) -> Result<(u32, u32), GitErrorView> {
    let counts = text::words(output);
    let limit = u32::MAX as nat;
    if counts.len() == 0 {
        Err(status::unreadable("missing ahead count"@))
    } else if number::number_in(counts[0], limit) is None {
        Err(status::unreadable("ahead count is not a number"@))
    } else if counts.len() == 1 {
        Err(status::unreadable("missing behind count"@))
    } else if number::number_in(counts[1], limit) is None {
        Err(status::unreadable("behind count is not a number"@))
    } else if counts.len() > 2 {
        Err(status::unreadable("unexpected extra ahead/behind count"@))
    } else {
        Ok(
            (
                number::number_in(counts[0], limit)->Some_0 as u32,
                number::number_in(counts[1], limit)->Some_0 as u32,
            ),
        )
    }
}

/// Reads the two counts that some output holds.
fn parse_counts(output: &str) -> (result: Result<(u32, u32), GitError>)
    ensures
        (match result {
            Ok(counts) => Ok(counts),
            Err(error) => Err(error.deep_view()),
        }) == counts_of(output@),
{
    let characters = text::chars_of(output);
    let counts = text::split_whitespace(characters.as_slice());
    assert(counts@.len() == text::slices(counts@).len());
    if counts.len() == 0 {
        return Err(status::parse_error("missing ahead count"));
    }
    assert(text::slices(counts@)[0] == counts@[0]@);
    let ahead: u32 = match status::parse_u32(counts[0]) {
        Some(ahead) => ahead,
        None => {
            return Err(status::parse_error("ahead count is not a number"));
        },
    };
    if counts.len() == 1 {
        return Err(status::parse_error("missing behind count"));
    }
    assert(text::slices(counts@)[1] == counts@[1]@);
    let behind: u32 = match status::parse_u32(counts[1]) {
        Some(behind) => behind,
        None => {
            return Err(status::parse_error("behind count is not a number"));
        },
    };
    if counts.len() > 2 {
        return Err(status::parse_error("unexpected extra ahead/behind count"));
    }
    Ok((ahead, behind))
}

/// An object name, or the one that stands for no object.
pub open spec fn oid_or_zero(oid: Option<Seq<char>>) -> Seq<char> {
    match oid {
        Some(oid) => oid,
        None => ZERO_OID@,
    }
}

/// Fetches from the default remote.
pub open spec fn fetch_default_remote_step(
    replies: Seq<ReplyView>,
    at: nat,
) -> GitStep<GitOutputView> {
    commands::run_step(replies, at, seq!["fetch"@])
}

/// Refuses a push that would drop commits of the remote branch as it was planned.
pub open spec fn ensure_push_is_fast_forward_step(
    replies: Seq<ReplyView>,
    at: nat,
    source: Seq<char>,
    expected: Option<Seq<char>>,
) -> GitStep<()> {
    match expected {
        None => session::given((), at),
        Some(oid) => branches::ensure_ancestor_step(
            replies,
            at,
            oid,
            source,
            "push is blocked because it would not fast-forward the planned remote"@,
        ),
    }
}

/// Pushes a commit to a branch of a remote that stands where it was planned to stand.
pub open spec fn push_current_branch_step(
    replies: Seq<ReplyView>,
    at: nat,
    remote: Seq<char>,
    branch: Seq<char>,
    source: Seq<char>,
    expected: Option<Seq<char>>,
) -> GitStep<GitOutputView> {
    session::followed(
        ensure_push_is_fast_forward_step(replies, at, source, expected),
        |_forward: (), n: nat|
            commands::run_step(
                replies,
                n,
                seq![
                    "push"@,
                    refs::lease_option(branch, expected),
                    "--"@,
                    remote,
                    source + ":refs/heads/"@ + branch,
                ],
            )
    )
}

/// Pushes as [`Git::push_current_branch`] does and sets the upstream of the branch.
pub open spec fn push_current_branch_set_upstream_step(
    replies: Seq<ReplyView>,
    at: nat,
    remote: Seq<char>,
    branch: Seq<char>,
    source: Seq<char>,
    expected: Option<Seq<char>>,
) -> GitStep<GitOutputView> {
    session::followed(
        push_current_branch_step(replies, at, remote, branch, source, expected),
        |push: GitOutputView, n: nat|
            session::followed(
                commands::run_step(
                    replies,
                    n,
                    seq![
                        "branch"@,
                        "--set-upstream-to="@ + refs::tracking_ref(remote, branch),
                        branch,
                    ],
                ),
                |upstream: GitOutputView, n: nat|
                    session::given(refs::combined(push, upstream), n)
            )
    )
}

/// The commit that a branch stands at in a remote or at an address.
pub open spec fn head_oid_at_step(
    replies: Seq<ReplyView>,
    at: nat,
    target: Seq<char>,
    branch: Seq<char>,
) -> GitStep<Option<Seq<char>>> {
    session::followed(
        commands::run_step(
            replies,
            at,
            seq!["ls-remote"@, "--heads"@, "--"@, target, "refs/heads/"@ + branch],
        ),
        |output: GitOutputView, n: nat|
            session::given(first_word(output.stdout), n)
    )
}

/// The commit that a branch of a remote stands at.
pub open spec fn remote_head_oid_step(
    replies: Seq<ReplyView>,
    at: nat,
    remote: Seq<char>,
    branch: Seq<char>,
) -> GitStep<Option<Seq<char>>> {
    head_oid_at_step(replies, at, remote, branch)
}

/// The commit that a branch stands at in the repository at an address.
pub open spec fn remote_url_head_oid_step(
    replies: Seq<ReplyView>,
    at: nat,
    url: Seq<char>,
    branch: Seq<char>,
) -> GitStep<Option<Seq<char>>> {
    head_oid_at_step(replies, at, url, branch)
}

/// The addresses that a push to a remote goes to.
pub open spec fn remote_push_urls_step(
    replies: Seq<ReplyView>,
    at: nat,
    remote: Seq<char>,
) -> GitStep<Seq<Seq<char>>> {
    session::followed(
        commands::run_step(
            replies,
            at,
            seq!["remote"@, "get-url"@, "--push"@, "--all"@, "--"@, remote],
        ),
        |output: GitOutputView, n: nat|
            session::given(filled_lines(text::text_lines(output.stdout)), n)
    )
}

/// Fetches the upstream and moves the current branch forward to it.
pub open spec fn pull_step(
    replies: Seq<ReplyView>,
    at: nat,
) -> GitStep<GitOutputView> {
    commands::run_step(replies, at, seq!["pull"@, "--ff-only"@])
}

/// Fetches the upstream and rebases the current branch onto it.
pub open spec fn pull_rebase_step(
    replies: Seq<ReplyView>,
    at: nat,
) -> GitStep<GitOutputView> {
    commands::run_step(replies, at, seq!["pull"@, "--rebase"@])
}

/// The commit that a remote branch stood at when it was last fetched.
pub open spec fn remote_tracking_oid_step(
    replies: Seq<ReplyView>,
    at: nat,
    remote: Seq<char>,
    branch: Seq<char>,
) -> GitStep<Option<Seq<char>>> {
    commands::ref_oid_step(replies, at, refs::tracking_ref(remote, branch))
}

/// Refuses an operation where the upstream has moved since it was planned.
pub open spec fn ensure_remote_tracking_unchanged_step(
    replies: Seq<ReplyView>,
    at: nat,
    remote: Seq<char>,
    branch: Seq<char>,
    expected: Option<Seq<char>>,
    operation: Seq<char>,
) -> GitStep<()> {
    session::followed(
        remote_tracking_oid_step(replies, at, remote, branch),
        |oid: Option<Seq<char>>, n: nat|
            if oid == expected {
                session::given((), n)
            } else {
                session::failed(
                    commands::refusal(
                        operation
                            + " is blocked because the remote changed since the plan was shown"@,
                    ),
                    n,
                )
            }
    )
}

/// Moves the current branch forward to the upstream as it was planned.
pub open spec fn pull_ff_only_from_step(
    replies: Seq<ReplyView>,
    at: nat,
    cwd: Seq<u8>,
    remote: Seq<char>,
    branch: Seq<char>,
    expected: Option<Seq<char>>,
    target: HeadTargetView,
) -> GitStep<GitOutputView> {
    session::followed(
        ensure_remote_tracking_unchanged_step(replies, at, remote, branch, expected, "pull"@),
        |_remote: (), n: nat|
            session::followed(
                inspect::ensure_head_target_unchanged_step(replies, n, cwd, target, "pull"@),
                |_head: (), n: nat|
                    if expected is Some {
                        commands::run_step(
                            replies,
                            n,
                            seq!["merge"@, "--ff-only"@, expected->Some_0],
                        )
                    } else {
                        session::failed(
                            commands::refusal(
                                "pull is blocked because the upstream ref is unavailable"@,
                            ),
                            n,
                        )
                    }
            )
    )
}

/// Rebases the current branch onto the upstream as it was planned.
pub open spec fn pull_rebase_from_step(
    replies: Seq<ReplyView>,
    at: nat,
    cwd: Seq<u8>,
    remote: Seq<char>,
    branch: Seq<char>,
    expected: Option<Seq<char>>,
    target: HeadTargetView,
) -> GitStep<GitOutputView> {
    session::followed(
        ensure_remote_tracking_unchanged_step(
            replies,
            at,
            remote,
            branch,
            expected,
            "pull rebase"@,
        ),
        |_remote: (), n: nat|
            session::followed(
                inspect::ensure_head_target_unchanged_step(replies, n, cwd, target, "pull rebase"@),
                |_head: (), n: nat|
                    if expected is Some {
                        commands::run_step(replies, n, seq!["rebase"@, expected->Some_0])
                    } else {
                        session::failed(
                            commands::refusal(
                                "pull rebase is blocked because the upstream ref is unavailable"@,
                            ),
                            n,
                        )
                    }
            )
    )
}

/// The remote and the branch that a branch follows.
pub open spec fn upstream_push_target_step(
    replies: Seq<ReplyView>,
    at: nat,
    branch: Seq<char>,
) -> GitStep<Option<(Seq<char>, Seq<char>)>> {
    session::followed(
        commands::config_value_step(replies, at, Seq::empty(), "branch."@ + branch + ".remote"@),
        |remote: Option<Seq<char>>, n: nat|
            session::followed(
                commands::config_value_step(
                    replies,
                    n,
                    Seq::empty(),
                    "branch."@ + branch + ".merge"@,
                ),
                |merge: Option<Seq<char>>, n: nat|
                    session::given(
                        if remote is Some && merge is Some {
                            Some((remote->Some_0, without_prefix(merge->Some_0, "refs/heads/"@)))
                        } else {
                            None
                        },
                        n,
                    )
            )
    )
}

/// The remote and the branch that a plain push of a branch goes to.
pub open spec fn push_target_step(
    replies: Seq<ReplyView>,
    at: nat,
    branch: Seq<char>,
) -> GitStep<Option<(Seq<char>, Seq<char>)>> {
    session::followed(
        commands::run_step(
            replies,
            at,
            seq![
                "for-each-ref"@,
                "--format=%(push:remotename)%00%(push:short)"@,
                "--count=1"@,
                "--"@,
                "refs/heads/"@ + branch,
            ],
        ),
        |output: GitOutputView, n: nat|
            {
                let line = text::trimmed(output.stdout);
                let middle = text::position_of(line, '\0') as int;
                let remote = line.take(middle);
                let target = line.skip(middle + 1);
                if middle >= line.len() {
                    upstream_push_target_step(replies, n, branch)
                } else if remote.len() > 0 && target.len() == 0 {
                    session::followed(
                        commands::config_value_step(replies, n, Seq::empty(), "push.default"@),
                        |setting: Option<Seq<char>>, n: nat|
                            session::followed(
                                upstream_push_target_step(replies, n, branch),
                                |upstream: Option<(Seq<char>, Seq<char>)>, n: nat|
                                    session::given(
                                        simple_target(setting, remote, upstream, branch),
                                        n,
                                    )
                            )
                    )
                } else if text::has_prefix(target, remote + "/"@) && remote.len() > 0
                    && target.len() > remote.len() + "/"@.len() {
                    session::given(Some((remote, target.skip((remote + "/"@).len() as int))), n)
                } else {
                    upstream_push_target_step(replies, n, branch)
                }
            }
    )
}

/// The remote and the branch that a push goes to by the push settings, given the upstream.
pub open spec fn typed_push_target_step(
    replies: Seq<ReplyView>,
    at: nat,
    branch: Seq<char>,
    upstream: Option<(Seq<char>, Seq<char>)>,
    default_remote: Option<Seq<char>>,
) -> GitStep<Option<(Seq<char>, Seq<char>)>> {
    session::followed(
        commands::config_value_step(
            replies,
            at,
            Seq::empty(),
            "branch."@ + branch + ".pushRemote"@,
        ),
        |own: Option<Seq<char>>, n: nat|
            session::followed(
                commands::config_value_step(replies, n, Seq::empty(), "remote.pushDefault"@),
                |common: Option<Seq<char>>, n: nat|
                    {
                        let remote = push_remote(own, common, upstream, default_remote);
                        if remote is None || remote->Some_0.len() == 0 {
                            session::given(None, n)
                        } else if upstream is None {
                            session::given(Some((remote->Some_0, branch)), n)
                        } else {
                            session::followed(
                                commands::config_value_step(
                                    replies,
                                    n,
                                    Seq::empty(),
                                    "push.default"@,
                                ),
                                |setting: Option<Seq<char>>, n: nat|
                                    commands::settled(
                                        push_target_by(
                                            setting_or_simple(setting),
                                            remote->Some_0,
                                            upstream->Some_0,
                                            branch,
                                        ),
                                        n,
                                    )
                            )
                        }
                    }
            )
    )
}

/// Fetches a branch of a remote into a ref of its own and gives the commit; the ref is removed again.
pub open spec fn fetch_remote_branch_for_plan_step(
    replies: Seq<ReplyView>,
    at: nat,
    remote: Seq<char>,
    branch: Seq<char>,
) -> GitStep<Seq<char>> {
    session::followed(
        commands::number_step(replies, at, ActionView::NumberFetch),
        |count: u64, n: nat|
            session::followed(
                commands::number_step(replies, n, ActionView::ProcessId),
                |process: u64, n: nat|
                    {
                        let staged = staged_ref(process, count);
                        let cleanup = seq!["update-ref"@, "-d"@, staged];
                        session::followed(
                            commands::attempted(
                                commands::run_step(
                                    replies,
                                    n,
                                    seq![
                                        "fetch"@,
                                        "--no-write-fetch-head"@,
                                        "--no-tags"@,
                                        "--refmap="@,
                                        "--"@,
                                        remote,
                                        "+refs/heads/"@ + branch + ":"@ + staged,
                                    ],
                                ),
                            ),
                            |fetch: Result<GitOutputView, GitErrorView>, n: nat|
                                match fetch {
                                    Err(error) => session::followed(
                                        commands::attempted(
                                            commands::run_step(replies, n, cleanup),
                                        ),
                                        |_cleanup: Result<GitOutputView, GitErrorView>, n: nat|
                                            session::failed(error, n),
                                    ),
                                    Ok(_) => session::followed(
                                        commands::attempted(
                                            commands::ref_oid_step(replies, n, staged),
                                        ),
                                        |oid: Result<Option<Seq<char>>, GitErrorView>, n: nat|
                                            session::followed(
                                                commands::run_step(replies, n, cleanup),
                                                |_cleanup: GitOutputView, n: nat| commands::settled(
                                                    fetched_oid(oid),
                                                    n,
                                                ),
                                            ),
                                    ),
                                }
                        )
                    }
            )
    )
}

/// How many commits each of two commits has that the other lacks.
pub open spec fn ahead_behind_step(
    replies: Seq<ReplyView>,
    at: nat,
    local: Seq<char>,
    upstream: Seq<char>,
) -> GitStep<(u32, u32)> {
    session::followed(
        commands::run_step(
            replies,
            at,
            seq!["rev-list"@, "--left-right"@, "--count"@, local + "..."@ + upstream],
        ),
        |output: GitOutputView, n: nat|
            commands::settled(counts_of(output.stdout), n)
    )
}

/// Moves the ref that follows a remote branch, from the commit that it is expected at.
pub open spec fn publish_remote_tracking_step(
    replies: Seq<ReplyView>,
    at: nat,
    remote: Seq<char>,
    branch: Seq<char>,
    oid: Seq<char>,
    expected: Option<Seq<char>>,
) -> GitStep<GitOutputView> {
    commands::run_step(
        replies,
        at,
        seq![
            "update-ref"@,
            "-m"@,
            "bitbygit pull"@,
            refs::tracking_ref(remote, branch),
            oid,
            oid_or_zero(expected),
        ],
    )
}

/// Fetches a branch of a remote into the ref that follows it.
pub open spec fn fetch_remote_branch_step(
    replies: Seq<ReplyView>,
    at: nat,
    remote: Seq<char>,
    branch: Seq<char>,
) -> GitStep<GitOutputView> {
    commands::run_step(
        replies,
        at,
        seq![
            "fetch"@,
            "--"@,
            remote,
            "+refs/heads/"@ + branch + ":"@ + refs::tracking_ref(remote, branch),
        ],
    )
}

impl Git {
    /// Fetches from the default remote.
    pub(crate) fn fetch_default_remote_in(
        &self,
        session: &mut Session,
    ) -> (result: GitResult<GitOutput>)
        ensures
            session::stepped(
                old(session),
                final(session),
                result,
                fetch_default_remote_step(old(session).replies(), old(session).at()),
            ),
    {
        commands::run(session, words::words1("fetch"))
    }

    /// Refuses a push that would drop commits of the remote branch as it was planned.
    pub(crate) fn ensure_push_is_fast_forward_in(
        &self,
        session: &mut Session,
        source: &str,
        expected: Option<&str>,
    ) -> (result: GitResult<()>)
        ensures
            session::stepped(
                old(session),
                final(session),
                result,
                ensure_push_is_fast_forward_step(
                    old(session).replies(),
                    old(session).at(),
                    source@,
                    expected.deep_view(),
                ),
            ),
    {
        match expected {
            None => Ok(()),
            Some(oid) => self.ensure_ancestor_in(
                session,
                oid,
                source,
                "push is blocked because it would not fast-forward the planned remote",
            ),
        }
    }

    /// Pushes a commit to a branch of a remote that stands where it was planned to stand.
    pub(crate) fn push_current_branch_in(
        &self,
        session: &mut Session,
        remote: &str,
        branch: &str,
        source: &str,
        expected: Option<&str>,
    ) -> (result: GitResult<GitOutput>)
        ensures
            session::stepped(
                old(session),
                final(session),
                result,
                push_current_branch_step(
                    old(session).replies(),
                    old(session).at(),
                    remote@,
                    branch@,
                    source@,
                    expected.deep_view(),
                ),
            ),
    {
        self.ensure_push_is_fast_forward_in(session, source, expected)?;
        let lease = refs::force_with_lease_arg(branch, expected);
        let refspec = text::concat3(source, ":refs/heads/", branch);
        commands::run(
            session,
            words::words5("push", lease.as_str(), "--", remote, refspec.as_str()),
        )
    }

    /// Pushes as [`Git::push_current_branch`] does and sets the upstream of the branch.
    pub(crate) fn push_current_branch_set_upstream_in(
        &self,
        session: &mut Session,
        remote: &str,
        branch: &str,
        source: &str,
        expected: Option<&str>,
    ) -> (result: GitResult<GitOutput>)
        ensures
            session::stepped(
                old(session),
                final(session),
                result,
                push_current_branch_set_upstream_step(
                    old(session).replies(),
                    old(session).at(),
                    remote@,
                    branch@,
                    source@,
                    expected.deep_view(),
                ),
            ),
    {
        let push = self.push_current_branch_in(session, remote, branch, source, expected)?;
        let reference = refs::remote_tracking_ref(remote, branch);
        let option = text::concat2("--set-upstream-to=", reference.as_str());
        let upstream = commands::run(session, words::words3("branch", option.as_str(), branch))?;
        Ok(refs::combine_outputs(push, upstream))
    }

    /// The commit that a branch stands at in a remote or at an address.
    pub(crate) fn head_oid_at_in(
        &self,
        session: &mut Session,
        target: &str,
        branch: &str,
    ) -> (result: GitResult<Option<String>>)
        ensures
            session::stepped(
                old(session),
                final(session),
                result,
                head_oid_at_step(old(session).replies(), old(session).at(), target@, branch@),
            ),
    {
        let reference = text::concat2("refs/heads/", branch);
        let output = commands::run(
            session,
            words::words5("ls-remote", "--heads", "--", target, reference.as_str()),
        )?;
        Ok(first_word_of(output.stdout.as_str()))
    }

    /// The commit that a branch of a remote stands at.
    pub(crate) fn remote_head_oid_in(
        &self,
        session: &mut Session,
        remote: &str,
        branch: &str,
    ) -> (result: GitResult<Option<String>>)
        ensures
            session::stepped(
                old(session),
                final(session),
                result,
                remote_head_oid_step(old(session).replies(), old(session).at(), remote@, branch@),
            ),
    {
        self.head_oid_at_in(session, remote, branch)
    }

    /// The commit that a branch stands at in the repository at an address.
    pub(crate) fn remote_url_head_oid_in(
        &self,
        session: &mut Session,
        url: &str,
        branch: &str,
    ) -> (result: GitResult<Option<String>>)
        ensures
            session::stepped(
                old(session),
                final(session),
                result,
                remote_url_head_oid_step(old(session).replies(), old(session).at(), url@, branch@),
            ),
    {
        self.head_oid_at_in(session, url, branch)
    }

    /// The addresses that a push to a remote goes to.
    pub(crate) fn remote_push_urls_in(
        &self,
        session: &mut Session,
        remote: &str,
    ) -> (result: GitResult<Vec<String>>)
        ensures
            session::stepped(
                old(session),
                final(session),
                result,
                remote_push_urls_step(old(session).replies(), old(session).at(), remote@),
            ),
    {
        let output = commands::run(
            session,
            words::words6("remote", "get-url", "--push", "--all", "--", remote),
        )?;
        Ok(filled_lines_of(output.stdout.as_str()))
    }

    /// Fetches the upstream and moves the current branch forward to it.
    pub(crate) fn pull_in(&self, session: &mut Session) -> (result: GitResult<GitOutput>)
        ensures
            session::stepped(
                old(session),
                final(session),
                result,
                pull_step(old(session).replies(), old(session).at()),
            ),
    {
        commands::run(session, words::words2("pull", "--ff-only"))
    }

    /// Fetches the upstream and rebases the current branch onto it.
    pub(crate) fn pull_rebase_in(&self, session: &mut Session) -> (result: GitResult<GitOutput>)
        ensures
            session::stepped(
                old(session),
                final(session),
                result,
                pull_rebase_step(old(session).replies(), old(session).at()),
            ),
    {
        commands::run(session, words::words2("pull", "--rebase"))
    }

    /// The commit that a remote branch stood at when it was last fetched.
    pub(crate) fn remote_tracking_oid_in(
        &self,
        session: &mut Session,
        remote: &str,
        branch: &str,
    ) -> (result: GitResult<Option<String>>)
        ensures
            session::stepped(
                old(session),
                final(session),
                result,
                remote_tracking_oid_step(
                    old(session).replies(),
                    old(session).at(),
                    remote@,
                    branch@,
                ),
            ),
    {
        let reference = refs::remote_tracking_ref(remote, branch);
        self.ref_oid_in(session, reference.as_str())
    }

    /// Refuses an operation where the upstream has moved since it was planned.
    pub(crate) fn ensure_remote_tracking_unchanged_in(
        &self,
        session: &mut Session,
        remote: &str,
        branch: &str,
        expected: Option<&str>,
        operation: &str,
    ) -> (result: GitResult<()>)
        ensures
            session::stepped(
                old(session),
                final(session),
                result,
                ensure_remote_tracking_unchanged_step(
                    old(session).replies(),
                    old(session).at(),
                    remote@,
                    branch@,
                    expected.deep_view(),
                    operation@,
                ),
            ),
    {
        let oid = self.remote_tracking_oid_in(session, remote, branch)?;
        if !text::same_optional_text(text::borrowed(&oid), expected) {
            let message = text::concat2(
                operation,
                " is blocked because the remote changed since the plan was shown",
            );
            return Err(Halt::Failed(commands::blocked(message.as_str())));
        }
        Ok(())
    }

    /// Moves the current branch forward to the upstream as it was planned.
    pub(crate) fn pull_ff_only_from_in(
        &self,
        session: &mut Session,
        remote: &str,
        branch: &str,
        expected: Option<&str>,
        target: &HeadTarget,
    ) -> (result: GitResult<GitOutput>)
        ensures
            session::stepped(
                old(session),
                final(session),
                result,
                pull_ff_only_from_step(
                    old(session).replies(),
                    old(session).at(),
                    self.cwd@,
                    remote@,
                    branch@,
                    expected.deep_view(),
                    target.deep_view(),
                ),
            ),
    {
        self.ensure_remote_tracking_unchanged_in(session, remote, branch, expected, "pull")?;
        self.ensure_head_target_unchanged_in(session, target, "pull")?;
        match expected {
            Some(oid) => commands::run(session, words::words3("merge", "--ff-only", oid)),
            None => Err(
                Halt::Failed(
                    commands::blocked("pull is blocked because the upstream ref is unavailable"),
                ),
            ),
        }
    }

    /// Rebases the current branch onto the upstream as it was planned.
    pub(crate) fn pull_rebase_from_in(
        &self,
        session: &mut Session,
        remote: &str,
        branch: &str,
        expected: Option<&str>,
        target: &HeadTarget,
    ) -> (result: GitResult<GitOutput>)
        ensures
            session::stepped(
                old(session),
                final(session),
                result,
                pull_rebase_from_step(
                    old(session).replies(),
                    old(session).at(),
                    self.cwd@,
                    remote@,
                    branch@,
                    expected.deep_view(),
                    target.deep_view(),
                ),
            ),
    {
        self.ensure_remote_tracking_unchanged_in(session, remote, branch, expected, "pull rebase")?;
        self.ensure_head_target_unchanged_in(session, target, "pull rebase")?;
        match expected {
            Some(oid) => commands::run(session, words::words2("rebase", oid)),
            None => Err(
                Halt::Failed(
                    commands::blocked(
                        "pull rebase is blocked because the upstream ref is unavailable",
                    ),
                ),
            ),
        }
    }

    /// The remote and the branch that a branch follows.
    pub(crate) fn upstream_push_target_in(
        &self,
        session: &mut Session,
        branch: &str,
    ) -> (result: GitResult<Option<(String, String)>>)
        ensures
            session::stepped(
                old(session),
                final(session),
                result,
                upstream_push_target_step(old(session).replies(), old(session).at(), branch@),
            ),
    {
        let remote_key = text::concat3("branch.", branch, ".remote");
        let merge_key = text::concat3("branch.", branch, ".merge");
        let remote = self.get_config(session, remote_key.as_str())?;
        let merge = self.get_config(session, merge_key.as_str())?;
        match (remote, merge) {
            (Some(remote), Some(merge)) => Ok(
                Some((remote, strip_start(merge.as_str(), "refs/heads/"))),
            ),
            _ => Ok(None),
        }
    }

    /// The remote and the branch that a plain push of a branch goes to.
    pub(crate) fn push_target_in(
        &self,
        session: &mut Session,
        branch: &str,
    ) -> (result: GitResult<Option<(String, String)>>)
        ensures
            session::stepped(
                old(session),
                final(session),
                result,
                push_target_step(old(session).replies(), old(session).at(), branch@),
            ),
    {
        let reference = text::concat2("refs/heads/", branch);
        let output = commands::run(
            session,
            words::words5(
                "for-each-ref",
                "--format=%(push:remotename)%00%(push:short)",
                "--count=1",
                "--",
                reference.as_str(),
            ),
        )?;
        let characters = text::chars_of(output.stdout.as_str());
        let line = text::trim(characters.as_slice());
        proof {
            text::lemma_position(line@, '\0');
        }
        let (remote, target) = match text::split_once(line, '\0') {
            Some(pair) => pair,
            None => {
                return self.upstream_push_target_in(session, branch);
            },
        };
        if remote.len() > 0 && target.len() == 0 {
            let setting = self.get_config(session, "push.default")?;
            let upstream = self.upstream_push_target_in(session, branch)?;
            return Ok(pick_simple_target(setting, remote, upstream, branch));
        }
        let remote_text = text::string_of(remote);
        let prefix = text::concat2(remote_text.as_str(), "/");
        let prefix_characters = text::chars_of(prefix.as_str());
        match text::strip_prefix(target, prefix_characters.as_slice()) {
            Some(push_branch) => {
                if remote.len() == 0 || push_branch.len() == 0 {
                    self.upstream_push_target_in(session, branch)
                } else {
                    Ok(Some((remote_text, text::string_of(push_branch))))
                }
            },
            None => self.upstream_push_target_in(session, branch),
        }
    }

    /// The remote and the branch that a push goes to by the push settings, given the upstream.
    pub(crate) fn typed_push_target_in(
        &self,
        session: &mut Session,
        branch: &str,
        upstream: Option<(&str, &str)>,
        default_remote: Option<&str>,
    ) -> (result: GitResult<Option<(String, String)>>)
        ensures
            session::stepped(
                old(session),
                final(session),
                result,
                typed_push_target_step(
                    old(session).replies(),
                    old(session).at(),
                    branch@,
                    upstream.deep_view(),
                    default_remote.deep_view(),
                ),
            ),
    {
        let own_key = text::concat3("branch.", branch, ".pushRemote");
        let own = self.get_config(session, own_key.as_str())?;
        let common = self.get_config(session, "remote.pushDefault")?;
        let remote = match choose_push_remote(own, common, upstream, default_remote) {
            Some(remote) => remote,
            None => {
                return Ok(None);
            },
        };
        if remote.as_str().is_empty() {
            return Ok(None);
        }
        let (upstream_remote, upstream_branch) = match upstream {
            Some(pair) => pair,
            None => {
                return Ok(Some((remote, branch.to_owned())));
            },
        };
        let setting = self.get_config(session, "push.default")?;
        commands::settle(
            decide_push_target(setting, remote, upstream_remote, upstream_branch, branch),
        )
    }

    /// Fetches a branch of a remote into a ref of its own and gives the commit; the ref is removed again.
    pub(crate) fn fetch_remote_branch_for_plan_in(
        &self,
        session: &mut Session,
        remote: &str,
        branch: &str,
    ) -> (result: GitResult<String>)
        ensures
            session::stepped(
                old(session),
                final(session),
                result,
                fetch_remote_branch_for_plan_step(
                    old(session).replies(),
                    old(session).at(),
                    remote@,
                    branch@,
                ),
            ),
    {
        let count: u64 = commands::ask_number(session, Action::NumberFetch)?;
        let process: u64 = commands::ask_number(session, Action::ProcessId)?;
        let staged = staged_ref_of(process, count);
        let refspec = text::concat4("+refs/heads/", branch, ":", staged.as_str());
        let fetch = commands::run(
            session,
            words::words7(
                "fetch",
                "--no-write-fetch-head",
                "--no-tags",
                "--refmap=",
                "--",
                remote,
                refspec.as_str(),
            ),
        );
        match fetch {
            Err(Halt::Pending(action)) => Err(Halt::Pending(action)),
            Err(Halt::Failed(error)) => {
                match commands::run(session, words::words3("update-ref", "-d", staged.as_str())) {
                    Err(Halt::Pending(action)) => Err(Halt::Pending(action)),
                    _ => Err(Halt::Failed(error)),
                }
            },
            Ok(_output) => {
                let oid = match self.ref_oid_in(session, staged.as_str()) {
                    Err(Halt::Pending(action)) => {
                        return Err(Halt::Pending(action));
                    },
                    Err(Halt::Failed(error)) => Err(error),
                    Ok(Some(oid)) => Ok(oid),
                    Ok(None) => Err(
                        status::parse_error("staged fetch did not produce a branch target"),
                    ),
                };
                commands::run(session, words::words3("update-ref", "-d", staged.as_str()))?;
                commands::settle(oid)
            },
        }
    }

    /// How many commits each of two commits has that the other lacks.
    pub(crate) fn ahead_behind_in(
        &self,
        session: &mut Session,
        local: &str,
        upstream: &str,
    ) -> (result: GitResult<(u32, u32)>)
        ensures
            session::stepped(
                old(session),
                final(session),
                result,
                ahead_behind_step(old(session).replies(), old(session).at(), local@, upstream@),
            ),
    {
        let range = text::concat3(local, "...", upstream);
        let output = commands::run(
            session,
            words::words4("rev-list", "--left-right", "--count", range.as_str()),
        )?;
        commands::settle(parse_counts(output.stdout.as_str()))
    }

    /// Moves the ref that follows a remote branch, from the commit that it is expected at.
    pub(crate) fn publish_remote_tracking_in(
        &self,
        session: &mut Session,
        remote: &str,
        branch: &str,
        oid: &str,
        expected: Option<&str>,
    ) -> (result: GitResult<GitOutput>)
        ensures
            session::stepped(
                old(session),
                final(session),
                result,
                publish_remote_tracking_step(
                    old(session).replies(),
                    old(session).at(),
                    remote@,
                    branch@,
                    oid@,
                    expected.deep_view(),
                ),
            ),
    {
        let reference = refs::remote_tracking_ref(remote, branch);
        let old_oid = match expected {
            Some(oid) => oid,
            None => ZERO_OID,
        };
        commands::run(
            session,
            words::words6("update-ref", "-m", "bitbygit pull", reference.as_str(), oid, old_oid),
        )
    }

    /// Fetches a branch of a remote into the ref that follows it.
    pub(crate) fn fetch_remote_branch_in(
        &self,
        session: &mut Session,
        remote: &str,
        branch: &str,
    ) -> (result: GitResult<GitOutput>)
        ensures
            session::stepped(
                old(session),
                final(session),
                result,
                fetch_remote_branch_step(
                    old(session).replies(),
                    old(session).at(),
                    remote@,
                    branch@,
                ),
            ),
    {
        let reference = refs::remote_tracking_ref(remote, branch);
        let refspec = text::concat4("+refs/heads/", branch, ":", reference.as_str());
        commands::run(session, words::words4("fetch", "--", remote, refspec.as_str()))
    }

    /// Fetches from the default remote.
    pub fn fetch_default_remote(&self, replies: &[Reply]) -> (result: GitResult<GitOutput>)
        ensures
            session::outcome(result) == fetch_default_remote_step(replies.deep_view(), 0).result,
    {
        let mut session = Session::new(replies);
        self.fetch_default_remote_in(&mut session)
    }

    /// Pushes a commit to a branch of a remote that stands where it was planned to stand.
    pub fn push_current_branch(
        &self,
        remote: &str,
        branch: &str,
        source: &str,
        expected: Option<&str>,
        replies: &[Reply],
    ) -> (result: GitResult<GitOutput>)
        ensures
            session::outcome(result) == push_current_branch_step(
                replies.deep_view(),
                0,
                remote@,
                branch@,
                source@,
                expected.deep_view(),
            ).result,
    {
        let mut session = Session::new(replies);
        self.push_current_branch_in(&mut session, remote, branch, source, expected)
    }

    /// Pushes as [`Git::push_current_branch`] does and sets the upstream of the branch.
    pub fn push_current_branch_set_upstream(
        &self,
        remote: &str,
        branch: &str,
        source: &str,
        expected: Option<&str>,
        replies: &[Reply],
    ) -> (result: GitResult<GitOutput>)
        ensures
            session::outcome(result) == push_current_branch_set_upstream_step(
                replies.deep_view(),
                0,
                remote@,
                branch@,
                source@,
                expected.deep_view(),
            ).result,
    {
        let mut session = Session::new(replies);
        self.push_current_branch_set_upstream_in(&mut session, remote, branch, source, expected)
    }

    /// The commit that a branch of a remote stands at.
    pub fn remote_head_oid(
        &self,
        remote: &str,
        branch: &str,
        replies: &[Reply],
    ) -> (result: GitResult<Option<String>>)
        ensures
            session::outcome(result) == remote_head_oid_step(
                replies.deep_view(),
                0,
                remote@,
                branch@,
            ).result,
    {
        let mut session = Session::new(replies);
        self.remote_head_oid_in(&mut session, remote, branch)
    }

    /// The commit that a branch stands at in the repository at an address.
    pub fn remote_url_head_oid(
        &self,
        url: &str,
        branch: &str,
        replies: &[Reply],
    ) -> (result: GitResult<Option<String>>)
        ensures
            session::outcome(result) == remote_url_head_oid_step(
                replies.deep_view(),
                0,
                url@,
                branch@,
            ).result,
    {
        let mut session = Session::new(replies);
        self.remote_url_head_oid_in(&mut session, url, branch)
    }

    /// The addresses that a push to a remote goes to.
    pub fn remote_push_urls(
        &self,
        remote: &str,
        replies: &[Reply],
    ) -> (result: GitResult<Vec<String>>)
        ensures
            session::outcome(result) == remote_push_urls_step(
                replies.deep_view(),
                0,
                remote@,
            ).result,
    {
        let mut session = Session::new(replies);
        self.remote_push_urls_in(&mut session, remote)
    }

    /// Fetches the upstream and moves the current branch forward to it.
    pub fn pull(&self, replies: &[Reply]) -> (result: GitResult<GitOutput>)
        ensures
            session::outcome(result) == pull_step(replies.deep_view(), 0).result,
    {
        let mut session = Session::new(replies);
        self.pull_in(&mut session)
    }

    /// Fetches the upstream and rebases the current branch onto it.
    pub fn pull_rebase(&self, replies: &[Reply]) -> (result: GitResult<GitOutput>)
        ensures
            session::outcome(result) == pull_rebase_step(replies.deep_view(), 0).result,
    {
        let mut session = Session::new(replies);
        self.pull_rebase_in(&mut session)
    }

    /// The commit that a remote branch stood at when it was last fetched.
    pub fn remote_tracking_oid(
        &self,
        remote: &str,
        branch: &str,
        replies: &[Reply],
    ) -> (result: GitResult<Option<String>>)
        ensures
            session::outcome(result) == remote_tracking_oid_step(
                replies.deep_view(),
                0,
                remote@,
                branch@,
            ).result,
    {
        let mut session = Session::new(replies);
        self.remote_tracking_oid_in(&mut session, remote, branch)
    }

    /// Moves the current branch forward to the upstream as it was planned.
    pub fn pull_ff_only_from(
        &self,
        remote: &str,
        branch: &str,
        expected: Option<&str>,
        target: &HeadTarget,
        replies: &[Reply],
    ) -> (result: GitResult<GitOutput>)
        ensures
            session::outcome(result) == pull_ff_only_from_step(
                replies.deep_view(),
                0,
                self.cwd@,
                remote@,
                branch@,
                expected.deep_view(),
                target.deep_view(),
            ).result,
    {
        let mut session = Session::new(replies);
        self.pull_ff_only_from_in(&mut session, remote, branch, expected, target)
    }

    /// Rebases the current branch onto the upstream as it was planned.
    pub fn pull_rebase_from(
        &self,
        remote: &str,
        branch: &str,
        expected: Option<&str>,
        target: &HeadTarget,
        replies: &[Reply],
    ) -> (result: GitResult<GitOutput>)
        ensures
            session::outcome(result) == pull_rebase_from_step(
                replies.deep_view(),
                0,
                self.cwd@,
                remote@,
                branch@,
                expected.deep_view(),
                target.deep_view(),
            ).result,
    {
        let mut session = Session::new(replies);
        self.pull_rebase_from_in(&mut session, remote, branch, expected, target)
    }

    /// The remote and the branch that a branch follows.
    pub fn upstream_push_target(
        &self,
        branch: &str,
        replies: &[Reply],
    ) -> (result: GitResult<Option<(String, String)>>)
        ensures
            session::outcome(result) == upstream_push_target_step(
                replies.deep_view(),
                0,
                branch@,
            ).result,
    {
        let mut session = Session::new(replies);
        self.upstream_push_target_in(&mut session, branch)
    }

    /// The remote and the branch that a plain push of a branch goes to.
    pub fn push_target(
        &self,
        branch: &str,
        replies: &[Reply],
    ) -> (result: GitResult<Option<(String, String)>>)
        ensures
            session::outcome(result) == push_target_step(replies.deep_view(), 0, branch@).result,
    {
        let mut session = Session::new(replies);
        self.push_target_in(&mut session, branch)
    }

    /// The remote and the branch that a push goes to by the push settings, given the upstream.
    pub fn typed_push_target(
        &self,
        branch: &str,
        upstream: Option<(&str, &str)>,
        default_remote: Option<&str>,
        replies: &[Reply],
    ) -> (result: GitResult<Option<(String, String)>>)
        ensures
            session::outcome(result) == typed_push_target_step(
                replies.deep_view(),
                0,
                branch@,
                upstream.deep_view(),
                default_remote.deep_view(),
            ).result,
    {
        let mut session = Session::new(replies);
        self.typed_push_target_in(&mut session, branch, upstream, default_remote)
    }

    /// Fetches a branch of a remote into a ref of its own and gives the commit; the ref is removed again.
    pub fn fetch_remote_branch_for_plan(
        &self,
        remote: &str,
        branch: &str,
        replies: &[Reply],
    ) -> (result: GitResult<String>)
        ensures
            session::outcome(result) == fetch_remote_branch_for_plan_step(
                replies.deep_view(),
                0,
                remote@,
                branch@,
            ).result,
    {
        let mut session = Session::new(replies);
        self.fetch_remote_branch_for_plan_in(&mut session, remote, branch)
    }

    /// How many commits each of two commits has that the other lacks.
    pub fn ahead_behind(
        &self,
        local: &str,
        upstream: &str,
        replies: &[Reply],
    ) -> (result: GitResult<(u32, u32)>)
        ensures
            session::outcome(result) == ahead_behind_step(
                replies.deep_view(),
                0,
                local@,
                upstream@,
            ).result,
    {
        let mut session = Session::new(replies);
        self.ahead_behind_in(&mut session, local, upstream)
    }

    /// Moves the ref that follows a remote branch, from the commit that it is expected at.
    pub fn publish_remote_tracking(
        &self,
        remote: &str,
        branch: &str,
        oid: &str,
        expected: Option<&str>,
        replies: &[Reply],
    ) -> (result: GitResult<GitOutput>)
        ensures
            session::outcome(result) == publish_remote_tracking_step(
                replies.deep_view(),
                0,
                remote@,
                branch@,
                oid@,
                expected.deep_view(),
            ).result,
    {
        let mut session = Session::new(replies);
        self.publish_remote_tracking_in(&mut session, remote, branch, oid, expected)
    }

    /// Fetches a branch of a remote into the ref that follows it.
    pub fn fetch_remote_branch(
        &self,
        remote: &str,
        branch: &str,
        replies: &[Reply],
    ) -> (result: GitResult<GitOutput>)
        ensures
            session::outcome(result) == fetch_remote_branch_step(
                replies.deep_view(),
                0,
                remote@,
                branch@,
            ).result,
    {
        let mut session = Session::new(replies);
        self.fetch_remote_branch_in(&mut session, remote, branch)
    }
}

}
