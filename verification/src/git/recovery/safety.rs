//! What keeps a recovery from starting processes that are not contained.
use crate::bytes;
use crate::git::commands;
use crate::git::commands::{GitResult, GitStep};
use crate::git::recovery::bounded;
use crate::git::recovery::drivers;
use crate::git::recovery::files;
use crate::git::types::{GitError, GitErrorView};
use crate::session;
use crate::session::{
    BoundedCommandOutput, BoundedCommandOutputView, FileKind, FileMetadata, Halt, ReplyView,
    Session,
};
use crate::text;
use crate::words;
use vstd::prelude::*;
use vstd::utf8;

verus! {

broadcast use crate::bytes::bytes_are_their_view;

/// The hooks that Git knows.
pub open spec fn recovery_hooks() -> Seq<Seq<char>> {
    seq![
        "applypatch-msg"@,
        "commit-msg"@,
        "fsmonitor-watchman"@,
        "p4-changelist"@,
        "p4-post-changelist"@,
        "p4-pre-submit"@,
        "p4-prepare-changelist"@,
        "post-applypatch"@,
        "post-checkout"@,
        "post-commit"@,
        "post-index-change"@,
        "post-merge"@,
        "post-receive"@,
        "post-rewrite"@,
        "post-update"@,
        "pre-applypatch"@,
        "pre-auto-gc"@,
        "pre-commit"@,
        "pre-merge-commit"@,
        "pre-push"@,
        "pre-rebase"@,
        "pre-receive"@,
        "prepare-commit-msg"@,
        "proc-receive"@,
        "push-to-checkout"@,
        "reference-transaction"@,
        "sendemail-validate"@,
        "update"@,
    ]
}

/// The hooks that Git knows.
pub fn recovery_hook_names() -> (result: Vec<String>)
    ensures
        result.deep_view() == recovery_hooks(),
{
    let mut result: Vec<String> = Vec::new();
    words::push_word(&mut result, "applypatch-msg");
    words::push_word(&mut result, "commit-msg");
    words::push_word(&mut result, "fsmonitor-watchman");
    words::push_word(&mut result, "p4-changelist");
    words::push_word(&mut result, "p4-post-changelist");
    words::push_word(&mut result, "p4-pre-submit");
    words::push_word(&mut result, "p4-prepare-changelist");
    words::push_word(&mut result, "post-applypatch");
    words::push_word(&mut result, "post-checkout");
    words::push_word(&mut result, "post-commit");
    words::push_word(&mut result, "post-index-change");
    words::push_word(&mut result, "post-merge");
    words::push_word(&mut result, "post-receive");
    words::push_word(&mut result, "post-rewrite");
    words::push_word(&mut result, "post-update");
    words::push_word(&mut result, "pre-applypatch");
    words::push_word(&mut result, "pre-auto-gc");
    words::push_word(&mut result, "pre-commit");
    words::push_word(&mut result, "pre-merge-commit");
    words::push_word(&mut result, "pre-push");
    words::push_word(&mut result, "pre-rebase");
    words::push_word(&mut result, "pre-receive");
    words::push_word(&mut result, "prepare-commit-msg");
    words::push_word(&mut result, "proc-receive");
    words::push_word(&mut result, "push-to-checkout");
    words::push_word(&mut result, "reference-transaction");
    words::push_word(&mut result, "sendemail-validate");
    words::push_word(&mut result, "update");
    assert(result.deep_view() =~= recovery_hooks());
    result
}

/// Whether the value of a setting means that it is off.
pub open spec fn is_off(value: Seq<char>) -> bool {
    let word = text::trimmed(value);
    word.len() == 0 || word == "0"@ || word == "false"@ || word == "no"@ || word == "off"@
}

/// Whether the value that a command printed means that a setting is off.
fn value_is_off(output: &[u8]) -> (result: bool)
    ensures
        result == is_off(bytes::lossy_text(bytes::without_line_ending(output@))),
{
    let shown = bytes::lossy(bytes::strip_byte_line_ending(output));
    let word = text::trimmed_text(shown.as_str());
    word.as_str().is_empty() || text::same_text(word.as_str(), "0") || text::same_text(
        word.as_str(),
        "false",
    ) || text::same_text(word.as_str(), "no") || text::same_text(word.as_str(), "off")
}

/// Whether a setting is on.
pub open spec fn setting_enabled_step(replies: Seq<ReplyView>, at: nat, key: Seq<char>) -> GitStep<
    bool,
> {
    let args = seq!["config"@, "--get"@, key];
    session::followed(
        bounded::probe_step(replies, at, args),
        |output: BoundedCommandOutputView, n: nat|
            if output.status.code == Some(1i32) {
                session::given(false, n)
            } else if !commands::succeeded(output.status) {
                session::failed(bounded::command_failure(output, args), n)
            } else if output.stdout.truncated {
                session::failed(
                    commands::refusal("recovery is blocked because "@ + key + " is too long"@),
                    n,
                )
            } else {
                session::given(
                    !is_off(bytes::lossy_text(bytes::without_line_ending(output.stdout.bytes))),
                    n,
                )
            },
    )
}

/// Whether a setting is on.
pub(crate) fn bounded_config_is_enabled(session: &mut Session, key: &str) -> (result: GitResult<
    bool,
>)
    ensures
        session::stepped(
            old(session),
            final(session),
            result,
            setting_enabled_step(old(session).replies(), old(session).at(), key@),
        ),
{
    let output = bounded::probe(session, words::words3("config", "--get", key))?;
    if output.ended_with(1) {
        return Ok(false);
    }
    if !output.status.success() {
        return Err(Halt::Failed(output.git_error(words::words3("config", "--get", key))));
    }
    if output.stdout.truncated {
        let message = text::concat3("recovery is blocked because ", key, " is too long");
        return Err(Halt::Failed(commands::blocked(message.as_str())));
    }
    Ok(!value_is_off(output.stdout.bytes.as_slice()))
}

/// The directory of the hooks, by the output that names it: taken from the top directory where it does
/// not start at the root.
pub open spec fn hooks_directory_step(replies: Seq<ReplyView>, at: nat, output: Seq<u8>) -> GitStep<
    Seq<u8>,
> {
    let path = bytes::without_line_ending(output);
    if bytes::absolute(path) {
        session::given(path, at)
    } else {
        session::followed(
            bounded::repo_root_until_step(replies, at),
            |root: Seq<u8>, n: nat| session::given(bytes::joined_path(root, path), n),
        )
    }
}

/// The directory of the hooks, by the output that names it.
pub(crate) fn hooks_directory(session: &mut Session, output: &[u8]) -> (result: GitResult<Vec<u8>>)
    ensures
        session::stepped(
            old(session),
            final(session),
            result,
            hooks_directory_step(old(session).replies(), old(session).at(), output@),
        ),
{
    let path = bytes::strip_byte_line_ending(output);
    if bytes::is_absolute(path) {
        return Ok(bytes::copy_bytes(path));
    }
    let root = bounded::repo_root_until(session)?;
    Ok(bytes::join_path(root.as_slice(), path))
}

/// The directory of the hooks.
pub open spec fn hooks_path_step(replies: Seq<ReplyView>, at: nat) -> GitStep<Seq<u8>> {
    let args = seq!["config"@, "--path"@, "--get"@, "core.hooksPath"@];
    session::followed(
        bounded::probe_step(replies, at, args),
        |output: BoundedCommandOutputView, n: nat|
            if commands::succeeded(output.status) {
                if output.stdout.truncated {
                    session::failed(
                        commands::refusal(
                            "recovery planning is blocked because core.hooksPath is too long"@,
                        ),
                        n,
                    )
                } else {
                    hooks_directory_step(replies, n, output.stdout.bytes)
                }
            } else if output.status.code == Some(1i32) {
                bounded::git_path_until_step(replies, n, "hooks"@)
            } else {
                session::failed(bounded::command_failure(output, args), n)
            },
    )
}

/// The directory of the hooks.
pub(crate) fn recovery_hooks_path_until(session: &mut Session) -> (result: GitResult<Vec<u8>>)
    ensures
        session::stepped(
            old(session),
            final(session),
            result,
            hooks_path_step(old(session).replies(), old(session).at()),
        ),
{
    let output = bounded::probe(
        session,
        words::words4("config", "--path", "--get", "core.hooksPath"),
    )?;
    if output.status.success() {
        if output.stdout.truncated {
            return Err(
                Halt::Failed(
                    commands::blocked(
                        "recovery planning is blocked because core.hooksPath is too long",
                    ),
                ),
            );
        }
        return hooks_directory(session, output.stdout.bytes.as_slice());
    }
    if output.ended_with(1) {
        return bounded::git_path_until(session, "hooks");
    }
    Err(
        Halt::Failed(
            output.git_error(words::words4("config", "--path", "--get", "core.hooksPath")),
        ),
    )
}

/// The hooks of a list that Git would run from a directory.
pub open spec fn runnable_hooks_step(
    replies: Seq<ReplyView>,
    at: nat,
    directory: Seq<u8>,
    hooks: Seq<Seq<char>>,
) -> GitStep<Seq<Seq<char>>>
    decreases hooks.len(),
{
    if hooks.len() == 0 {
        session::given(Seq::empty(), at)
    } else {
        session::followed(
            runnable_hooks_step(replies, at, directory, hooks.drop_last()),
            |before: Seq<Seq<char>>, n: nat|
                session::followed(
                    commands::hook_enabled_step(
                        replies,
                        n,
                        bytes::joined_path(directory, utf8::encode_utf8(hooks.last())),
                    ),
                    |enabled: bool, n: nat|
                        session::given(
                            if enabled {
                                before.push(hooks.last())
                            } else {
                                before
                            },
                            n,
                        ),
                ),
        )
    }
}

/// A list whose start halts an operation halts it in the same way.
proof fn lemma_runnable_hooks_halt(
    replies: Seq<ReplyView>,
    at: nat,
    directory: Seq<u8>,
    hooks: Seq<Seq<char>>,
    count: int,
)
    requires
        0 <= count <= hooks.len(),
        runnable_hooks_step(replies, at, directory, hooks.take(count)).result is Err,
    ensures
        runnable_hooks_step(replies, at, directory, hooks) == runnable_hooks_step(
            replies,
            at,
            directory,
            hooks.take(count),
        ),
    decreases hooks.len() - count,
{
    if count < hooks.len() {
        assert(hooks.take(count + 1).drop_last() =~= hooks.take(count));
        lemma_runnable_hooks_halt(replies, at, directory, hooks, count + 1);
    } else {
        assert(hooks.take(count) =~= hooks);
    }
}

/// The hooks of a list that Git would run from a directory.
fn runnable_hooks(session: &mut Session, directory: &[u8], hooks: &Vec<String>) -> (result: GitResult<
    Vec<String>,
>)
    ensures
        session::stepped(
            old(session),
            final(session),
            result,
            runnable_hooks_step(
                old(session).replies(),
                old(session).at(),
                directory@,
                hooks.deep_view(),
            ),
        ),
{
    let ghost all = hooks.deep_view();
    let ghost start = session.at();
    let ghost replies = session.replies();
    let mut enabled: Vec<String> = Vec::new();
    assert(enabled.deep_view() =~= Seq::<Seq<char>>::empty());
    assert(all.take(0) =~= Seq::<Seq<char>>::empty());
    let mut index: usize = 0;
    while index < hooks.len()
        invariant
            index <= hooks@.len(),
            all == hooks.deep_view(),
            session.replies() == replies,
            start == old(session).at(),
            replies == old(session).replies(),
            runnable_hooks_step(replies, start, directory@, all.take(index as int))
                == session::given::<_, GitErrorView>(enabled.deep_view(), session.at()),
        decreases hooks@.len() - index,
    {
        let hook = hooks[index].as_str();
        let ghost longer = all.take(index + 1);
        assert(longer.drop_last() =~= all.take(index as int));
        assert(longer.last() == hook@);
        match commands::hook_is_enabled(session, bytes::join_name(directory, hook)) {
            Ok(found) => {
                if found {
                    words::push_word(&mut enabled, hook);
                }
            },
            Err(halt) => {
                proof {
                    lemma_runnable_hooks_halt(replies, start, directory@, all, index + 1);
                }
                return Err(halt);
            },
        }
        index += 1;
    }
    assert(all.take(index as int) =~= all);
    Ok(enabled)
}

/// Whether a line of a rebase plan runs a command.
pub open spec fn runs_command(line: Seq<char>) -> bool {
    let fields = text::ascii_words(line, ' ');
    fields.len() > 0 && (fields[0] == "exec"@ || fields[0] == "x"@)
}

/// Whether one of some lines runs a command.
pub open spec fn any_runs_command(lines: Seq<Seq<char>>) -> bool {
    exists|i: int| 0 <= i < lines.len() && runs_command(#[trigger] lines[i])
}

/// Whether a rebase plan runs a command.
fn plan_runs_command(contents: &str) -> (result: bool)
    ensures
        result == any_runs_command(text::text_lines(contents@)),
{
    let characters = text::chars_of(contents);
    let lines = text::lines(characters.as_slice());
    let ghost all = text::slices(lines@);
    let mut index: usize = 0;
    while index < lines.len()
        invariant
            index <= lines@.len(),
            all == text::slices(lines@),
            all == text::text_lines(contents@),
            forall|i: int| 0 <= i < index ==> !runs_command(#[trigger] all[i]),
        decreases lines@.len() - index,
    {
        assert(all[index as int] == lines@[index as int]@);
        let spaced = text::space_out(lines[index], ' ');
        let fields = text::split_filled(spaced.as_slice(), ' ');
        assert(fields@.len() == text::slices(fields@).len());
        if fields.len() > 0 {
            assert(text::slices(fields@)[0] == fields@[0]@);
            if text::is_text(fields[0], "exec") || text::is_text(fields[0], "x") {
                assert(runs_command(all[index as int]));
                return true;
            }
        }
        index += 1;
    }
    false
}

/// Refuses where a rebase file holds more than white space.
pub open spec fn blank_file_step(
    replies: Seq<ReplyView>,
    at: nat,
    relative: Seq<char>,
    message: Seq<char>,
) -> GitStep<()> {
    session::followed(
        files::git_file_step(replies, at, relative),
        |contents: Option<Seq<char>>, n: nat|
            if contents is Some && text::trimmed(contents->Some_0).len() > 0 {
                session::failed(commands::refusal(message), n)
            } else {
                session::given((), n)
            },
    )
}

/// Refuses where a rebase file holds more than white space.
fn ensure_blank_file(
    session: &mut Session,
    relative: &str,
    message: &str,
) -> (result: GitResult<()>)
    ensures
        session::stepped(
            old(session),
            final(session),
            result,
            blank_file_step(old(session).replies(), old(session).at(), relative@, message@),
        ),
{
    if let Some(contents) = files::read_git_file(session, relative)? {
        let word = text::trimmed_text(contents.as_str());
        if !word.as_str().is_empty() {
            return Err(Halt::Failed(commands::blocked(message)));
        }
    }
    Ok(())
}

/// The refusal of a merge strategy that a rebase file keeps.
pub open spec fn strategy_refusal(relative: Seq<char>) -> Seq<char> {
    "recovery is blocked because the active rebase persists an explicit merge strategy or strategy option in "@
        + relative
        + ", which may start an uncontained executable; abort and restart without custom strategy settings, or run Git manually"@
}

/// Refuses where a rebase file keeps a merge strategy.
fn ensure_no_strategy(session: &mut Session, relative: &str) -> (result: GitResult<()>)
    ensures
        session::stepped(
            old(session),
            final(session),
            result,
            blank_file_step(
                old(session).replies(),
                old(session).at(),
                relative@,
                strategy_refusal(relative@),
            ),
        ),
{
    let message = text::concat3(
        "recovery is blocked because the active rebase persists an explicit merge strategy or strategy option in ",
        relative,
        ", which may start an uncontained executable; abort and restart without custom strategy settings, or run Git manually",
    );
    ensure_blank_file(session, relative, message.as_str())
}

/// Refuses where a rebase plan runs a command.
pub open spec fn plan_step(replies: Seq<ReplyView>, at: nat, relative: Seq<char>) -> GitStep<()> {
    session::followed(
        files::git_file_step(replies, at, relative),
        |contents: Option<Seq<char>>, n: nat|
            if contents is Some && any_runs_command(text::text_lines(contents->Some_0)) {
                session::failed(
                    commands::refusal(
                        "recovery is blocked because the remaining rebase plan contains an exec command that may start uncontained processes; remove it and preview recovery again, or run Git manually"@,
                    ),
                    n,
                )
            } else {
                session::given((), n)
            },
    )
}

/// Refuses where a rebase plan runs a command.
fn ensure_plan_runs_nothing(session: &mut Session, relative: &str) -> (result: GitResult<()>)
    ensures
        session::stepped(
            old(session),
            final(session),
            result,
            plan_step(old(session).replies(), old(session).at(), relative@),
        ),
{
    if let Some(contents) = files::read_git_file(session, relative)? {
        if plan_runs_command(contents.as_str()) {
            return Err(
                Halt::Failed(
                    commands::blocked(
                        "recovery is blocked because the remaining rebase plan contains an exec command that may start uncontained processes; remove it and preview recovery again, or run Git manually",
                    ),
                ),
            );
        }
    }
    Ok(())
}

/// Refuses where a setting that starts a process is on.
pub open spec fn setting_off_step(
    replies: Seq<ReplyView>,
    at: nat,
    key: Seq<char>,
    message: Seq<char>,
) -> GitStep<()> {
    session::followed(
        setting_enabled_step(replies, at, key),
        |enabled: bool, n: nat|
            if enabled {
                session::failed(commands::refusal(message), n)
            } else {
                session::given((), n)
            },
    )
}

/// Refuses where a setting that starts a process is on.
fn ensure_setting_off(session: &mut Session, key: &str, message: &str) -> (result: GitResult<()>)
    ensures
        session::stepped(
            old(session),
            final(session),
            result,
            setting_off_step(old(session).replies(), old(session).at(), key@, message@),
        ),
{
    if bounded_config_is_enabled(session, key)? {
        return Err(Halt::Failed(commands::blocked(message)));
    }
    Ok(())
}

/// The refusal where commits or tags are signed.
pub open spec fn signing_refusal(key: Seq<char>) -> Seq<char> {
    "recovery is blocked because "@ + key
        + " may start an uncontained signing process; disable it and preview recovery again, or run Git manually"@
}

/// Refuses where commits or tags are signed.
fn ensure_no_signing(session: &mut Session, key: &str) -> (result: GitResult<()>)
    ensures
        session::stepped(
            old(session),
            final(session),
            result,
            setting_off_step(
                old(session).replies(),
                old(session).at(),
                key@,
                signing_refusal(key@),
            ),
        ),
{
    let message = text::concat3(
        "recovery is blocked because ",
        key,
        " may start an uncontained signing process; disable it and preview recovery again, or run Git manually",
    );
    ensure_setting_off(session, key, message.as_str())
}

/// The refusal of a rebase that signs its commits.
pub open spec fn sign_option_refusal() -> Seq<char> {
    "recovery is blocked because the active rebase requests commit signing with --gpg-sign, which may start an uncontained signer; abort and restart the rebase without signing, or run Git manually"@
}

/// Refuses where a hook could be run.
pub open spec fn no_hooks_step(replies: Seq<ReplyView>, at: nat) -> GitStep<()> {
    session::followed(
        hooks_path_step(replies, at),
        |directory: Seq<u8>, n: nat|
            session::followed(
                runnable_hooks_step(replies, n, directory, recovery_hooks()),
                |hooks: Seq<Seq<char>>, n: nat|
                    if hooks.len() > 0 {
                        session::failed(
                            commands::refusal(
                                "recovery is blocked because executable Git hooks may start uncontained processes: "@
                                    + text::joined(hooks, ", "@)
                                    + "; disable them and preview recovery again, or run Git manually"@,
                            ),
                            n,
                        )
                    } else {
                        session::given((), n)
                    },
            ),
    )
}

/// Refuses where a hook could be run.
fn ensure_no_hooks(session: &mut Session) -> (result: GitResult<()>)
    ensures
        session::stepped(
            old(session),
            final(session),
            result,
            no_hooks_step(old(session).replies(), old(session).at()),
        ),
{
    let directory = recovery_hooks_path_until(session)?;
    let names = recovery_hook_names();
    let hooks = runnable_hooks(session, directory.as_slice(), &names)?;
    assert(hooks@.len() == hooks.deep_view().len());
    if hooks.len() > 0 {
        let list = text::join(&hooks, ", ");
        let message = text::concat3(
            "recovery is blocked because executable Git hooks may start uncontained processes: ",
            list.as_str(),
            "; disable them and preview recovery again, or run Git manually",
        );
        return Err(Halt::Failed(commands::blocked(message.as_str())));
    }
    Ok(())
}

/// The arguments that list the names of all settings.
pub open spec fn setting_names_words() -> Seq<Seq<char>> {
    seq!["config"@, "--name-only"@, "--null"@, "--list"@]
}

/// Refuses where settings name programs that a recovery could start.
pub open spec fn no_drivers_step(replies: Seq<ReplyView>, at: nat) -> GitStep<()> {
    session::followed(
        bounded::probe_step(replies, at, setting_names_words()),
        |output: BoundedCommandOutputView, n: nat|
            drivers::external_drivers_step(replies, n, setting_names_words(), output),
    )
}

/// Refuses where settings name programs that a recovery could start.
fn ensure_no_drivers(session: &mut Session) -> (result: GitResult<()>)
    ensures
        session::stepped(
            old(session),
            final(session),
            result,
            no_drivers_step(old(session).replies(), old(session).at()),
        ),
{
    let output = bounded::probe(
        session,
        words::words4("config", "--name-only", "--null", "--list"),
    )?;
    drivers::ensure_recovery_external_drivers_safe_until(
        session,
        words::words4("config", "--name-only", "--null", "--list"),
        &output,
    )
}

/// Refuses where settings make Git start a monitor or a signer.
pub open spec fn settings_safe_step(replies: Seq<ReplyView>, at: nat) -> GitStep<()> {
    session::followed(
        setting_off_step(
            replies,
            at,
            "core.fsmonitor"@,
            "recovery is blocked because core.fsmonitor may start an uncontained process; disable it and preview recovery again, or run Git manually"@,
        ),
        |_monitor: (), n: nat|
            session::followed(
                setting_off_step(
                    replies,
                    n,
                    "commit.gpgsign"@,
                    signing_refusal("commit.gpgsign"@),
                ),
                |_commit: (), n: nat|
                    setting_off_step(
                        replies,
                        n,
                        "tag.gpgsign"@,
                        signing_refusal("tag.gpgsign"@),
                    ),
            ),
    )
}

/// Refuses where settings make Git start a monitor or a signer.
fn ensure_settings_safe(session: &mut Session) -> (result: GitResult<()>)
    ensures
        session::stepped(
            old(session),
            final(session),
            result,
            settings_safe_step(old(session).replies(), old(session).at()),
        ),
{
    ensure_setting_off(
        session,
        "core.fsmonitor",
        "recovery is blocked because core.fsmonitor may start an uncontained process; disable it and preview recovery again, or run Git manually",
    )?;
    ensure_no_signing(session, "commit.gpgsign")?;
    ensure_no_signing(session, "tag.gpgsign")
}

/// Refuses where the files of a rebase ask for a signer or for a merge strategy.
pub open spec fn rebase_options_step(replies: Seq<ReplyView>, at: nat) -> GitStep<()> {
    session::followed(
        blank_file_step(replies, at, "rebase-merge/gpg_sign_opt"@, sign_option_refusal()),
        |_first: (), n: nat|
            session::followed(
                blank_file_step(replies, n, "rebase-apply/gpg_sign_opt"@, sign_option_refusal()),
                |_second: (), n: nat| strategies_step(replies, n),
            ),
    )
}

/// Refuses where the files of a rebase ask for a merge strategy.
pub open spec fn strategies_step(replies: Seq<ReplyView>, at: nat) -> GitStep<()> {
    session::followed(
        blank_file_step(
            replies,
            at,
            "rebase-merge/strategy"@,
            strategy_refusal("rebase-merge/strategy"@),
        ),
        |_first: (), n: nat|
            session::followed(
                blank_file_step(
                    replies,
                    n,
                    "rebase-apply/strategy"@,
                    strategy_refusal("rebase-apply/strategy"@),
                ),
                |_second: (), n: nat|
                    session::followed(
                        blank_file_step(
                            replies,
                            n,
                            "rebase-merge/strategy_opts"@,
                            strategy_refusal("rebase-merge/strategy_opts"@),
                        ),
                        |_third: (), n: nat|
                            blank_file_step(
                                replies,
                                n,
                                "rebase-apply/strategy_opts"@,
                                strategy_refusal("rebase-apply/strategy_opts"@),
                            ),
                    ),
            ),
    )
}

/// Refuses where the files of a rebase ask for a merge strategy.
fn ensure_no_strategies(session: &mut Session) -> (result: GitResult<()>)
    ensures
        session::stepped(
            old(session),
            final(session),
            result,
            strategies_step(old(session).replies(), old(session).at()),
        ),
{
    ensure_no_strategy(session, "rebase-merge/strategy")?;
    ensure_no_strategy(session, "rebase-apply/strategy")?;
    ensure_no_strategy(session, "rebase-merge/strategy_opts")?;
    ensure_no_strategy(session, "rebase-apply/strategy_opts")
}

/// Refuses where the files of a rebase ask for a signer or for a merge strategy.
fn ensure_rebase_options_safe(session: &mut Session) -> (result: GitResult<()>)
    ensures
        session::stepped(
            old(session),
            final(session),
            result,
            rebase_options_step(old(session).replies(), old(session).at()),
        ),
{
    ensure_blank_file(
        session,
        "rebase-merge/gpg_sign_opt",
        "recovery is blocked because the active rebase requests commit signing with --gpg-sign, which may start an uncontained signer; abort and restart the rebase without signing, or run Git manually",
    )?;
    ensure_blank_file(
        session,
        "rebase-apply/gpg_sign_opt",
        "recovery is blocked because the active rebase requests commit signing with --gpg-sign, which may start an uncontained signer; abort and restart the rebase without signing, or run Git manually",
    )?;
    ensure_no_strategies(session)
}

/// Refuses where anything could make a recovery start a process that is not contained.
pub open spec fn process_configuration_step(replies: Seq<ReplyView>, at: nat) -> GitStep<()> {
    session::followed(
        settings_safe_step(replies, at),
        |_settings: (), n: nat|
            session::followed(
                rebase_options_step(replies, n),
                |_options: (), n: nat|
                    session::followed(
                        no_drivers_step(replies, n),
                        |_drivers: (), n: nat|
                            session::followed(
                                no_hooks_step(replies, n),
                                |_hooks: (), n: nat|
                                    session::followed(
                                        plan_step(replies, n, "rebase-merge/git-rebase-todo"@),
                                        |_plan: (), n: nat|
                                            plan_step(
                                                replies,
                                                n,
                                                "rebase-apply/git-rebase-todo"@,
                                            ),
                                    ),
                            ),
                    ),
            ),
    )
}

/// Refuses where anything could make a recovery start a process that is not contained.
pub(crate) fn ensure_recovery_process_configuration_safe_until(session: &mut Session) -> (result:
    GitResult<()>)
    ensures
        session::stepped(
            old(session),
            final(session),
            result,
            process_configuration_step(old(session).replies(), old(session).at()),
        ),
{
    ensure_settings_safe(session)?;
    ensure_rebase_options_safe(session)?;
    ensure_no_drivers(session)?;
    ensure_no_hooks(session)?;
    ensure_plan_runs_nothing(session, "rebase-merge/git-rebase-todo")?;
    ensure_plan_runs_nothing(session, "rebase-apply/git-rebase-todo")
}

/// What has to hold of the output of a probe.
#[derive(Debug, Clone, PartialEq, Eq)]
pub enum RecoveryProbeSafety {
    /// Nothing but that the command succeeded or ended with code 1.
    Unchecked,
    /// The named setting is off.
    DisabledConfig(String),
    /// No setting names a program.
    ExternalDrivers,
}

/// The values of a [`RecoveryProbeSafety`].
#[verifier::ext_equal]
pub enum RecoveryProbeSafetyView {
    Unchecked,
    DisabledConfig(Seq<char>),
    ExternalDrivers,
}

impl DeepView for RecoveryProbeSafety {
    type V = RecoveryProbeSafetyView;

    open spec fn deep_view(&self) -> RecoveryProbeSafetyView {
        match self {
            RecoveryProbeSafety::Unchecked => RecoveryProbeSafetyView::Unchecked,
            RecoveryProbeSafety::DisabledConfig(key) => RecoveryProbeSafetyView::DisabledConfig(
                key.deep_view(),
            ),
            RecoveryProbeSafety::ExternalDrivers => RecoveryProbeSafetyView::ExternalDrivers,
        }
    }
}

/// What a probe's output says of its safety.
pub open spec fn observation(
    safety: RecoveryProbeSafetyView,
    args: Seq<Seq<char>>,
    output: BoundedCommandOutputView,
) -> Result<(), GitErrorView> {
    match safety {
        RecoveryProbeSafetyView::Unchecked => if !commands::succeeded(output.status)
            && output.status.code != Some(1i32) {
            Err(bounded::command_failure(output, args))
        } else {
            Ok(())
        },
        RecoveryProbeSafetyView::DisabledConfig(key) => if output.stdout.truncated {
            Err(commands::refusal("recovery is blocked because "@ + key + " is too long"@))
        } else if output.status.code == Some(1i32) {
            Ok(())
        } else if !commands::succeeded(output.status) {
            Err(bounded::command_failure(output, args))
        } else if is_off(bytes::lossy_text(bytes::without_line_ending(output.stdout.bytes))) {
            Ok(())
        } else {
            Err(
                commands::refusal(
                    "recovery is blocked because "@ + key + " may start "@ + (if key
                        == "core.fsmonitor"@ {
                        "an uncontained process"@
                    } else {
                        "an uncontained signing process"@
                    })
                        + "; disable it and preview recovery again, or run Git manually"@,
                ),
            )
        },
        RecoveryProbeSafetyView::ExternalDrivers => if output.stdout.truncated {
            Err(
                commands::refusal(
                    "recovery is blocked because Git configuration exceeds the bounded diagnostic limit, so external drivers cannot be ruled out"@,
                ),
            )
        } else if !commands::succeeded(output.status) {
            Err(bounded::command_failure(output, args))
        } else {
            let names = drivers::loose_drivers(text::pieces(output.stdout.bytes, 0u8));
            if names.len() > 0 {
                Err(
                    commands::refusal(
                        "recovery is blocked because configured external Git drivers may be activated by a recovery target tree and start uncontained processes: "@
                            + text::joined(names, ", "@)
                            + "; remove them from every Git config scope, preview recovery again, or run Git manually"@,
                    ),
                )
            } else {
                Ok(())
            }
        },
    }
}

/// Refuses where a probe's output shows that a process could be started.
pub fn ensure_recovery_probe_observation_safe(
    safety: &RecoveryProbeSafety,
    args: Vec<String>,
    output: &BoundedCommandOutput,
) -> (result: Result<(), GitError>)
    ensures
        (match result {
            Ok(_) => Ok(()),
            Err(error) => Err(error.deep_view()),
        }) == observation(safety.deep_view(), args.deep_view(), output.deep_view()),
{
    match safety {
        RecoveryProbeSafety::Unchecked => {
            if !output.status.success() && !output.ended_with(1) {
                return Err(output.git_error(args));
            }
        },
        RecoveryProbeSafety::DisabledConfig(key) => {
            if output.stdout.truncated {
                let message = text::concat3(
                    "recovery is blocked because ",
                    key.as_str(),
                    " is too long",
                );
                return Err(commands::blocked(message.as_str()));
            }
            if output.ended_with(1) {
                return Ok(());
            }
            if !output.status.success() {
                return Err(output.git_error(args));
            }
            if !value_is_off(output.stdout.bytes.as_slice()) {
                let danger = if text::same_text(key.as_str(), "core.fsmonitor") {
                    "an uncontained process"
                } else {
                    "an uncontained signing process"
                };
                let message = text::concat5(
                    "recovery is blocked because ",
                    key.as_str(),
                    " may start ",
                    danger,
                    "; disable it and preview recovery again, or run Git manually",
                );
                return Err(commands::blocked(message.as_str()));
            }
        },
        RecoveryProbeSafety::ExternalDrivers => {
            if output.stdout.truncated {
                return Err(
                    commands::blocked(
                        "recovery is blocked because Git configuration exceeds the bounded diagnostic limit, so external drivers cannot be ruled out",
                    ),
                );
            }
            if !output.status.success() {
                return Err(output.git_error(args));
            }
            let settings = text::split(output.stdout.bytes.as_slice(), 0);
            let names = drivers::find_loose_drivers(&settings);
            assert(names@.len() == names.deep_view().len());
            if names.len() > 0 {
                let list = text::join(&names, ", ");
                let message = text::concat3(
                    "recovery is blocked because configured external Git drivers may be activated by a recovery target tree and start uncontained processes: ",
                    list.as_str(),
                    "; remove them from every Git config scope, preview recovery again, or run Git manually",
                );
                return Err(commands::blocked(message.as_str()));
            }
        },
    }
    Ok(())
}

/// Whether a label is that of one of two files.
pub open spec fn labels(label: Seq<u8>, first: Seq<char>, second: Seq<char>) -> bool {
    label == utf8::encode_utf8(first) || label == utf8::encode_utf8(second)
}

/// Whether a label is that of one of two files.
fn is_labelled(label: &[u8], first: &str, second: &str) -> (result: bool)
    ensures
        result == labels(label@, first@, second@),
{
    bytes::is_bytes_of(label, first) || bytes::is_bytes_of(label, second)
}

/// Whether a label is that of a rebase plan.
pub open spec fn labels_plan(label: Seq<u8>) -> bool {
    labels(label, "rebase-merge/git-rebase-todo"@, "rebase-apply/git-rebase-todo"@)
}

/// Whether a label is that of a rebase plan.
pub fn is_plan_label(label: &[u8]) -> (result: bool)
    ensures
        result == labels_plan(label@),
{
    is_labelled(label, "rebase-merge/git-rebase-todo", "rebase-apply/git-rebase-todo")
}

/// Whether a file with a label can make a rebase start a process.
pub open spec fn controls_processes(label: Seq<u8>) -> bool {
    ||| labels(label, "rebase-merge/gpg_sign_opt"@, "rebase-apply/gpg_sign_opt"@)
    ||| labels(label, "rebase-merge/strategy"@, "rebase-apply/strategy"@)
    ||| labels(label, "rebase-merge/strategy_opts"@, "rebase-apply/strategy_opts"@)
    ||| labels_plan(label)
}

/// Whether a file with a label can make a rebase start a process.
pub fn recovery_control_input_requires_safety_inspection(label: &[u8]) -> (result: bool)
    ensures
        result == controls_processes(label@),
{
    is_labelled(label, "rebase-merge/gpg_sign_opt", "rebase-apply/gpg_sign_opt") || is_labelled(
        label,
        "rebase-merge/strategy",
        "rebase-apply/strategy",
    ) || is_labelled(label, "rebase-merge/strategy_opts", "rebase-apply/strategy_opts")
        || is_plan_label(label)
}

/// Whether some bytes hold more than ASCII white space.
pub open spec fn holds_more_than_space(contents: Seq<u8>) -> bool {
    exists|i: int| 0 <= i < contents.len() && !text::ascii_gap(#[trigger] contents[i] as int)
}

/// Whether some bytes hold more than ASCII white space.
fn is_more_than_space(contents: &[u8]) -> (result: bool)
    ensures
        result == holds_more_than_space(contents@),
{
    let mut index: usize = 0;
    while index < contents.len()
        invariant
            index <= contents@.len(),
            forall|i: int| 0 <= i < index ==> text::ascii_gap(#[trigger] contents@[i] as int),
        decreases contents@.len() - index,
    {
        let byte = contents[index];
        if !(byte == 9 || byte == 10 || byte == 12 || byte == 13 || byte == 32) {
            assert(!text::ascii_gap(contents@[index as int] as int));
            return true;
        }
        index += 1;
    }
    false
}

/// Whether a line of a rebase plan, as bytes, runs a command.
pub open spec fn line_runs_command(line: Seq<u8>) -> bool {
    let fields = text::ascii_words(line, 32u8);
    fields.len() > 0 && labels(fields[0], "exec"@, "x"@)
}

/// Whether one of some lines, as bytes, runs a command.
pub open spec fn any_line_runs_command(lines: Seq<Seq<u8>>) -> bool {
    exists|i: int| 0 <= i < lines.len() && line_runs_command(#[trigger] lines[i])
}

/// Whether a rebase plan, as bytes, runs a command.
fn bytes_run_command(contents: &[u8]) -> (result: bool)
    ensures
        result == any_line_runs_command(text::pieces(contents@, 10u8)),
{
    let lines = text::split(contents, 10);
    let ghost all = text::slices(lines@);
    let mut index: usize = 0;
    while index < lines.len()
        invariant
            index <= lines@.len(),
            all == text::slices(lines@),
            all == text::pieces(contents@, 10u8),
            forall|i: int| 0 <= i < index ==> !line_runs_command(#[trigger] all[i]),
        decreases lines@.len() - index,
    {
        assert(all[index as int] == lines@[index as int]@);
        let spaced = text::space_out(lines[index], 32);
        let fields = text::split_filled(spaced.as_slice(), 32);
        assert(fields@.len() == text::slices(fields@).len());
        if fields.len() > 0 {
            assert(text::slices(fields@)[0] == fields@[0]@);
            if is_labelled(fields[0], "exec", "x") {
                assert(line_runs_command(all[index as int]));
                return true;
            }
        }
        index += 1;
    }
    false
}

/// What the contents of a file say of its safety.
pub open spec fn control_observation(label: Seq<u8>, contents: Seq<u8>) -> Result<(), GitErrorView> {
    let filled = holds_more_than_space(contents);
    if labels(label, "rebase-merge/gpg_sign_opt"@, "rebase-apply/gpg_sign_opt"@) && filled {
        Err(
            commands::refusal(
                "recovery is blocked because the active rebase requests commit signing with --gpg-sign, which may start an uncontained signer; abort and restart the rebase without signing, or run Git manually"@,
            ),
        )
    } else if labels(label, "rebase-merge/strategy"@, "rebase-apply/strategy"@) && filled {
        Err(
            commands::refusal(
                "recovery is blocked because the active rebase persists an explicit merge strategy, which may start an uncontained executable; abort and restart without custom strategy settings, or run Git manually"@,
            ),
        )
    } else if labels(label, "rebase-merge/strategy_opts"@, "rebase-apply/strategy_opts"@)
        && filled {
        Err(
            commands::refusal(
                "recovery is blocked because the active rebase persists an explicit merge strategy option, which may start an uncontained executable; abort and restart without custom strategy settings, or run Git manually"@,
            ),
        )
    } else if labels_plan(label) && any_line_runs_command(text::pieces(contents, 10u8)) {
        Err(
            commands::refusal(
                "recovery is blocked because the remaining rebase plan contains an exec command that may start uncontained processes; remove it and preview recovery again, or run Git manually"@,
            ),
        )
    } else {
        Ok(())
    }
}

/// Refuses where the contents of a file show that a process could be started.
pub fn ensure_recovery_control_observation_safe(label: &[u8], contents: &[u8]) -> (result: Result<
    (),
    GitError,
>)
    ensures
        (match result {
            Ok(_) => Ok(()),
            Err(error) => Err(error.deep_view()),
        }) == control_observation(label@, contents@),
{
    let filled = is_more_than_space(contents);
    if is_labelled(label, "rebase-merge/gpg_sign_opt", "rebase-apply/gpg_sign_opt") && filled {
        return Err(
            commands::blocked(
                "recovery is blocked because the active rebase requests commit signing with --gpg-sign, which may start an uncontained signer; abort and restart the rebase without signing, or run Git manually",
            ),
        );
    }
    if is_labelled(label, "rebase-merge/strategy", "rebase-apply/strategy") && filled {
        return Err(
            commands::blocked(
                "recovery is blocked because the active rebase persists an explicit merge strategy, which may start an uncontained executable; abort and restart without custom strategy settings, or run Git manually",
            ),
        );
    }
    if is_labelled(label, "rebase-merge/strategy_opts", "rebase-apply/strategy_opts") && filled {
        return Err(
            commands::blocked(
                "recovery is blocked because the active rebase persists an explicit merge strategy option, which may start an uncontained executable; abort and restart without custom strategy settings, or run Git manually",
            ),
        );
    }
    if is_plan_label(label) && bytes_run_command(contents) {
        return Err(
            commands::blocked(
                "recovery is blocked because the remaining rebase plan contains an exec command that may start uncontained processes; remove it and preview recovery again, or run Git manually",
            ),
        );
    }
    Ok(())
}

/// The known hook that a label names, as its place in the list.
pub open spec fn hook_label(label: Seq<u8>, hook: Seq<char>) -> bool {
    bytes::behind(label, "hooks/"@) == Some(utf8::encode_utf8(hook))
}

/// What a hook that is found among the inputs says of its safety: `hooks` are the known hooks.
pub open spec fn hook_observation(
    label: Seq<u8>,
    metadata: FileMetadata,
    hooks: Seq<Seq<char>>,
) -> Result<(), GitErrorView>
    decreases hooks.len(),
{
    if hooks.len() == 0 {
        Ok(())
    } else if hook_label(label, hooks[0]) {
        if commands::runs_as_hook(metadata) {
            Err(
                commands::refusal(
                    "recovery is blocked because executable Git hooks may start uncontained processes: "@
                        + hooks[0]
                        + "; disable them and preview recovery again, or run Git manually"@,
                ),
            )
        } else {
            Ok(())
        }
    } else {
        hook_observation(label, metadata, hooks.skip(1))
    }
}

/// Refuses a hook that Git would run.
pub fn ensure_recovery_hook_observation_safe(label: &[u8], metadata: &FileMetadata) -> (result: Result<
    (),
    GitError,
>)
    ensures
        (match result {
            Ok(_) => Ok(()),
            Err(error) => Err(error.deep_view()),
        }) == hook_observation(label@, *metadata, recovery_hooks()),
{
    let names = recovery_hook_names();
    let ghost all = names.deep_view();
    let mut index: usize = 0;
    assert(all.skip(0) =~= all);
    while index < names.len()
        invariant
            index <= names@.len(),
            all == names.deep_view(),
            all == recovery_hooks(),
            hook_observation(label@, *metadata, all) == hook_observation(
                label@,
                *metadata,
                all.skip(index as int),
            ),
        decreases names@.len() - index,
    {
        let hook = names[index].as_str();
        let ghost rest = all.skip(index as int);
        assert(rest[0] == hook@);
        assert(rest.skip(1) =~= all.skip(index + 1));
        let named = match bytes::strip_bytes_prefix(label, "hooks/") {
            Some(name) => bytes::is_bytes_of(name, hook),
            None => false,
        };
        if named {
            if metadata.kind == FileKind::File && metadata.mode & 0o111 != 0 {
                let message = text::concat3(
                    "recovery is blocked because executable Git hooks may start uncontained processes: ",
                    hook,
                    "; disable them and preview recovery again, or run Git manually",
                );
                return Err(commands::blocked(message.as_str()));
            }
            return Ok(());
        }
        index += 1;
    }
    Ok(())
}

}
