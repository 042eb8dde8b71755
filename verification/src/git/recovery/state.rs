//! The fingerprint of a repository's state.
use crate::bytes;
use crate::git::commands;
use crate::git::commands::{GitResult, GitStep};
use crate::git::recovery::bounded;
use crate::git::recovery::drivers;
use crate::git::recovery::files;
use crate::git::recovery::records;
use crate::git::recovery::records::Record;
use crate::git::recovery::safety;
use crate::git::recovery::safety::{RecoveryProbeSafety, RecoveryProbeSafetyView};
use crate::git::recovery::survey;
use crate::git::recovery::survey::{RecoveryProbe, RecoveryProbeView, Survey, SurveyView};
use crate::git::types::{GitError, GitErrorView};
use crate::order;
use crate::session;
use crate::session::{
    BoundedCommandOutput, BoundedCommandOutputView, BoundedCommandPolicy, Halt, HaltView, ReplyView,
    Session,
};
use crate::text;
use crate::words;
use vstd::prelude::*;
use vstd::utf8;

verus! {

broadcast use crate::bytes::bytes_are_their_view;

/// How many bytes of untracked files a fingerprint covers at most.
pub const RECOVERY_UNTRACKED_DATA_LIMIT: u64 = 67108864;

/// The files of a repository's own that a recovery depends on.
pub open spec fn control_paths() -> Seq<Seq<char>> {
    seq![
        "HEAD"@,
        "index"@,
        "ORIG_HEAD"@,
        "MERGE_HEAD"@,
        "MERGE_MSG"@,
        "MERGE_MODE"@,
        "MERGE_AUTOSTASH"@,
        "MERGE_RR"@,
        "AUTO_MERGE"@,
        "SQUASH_MSG"@,
        "REBASE_HEAD"@,
        "CHERRY_PICK_HEAD"@,
        "REVERT_HEAD"@,
        "BISECT_HEAD"@,
        "rebase-apply"@,
        "rebase-merge"@,
        "sequencer"@,
        "rr-cache"@,
        "info/attributes"@,
        "info/sparse-checkout"@,
    ]
}

/// The files of a repository's own that a recovery depends on.
pub(crate) fn control_path_names() -> (result: Vec<String>)
    ensures
        result.deep_view() == control_paths(),
{
    let mut result: Vec<String> = Vec::new();
    words::push_word(&mut result, "HEAD");
    words::push_word(&mut result, "index");
    words::push_word(&mut result, "ORIG_HEAD");
    words::push_word(&mut result, "MERGE_HEAD");
    words::push_word(&mut result, "MERGE_MSG");
    words::push_word(&mut result, "MERGE_MODE");
    words::push_word(&mut result, "MERGE_AUTOSTASH");
    words::push_word(&mut result, "MERGE_RR");
    words::push_word(&mut result, "AUTO_MERGE");
    words::push_word(&mut result, "SQUASH_MSG");
    words::push_word(&mut result, "REBASE_HEAD");
    words::push_word(&mut result, "CHERRY_PICK_HEAD");
    words::push_word(&mut result, "REVERT_HEAD");
    words::push_word(&mut result, "BISECT_HEAD");
    words::push_word(&mut result, "rebase-apply");
    words::push_word(&mut result, "rebase-merge");
    words::push_word(&mut result, "sequencer");
    words::push_word(&mut result, "rr-cache");
    words::push_word(&mut result, "info/attributes");
    words::push_word(&mut result, "info/sparse-checkout");
    assert(result.deep_view() =~= control_paths());
    result
}

/// A command with what it gave.
pub open spec fn probe_of(
    args: Seq<Seq<char>>,
    output: BoundedCommandOutputView,
    safety: RecoveryProbeSafetyView,
) -> RecoveryProbeView {
    RecoveryProbeView {
        args,
        digest: output.stdout.digest,
        status: output.status.code,
        safety,
    }
}

/// A survey that has taken in the digest of a command's output.
pub open spec fn digested(
    survey: SurveyView,
    args: Seq<Seq<char>>,
    output: BoundedCommandOutputView,
) -> SurveyView {
    survey::with_probe(
        survey::with_record(survey, Record::Output { digest: output.stdout.digest }),
        probe_of(args, output, RecoveryProbeSafetyView::Unchecked),
    )
}

/// A survey that has taken in the code that a command ended with and the digest of its output.
pub open spec fn probed(
    survey: SurveyView,
    args: Seq<Seq<char>>,
    output: BoundedCommandOutputView,
    safety: RecoveryProbeSafetyView,
) -> SurveyView {
    survey::with_probe(
        survey::with_record(
            survey,
            Record::Command {
                code: records::exit_number(output.status.code),
                digest: output.stdout.digest,
            },
        ),
        probe_of(args, output, safety),
    )
}

/// Takes in the digest of a command's output.
pub(crate) fn take_digest(survey: &mut Survey, args: Vec<String>, output: &BoundedCommandOutput)
    ensures
        final(survey).deep_view() == digested(
            old(survey).deep_view(),
            args.deep_view(),
            output.deep_view(),
        ),
{
    survey.push_output(output.stdout.digest.as_slice());
    survey.push_probe(
        RecoveryProbe {
            args,
            digest: bytes::copy_bytes(output.stdout.digest.as_slice()),
            status: output.status.code,
            safety: RecoveryProbeSafety::Unchecked,
        },
    );
}

/// Takes in the code that a command ended with and the digest of its output.
pub(crate) fn take_probe(
    survey: &mut Survey,
    args: Vec<String>,
    output: &BoundedCommandOutput,
    safety: RecoveryProbeSafety,
)
    ensures
        final(survey).deep_view() == probed(
            old(survey).deep_view(),
            args.deep_view(),
            output.deep_view(),
            safety.deep_view(),
        ),
{
    survey.push_command(output.status.code, output.stdout.digest.as_slice());
    survey.push_probe(
        RecoveryProbe {
            args,
            digest: bytes::copy_bytes(output.stdout.digest.as_slice()),
            status: output.status.code,
            safety,
        },
    );
}

/// Takes in the value of a setting that has to be off.
pub open spec fn setting_step(
    replies: Seq<ReplyView>,
    at: nat,
    survey: SurveyView,
    key: Seq<char>,
) -> GitStep<SurveyView> {
    let args = seq!["config"@, "--get"@, key];
    let safety = RecoveryProbeSafetyView::DisabledConfig(key);
    session::followed(
        bounded::probe_step(replies, at, args),
        |output: BoundedCommandOutputView, n: nat|
            match safety::observation(safety, args, output) {
                Err(error) => session::failed(error, n),
                Ok(_) => session::given(probed(survey, args, output, safety), n),
            },
    )
}

/// Takes in the value of a setting that has to be off.
fn take_setting(session: &mut Session, survey: &mut Survey, key: &str) -> (result: GitResult<()>)
    ensures
        final(session).replies() == old(session).replies(),
        ({
            let step = setting_step(
                old(session).replies(),
                old(session).at(),
                old(survey).deep_view(),
                key@,
            );
            &&& step.next == final(session).at()
            &&& match result {
                Ok(_) => step.result == Ok::<SurveyView, HaltView<GitErrorView>>(
                    final(survey).deep_view(),
                ),
                Err(halt) => step.result == Err::<SurveyView, _>(halt.deep_view()),
            }
        }),
{
    let output = bounded::probe(session, words::words3("config", "--get", key))?;
    let safety = RecoveryProbeSafety::DisabledConfig(key.to_owned());
    commands::settle(
        safety::ensure_recovery_probe_observation_safe(
            &safety,
            words::words3("config", "--get", key),
            &output,
        ),
    )?;
    take_probe(survey, words::words3("config", "--get", key), &output, safety);
    Ok(())
}

/// Takes in the settings that could make Git start a process.
pub open spec fn process_settings_step(
    replies: Seq<ReplyView>,
    at: nat,
    survey: SurveyView,
) -> GitStep<
    SurveyView,
> {
    session::followed(
        setting_step(replies, at, survey, "core.fsmonitor"@),
        |survey: SurveyView, n: nat|
            session::followed(
                setting_step(replies, n, survey, "commit.gpgsign"@),
                |survey: SurveyView, n: nat|
                    session::followed(
                        setting_step(replies, n, survey, "tag.gpgsign"@),
                        |survey: SurveyView, n: nat| driver_settings_step(replies, n, survey),
                    ),
            ),
    )
}

/// Takes in the names of all settings, none of which may name a program that could be started.
pub open spec fn driver_settings_step(
    replies: Seq<ReplyView>,
    at: nat,
    survey: SurveyView,
) -> GitStep<
    SurveyView,
> {
    let args = safety::setting_names_words();
    session::followed(
        bounded::probe_step(replies, at, args),
        |output: BoundedCommandOutputView, n: nat|
            session::followed(
                drivers::external_drivers_step(replies, n, args, output),
                |_safe: (), n: nat|
                    session::given(
                        probed(survey, args, output, RecoveryProbeSafetyView::ExternalDrivers),
                        n,
                    ),
            ),
    )
}

/// Takes in the names of all settings.
fn take_driver_settings(session: &mut Session, survey: &mut Survey) -> (result: GitResult<()>)
    ensures
        final(session).replies() == old(session).replies(),
        ({
            let step = driver_settings_step(
                old(session).replies(),
                old(session).at(),
                old(survey).deep_view(),
            );
            &&& step.next == final(session).at()
            &&& match result {
                Ok(_) => step.result == Ok::<SurveyView, HaltView<GitErrorView>>(
                    final(survey).deep_view(),
                ),
                Err(halt) => step.result == Err::<SurveyView, _>(halt.deep_view()),
            }
        }),
{
    let output = bounded::probe(
        session,
        words::words4("config", "--name-only", "--null", "--list"),
    )?;
    drivers::ensure_recovery_external_drivers_safe_until(
        session,
        words::words4("config", "--name-only", "--null", "--list"),
        &output,
    )?;
    take_probe(
        survey,
        words::words4("config", "--name-only", "--null", "--list"),
        &output,
        RecoveryProbeSafety::ExternalDrivers,
    );
    Ok(())
}

/// Takes in the settings that could make Git start a process.
pub(crate) fn hash_recovery_process_configuration_until(session: &mut Session, survey: &mut Survey) -> (result:
    GitResult<()>)
    ensures
        final(session).replies() == old(session).replies(),
        ({
            let step = process_settings_step(
                old(session).replies(),
                old(session).at(),
                old(survey).deep_view(),
            );
            &&& step.next == final(session).at()
            &&& match result {
                Ok(_) => step.result == Ok::<SurveyView, HaltView<GitErrorView>>(
                    final(survey).deep_view(),
                ),
                Err(halt) => step.result == Err::<SurveyView, _>(halt.deep_view()),
            }
        }),
{
    take_setting(session, survey, "core.fsmonitor")?;
    take_setting(session, survey, "commit.gpgsign")?;
    take_setting(session, survey, "tag.gpgsign")?;
    take_driver_settings(session, survey)
}

/// Takes in the digest of all that a command writes.
pub open spec fn digest_step(
    replies: Seq<ReplyView>,
    at: nat,
    survey: SurveyView,
    args: Seq<Seq<char>>,
) -> GitStep<SurveyView> {
    session::followed(
        bounded::bounded_step(replies, at, args, true, BoundedCommandPolicy::Digest),
        |output: BoundedCommandOutputView, n: nat|
            if commands::succeeded(output.status) {
                session::given(digested(survey, args, output), n)
            } else {
                session::failed(bounded::command_failure(output, args), n)
            },
    )
}

/// Takes in the digest of all that a command writes.
fn take_output(session: &mut Session, survey: &mut Survey, args: Vec<String>) -> (result: GitResult<
    (),
>)
    ensures
        final(session).replies() == old(session).replies(),
        ({
            let step = digest_step(
                old(session).replies(),
                old(session).at(),
                old(survey).deep_view(),
                args.deep_view(),
            );
            &&& step.next == final(session).at()
            &&& match result {
                Ok(_) => step.result == Ok::<SurveyView, HaltView<GitErrorView>>(
                    final(survey).deep_view(),
                ),
                Err(halt) => step.result == Err::<SurveyView, _>(halt.deep_view()),
            }
        }),
{
    let output = bounded::run_bounded(
        session,
        text::clone_texts(&args),
        true,
        BoundedCommandPolicy::Digest,
    )?;
    if !output.status.success() {
        return Err(Halt::Failed(output.git_error(args)));
    }
    take_digest(survey, args, &output);
    Ok(())
}

/// The arguments that ask for the status.
pub open spec fn status_words() -> Seq<Seq<char>> {
    seq![
        "status"@,
        "--porcelain=v2"@,
        "--branch"@,
        "--untracked-files=all"@,
        "-z"@,
    ]
}

/// The arguments that ask for the changes of the working tree.
pub open spec fn change_words() -> Seq<Seq<char>> {
    seq![
        "diff"@,
        "--binary"@,
        "--no-ext-diff"@,
        "--no-textconv"@,
        "--full-index"@,
        "--"@,
    ]
}

/// The arguments that ask for the changes of the index.
pub open spec fn staged_words() -> Seq<Seq<char>> {
    seq![
        "diff"@,
        "--cached"@,
        "--binary"@,
        "--no-ext-diff"@,
        "--no-textconv"@,
        "--full-index"@,
        "--"@,
    ]
}

/// The arguments that ask for all refs.
pub open spec fn ref_words() -> Seq<Seq<char>> {
    seq![
        "for-each-ref"@,
        "--sort=refname"@,
        "--format=%(refname)%00%(objectname)%00%(symref)%00"@,
    ]
}

/// The arguments that ask for all settings.
pub open spec fn settings_words() -> Seq<Seq<char>> {
    seq![
        "config"@,
        "--null"@,
        "--list"@,
        "--show-origin"@,
        "--show-scope"@,
    ]
}

/// Takes in the status, the changes of the working tree and of the index, the refs and the settings.
pub open spec fn outputs_step(replies: Seq<ReplyView>, at: nat, survey: SurveyView) -> GitStep<
    SurveyView,
> {
    session::followed(
        digest_step(replies, at, survey, status_words()),
        |survey: SurveyView, n: nat|
            session::followed(
                digest_step(replies, n, survey, change_words()),
                |survey: SurveyView, n: nat|
                    session::followed(
                        digest_step(replies, n, survey, staged_words()),
                        |survey: SurveyView, n: nat|
                            session::followed(
                                digest_step(replies, n, survey, ref_words()),
                                |survey: SurveyView, n: nat|
                                    digest_step(replies, n, survey, settings_words()),
                            ),
                    ),
            ),
    )
}

/// Takes in the status, the changes of the working tree and of the index, the refs and the settings.
pub(crate) fn take_outputs(session: &mut Session, survey: &mut Survey) -> (result: GitResult<()>)
    ensures
        final(session).replies() == old(session).replies(),
        ({
            let step = outputs_step(
                old(session).replies(),
                old(session).at(),
                old(survey).deep_view(),
            );
            &&& step.next == final(session).at()
            &&& match result {
                Ok(_) => step.result == Ok::<SurveyView, HaltView<GitErrorView>>(
                    final(survey).deep_view(),
                ),
                Err(halt) => step.result == Err::<SurveyView, _>(halt.deep_view()),
            }
        }),
{
    take_output(
        session,
        survey,
        words::words5("status", "--porcelain=v2", "--branch", "--untracked-files=all", "-z"),
    )?;
    take_output(
        session,
        survey,
        words::words6("diff", "--binary", "--no-ext-diff", "--no-textconv", "--full-index", "--"),
    )?;
    take_output(
        session,
        survey,
        words::words7(
            "diff",
            "--cached",
            "--binary",
            "--no-ext-diff",
            "--no-textconv",
            "--full-index",
            "--",
        ),
    )?;
    take_output(
        session,
        survey,
        words::words3(
            "for-each-ref",
            "--sort=refname",
            "--format=%(refname)%00%(objectname)%00%(symref)%00",
        ),
    )?;
    take_output(
        session,
        survey,
        words::words5("config", "--null", "--list", "--show-origin", "--show-scope"),
    )
}

/// The refusal where recovery inputs are too large.
pub open spec fn input_limit_refusal() -> Seq<char> {
    "recovery planning is blocked because recovery input data exceeds its fingerprint limit"@
}

/// Takes in what a path leads to; symbolic links are followed.
pub open spec fn path_into_step(
    replies: Seq<ReplyView>,
    at: nat,
    survey: SurveyView,
    label: Seq<u8>,
    path: Seq<u8>,
) -> GitStep<SurveyView> {
    let look = survey::look_view(true, None, input_limit_refusal());
    session::followed(
        survey::path_step(replies, at, label, path, 0, survey.entries, look),
        |traces: survey::Traces, n: nat| session::given(survey::extended(survey, traces), n),
    )
}

/// Takes in what a path leads to.
fn take_path(session: &mut Session, survey: &mut Survey, label: &[u8], path: &[u8]) -> (result:
    GitResult<()>)
    ensures
        final(session).replies() == old(session).replies(),
        ({
            let step = path_into_step(
                old(session).replies(),
                old(session).at(),
                old(survey).deep_view(),
                label@,
                path@,
            );
            &&& step.next == final(session).at()
            &&& match result {
                Ok(_) => step.result == Ok::<SurveyView, HaltView<GitErrorView>>(
                    final(survey).deep_view(),
                ),
                Err(halt) => step.result == Err::<SurveyView, _>(halt.deep_view()),
            }
        }),
{
    let mut budget: Option<u64> = None;
    survey::hash_recovery_path(
        session,
        survey,
        label,
        path,
        0,
        true,
        &mut budget,
        "recovery planning is blocked because recovery input data exceeds its fingerprint limit",
    )
}

/// Takes in files of the repository's own.
pub open spec fn control_step(
    replies: Seq<ReplyView>,
    at: nat,
    survey: SurveyView,
    names: Seq<Seq<char>>,
) -> GitStep<SurveyView>
    decreases names.len(),
{
    if names.len() == 0 {
        session::given(survey, at)
    } else {
        let path = bounded::git_path_until_step(replies, at, names[0]);
        let taken = path_into_step(
            replies,
            path.next,
            survey,
            utf8::encode_utf8(names[0]),
            path.result->Ok_0,
        );
        if path.result is Err {
            session::halted(path)
        } else if taken.result is Err {
            taken
        } else {
            control_step(replies, taken.next, taken.result->Ok_0, names.skip(1))
        }
    }
}

/// Takes in files of the repository's own.
pub(crate) fn take_control_paths(session: &mut Session, survey: &mut Survey, names: &Vec<String>) -> (result:
    GitResult<()>)
    ensures
        final(session).replies() == old(session).replies(),
        ({
            let step = control_step(
                old(session).replies(),
                old(session).at(),
                old(survey).deep_view(),
                names.deep_view(),
            );
            &&& step.next == final(session).at()
            &&& match result {
                Ok(_) => step.result == Ok::<SurveyView, HaltView<GitErrorView>>(
                    final(survey).deep_view(),
                ),
                Err(halt) => step.result == Err::<SurveyView, _>(halt.deep_view()),
            }
        }),
{
    let ghost all = names.deep_view();
    let ghost replies = session.replies();
    let ghost goal = control_step(replies, session.at(), survey.deep_view(), all);
    let mut index: usize = 0;
    assert(all.skip(0) =~= all);
    while index < names.len()
        invariant
            index <= names@.len(),
            all == names.deep_view(),
            session.replies() == replies,
            replies == old(session).replies(),
            goal == control_step(replies, old(session).at(), old(survey).deep_view(), all),
            goal == control_step(
                replies,
                session.at(),
                survey.deep_view(),
                all.skip(index as int),
            ),
        decreases names@.len() - index,
    {
        let name = names[index].as_str();
        let ghost rest = all.skip(index as int);
        assert(rest[0] == name@);
        assert(rest.skip(1) =~= all.skip(index + 1));
        let path = bounded::git_path_until(session, name)?;
        take_path(session, survey, name.as_bytes(), path.as_slice())?;
        index += 1;
    }
    Ok(())
}

/// Takes in the setting for the directory of the hooks, and gives the directory.
pub open spec fn hooks_setting_step(
    replies: Seq<ReplyView>,
    at: nat,
    survey: SurveyView,
) -> GitStep<
    (SurveyView, Seq<u8>),
> {
    let args = seq!["config"@, "--path"@, "--get"@, "core.hooksPath"@];
    session::followed(
        bounded::probe_step(replies, at, args),
        |output: BoundedCommandOutputView, n: nat|
            if output.stdout.truncated {
                session::failed(
                    commands::refusal(
                        "recovery planning is blocked because core.hooksPath is too long"@,
                    ),
                    n,
                )
            } else if !commands::succeeded(output.status) && output.status.code != Some(1i32) {
                session::failed(bounded::command_failure(output, args), n)
            } else {
                session::followed(
                    if commands::succeeded(output.status) {
                        safety::hooks_directory_step(replies, n, output.stdout.bytes)
                    } else {
                        bounded::git_path_until_step(replies, n, "hooks"@)
                    },
                    |directory: Seq<u8>, n: nat|
                        session::given(
                            (
                                probed(survey, args, output, RecoveryProbeSafetyView::Unchecked),
                                directory,
                            ),
                            n,
                        ),
                )
            },
    )
}

/// Takes in the hooks.
pub open spec fn hooks_step(replies: Seq<ReplyView>, at: nat, survey: SurveyView) -> GitStep<
    SurveyView,
> {
    session::followed(
        hooks_setting_step(replies, at, survey),
        |taken: (SurveyView, Seq<u8>), n: nat|
            path_into_step(replies, n, taken.0, utf8::encode_utf8("hooks"@), taken.1),
    )
}

/// Takes in the hooks.
pub(crate) fn take_hooks(session: &mut Session, survey: &mut Survey) -> (result: GitResult<()>)
    ensures
        final(session).replies() == old(session).replies(),
        ({
            let step = hooks_step(
                old(session).replies(),
                old(session).at(),
                old(survey).deep_view(),
            );
            &&& step.next == final(session).at()
            &&& match result {
                Ok(_) => step.result == Ok::<SurveyView, HaltView<GitErrorView>>(
                    final(survey).deep_view(),
                ),
                Err(halt) => step.result == Err::<SurveyView, _>(halt.deep_view()),
            }
        }),
{
    let args = words::words4("config", "--path", "--get", "core.hooksPath");
    let output = bounded::probe(session, text::clone_texts(&args))?;
    if output.stdout.truncated {
        return Err(
            Halt::Failed(
                commands::blocked(
                    "recovery planning is blocked because core.hooksPath is too long",
                ),
            ),
        );
    }
    if !output.status.success() && !output.ended_with(1) {
        return Err(Halt::Failed(output.git_error(args)));
    }
    take_probe(survey, args, &output, RecoveryProbeSafety::Unchecked);
    let directory = if output.status.success() {
        safety::hooks_directory(session, output.stdout.bytes.as_slice())?
    } else {
        bounded::git_path_until(session, "hooks")?
    };
    take_path(session, survey, "hooks".as_bytes(), directory.as_slice())
}

/// The path that a variable of Git names, where it names one.
pub open spec fn variable_path_step(
    replies: Seq<ReplyView>,
    at: nat,
    variable: Seq<char>,
) -> GitStep<
    Option<Seq<u8>>,
> {
    let args = seq!["var"@, variable];
    session::followed(
        bounded::probe_step(replies, at, args),
        |output: BoundedCommandOutputView, n: nat|
            {
                let path = bytes::without_line_ending(output.stdout.bytes);
                if output.status.code == Some(1i32) {
                    session::given(None, n)
                } else if !commands::succeeded(output.status) {
                    session::failed(bounded::command_failure(output, args), n)
                } else if output.stdout.truncated {
                    session::failed(
                        commands::refusal(
                            "recovery planning is blocked because "@ + variable
                                + " is too long"@,
                        ),
                        n,
                    )
                } else if !bytes::absolute(path) {
                    session::failed(
                        commands::refusal(
                            "recovery planning is blocked because "@ + variable
                                + " is not an absolute path"@,
                        ),
                        n,
                    )
                } else {
                    session::given(Some(path), n)
                }
            },
    )
}

/// The path that a variable of Git names.
fn git_var_path_until(session: &mut Session, variable: &str) -> (result: GitResult<Option<Vec<u8>>>)
    ensures
        session::stepped(
            old(session),
            final(session),
            result,
            variable_path_step(old(session).replies(), old(session).at(), variable@),
        ),
{
    let output = bounded::probe(session, words::words2("var", variable))?;
    if output.ended_with(1) {
        return Ok(None);
    }
    if !output.status.success() {
        return Err(Halt::Failed(output.git_error(words::words2("var", variable))));
    }
    if output.stdout.truncated {
        let message = text::concat3(
            "recovery planning is blocked because ",
            variable,
            " is too long",
        );
        return Err(Halt::Failed(commands::blocked(message.as_str())));
    }
    let path = bytes::strip_byte_line_ending(output.stdout.bytes.as_slice());
    if !bytes::is_absolute(path) {
        let message = text::concat3(
            "recovery planning is blocked because ",
            variable,
            " is not an absolute path",
        );
        return Err(Halt::Failed(commands::blocked(message.as_str())));
    }
    Ok(Some(bytes::copy_bytes(path)))
}

/// Takes in the attributes file that a variable of Git names.
pub open spec fn variable_step(
    replies: Seq<ReplyView>,
    at: nat,
    survey: SurveyView,
    variable: Seq<char>,
) -> GitStep<SurveyView> {
    session::followed(
        variable_path_step(replies, at, variable),
        |path: Option<Seq<u8>>, n: nat|
            match path {
                Some(path) => path_into_step(
                    replies,
                    n,
                    survey,
                    utf8::encode_utf8(variable),
                    path,
                ),
                None => session::given(survey, n),
            },
    )
}

/// Takes in the attributes file that a variable of Git names.
pub(crate) fn take_variable(session: &mut Session, survey: &mut Survey, variable: &str) -> (result: GitResult<
    (),
>)
    ensures
        final(session).replies() == old(session).replies(),
        ({
            let step = variable_step(
                old(session).replies(),
                old(session).at(),
                old(survey).deep_view(),
                variable@,
            );
            &&& step.next == final(session).at()
            &&& match result {
                Ok(_) => step.result == Ok::<SurveyView, HaltView<GitErrorView>>(
                    final(survey).deep_view(),
                ),
                Err(halt) => step.result == Err::<SurveyView, _>(halt.deep_view()),
            }
        }),
{
    match git_var_path_until(session, variable)? {
        Some(path) => take_path(session, survey, variable.as_bytes(), path.as_slice()),
        None => Ok(()),
    }
}

/// Whether a path stays inside of the working tree.
pub open spec fn stays_inside(path: Seq<u8>) -> bool {
    !bytes::absolute(path) && !bytes::climbs(path)
}

/// An ordered list of paths with those of another list, all of which have to stay inside of the working
/// tree; empty ones are left out.
pub open spec fn with_inside_paths(
    known: Seq<Seq<u8>>,
    paths: Seq<Seq<u8>>,
    message: Seq<char>,
) -> Result<Seq<Seq<u8>>, GitErrorView>
    decreases paths.len(),
{
    if paths.len() == 0 {
        Ok(known)
    } else if paths[0].len() == 0 {
        with_inside_paths(known, paths.skip(1), message)
    } else if !stays_inside(paths[0]) {
        Err(commands::refusal(message))
    } else {
        with_inside_paths(order::inserted_path(known, paths[0]), paths.skip(1), message)
    }
}

/// Adds paths, all of which have to stay inside of the working tree.
pub(crate) fn add_inside_paths(known: &mut Vec<Vec<u8>>, output: &[u8], message: &str) -> (result: Result<
    (),
    GitError,
>)
    ensures
        (match result {
            Ok(_) => Ok(final(known).deep_view()),
            Err(error) => Err(error.deep_view()),
        }) == with_inside_paths(old(known).deep_view(), text::pieces(output@, 0u8), message@),
{
    let paths = text::split(output, 0);
    let ghost all = text::slices(paths@);
    let ghost goal = with_inside_paths(known.deep_view(), all, message@);
    let mut index: usize = 0;
    assert(all.skip(0) =~= all);
    while index < paths.len()
        invariant
            index <= paths@.len(),
            all == text::slices(paths@),
            goal == with_inside_paths(
                old(known).deep_view(),
                text::pieces(output@, 0u8),
                message@,
            ),
            goal == with_inside_paths(known.deep_view(), all.skip(index as int), message@),
        decreases paths@.len() - index,
    {
        let path = paths[index];
        let ghost rest = all.skip(index as int);
        assert(rest[0] == path@);
        assert(rest.skip(1) =~= all.skip(index + 1));
        if path.len() > 0 {
            if bytes::is_absolute(path) || bytes::has_parent_component(path) {
                return Err(commands::blocked(message));
            }
            order::insert_path(known, bytes::copy_bytes(path));
        }
        index += 1;
    }
    Ok(())
}

/// The untracked paths of the working tree that are not ignored.
pub open spec fn untracked_paths_step(replies: Seq<ReplyView>, at: nat) -> GitStep<Seq<Seq<u8>>> {
    session::followed(
        bounded::whole_output_step(
            replies,
            at,
            seq![
                "ls-files"@,
                "--others"@,
                "--exclude-standard"@,
                "--full-name"@,
                "-z"@,
                "--"@,
            ],
            "recovery planning is blocked because untracked worktree paths exceed the bounded output limit"@,
        ),
        |output: BoundedCommandOutputView, n: nat|
            commands::settled(
                with_inside_paths(
                    Seq::empty(),
                    text::pieces(output.stdout.bytes, 0u8),
                    "recovery planning is blocked by an invalid untracked worktree path"@,
                ),
                n,
            ),
    )
}

/// The untracked paths of the working tree that are not ignored.
pub(crate) fn untracked_worktree_paths_until(
    session: &mut Session,
) -> (result: GitResult<Vec<Vec<u8>>>)
    ensures
        session::stepped(
            old(session),
            final(session),
            result,
            untracked_paths_step(old(session).replies(), old(session).at()),
        ),
{
    let output = bounded::whole_output(
        session,
        words::words6(
            "ls-files",
            "--others",
            "--exclude-standard",
            "--full-name",
            "-z",
            "--",
        ),
        "recovery planning is blocked because untracked worktree paths exceed the bounded output limit",
    )?;
    let mut paths: Vec<Vec<u8>> = Vec::new();
    assert(paths.deep_view() =~= Seq::<Seq<u8>>::empty());
    match add_inside_paths(
        &mut paths,
        output.stdout.bytes.as_slice(),
        "recovery planning is blocked by an invalid untracked worktree path",
    ) {
        Ok(_) => Ok(paths),
        Err(error) => Err(Halt::Failed(error)),
    }
}

/// How untracked files are looked at after some bytes of them were read.
pub open spec fn untracked_look(spent: nat) -> survey::LookView {
    survey::LookView {
        follow: false,
        budget: Some((RECOVERY_UNTRACKED_DATA_LIMIT - spent) as nat),
        budget_error: "recovery planning is blocked because untracked worktree data exceeds the 64 MiB fingerprint limit"@,
    }
}

/// Takes in untracked files.
pub open spec fn untracked_step(
    replies: Seq<ReplyView>,
    at: nat,
    survey: SurveyView,
    root: Seq<u8>,
    paths: Seq<Seq<u8>>,
    spent: nat,
) -> GitStep<SurveyView>
    decreases paths.len(),
{
    if paths.len() == 0 {
        session::given(survey, at)
    } else {
        let taken = survey::path_step(
            replies,
            at,
            utf8::encode_utf8("untracked-worktree/"@) + paths[0],
            bytes::joined_path(root, paths[0]),
            0,
            survey.entries,
            untracked_look(spent),
        );
        if taken.result is Err {
            session::halted(taken)
        } else {
            untracked_step(
                replies,
                taken.next,
                survey::extended(survey, taken.result->Ok_0),
                root,
                paths.skip(1),
                spent + taken.result->Ok_0.spent,
            )
        }
    }
}

/// Takes in untracked files.
pub(crate) fn take_untracked(session: &mut Session, survey: &mut Survey, root: &[u8], paths: &Vec<Vec<u8>>) -> (result:
    GitResult<()>)
    ensures
        final(session).replies() == old(session).replies(),
        ({
            let step = untracked_step(
                old(session).replies(),
                old(session).at(),
                old(survey).deep_view(),
                root@,
                paths.deep_view(),
                0,
            );
            &&& step.next == final(session).at()
            &&& match result {
                Ok(_) => step.result == Ok::<SurveyView, HaltView<GitErrorView>>(
                    final(survey).deep_view(),
                ),
                Err(halt) => step.result == Err::<SurveyView, _>(halt.deep_view()),
            }
        }),
{
    let ghost all = paths.deep_view();
    let ghost replies = session.replies();
    let ghost goal = untracked_step(replies, session.at(), survey.deep_view(), root@, all, 0);
    let ghost mut spent: nat = 0;
    let mut budget: Option<u64> = Some(RECOVERY_UNTRACKED_DATA_LIMIT);
    let mut index: usize = 0;
    assert(all.skip(0) =~= all);
    while index < paths.len()
        invariant
            index <= paths@.len(),
            all == paths.deep_view(),
            session.replies() == replies,
            replies == old(session).replies(),
            goal == untracked_step(
                replies,
                old(session).at(),
                old(survey).deep_view(),
                root@,
                all,
                0,
            ),
            spent <= RECOVERY_UNTRACKED_DATA_LIMIT,
            budget == Some((RECOVERY_UNTRACKED_DATA_LIMIT - spent) as u64),
            goal == untracked_step(
                replies,
                session.at(),
                survey.deep_view(),
                root@,
                all.skip(index as int),
                spent,
            ),
        decreases paths@.len() - index,
    {
        let relative = paths[index].as_slice();
        let ghost rest = all.skip(index as int);
        assert(rest[0] == relative@);
        assert(rest.skip(1) =~= all.skip(index + 1));
        let mut label = bytes::bytes_of("untracked-worktree/");
        label.extend_from_slice(relative);
        assert(label@ =~= utf8::encode_utf8("untracked-worktree/"@) + relative@);
        let path = bytes::join_path(root, relative);
        assert(survey::look_view(
            false,
            budget,
            "recovery planning is blocked because untracked worktree data exceeds the 64 MiB fingerprint limit"@,
        ) == untracked_look(spent));
        let ghost taken = survey::path_step(
            replies,
            session.at(),
            label@,
            path@,
            0,
            survey.entries as nat,
            untracked_look(spent),
        );
        survey::hash_recovery_path(
            session,
            survey,
            label.as_slice(),
            path.as_slice(),
            0,
            false,
            &mut budget,
            "recovery planning is blocked because untracked worktree data exceeds the 64 MiB fingerprint limit",
        )?;
        proof {
            spent = spent + taken.result->Ok_0.spent;
        }
        index += 1;
    }
    Ok(())
}

/// The arguments that list attributes files of the working tree.
pub open spec fn attribute_file_words(ignored: bool) -> Seq<Seq<char>> {
    if ignored {
        seq![
            "ls-files"@,
            "--others"@,
            "--ignored"@,
            "--exclude-standard"@,
            "-z"@,
            "--"@,
            ":(glob)**/.gitattributes"@,
        ]
    } else {
        seq![
            "ls-files"@,
            "--cached"@,
            "--others"@,
            "--exclude-standard"@,
            "-z"@,
            "--"@,
            ":(glob)**/.gitattributes"@,
        ]
    }
}

/// The attributes files of the working tree, added to those that are known.
pub open spec fn attribute_files_step(
    replies: Seq<ReplyView>,
    at: nat,
    ignored: bool,
    known: Seq<Seq<u8>>,
) -> GitStep<Seq<Seq<u8>>> {
    session::followed(
        bounded::whole_output_step(
            replies,
            at,
            attribute_file_words(ignored),
            "recovery planning is blocked because attribute paths exceed the bounded output limit"@,
        ),
        |output: BoundedCommandOutputView, n: nat|
            commands::settled(
                with_inside_paths(
                    known,
                    text::pieces(output.stdout.bytes, 0u8),
                    "recovery planning is blocked by an invalid attribute path"@,
                ),
                n,
            ),
    )
}

/// The attributes files of the working tree, added to those that are known.
fn find_attribute_files(session: &mut Session, ignored: bool, known: Vec<Vec<u8>>) -> (result:
    GitResult<Vec<Vec<u8>>>)
    ensures
        session::stepped(
            old(session),
            final(session),
            result,
            attribute_files_step(
                old(session).replies(),
                old(session).at(),
                ignored,
                known.deep_view(),
            ),
        ),
{
    let args = if ignored {
        words::words7(
            "ls-files",
            "--others",
            "--ignored",
            "--exclude-standard",
            "-z",
            "--",
            ":(glob)**/.gitattributes",
        )
    } else {
        words::words7(
            "ls-files",
            "--cached",
            "--others",
            "--exclude-standard",
            "-z",
            "--",
            ":(glob)**/.gitattributes",
        )
    };
    let output = bounded::whole_output(
        session,
        args,
        "recovery planning is blocked because attribute paths exceed the bounded output limit",
    )?;
    let mut paths = known;
    match add_inside_paths(
        &mut paths,
        output.stdout.bytes.as_slice(),
        "recovery planning is blocked by an invalid attribute path",
    ) {
        Ok(_) => Ok(paths),
        Err(error) => Err(Halt::Failed(error)),
    }
}

/// The attributes files of the working tree: known or new ones, and ignored ones.
pub open spec fn worktree_attributes_step(replies: Seq<ReplyView>, at: nat) -> GitStep<Seq<Seq<u8>>> {
    session::followed(
        attribute_files_step(replies, at, false, Seq::empty()),
        |paths: Seq<Seq<u8>>, n: nat| attribute_files_step(replies, n, true, paths),
    )
}

/// The attributes files of the working tree.
pub(crate) fn worktree_attributes_until(session: &mut Session) -> (result: GitResult<Vec<Vec<u8>>>)
    ensures
        session::stepped(
            old(session),
            final(session),
            result,
            worktree_attributes_step(old(session).replies(), old(session).at()),
        ),
{
    let none: Vec<Vec<u8>> = Vec::new();
    assert(none.deep_view() =~= Seq::<Seq<u8>>::empty());
    let paths = find_attribute_files(session, false, none)?;
    find_attribute_files(session, true, paths)
}

/// Takes in attributes files.
pub open spec fn attributes_step(
    replies: Seq<ReplyView>,
    at: nat,
    survey: SurveyView,
    root: Seq<u8>,
    paths: Seq<Seq<u8>>,
) -> GitStep<SurveyView>
    decreases paths.len(),
{
    if paths.len() == 0 {
        session::given(survey, at)
    } else {
        let taken = path_into_step(
            replies,
            at,
            survey,
            utf8::encode_utf8("worktree-attributes/"@) + paths[0],
            bytes::joined_path(root, paths[0]),
        );
        if taken.result is Err {
            taken
        } else {
            attributes_step(replies, taken.next, taken.result->Ok_0, root, paths.skip(1))
        }
    }
}

/// Takes in attributes files.
pub(crate) fn take_attributes(session: &mut Session, survey: &mut Survey, root: &[u8], paths: &Vec<Vec<u8>>) -> (result:
    GitResult<()>)
    ensures
        final(session).replies() == old(session).replies(),
        ({
            let step = attributes_step(
                old(session).replies(),
                old(session).at(),
                old(survey).deep_view(),
                root@,
                paths.deep_view(),
            );
            &&& step.next == final(session).at()
            &&& match result {
                Ok(_) => step.result == Ok::<SurveyView, HaltView<GitErrorView>>(
                    final(survey).deep_view(),
                ),
                Err(halt) => step.result == Err::<SurveyView, _>(halt.deep_view()),
            }
        }),
{
    let ghost all = paths.deep_view();
    let ghost replies = session.replies();
    let ghost goal = attributes_step(replies, session.at(), survey.deep_view(), root@, all);
    let mut index: usize = 0;
    assert(all.skip(0) =~= all);
    while index < paths.len()
        invariant
            index <= paths@.len(),
            all == paths.deep_view(),
            session.replies() == replies,
            replies == old(session).replies(),
            goal == attributes_step(
                replies,
                old(session).at(),
                old(survey).deep_view(),
                root@,
                all,
            ),
            goal == attributes_step(
                replies,
                session.at(),
                survey.deep_view(),
                root@,
                all.skip(index as int),
            ),
        decreases paths@.len() - index,
    {
        let relative = paths[index].as_slice();
        let ghost rest = all.skip(index as int);
        assert(rest[0] == relative@);
        assert(rest.skip(1) =~= all.skip(index + 1));
        let mut label = bytes::bytes_of("worktree-attributes/");
        label.extend_from_slice(relative);
        assert(label@ =~= utf8::encode_utf8("worktree-attributes/"@) + relative@);
        let path = bytes::join_path(root, relative);
        take_path(session, survey, label.as_slice(), path.as_slice())?;
        index += 1;
    }
    Ok(())
}

}
