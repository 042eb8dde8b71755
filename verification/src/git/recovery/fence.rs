//! Looking once more at all that went into a fingerprint: it has to be as it was.
use crate::bytes;
use crate::git::commands;
use crate::git::commands::{GitResult, GitStep};
use crate::git::recovery::bounded;
use crate::git::recovery::drivers;
use crate::git::recovery::files;
use crate::git::recovery::safety;
use crate::git::recovery::safety::{RecoveryProbeSafety, RecoveryProbeSafetyView};
use crate::git::recovery::survey;
use crate::git::recovery::survey::{
    RecoveryInput, RecoveryInputView, RecoveryProbe, RecoveryProbeView, RetainedInput,
    RetainedInputView, Survey, SurveyView,
};
use crate::git::types::{GitError, GitErrorView};
use crate::session;
use crate::session::{
    Action, ActionView, BoundedCommandOutput, BoundedCommandOutputView, BoundedCommandPolicy, Halt,
    Reply, ReplyView, Session,
};
use crate::text;
use crate::words;
use vstd::prelude::*;
use vstd::utf8;

verus! {

broadcast use crate::bytes::bytes_are_their_view;

/// The refusal where a command does not give again what it gave.
pub open spec fn probe_refusal(args: Seq<Seq<char>>, what: Seq<char>) -> GitErrorView {
    commands::refusal(
        "recovery planning is blocked because Git "@ + text::joined(args, " "@) + what,
    )
}

/// The refusal where a command does not give again what it gave.
fn refuse_probe(args: &Vec<String>, what: &str) -> (result: GitError)
    ensures
        result.deep_view() == probe_refusal(args.deep_view(), what@),
{
    let shown = text::join(args, " ");
    let message = text::concat3(
        "recovery planning is blocked because Git ",
        shown.as_str(),
        what,
    );
    commands::blocked(message.as_str())
}

/// Whether a command gave again what it gave.
pub open spec fn probe_repeats(
    probe: RecoveryProbeView,
    output: BoundedCommandOutputView,
) -> Result<
    (),
    GitErrorView,
> {
    if output.status.code != probe.status {
        Err(probe_refusal(probe.args, " status changed while it was fingerprinted"@))
    } else if !commands::succeeded(output.status) && output.status.code != Some(1i32) {
        Err(bounded::command_failure(output, probe.args))
    } else if output.stdout.digest != probe.digest {
        Err(probe_refusal(probe.args, " output changed while it was fingerprinted"@))
    } else {
        Ok(())
    }
}

/// Whether two exit codes are the same.
fn same_code(left: Option<i32>, right: Option<i32>) -> (result: bool)
    ensures
        result == (left == right),
{
    match (left, right) {
        (Some(left), Some(right)) => left == right,
        (None, None) => true,
        _ => false,
    }
}

/// Refuses where a command does not give again what it gave.
fn ensure_probe_repeats(probe: &RecoveryProbe, output: &BoundedCommandOutput) -> (result: Result<
    (),
    GitError,
>)
    ensures
        (match result {
            Ok(_) => Ok(()),
            Err(error) => Err(error.deep_view()),
        }) == probe_repeats(probe.deep_view(), output.deep_view()),
{
    if !same_code(output.status.code, probe.status) {
        return Err(refuse_probe(&probe.args, " status changed while it was fingerprinted"));
    }
    if !output.status.success() && !output.ended_with(1) {
        return Err(output.git_error(text::clone_texts(&probe.args)));
    }
    if !text::same_slice(output.stdout.digest.as_slice(), probe.digest.as_slice()) {
        return Err(refuse_probe(&probe.args, " output changed while it was fingerprinted"));
    }
    Ok(())
}

/// Whether what a command of a fingerprint gives is safe.
pub open spec fn probe_safety_step(
    replies: Seq<ReplyView>,
    at: nat,
    probe: RecoveryProbeView,
    output: BoundedCommandOutputView,
) -> GitStep<()> {
    match probe.safety {
        RecoveryProbeSafetyView::ExternalDrivers => drivers::external_drivers_step(
            replies,
            at,
            probe.args,
            output,
        ),
        _ => commands::settled(safety::observation(probe.safety, probe.args, output), at),
    }
}

/// Runs a command of a fingerprint once more.
pub open spec fn probe_again_step(
    replies: Seq<ReplyView>,
    at: nat,
    probe: RecoveryProbeView,
) -> GitStep<
    (),
> {
    session::followed(
        if probe.safety is Unchecked {
            bounded::bounded_step(replies, at, probe.args, true, BoundedCommandPolicy::Digest)
        } else {
            bounded::probe_step(replies, at, probe.args)
        },
        |output: BoundedCommandOutputView, n: nat|
            session::followed(
                probe_safety_step(replies, n, probe, output),
                |_safe: (), n: nat| commands::settled(probe_repeats(probe, output), n),
            ),
    )
}

/// Runs a command of a fingerprint once more.
fn validate_probe(session: &mut Session, probe: &RecoveryProbe) -> (result: GitResult<()>)
    ensures
        session::stepped(
            old(session),
            final(session),
            result,
            probe_again_step(old(session).replies(), old(session).at(), probe.deep_view()),
        ),
{
    let args = text::clone_texts(&probe.args);
    let output = match &probe.safety {
        RecoveryProbeSafety::Unchecked => bounded::run_bounded(
            session,
            args,
            true,
            BoundedCommandPolicy::Digest,
        )?,
        _ => bounded::probe(session, args)?,
    };
    let args = text::clone_texts(&probe.args);
    match &probe.safety {
        RecoveryProbeSafety::ExternalDrivers => {
            drivers::ensure_recovery_external_drivers_safe_until(session, args, &output)?
        },
        _ => {
            commands::settle(
                safety::ensure_recovery_probe_observation_safe(&probe.safety, args, &output),
            )?
        },
    };
    commands::settle(ensure_probe_repeats(probe, &output))
}

/// Runs the commands of a fingerprint once more.
pub open spec fn probes_step(
    replies: Seq<ReplyView>,
    at: nat,
    probes: Seq<RecoveryProbeView>,
) -> GitStep<
    (),
>
    decreases probes.len(),
{
    if probes.len() == 0 {
        session::given((), at)
    } else {
        let first = probe_again_step(replies, at, probes[0]);
        if first.result is Err {
            first
        } else {
            probes_step(replies, first.next, probes.skip(1))
        }
    }
}

/// Runs the commands of a fingerprint once more.
fn validate_probes(session: &mut Session, probes: &Vec<RecoveryProbe>) -> (result: GitResult<()>)
    ensures
        session::stepped(
            old(session),
            final(session),
            result,
            probes_step(old(session).replies(), old(session).at(), probes.deep_view()),
        ),
{
    let ghost all = probes.deep_view();
    let ghost replies = session.replies();
    let ghost goal = probes_step(replies, session.at(), all);
    let mut index: usize = 0;
    assert(all.skip(0) =~= all);
    while index < probes.len()
        invariant
            index <= probes@.len(),
            all == probes.deep_view(),
            session.replies() == replies,
            replies == old(session).replies(),
            goal == probes_step(replies, old(session).at(), all),
            goal == probes_step(replies, session.at(), all.skip(index as int)),
        decreases probes@.len() - index,
    {
        let probe = &probes[index];
        let ghost rest = all.skip(index as int);
        assert(rest[0] == probe.deep_view());
        assert(rest.skip(1) =~= all.skip(index + 1));
        validate_probe(session, probe)?;
        index += 1;
    }
    Ok(())
}

/// Refuses where there is something at a path that led nowhere.
pub open spec fn still_missing_step(replies: Seq<ReplyView>, at: nat, path: Seq<u8>) -> GitStep<()> {
    session::followed(
        session::asked(replies, at, ActionView::LinkMetadata { path }),
        |reply: ReplyView, n: nat|
            match reply {
                ReplyView::Failed(source) => if source.not_found {
                    session::given((), n)
                } else {
                    session::failed(files::state_failure(path, source), n)
                },
                _ => session::failed(files::path_changed(path), n),
            },
    )
}

/// Refuses where there is something at a path that led nowhere.
fn ensure_still_missing(session: &mut Session, path: &[u8]) -> (result: GitResult<()>)
    ensures
        session::stepped(
            old(session),
            final(session),
            result,
            still_missing_step(old(session).replies(), old(session).at(), path@),
        ),
{
    match session.ask(Action::LinkMetadata { path: bytes::copy_bytes(path) })? {
        Reply::Failed(source) => {
            if source.not_found {
                Ok(())
            } else {
                Err(Halt::Failed(files::recovery_state_io(path, source)))
            }
        },
        _ => Err(Halt::Failed(files::recovery_path_changed(path))),
    }
}

/// Looks at an input of a fingerprint once more.
pub open spec fn input_again_step(
    replies: Seq<ReplyView>,
    at: nat,
    input: RecoveryInputView,
) -> GitStep<
    (),
> {
    session::followed(
        bounded::in_time_step(replies, at, survey::survey_late()),
        |_time: (), n: nat|
            match input {
                RecoveryInputView::Missing { path } => still_missing_step(replies, n, path),
                RecoveryInputView::Symlink { path, target, metadata } => survey::link_again_step(
                    replies,
                    n,
                    path,
                    target,
                    metadata,
                ),
                RecoveryInputView::Opened { path, handle, metadata } => files::reopened_step(
                    replies,
                    n,
                    path,
                    handle,
                    metadata,
                    false,
                ),
            },
    )
}

/// Looks at an input of a fingerprint once more.
fn validate_input(session: &mut Session, input: &RecoveryInput) -> (result: GitResult<()>)
    ensures
        session::stepped(
            old(session),
            final(session),
            result,
            input_again_step(old(session).replies(), old(session).at(), input.deep_view()),
        ),
{
    bounded::ensure_in_time(session, words::words1("recovery-state"))?;
    match input {
        RecoveryInput::Missing { path } => ensure_still_missing(session, path.as_slice()),
        RecoveryInput::Symlink { path, target, metadata } => survey::ensure_same_link(
            session,
            path.as_slice(),
            target.as_slice(),
            metadata,
        ),
        RecoveryInput::Opened { path, handle, metadata } => files::ensure_unchanged(
            session,
            path.as_slice(),
            *handle,
            metadata,
            false,
        ),
    }
}

/// Whether an input went into a fingerprint as the index, which Git reads as soon as it starts.
pub open spec fn is_index_input(retained: RetainedInputView) -> bool {
    retained.label == utf8::encode_utf8("index"@)
}

/// Where the last input stands that went in as the index.
pub open spec fn index_input(inputs: Seq<RetainedInputView>) -> Option<int>
    decreases inputs.len(),
{
    if inputs.len() == 0 {
        None
    } else if is_index_input(inputs.last()) {
        Some(inputs.len() - 1)
    } else {
        index_input(inputs.drop_last())
    }
}

/// Where the last input stands that went in as the index.
fn find_index_input(inputs: &Vec<RetainedInput>) -> (result: Option<usize>)
    ensures
        (match result {
            Some(index) => Some(index as int),
            None => None,
        }) == index_input(inputs.deep_view()),
        result matches Some(index) ==> index < inputs@.len(),
{
    let ghost all = inputs.deep_view();
    let label = "index".as_bytes();
    let mut left: usize = inputs.len();
    assert(all.take(left as int) =~= all);
    while left > 0
        invariant
            left <= inputs@.len(),
            all == inputs.deep_view(),
            label@ == utf8::encode_utf8("index"@),
            index_input(all) == index_input(all.take(left as int)),
        decreases left,
    {
        let ghost before = all.take(left as int);
        assert(before.drop_last() =~= all.take(left - 1));
        assert(before.last() == inputs@[left - 1].deep_view());
        left -= 1;
        if text::same_slice(inputs[left].label.as_slice(), label) {
            return Some(left);
        }
    }
    None
}

/// Looks at the inputs from a place on once more, but for one.
pub open spec fn inputs_step(
    replies: Seq<ReplyView>,
    at: nat,
    inputs: Seq<RetainedInputView>,
    from: nat,
    but: Option<int>,
) -> GitStep<()>
    decreases
            if from <= inputs.len() {
                inputs.len() - from
            } else {
                0
            },
{
    if from >= inputs.len() {
        session::given((), at)
    } else if but == Some(from as int) {
        inputs_step(replies, at, inputs, from + 1, but)
    } else {
        let first = input_again_step(replies, at, inputs[from as int].input);
        if first.result is Err {
            first
        } else {
            inputs_step(replies, first.next, inputs, from + 1, but)
        }
    }
}

/// Looks at all inputs once more, but for one.
fn validate_inputs(session: &mut Session, inputs: &Vec<RetainedInput>, but: Option<usize>) -> (result:
    GitResult<()>)
    ensures
        session::stepped(
            old(session),
            final(session),
            result,
            inputs_step(
                old(session).replies(),
                old(session).at(),
                inputs.deep_view(),
                0,
                match but {
                    Some(index) => Some(index as int),
                    None => None,
                },
            ),
        ),
{
    let ghost all = inputs.deep_view();
    let ghost skipped: Option<int> = match but {
        Some(index) => Some(index as int),
        None => None,
    };
    let ghost replies = session.replies();
    let ghost goal = inputs_step(replies, session.at(), all, 0, skipped);
    let mut index: usize = 0;
    while index < inputs.len()
        invariant
            index <= inputs@.len(),
            all == inputs.deep_view(),
            skipped == (match but {
                Some(index) => Some(index as int),
                None => None,
            }),
            session.replies() == replies,
            replies == old(session).replies(),
            goal == inputs_step(replies, old(session).at(), all, 0, skipped),
            goal == inputs_step(replies, session.at(), all, index as nat, skipped),
        decreases inputs@.len() - index,
    {
        let spared = match but {
            Some(other) => other == index,
            None => false,
        };
        assert(all[index as int] == inputs@[index as int].deep_view());
        if !spared {
            validate_input(session, &inputs[index].input)?;
        }
        index += 1;
    }
    Ok(())
}

/// Looks at all that went into a fingerprint once more, at the index last.
pub open spec fn fence_step(replies: Seq<ReplyView>, at: nat, survey: SurveyView) -> GitStep<()> {
    session::followed(
        probes_step(replies, at, survey.probes),
        |_probes: (), n: nat|
            session::followed(
                inputs_step(replies, n, survey.inputs, 0, index_input(survey.inputs)),
                |_inputs: (), n: nat|
                    match index_input(survey.inputs) {
                        Some(index) => input_again_step(replies, n, survey.inputs[index].input),
                        None => session::given((), n),
                    },
            ),
    )
}

/// Looks at all that went into a fingerprint once more.
pub(crate) fn validate(session: &mut Session, survey: &Survey) -> (result: GitResult<()>)
    ensures
        session::stepped(
            old(session),
            final(session),
            result,
            fence_step(old(session).replies(), old(session).at(), survey.deep_view()),
        ),
{
    validate_probes(session, &survey.probes)?;
    let last = find_index_input(&survey.inputs);
    validate_inputs(session, &survey.inputs, last)?;
    match last {
        Some(index) => {
            assert(survey.inputs.deep_view()[index as int]
                == survey.inputs@[index as int].deep_view());
            validate_input(session, &survey.inputs[index].input)
        },
        None => Ok(()),
    }
}

}
