//! Ignored files that a recovery would overwrite.
use crate::bytes;
use crate::git::commands;
use crate::git::commands::{GitResult, GitStep};
use crate::git::recovery::bounded;
use crate::git::recovery::drivers;
use crate::git::recovery::files;
use crate::git::recovery::lock;
use crate::git::recovery::safety::{RecoveryProbeSafety, RecoveryProbeSafetyView};
use crate::git::recovery::state;
use crate::git::recovery::survey::{Survey, SurveyView};
use crate::git::types::{GitErrorView, RecoveryAction, RepositoryOperation};
use crate::order;
use crate::session;
use crate::session::{BoundedCommandOutputView, Halt, HaltView, ReplyView, Session};
use crate::text;
use crate::words;
use vstd::prelude::*;
use vstd::slice::slice_subrange;

verus! {

broadcast use crate::bytes::bytes_are_their_view;

/// The refusal of a path that a recovery would write outside of the working tree.
pub open spec fn target_refusal() -> Seq<char> {
    "recovery planning is blocked by an invalid recovery target path"@
}

/// The command that lists what a recovery would write.
pub open spec fn changed_words(action: RecoveryAction, target: Seq<char>) -> Seq<Seq<char>> {
    if action == RecoveryAction::Abort {
        seq!["ls-tree"@, "-r"@, "--name-only"@, "-z"@, target, "--"@]
    } else {
        seq![
            "diff"@,
            "--name-only"@,
            "--no-renames"@,
            "--no-ext-diff"@,
            "--no-textconv"@,
            "-z"@,
            "HEAD"@,
            target,
            "--"@,
        ]
    }
}

/// The command that lists what a recovery would write.
fn changed_args(action: RecoveryAction, target: &str) -> (result: Vec<String>)
    ensures
        result.deep_view() == changed_words(action, target@),
{
    if action == RecoveryAction::Abort {
        words::words6("ls-tree", "-r", "--name-only", "-z", target, "--")
    } else {
        words::words9(
            "diff",
            "--name-only",
            "--no-renames",
            "--no-ext-diff",
            "--no-textconv",
            "-z",
            "HEAD",
            target,
            "--",
        )
    }
}

/// The command that lists what a commit touches.
pub open spec fn touched_words(oid: Seq<char>) -> Seq<Seq<char>> {
    seq![
        "show"@,
        "--format="@,
        "--name-only"@,
        "--no-renames"@,
        "--no-ext-diff"@,
        "--no-textconv"@,
        "-z"@,
        oid,
        "--"@,
    ]
}

/// The command that lists what a commit touches.
fn touched_args(oid: &str) -> (result: Vec<String>)
    ensures
        result.deep_view() == touched_words(oid@),
{
    words::words9(
        "show",
        "--format=",
        "--name-only",
        "--no-renames",
        "--no-ext-diff",
        "--no-textconv",
        "-z",
        oid,
        "--",
    )
}

/// The paths that the commits still to be rebased touch, added to those that are known.
pub open spec fn touched_step(
    replies: Seq<ReplyView>,
    at: nat,
    survey: SurveyView,
    oids: Seq<Seq<char>>,
    known: Seq<Seq<u8>>,
) -> GitStep<(SurveyView, Seq<Seq<u8>>)>
    decreases oids.len(),
{
    if oids.len() == 0 {
        session::given((survey, known), at)
    } else {
        let args = touched_words(oids[0]);
        let output = bounded::whole_output_step(
            replies,
            at,
            args,
            "recovery planning is blocked because an intermediate rebase commit touches too many paths"@,
        );
        if output.result is Err {
            session::halted(output)
        } else {
            let touched = output.result->Ok_0;
            match state::with_inside_paths(
                known,
                text::pieces(touched.stdout.bytes, 0u8),
                target_refusal(),
            ) {
                Err(error) => session::failed(error, output.next),
                Ok(more) => touched_step(
                    replies,
                    output.next,
                    state::probed(survey, args, touched, RecoveryProbeSafetyView::Unchecked),
                    oids.skip(1),
                    more,
                ),
            }
        }
    }
}

/// Adds the paths that the commits still to be rebased touch.
fn add_touched(
    session: &mut Session,
    survey: &mut Survey,
    oids: &Vec<String>,
    known: &mut Vec<Vec<u8>>,
) -> (result: GitResult<()>)
    ensures
        final(session).replies() == old(session).replies(),
        ({
            let step = touched_step(
                old(session).replies(),
                old(session).at(),
                old(survey).deep_view(),
                oids.deep_view(),
                old(known).deep_view(),
            );
            &&& step.next == final(session).at()
            &&& match result {
                Ok(_) => step.result == Ok::<(SurveyView, Seq<Seq<u8>>), HaltView<GitErrorView>>(
                    (final(survey).deep_view(), final(known).deep_view()),
                ),
                Err(halt) => step.result == Err::<(SurveyView, Seq<Seq<u8>>), _>(halt.deep_view()),
            }
        }),
{
    let ghost all = oids.deep_view();
    let ghost replies = session.replies();
    let ghost goal = touched_step(
        replies,
        session.at(),
        survey.deep_view(),
        all,
        known.deep_view(),
    );
    let mut index: usize = 0;
    assert(all.skip(0) =~= all);
    while index < oids.len()
        invariant
            index <= oids@.len(),
            all == oids.deep_view(),
            session.replies() == replies,
            replies == old(session).replies(),
            goal == touched_step(
                replies,
                old(session).at(),
                old(survey).deep_view(),
                all,
                old(known).deep_view(),
            ),
            goal == touched_step(
                replies,
                session.at(),
                survey.deep_view(),
                all.skip(index as int),
                known.deep_view(),
            ),
        decreases oids@.len() - index,
    {
        let oid = oids[index].as_str();
        let ghost rest = all.skip(index as int);
        assert(rest[0] == oid@);
        assert(rest.skip(1) =~= all.skip(index + 1));
        let output = bounded::whole_output(
            session,
            touched_args(oid),
            "recovery planning is blocked because an intermediate rebase commit touches too many paths",
        )?;
        state::take_probe(survey, touched_args(oid), &output, RecoveryProbeSafety::Unchecked);
        match state::add_inside_paths(
            known,
            output.stdout.bytes.as_slice(),
            "recovery planning is blocked by an invalid recovery target path",
        ) {
            Ok(_) => {},
            Err(error) => {
                return Err(Halt::Failed(error));
            },
        }
        index += 1;
    }
    Ok(())
}

/// An ordered list of paths with those of another list.
pub open spec fn with_paths(known: Seq<Seq<u8>>, paths: Seq<Seq<u8>>) -> Seq<Seq<u8>>
    decreases paths.len(),
{
    if paths.len() == 0 {
        known
    } else {
        with_paths(order::inserted_path(known, paths[0]), paths.skip(1))
    }
}

/// Adds paths to an ordered list.
fn add_paths(known: &mut Vec<Vec<u8>>, paths: &Vec<&[u8]>)
    ensures
        final(known).deep_view() == with_paths(old(known).deep_view(), text::slices(paths@)),
{
    let ghost all = text::slices(paths@);
    let ghost goal = with_paths(known.deep_view(), all);
    let mut index: usize = 0;
    assert(all.skip(0) =~= all);
    while index < paths.len()
        invariant
            index <= paths@.len(),
            all == text::slices(paths@),
            goal == with_paths(old(known).deep_view(), all),
            goal == with_paths(known.deep_view(), all.skip(index as int)),
        decreases paths@.len() - index,
    {
        let ghost rest = all.skip(index as int);
        assert(rest[0] == paths@[index as int]@);
        assert(rest.skip(1) =~= all.skip(index + 1));
        order::insert_path(known, bytes::copy_bytes(paths[index]));
        index += 1;
    }
}

/// The command that lists which of some paths are ignored files of the working tree.
pub open spec fn ignored_words(paths: Seq<Seq<u8>>) -> Seq<Seq<char>> {
    seq![
        "ls-files"@,
        "--others"@,
        "--ignored"@,
        "--exclude-standard"@,
        "--full-name"@,
        "-z"@,
        "--"@,
    ] + drivers::decoded(paths, ":(top,literal)"@)
}

/// Which of some paths are ignored files of the working tree, added to those that are known; the paths
/// are asked for in groups.
pub open spec fn ignored_step(
    replies: Seq<ReplyView>,
    at: nat,
    survey: SurveyView,
    paths: Seq<Seq<u8>>,
    known: Seq<Seq<u8>>,
) -> GitStep<(SurveyView, Seq<Seq<u8>>)>
    decreases paths.len(),
{
    let count = drivers::chunk_len(paths.len());
    let chunk = paths.take(count);
    let args = ignored_words(chunk);
    let output = bounded::whole_output_step(
        replies,
        at,
        args,
        "recovery planning is blocked because relevant ignored paths exceed the bounded output limit"@,
    );
    if paths.len() == 0 {
        session::given((survey, known), at)
    } else if !drivers::all_text(chunk) {
        session::failed(
            commands::refusal(
                "recovery planning is blocked because a recovery target path is not valid UTF-8"@,
            ),
            at,
        )
    } else if output.result is Err {
        session::halted(output)
    } else {
        let ignored = output.result->Ok_0;
        ignored_step(
            replies,
            output.next,
            state::digested(survey, args, ignored),
            paths.skip(count),
            with_paths(known, text::filled(text::pieces(ignored.stdout.bytes, 0u8))),
        )
    }
}

/// The paths of a list, borrowed.
fn borrow_paths(paths: &Vec<Vec<u8>>) -> (result: Vec<&[u8]>)
    ensures
        text::slices(result@) == paths.deep_view(),
{
    let mut result: Vec<&[u8]> = Vec::new();
    let mut index: usize = 0;
    while index < paths.len()
        invariant
            index <= paths@.len(),
            result@.len() == index,
            forall|i: int| 0 <= i < index ==> (#[trigger] result@[i])@ == paths@[i]@,
        decreases paths@.len() - index,
    {
        result.push(paths[index].as_slice());
        index += 1;
    }
    assert(text::slices(result@) =~= paths.deep_view());
    result
}

/// Adds those of some paths that are ignored files of the working tree.
fn add_ignored(
    session: &mut Session,
    survey: &mut Survey,
    paths: &Vec<&[u8]>,
    known: &mut Vec<Vec<u8>>,
) -> (result: GitResult<()>)
    ensures
        final(session).replies() == old(session).replies(),
        ({
            let step = ignored_step(
                old(session).replies(),
                old(session).at(),
                old(survey).deep_view(),
                text::slices(paths@),
                old(known).deep_view(),
            );
            &&& step.next == final(session).at()
            &&& match result {
                Ok(_) => step.result == Ok::<(SurveyView, Seq<Seq<u8>>), HaltView<GitErrorView>>(
                    (final(survey).deep_view(), final(known).deep_view()),
                ),
                Err(halt) => step.result == Err::<(SurveyView, Seq<Seq<u8>>), _>(halt.deep_view()),
            }
        }),
{
    let ghost all = text::slices(paths@);
    let ghost replies = session.replies();
    let ghost goal = ignored_step(
        replies,
        session.at(),
        survey.deep_view(),
        all,
        known.deep_view(),
    );
    let mut index: usize = 0;
    assert(all.skip(0) =~= all);
    while index < paths.len()
        invariant
            index <= paths@.len(),
            all == text::slices(paths@),
            session.replies() == replies,
            replies == old(session).replies(),
            goal == ignored_step(
                replies,
                old(session).at(),
                old(survey).deep_view(),
                all,
                old(known).deep_view(),
            ),
            goal == ignored_step(
                replies,
                session.at(),
                survey.deep_view(),
                all.skip(index as int),
                known.deep_view(),
            ),
        decreases paths@.len() - index,
    {
        let left: usize = paths.len() - index;
        let count: usize = if left < 128 {
            left
        } else {
            128
        };
        let chunk = slice_subrange(paths.as_slice(), index, index + count);
        let ghost rest = all.skip(index as int);
        assert(text::slices(chunk@) =~= rest.take(count as int));
        assert(rest.skip(count as int) =~= all.skip(index + count));
        let mut args = words::words7(
            "ls-files",
            "--others",
            "--ignored",
            "--exclude-standard",
            "--full-name",
            "-z",
            "--",
        );
        if !drivers::push_decoded(&mut args, chunk, ":(top,literal)") {
            return Err(
                Halt::Failed(
                    commands::blocked(
                        "recovery planning is blocked because a recovery target path is not valid UTF-8",
                    ),
                ),
            );
        }
        let output = bounded::whole_output(
            session,
            text::clone_texts(&args),
            "recovery planning is blocked because relevant ignored paths exceed the bounded output limit",
        )?;
        state::take_digest(survey, args, &output);
        let ignored = text::split_filled(output.stdout.bytes.as_slice(), 0);
        add_paths(known, &ignored);
        index += count;
    }
    Ok(())
}

/// Adding paths to ordered paths keeps the order.
proof fn lemma_paths_stay_ordered(known: Seq<Seq<u8>>, paths: Seq<Seq<u8>>)
    requires
        order::ascending_paths(known),
    ensures
        order::ascending_paths(with_paths(known, paths)),
    decreases paths.len(),
{
    if paths.len() > 0 {
        order::inserting_a_path_keeps_order(known, paths[0]);
        lemma_paths_stay_ordered(order::inserted_path(known, paths[0]), paths.skip(1));
    }
}

/// The ignored paths that a recovery would overwrite are found in order and without repeats, so the path
/// that a refusal names, the first, stands before all others.
pub proof fn refused_path_is_the_least(
    replies: Seq<ReplyView>,
    at: nat,
    survey: SurveyView,
    paths: Seq<Seq<u8>>,
    known: Seq<Seq<u8>>,
)
    requires
        order::ascending_paths(known),
        ignored_step(replies, at, survey, paths, known).result is Ok,
    ensures
        order::ascending_paths(ignored_step(replies, at, survey, paths, known).result->Ok_0.1),
    decreases paths.len(),
{
    if paths.len() > 0 {
        let count = drivers::chunk_len(paths.len());
        let args = ignored_words(paths.take(count));
        let output = bounded::whole_output_step(
            replies,
            at,
            args,
            "recovery planning is blocked because relevant ignored paths exceed the bounded output limit"@,
        );
        let ignored = output.result->Ok_0;
        let found = text::filled(text::pieces(ignored.stdout.bytes, 0u8));
        lemma_paths_stay_ordered(known, found);
        refused_path_is_the_least(
            replies,
            output.next,
            state::digested(survey, args, ignored),
            paths.skip(count),
            with_paths(known, found),
        );
    }
}

/// What is said behind the path that would be overwritten.
pub open spec fn overwritten() -> Seq<char> {
    " would be overwritten; move or remove the path, preview recovery again, or run Git manually"@
}

/// The refusal of a recovery that would overwrite an ignored file.
pub open spec fn collision_refusal(
    operation: RepositoryOperation,
    action: RecoveryAction,
    path: Seq<u8>,
) -> GitErrorView {
    files::path_refusal(
        lock::about(operation, action, " is blocked because ignored worktree path "@),
        path,
        overwritten(),
    )
}

/// The paths that a recovery would write: those that its target changes and, for a rebase that goes on,
/// those that the commits still to be rebased touch.
pub open spec fn written_paths_step(
    replies: Seq<ReplyView>,
    at: nat,
    operation: RepositoryOperation,
    action: RecoveryAction,
    target: Seq<char>,
    survey: SurveyView,
) -> GitStep<(SurveyView, Seq<Seq<u8>>)> {
    let args = changed_words(action, target);
    session::followed(
        bounded::whole_output_step(
            replies,
            at,
            args,
            "recovery planning is blocked because recovery target paths exceed the bounded output limit"@,
        ),
        |changed: BoundedCommandOutputView, n: nat|
            match state::with_inside_paths(
                Seq::empty(),
                text::pieces(changed.stdout.bytes, 0u8),
                target_refusal(),
            ) {
                Err(error) => session::failed(error, n),
                Ok(paths) => if operation == RepositoryOperation::Rebase && action
                    != RecoveryAction::Abort {
                    touched_step(
                        replies,
                        n,
                        state::digested(survey, args, changed),
                        survey.oids,
                        paths,
                    )
                } else {
                    session::given((state::digested(survey, args, changed), paths), n)
                },
            },
    )
}

/// The paths that a recovery would write.
fn find_written_paths(
    session: &mut Session,
    operation: RepositoryOperation,
    action: RecoveryAction,
    target: &str,
    survey: &mut Survey,
    paths: &mut Vec<Vec<u8>>,
) -> (result: GitResult<()>)
    requires
        old(paths)@.len() == 0,
    ensures
        final(session).replies() == old(session).replies(),
        ({
            let step = written_paths_step(
                old(session).replies(),
                old(session).at(),
                operation,
                action,
                target@,
                old(survey).deep_view(),
            );
            &&& step.next == final(session).at()
            &&& match result {
                Ok(_) => step.result == Ok::<(SurveyView, Seq<Seq<u8>>), HaltView<GitErrorView>>(
                    (final(survey).deep_view(), final(paths).deep_view()),
                ),
                Err(halt) => step.result == Err::<(SurveyView, Seq<Seq<u8>>), _>(halt.deep_view()),
            }
        }),
{
    let changed = bounded::whole_output(
        session,
        changed_args(action, target),
        "recovery planning is blocked because recovery target paths exceed the bounded output limit",
    )?;
    let oids = text::clone_texts(&survey.oids);
    state::take_digest(survey, changed_args(action, target), &changed);
    assert(paths.deep_view() =~= Seq::<Seq<u8>>::empty());
    match state::add_inside_paths(
        paths,
        changed.stdout.bytes.as_slice(),
        "recovery planning is blocked by an invalid recovery target path",
    ) {
        Ok(_) => {},
        Err(error) => {
            return Err(Halt::Failed(error));
        },
    }
    if operation == RepositoryOperation::Rebase && action != RecoveryAction::Abort {
        add_touched(session, survey, &oids, paths)?;
    }
    Ok(())
}

/// Refuses where a recovery would overwrite an ignored file.
pub open spec fn collisions_step(
    replies: Seq<ReplyView>,
    at: nat,
    operation: RepositoryOperation,
    action: RecoveryAction,
    survey: SurveyView,
) -> GitStep<SurveyView> {
    session::followed(
        files::overwrite_target_step(replies, at, operation, action),
        |target: Option<Seq<char>>, n: nat|
            match target {
                None => session::given(survey, n),
                Some(target) => session::followed(
                    written_paths_step(replies, n, operation, action, target, survey),
                    |written: (SurveyView, Seq<Seq<u8>>), n: nat|
                        session::followed(
                            ignored_step(replies, n, written.0, written.1, Seq::empty()),
                            |ignored: (SurveyView, Seq<Seq<u8>>), n: nat|
                                if ignored.1.len() > 0 {
                                    session::failed(
                                        collision_refusal(operation, action, ignored.1[0]),
                                        n,
                                    )
                                } else {
                                    session::given(ignored.0, n)
                                },
                        ),
                ),
            },
    )
}

/// Refuses where a recovery would overwrite an ignored file.
pub(crate) fn ensure_no_ignored_recovery_collisions_until(
    session: &mut Session,
    operation: RepositoryOperation,
    action: RecoveryAction,
    survey: &mut Survey,
) -> (result: GitResult<()>)
    ensures
        final(session).replies() == old(session).replies(),
        ({
            let step = collisions_step(
                old(session).replies(),
                old(session).at(),
                operation,
                action,
                old(survey).deep_view(),
            );
            &&& step.next == final(session).at()
            &&& match result {
                Ok(_) => step.result == Ok::<SurveyView, HaltView<GitErrorView>>(
                    final(survey).deep_view(),
                ),
                Err(halt) => step.result == Err::<SurveyView, _>(halt.deep_view()),
            }
        }),
{
    let target = match files::recovery_overwrite_target_until(session, operation, action)? {
        Some(target) => target,
        None => {
            return Ok(());
        },
    };
    let mut paths: Vec<Vec<u8>> = Vec::new();
    find_written_paths(session, operation, action, target.as_str(), survey, &mut paths)?;
    let borrowed = borrow_paths(&paths);
    let mut ignored: Vec<Vec<u8>> = Vec::new();
    assert(ignored.deep_view() =~= Seq::<Seq<u8>>::empty());
    add_ignored(session, survey, &borrowed, &mut ignored)?;
    if ignored.len() > 0 {
        let before = lock::say(operation, action, " is blocked because ignored worktree path ");
        assert(ignored.deep_view()[0] == ignored@[0]@);
        return Err(
            Halt::Failed(
                files::refuse_path(
                    before.as_str(),
                    ignored[0].as_slice(),
                    " would be overwritten; move or remove the path, preview recovery again, or run Git manually",
                ),
            ),
        );
    }
    assert(ignored.deep_view().len() == 0);
    Ok(())
}

}
