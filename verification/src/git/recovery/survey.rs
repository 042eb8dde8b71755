//! The state of a repository as a recovery sees it: what goes into its fingerprint, and the inputs and
//! commands that have to give the same again before a recovery starts.
use crate::bytes;
use crate::digest;
use crate::git::commands;
use crate::git::commands::{GitResult, GitStep};
use crate::git::recovery::bounded;
use crate::git::recovery::files;
use crate::git::recovery::records;
use crate::git::recovery::records::Record;
use crate::git::recovery::safety;
use crate::git::recovery::safety::{RecoveryProbeSafety, RecoveryProbeSafetyView};
use crate::git::types::{GitError, GitErrorView, RecoveryAction, RepositoryOperation};
use crate::order;
use crate::session;
use crate::session::{Action, ActionView, FileKind, FileMetadata, Halt, Reply, ReplyView, Session};
use crate::text;
use crate::words;
use vstd::prelude::*;
use vstd::utf8;

verus! {

broadcast use crate::bytes::bytes_are_their_view;

/// How many files and directories a fingerprint covers at most.
pub const RECOVERY_STATE_ENTRY_LIMIT: usize = 100000;

/// How many symbolic links are followed one after the other.
pub const SYMLINK_LEVELS: usize = 16;

/// How many bytes of a file are read at once.
pub const READ_SIZE: u64 = 65536;

/// An input of a fingerprint: what was found at a path.
#[derive(Debug, Clone, PartialEq, Eq)]
pub enum RecoveryInput {
    Missing { path: Vec<u8> },
    Symlink { path: Vec<u8>, target: Vec<u8>, metadata: FileMetadata },
    Opened { path: Vec<u8>, handle: u64, metadata: FileMetadata },
}

/// The values of a [`RecoveryInput`].
#[verifier::ext_equal]
pub enum RecoveryInputView {
    Missing { path: Seq<u8> },
    Symlink { path: Seq<u8>, target: Seq<u8>, metadata: FileMetadata },
    Opened { path: Seq<u8>, handle: u64, metadata: FileMetadata },
}

impl DeepView for RecoveryInput {
    type V = RecoveryInputView;

    open spec fn deep_view(&self) -> RecoveryInputView {
        match self {
            RecoveryInput::Missing { path } => RecoveryInputView::Missing { path: path@ },
            RecoveryInput::Symlink { path, target, metadata } => RecoveryInputView::Symlink {
                path: path@,
                target: target@,
                metadata: *metadata,
            },
            RecoveryInput::Opened { path, handle, metadata } => RecoveryInputView::Opened {
                path: path@,
                handle: *handle,
                metadata: *metadata,
            },
        }
    }
}

/// An input of a fingerprint with the label that it went in under.
#[derive(Debug, Clone, PartialEq, Eq)]
pub struct RetainedInput {
    pub label: Vec<u8>,
    pub input: RecoveryInput,
}

/// The values of a [`RetainedInput`].
#[verifier::ext_equal]
pub struct RetainedInputView {
    pub label: Seq<u8>,
    pub input: RecoveryInputView,
}

impl DeepView for RetainedInput {
    type V = RetainedInputView;

    open spec fn deep_view(&self) -> RetainedInputView {
        RetainedInputView { label: self.label@, input: self.input.deep_view() }
    }
}

/// A command whose output went into a fingerprint.
#[derive(Debug, Clone, PartialEq, Eq)]
pub struct RecoveryProbe {
    pub args: Vec<String>,
    pub digest: Vec<u8>,
    pub status: Option<i32>,
    pub safety: RecoveryProbeSafety,
}

/// The values of a [`RecoveryProbe`].
#[verifier::ext_equal]
pub struct RecoveryProbeView {
    pub args: Seq<Seq<char>>,
    pub digest: Seq<u8>,
    pub status: Option<i32>,
    pub safety: RecoveryProbeSafetyView,
}

impl DeepView for RecoveryProbe {
    type V = RecoveryProbeView;

    open spec fn deep_view(&self) -> RecoveryProbeView {
        RecoveryProbeView {
            args: self.args.deep_view(),
            digest: self.digest@,
            status: self.status,
            safety: self.safety.deep_view(),
        }
    }
}

/// What a fingerprint has taken in so far: the bytes that are hashed, the records that they stand for,
/// how many entries they cover, the inputs and commands they came from, and the commits that a rebase
/// plan among them names.
pub struct Survey {
    pub transcript: Vec<u8>,
    pub records: Ghost<Seq<Record>>,
    pub entries: usize,
    pub inputs: Vec<RetainedInput>,
    pub probes: Vec<RecoveryProbe>,
    pub oids: Vec<String>,
}

/// The values of a [`Survey`].
#[verifier::ext_equal]
pub struct SurveyView {
    pub transcript: Seq<u8>,
    pub records: Seq<Record>,
    pub entries: nat,
    pub inputs: Seq<RetainedInputView>,
    pub probes: Seq<RecoveryProbeView>,
    pub oids: Seq<Seq<char>>,
}

impl DeepView for Survey {
    type V = SurveyView;

    open spec fn deep_view(&self) -> SurveyView {
        SurveyView {
            transcript: self.transcript@,
            records: self.records@,
            entries: self.entries as nat,
            inputs: self.inputs.deep_view(),
            probes: self.probes.deep_view(),
            oids: self.oids.deep_view(),
        }
    }
}

/// What looking at a path adds to a survey; `spent` is the number of bytes read from files.
#[verifier::ext_equal]
pub struct Traces {
    pub records: Seq<Record>,
    pub entries: nat,
    pub inputs: Seq<RetainedInputView>,
    pub oids: Seq<Seq<char>>,
    pub spent: nat,
}

/// What looking at nothing adds.
pub open spec fn no_traces() -> Traces {
    Traces {
        records: Seq::empty(),
        entries: 0,
        inputs: Seq::empty(),
        oids: Seq::empty(),
        spent: 0,
    }
}

/// What two looks add, one after the other.
pub open spec fn both(first: Traces, second: Traces) -> Traces {
    Traces {
        records: first.records + second.records,
        entries: first.entries + second.entries,
        inputs: first.inputs + second.inputs,
        oids: first.oids + second.oids,
        spent: first.spent + second.spent,
    }
}

/// A survey after a look.
pub open spec fn extended(survey: SurveyView, traces: Traces) -> SurveyView {
    SurveyView {
        transcript: survey.transcript + records::transcript_of(traces.records),
        records: survey.records + traces.records,
        entries: survey.entries + traces.entries,
        inputs: survey.inputs + traces.inputs,
        oids: order::inserted_all(survey.oids, traces.oids),
        ..survey
    }
}

/// A survey after two looks is the survey after the first, after the second.
proof fn lemma_extended_by_both(survey: SurveyView, first: Traces, second: Traces)
    ensures
        extended(survey, both(first, second)) == extended(extended(survey, first), second),
{
    order::lemma_inserted_all(survey.oids, first.oids, second.oids);
    records::lemma_transcript_of_both(first.records, second.records);
    let one = extended(survey, both(first, second));
    let other = extended(extended(survey, first), second);
    assert(one.transcript =~= other.transcript);
    assert(one.records =~= other.records);
    assert(one.inputs =~= other.inputs);
}

/// A survey after a look at one thing, which is counted in `entries` or not, is the survey with a record
/// of it.
proof fn lemma_extended_by_one(survey: SurveyView, record: Record, traces: Traces)
    requires
        traces.records == seq![record],
        traces.inputs.len() == 0,
        traces.oids.len() == 0,
    ensures
        extended(survey, traces) == (SurveyView {
            entries: survey.entries + traces.entries,
            ..with_record(survey, record)
        }),
{
    records::lemma_transcript_of_one(record);
    assert(survey.records + traces.records =~= survey.records.push(record));
    assert(survey.inputs + traces.inputs =~= survey.inputs);
}

/// A survey after a look at nothing.
proof fn lemma_extended_by_none(survey: SurveyView, traces: Traces)
    requires
        traces.records.len() == 0,
        traces.entries == 0,
        traces.oids.len() == 0,
    ensures
        extended(survey, traces) == (SurveyView {
            inputs: survey.inputs + traces.inputs,
            ..survey
        }),
{
    assert(survey.transcript + records::transcript_of(traces.records) =~= survey.transcript);
    assert(survey.records + traces.records =~= survey.records);
}

/// A survey that has taken nothing in.
pub open spec fn empty_survey() -> SurveyView {
    SurveyView {
        transcript: Seq::empty(),
        records: Seq::empty(),
        entries: 0,
        inputs: Seq::empty(),
        probes: Seq::empty(),
        oids: Seq::empty(),
    }
}

/// A survey with one more record.
pub open spec fn with_record(survey: SurveyView, record: Record) -> SurveyView {
    SurveyView {
        transcript: survey.transcript + records::encoded(record),
        records: survey.records.push(record),
        ..survey
    }
}

/// A survey with one more command.
pub open spec fn with_probe(survey: SurveyView, probe: RecoveryProbeView) -> SurveyView {
    SurveyView { probes: survey.probes.push(probe), ..survey }
}

/// The error where the time for a fingerprint has run out.
pub open spec fn survey_late() -> GitErrorView {
    bounded::out_of_time("recovery-state"@)
}

/// The refusal where a fingerprint would cover too much.
pub open spec fn too_many_entries() -> GitErrorView {
    commands::refusal(
        "recovery planning is blocked because recovery state has too many entries"@,
    )
}

/// Fails where there is no time, or no room for one more entry.
pub open spec fn capacity_step(replies: Seq<ReplyView>, at: nat, entries: nat) -> GitStep<()> {
    session::followed(
        bounded::in_time_step(replies, at, survey_late()),
        |_time: (), n: nat|
            if entries >= RECOVERY_STATE_ENTRY_LIMIT {
                session::failed(too_many_entries(), n)
            } else {
                session::given((), n)
            },
    )
}

/// Fails where there is no time, or no room for one more entry.
fn ensure_recovery_fingerprint_capacity(session: &mut Session, entries: usize) -> (result: GitResult<
    (),
>)
    ensures
        session::stepped(
            old(session),
            final(session),
            result,
            capacity_step(old(session).replies(), old(session).at(), entries as nat),
        ),
        result is Ok ==> entries < RECOVERY_STATE_ENTRY_LIMIT,
        result is Ok ==> final(session).at() == old(session).at() + 1 && final(session).at()
            <= old(session).replies().len(),
{
    bounded::ensure_in_time(session, words::words1("recovery-state"))?;
    if entries >= RECOVERY_STATE_ENTRY_LIMIT {
        return Err(
            Halt::Failed(
                commands::blocked(
                    "recovery planning is blocked because recovery state has too many entries",
                ),
            ),
        );
    }
    Ok(())
}

/// Looks at a symbolic link.
pub open spec fn link_metadata_step(replies: Seq<ReplyView>, at: nat, path: Seq<u8>) -> GitStep<
    FileMetadata,
> {
    session::followed(
        files::metadata_step(replies, at, ActionView::LinkMetadata { path }, path),
        |metadata: FileMetadata, n: nat|
            if metadata.kind == FileKind::Symlink {
                session::given(metadata, n)
            } else {
                session::failed(files::path_changed(path), n)
            },
    )
}

/// Looks at a symbolic link.
fn recovery_symlink_metadata(
    session: &mut Session,
    path: &[u8],
) -> (result: GitResult<FileMetadata>)
    ensures
        session::stepped(
            old(session),
            final(session),
            result,
            link_metadata_step(old(session).replies(), old(session).at(), path@),
        ),
{
    match session.ask(Action::LinkMetadata { path: bytes::copy_bytes(path) })? {
        Reply::Metadata(metadata) => {
            if metadata.kind == FileKind::Symlink {
                Ok(*metadata)
            } else {
                Err(Halt::Failed(files::recovery_path_changed(path)))
            }
        },
        Reply::Failed(source) => Err(Halt::Failed(files::recovery_state_io(path, source))),
        _ => Err(Halt::Pending(Action::LinkMetadata { path: bytes::copy_bytes(path) })),
    }
}

/// Reads where a symbolic link points.
pub open spec fn read_link_step(replies: Seq<ReplyView>, at: nat, path: Seq<u8>) -> GitStep<Seq<u8>> {
    session::followed(
        session::asked(replies, at, ActionView::ReadLink { path }),
        |reply: ReplyView, n: nat|
            match reply {
                ReplyView::Bytes(target) => session::given(target, n),
                ReplyView::Failed(source) => session::failed(files::state_failure(path, source), n),
                _ => session::pending(ActionView::ReadLink { path }, n),
            },
    )
}

/// Reads where a symbolic link points.
fn read_link(session: &mut Session, path: &[u8]) -> (result: GitResult<Vec<u8>>)
    ensures
        session::stepped(
            old(session),
            final(session),
            result,
            read_link_step(old(session).replies(), old(session).at(), path@),
        ),
{
    match session.ask(Action::ReadLink { path: bytes::copy_bytes(path) })? {
        Reply::Bytes(target) => Ok(bytes::copy_bytes(target.as_slice())),
        Reply::Failed(source) => Err(Halt::Failed(files::recovery_state_io(path, source))),
        _ => Err(Halt::Pending(Action::ReadLink { path: bytes::copy_bytes(path) })),
    }
}

/// Reads a symbolic link that does not change meanwhile.
pub open spec fn link_step(replies: Seq<ReplyView>, at: nat, path: Seq<u8>) -> GitStep<
    (FileMetadata, Seq<u8>),
> {
    session::followed(
        link_metadata_step(replies, at, path),
        |metadata: FileMetadata, n: nat|
            session::followed(
                read_link_step(replies, n, path),
                |target: Seq<u8>, n: nat|
                    session::followed(
                        link_metadata_step(replies, n, path),
                        |read: FileMetadata, n: nat|
                            if files::same_file_state(metadata, read) {
                                session::given((metadata, target), n)
                            } else {
                                session::failed(files::path_changed(path), n)
                            },
                    ),
            ),
    )
}

/// Reads a symbolic link that does not change meanwhile.
fn read_steady_link(session: &mut Session, path: &[u8]) -> (result: GitResult<
    (FileMetadata, Vec<u8>),
>)
    ensures
        session::stepped(
            old(session),
            final(session),
            result,
            link_step(old(session).replies(), old(session).at(), path@),
        ),
{
    let metadata = recovery_symlink_metadata(session, path)?;
    let target = read_link(session, path)?;
    let read = recovery_symlink_metadata(session, path)?;
    if !files::same_recovery_file(&metadata, &read) {
        return Err(Halt::Failed(files::recovery_path_changed(path)));
    }
    Ok((metadata, target))
}

/// Refuses where a symbolic link is not as it was: where its target has other parts, or where the file
/// system says something else of it.
pub open spec fn link_again_step(
    replies: Seq<ReplyView>,
    at: nat,
    path: Seq<u8>,
    target: Seq<u8>,
    metadata: FileMetadata,
) -> GitStep<()> {
    session::followed(
        read_link_step(replies, at, path),
        |current: Seq<u8>, n: nat|
            session::followed(
                link_metadata_step(replies, n, path),
                |last: FileMetadata, n: nat|
                    if order::path_parts(current) == order::path_parts(target)
                        && files::same_file_state(metadata, last) {
                        session::given((), n)
                    } else {
                        session::failed(files::path_changed(path), n)
                    },
            ),
    )
}

/// Refuses where a symbolic link is not as it was.
pub(crate) fn ensure_same_link(
    session: &mut Session,
    path: &[u8],
    target: &[u8],
    metadata: &FileMetadata,
) -> (result: GitResult<()>)
    ensures
        session::stepped(
            old(session),
            final(session),
            result,
            link_again_step(
                old(session).replies(),
                old(session).at(),
                path@,
                target@,
                *metadata,
            ),
        ),
{
    let current = read_link(session, path)?;
    let last = recovery_symlink_metadata(session, path)?;
    if order::same_path(current.as_slice(), target) && files::same_recovery_file(metadata, &last) {
        Ok(())
    } else {
        Err(Halt::Failed(files::recovery_path_changed(path)))
    }
}

/// Reads the rest of a file. `budget` is the number of bytes that may be read, where there is a bound,
/// and `inspected` says that the contents will be looked at, which bounds them too.
pub open spec fn contents_step(
    replies: Seq<ReplyView>,
    at: nat,
    path: Seq<u8>,
    handle: u64,
    inspected: bool,
    budget: Option<nat>,
    budget_error: Seq<char>,
    contents: Seq<u8>,
) -> GitStep<Seq<u8>>
    decreases replies.len() - at,
{
    let action = ActionView::Read { handle, limit: READ_SIZE };
    let time = bounded::in_time_step(replies, at, survey_late());
    let read = session::asked(replies, time.next, action);
    if time.result is Err {
        session::halted(time)
    } else if read.result is Err {
        session::halted(read)
    } else {
        match read.result->Ok_0 {
            ReplyView::Bytes(chunk) => if chunk.len() == 0 {
                session::given(contents, read.next)
            } else if budget is Some && contents.len() + chunk.len() > budget->Some_0 {
                session::failed(commands::refusal(budget_error), read.next)
            } else if inspected && contents.len() + chunk.len()
                > files::RECOVERY_REBASE_TODO_LIMIT {
                session::failed(
                    commands::refusal(
                        "recovery is blocked because a process-controlling rebase input exceeds the bounded inspection limit"@,
                    ),
                    read.next,
                )
            } else {
                contents_step(
                    replies,
                    read.next,
                    path,
                    handle,
                    inspected,
                    budget,
                    budget_error,
                    contents + chunk,
                )
            },
            ReplyView::Failed(source) => session::failed(
                files::state_failure(path, source),
                read.next,
            ),
            _ => session::pending(action, read.next),
        }
    }
}

/// Reads the rest of a file.
fn read_contents(
    session: &mut Session,
    path: &[u8],
    handle: u64,
    inspected: bool,
    budget: Option<u64>,
    budget_error: &str,
) -> (result: GitResult<Vec<u8>>)
    ensures
        session::stepped(
            old(session),
            final(session),
            result,
            contents_step(
                old(session).replies(),
                old(session).at(),
                path@,
                handle,
                inspected,
                natural(budget),
                budget_error@,
                Seq::empty(),
            ),
        ),
        result is Ok && budget is Some ==> result->Ok_0@.len() <= budget->Some_0,
{
    let mut contents: Vec<u8> = Vec::new();
    let ghost replies = session.replies();
    let ghost start = session.at();
    assert(contents@ =~= Seq::<u8>::empty());
    loop
        invariant
            session.replies() == replies,
            replies == old(session).replies(),
            start == old(session).at(),
            session.at() <= replies.len() || session.at() == start,
            budget is Some ==> contents@.len() <= budget->Some_0,
            contents_step(
                replies,
                start,
                path@,
                handle,
                inspected,
                natural(budget),
                budget_error@,
                Seq::empty(),
            ) == contents_step(
                replies,
                session.at(),
                path@,
                handle,
                inspected,
                natural(budget),
                budget_error@,
                contents@,
            ),
        decreases replies.len() - session.at(),
    {
        bounded::ensure_in_time(session, words::words1("recovery-state"))?;
        match session.ask(Action::Read { handle, limit: READ_SIZE })? {
            Reply::Bytes(chunk) => {
                if chunk.len() == 0 {
                    return Ok(contents);
                }
                if let Some(limit) = budget {
                    if chunk.len() as u64 > limit - contents.len() as u64 {
                        return Err(Halt::Failed(commands::blocked(budget_error)));
                    }
                }
                if inspected && (chunk.len() as u64 > files::RECOVERY_REBASE_TODO_LIMIT
                    || contents.len() as u64 > files::RECOVERY_REBASE_TODO_LIMIT
                    - chunk.len() as u64) {
                    return Err(
                        Halt::Failed(
                            commands::blocked(
                                "recovery is blocked because a process-controlling rebase input exceeds the bounded inspection limit",
                            ),
                        ),
                    );
                }
                let ghost before = contents@;
                contents.extend_from_slice(chunk.as_slice());
                assert(contents@ =~= before + chunk@);
            },
            Reply::Failed(source) => {
                return Err(Halt::Failed(files::recovery_state_io(path, source)));
            },
            _ => {
                return Err(Halt::Pending(Action::Read { handle, limit: READ_SIZE }));
            },
        }
    }
}

/// A bound as a natural number.
pub open spec fn natural(bound: Option<u64>) -> Option<nat> {
    match bound {
        Some(bound) => Some(bound as nat),
        None => None,
    }
}

/// What the contents of a file say: nothing where they are safe, and the commits that a rebase plan
/// names.
pub open spec fn contents_oids(label: Seq<u8>, contents: Seq<u8>) -> Result<
    Seq<Seq<char>>,
    GitErrorView,
> {
    let inspected = if safety::controls_processes(label) {
        contents
    } else {
        Seq::empty()
    };
    match safety::control_observation(label, inspected) {
        Err(error) => Err(error),
        Ok(_) => if safety::labels_plan(label) {
            files::plan_oids(
                bytes::lossy_text(label),
                text::text_lines(bytes::lossy_text(contents)),
            )
        } else {
            Ok(Seq::empty())
        },
    }
}

/// What the contents of a file say.
fn inspect_contents(label: &[u8], contents: &[u8]) -> (result: Result<Vec<String>, GitError>)
    ensures
        (match result {
            Ok(oids) => Ok(oids.deep_view()),
            Err(error) => Err(error.deep_view()),
        }) == contents_oids(label@, contents@),
{
    let none: Vec<String> = Vec::new();
    assert(none.deep_view() =~= Seq::<Seq<char>>::empty());
    if safety::recovery_control_input_requires_safety_inspection(label) {
        safety::ensure_recovery_control_observation_safe(label, contents)?;
    }
    if safety::is_plan_label(label) {
        let relative = bytes::lossy(label);
        let shown = bytes::lossy(contents);
        return files::parse_remaining_rebase_commit_oids(relative.as_str(), shown.as_str());
    }
    Ok(none)
}

/// The names in an open directory, without those of the directory itself and of the one above.
pub open spec fn names_step(
    replies: Seq<ReplyView>,
    at: nat,
    path: Seq<u8>,
    handle: u64,
    entries: nat,
    names: Seq<Seq<u8>>,
) -> GitStep<Seq<Seq<u8>>>
    decreases replies.len() - at,
{
    let child = session::asked(replies, at, ActionView::NextChild { handle });
    let capacity = capacity_step(replies, child.next, entries);
    if child.result is Err {
        session::halted(child)
    } else if child.result->Ok_0 is Missing {
        session::given(names, child.next)
    } else if capacity.result is Err {
        session::halted(capacity)
    } else if names.len() + entries >= RECOVERY_STATE_ENTRY_LIMIT {
        session::failed(too_many_entries(), capacity.next)
    } else {
        match child.result->Ok_0 {
            ReplyView::Bytes(name) => names_step(
                replies,
                capacity.next,
                path,
                handle,
                entries,
                if name == seq![46u8] || name == seq![46u8, 46u8] {
                    names
                } else {
                    names.push(name)
                },
            ),
            ReplyView::Failed(source) => session::failed(
                files::state_failure(path, source),
                capacity.next,
            ),
            _ => session::pending(ActionView::NextChild { handle }, capacity.next),
        }
    }
}

/// The names in a directory, in the order of their bytes.
pub open spec fn children_step(
    replies: Seq<ReplyView>,
    at: nat,
    path: Seq<u8>,
    handle: u64,
    entries: nat,
) -> GitStep<Seq<Seq<u8>>> {
    session::followed(
        session::asked(replies, at, ActionView::OpenDirectory { handle }),
        |opened: ReplyView, n: nat|
            match opened {
                ReplyView::Failed(source) => session::failed(files::state_failure(path, source), n),
                _ => session::followed(
                    names_step(replies, n, path, handle, entries, Seq::empty()),
                    |names: Seq<Seq<u8>>, n: nat| session::given(order::sorted(names), n),
                ),
            },
    )
}

/// Whether a name is that of the directory itself or of the one above.
fn is_dot_name(name: &[u8]) -> (result: bool)
    ensures
        result == (name@ == seq![46u8] || name@ == seq![46u8, 46u8]),
{
    if name.len() == 1 && name[0] == 46 {
        assert(name@ =~= seq![46u8]);
        return true;
    }
    if name.len() == 2 && name[0] == 46 && name[1] == 46 {
        assert(name@ =~= seq![46u8, 46u8]);
        return true;
    }
    assert(name@ == seq![46u8] ==> name@[0] == 46);
    assert(name@ == seq![46u8, 46u8] ==> name@[0] == 46 && name@[1] == 46);
    false
}

/// The names in a directory, in the order of their bytes.
fn recovery_directory_children(session: &mut Session, path: &[u8], handle: u64, entries: usize) -> (result:
    GitResult<Vec<Vec<u8>>>)
    requires
        entries <= RECOVERY_STATE_ENTRY_LIMIT,
    ensures
        session::stepped(
            old(session),
            final(session),
            result,
            children_step(
                old(session).replies(),
                old(session).at(),
                path@,
                handle,
                entries as nat,
            ),
        ),
{
    match session.ask(Action::OpenDirectory { handle })? {
        Reply::Failed(source) => {
            return Err(Halt::Failed(files::recovery_state_io(path, source)));
        },
        _ => {},
    }
    let mut names: Vec<Vec<u8>> = Vec::new();
    assert(names.deep_view() =~= Seq::<Seq<u8>>::empty());
    let ghost replies = session.replies();
    let ghost start = session.at();
    let ghost whole = names_step(replies, start, path@, handle, entries as nat, Seq::empty());
    loop
        invariant
            entries <= RECOVERY_STATE_ENTRY_LIMIT,
            names@.len() <= RECOVERY_STATE_ENTRY_LIMIT,
            session.replies() == replies,
            replies == old(session).replies(),
            session.at() <= replies.len() || session.at() == start,
            whole == names_step(replies, start, path@, handle, entries as nat, Seq::empty()),
            children_step(replies, old(session).at(), path@, handle, entries as nat)
                == session::followed(
                whole,
                |names: Seq<Seq<u8>>, n: nat| session::given(order::sorted(names), n),
            ),
            whole == names_step(
                replies,
                session.at(),
                path@,
                handle,
                entries as nat,
                names.deep_view(),
            ),
        decreases replies.len() - session.at(),
    {
        let child = session.ask(Action::NextChild { handle })?;
        if let Reply::Missing = child {
            return Ok(order::sort_bytes(names));
        }
        ensure_recovery_fingerprint_capacity(session, entries)?;
        assert(names@.len() == names.deep_view().len());
        if names.len() + entries >= RECOVERY_STATE_ENTRY_LIMIT {
            return Err(
                Halt::Failed(
                    commands::blocked(
                        "recovery planning is blocked because recovery state has too many entries",
                    ),
                ),
            );
        }
        match child {
            Reply::Bytes(name) => {
                if !is_dot_name(name.as_slice()) {
                    let ghost before = names.deep_view();
                    names.push(bytes::copy_bytes(name.as_slice()));
                    assert(names.deep_view() =~= before.push(name@));
                }
            },
            Reply::Failed(source) => {
                return Err(Halt::Failed(files::recovery_state_io(path, source)));
            },
            _ => {
                return Err(Halt::Pending(Action::NextChild { handle }));
            },
        }
    }
}

/// How a path is looked at: whether symbolic links are followed, and how many bytes of files may be
/// read at most, with the refusal where there are more.
#[verifier::ext_equal]
pub struct LookView {
    pub follow: bool,
    pub budget: Option<nat>,
    pub budget_error: Seq<char>,
}

/// A look after some bytes were read.
pub open spec fn after(look: LookView, spent: nat) -> LookView {
    LookView {
        budget: match look.budget {
            Some(budget) => Some((budget - spent) as nat),
            None => None,
        },
        ..look
    }
}

/// How many entries there is room for.
pub open spec fn room(entries: nat) -> nat {
    if entries < RECOVERY_STATE_ENTRY_LIMIT {
        (RECOVERY_STATE_ENTRY_LIMIT - entries) as nat
    } else {
        0
    }
}

/// The path that a symbolic link leads to.
pub open spec fn link_destination(path: Seq<u8>, target: Seq<u8>) -> Seq<u8> {
    if bytes::absolute(target) {
        target
    } else {
        bytes::joined_path(
            match bytes::parent(path) {
                Some(parent) => parent,
                None => utf8::encode_utf8("."@),
            },
            target,
        )
    }
}

/// The path that a symbolic link leads to.
fn resolve_link(path: &[u8], target: &[u8]) -> (result: Vec<u8>)
    ensures
        result@ == link_destination(path@, target@),
{
    if bytes::is_absolute(target) {
        return bytes::copy_bytes(target);
    }
    match bytes::parent_path(path) {
        Some(parent) => {
            assert(parent.deep_view() =~= parent@);
            bytes::join_path(parent, target)
        },
        None => bytes::join_path(".".as_bytes(), target),
    }
}

/// An input with its label.
pub open spec fn retained(label: Seq<u8>, input: RecoveryInputView) -> RetainedInputView {
    RetainedInputView { label, input }
}

/// Looks at an open regular file: its contents are read whole, are safe, and the file does not change
/// meanwhile.
pub open spec fn file_step(
    replies: Seq<ReplyView>,
    at: nat,
    label: Seq<u8>,
    path: Seq<u8>,
    handle: u64,
    metadata: FileMetadata,
    look: LookView,
) -> GitStep<Traces> {
    session::followed(
        contents_step(
            replies,
            at,
            path,
            handle,
            safety::controls_processes(label),
            look.budget,
            look.budget_error,
            Seq::empty(),
        ),
        |contents: Seq<u8>, n: nat|
            session::followed(
                commands::settled(contents_oids(label, contents), n),
                |oids: Seq<Seq<char>>, n: nat|
                    session::followed(
                        files::reopened_step(replies, n, path, handle, metadata, false),
                        |_same: (), n: nat|
                            session::given(
                                Traces {
                                    records: seq![
                                        Record::File {
                                            label,
                                            length: metadata.length,
                                            mode: metadata.mode,
                                            contents,
                                        },
                                    ],
                                    entries: 1,
                                    inputs: seq![
                                        retained(
                                            label,
                                            RecoveryInputView::Opened { path, handle, metadata },
                                        ),
                                    ],
                                    oids,
                                    spent: contents.len(),
                                },
                                n,
                            ),
                    ),
            ),
    )
}

/// The label of a thing in a directory.
pub open spec fn child_label(label: Seq<u8>, name: Seq<u8>) -> Seq<u8> {
    label.push(47) + name
}

/// The refusal of a chain of symbolic links that is too long.
pub open spec fn too_many_links(path: Seq<u8>) -> GitErrorView {
    files::path_refusal(
        "recovery planning is blocked because "@,
        path,
        " has too many symlink levels"@,
    )
}

/// Looks at a path under a label: at nothing, at a symbolic link and what it leads to, at a file, or at
/// a directory and all that is in it. `depth` counts the symbolic links that led here and `entries`
/// what the fingerprint covers already.
pub open spec fn path_step(
    replies: Seq<ReplyView>,
    at: nat,
    label: Seq<u8>,
    path: Seq<u8>,
    depth: nat,
    entries: nat,
    look: LookView,
) -> GitStep<Traces>
    decreases room(entries), 0nat,
{
    let capacity = capacity_step(replies, at, entries);
    let opened = session::asked::<GitErrorView>(replies, capacity.next, ActionView::Open { path });
    if capacity.result is Err {
        session::halted(capacity)
    } else if opened.result is Err {
        session::halted(opened)
    } else {
        match opened.result->Ok_0 {
            ReplyView::Missing => session::given(
                Traces {
                    records: seq![Record::Missing { label }],
                    inputs: seq![retained(label, RecoveryInputView::Missing { path })],
                    ..no_traces()
                },
                opened.next,
            ),
            ReplyView::Failed(source) => session::failed(
                files::state_failure(path, source),
                opened.next,
            ),
            ReplyView::Symlink => {
                let link = link_step(replies, opened.next, path);
                let space = capacity_step(replies, link.next, entries + 1);
                let inner = if look.follow {
                    path_step(
                        replies,
                        space.next,
                        label,
                        link_destination(path, link.result->Ok_0.1),
                        depth + 1,
                        entries + 1,
                        look,
                    )
                } else {
                    session::given(no_traces(), space.next)
                };
                let again = link_again_step(
                    replies,
                    inner.next,
                    path,
                    link.result->Ok_0.1,
                    link.result->Ok_0.0,
                );
                if depth >= SYMLINK_LEVELS {
                    session::failed(too_many_links(path), opened.next)
                } else if link.result is Err {
                    session::halted(link)
                } else if space.result is Err {
                    session::halted(space)
                } else if inner.result is Err {
                    inner
                } else if again.result is Err {
                    session::halted(again)
                } else {
                    let (metadata, target) = link.result->Ok_0;
                    session::given(
                        both(
                            both(
                                Traces {
                                    records: seq![Record::Link { label, target }],
                                    entries: 1,
                                    ..no_traces()
                                },
                                inner.result->Ok_0,
                            ),
                            Traces {
                                inputs: seq![
                                    retained(
                                        label,
                                        RecoveryInputView::Symlink { path, target, metadata },
                                    ),
                                ],
                                ..no_traces()
                            },
                        ),
                        again.next,
                    )
                }
            },
            ReplyView::Opened { handle, metadata } => {
                let hook = safety::hook_observation(label, metadata, safety::recovery_hooks());
                let names = children_step(replies, opened.next, path, handle, entries + 1);
                let inner = listed_step(
                    replies,
                    names.next,
                    label,
                    path,
                    depth,
                    entries + 1,
                    look,
                    names.result->Ok_0,
                );
                let same = files::reopened_step(replies, inner.next, path, handle, metadata, true);
                if hook is Err {
                    session::failed(hook->Err_0, opened.next)
                } else if metadata.kind == FileKind::File {
                    file_step(replies, opened.next, label, path, handle, metadata, look)
                } else if metadata.kind != FileKind::Directory {
                    session::failed(
                        files::path_refusal(
                            "recovery planning is blocked because "@,
                            path,
                            " is not a regular file or directory"@,
                        ),
                        opened.next,
                    )
                } else if names.result is Err {
                    session::halted(names)
                } else if inner.result is Err {
                    inner
                } else if same.result is Err {
                    session::halted(same)
                } else {
                    session::given(
                        both(
                            both(
                                Traces {
                                    records: seq![
                                        Record::Directory {
                                            label,
                                            length: metadata.length,
                                            mode: metadata.mode,
                                        },
                                    ],
                                    entries: 1,
                                    ..no_traces()
                                },
                                inner.result->Ok_0,
                            ),
                            Traces {
                                inputs: seq![
                                    retained(
                                        label,
                                        RecoveryInputView::Opened { path, handle, metadata },
                                    ),
                                ],
                                ..no_traces()
                            },
                        ),
                        same.next,
                    )
                }
            },
            _ => session::pending(ActionView::Open { path }, opened.next),
        }
    }
}

/// Looks at named things in a directory, one after the other.
pub open spec fn listed_step(
    replies: Seq<ReplyView>,
    at: nat,
    label: Seq<u8>,
    path: Seq<u8>,
    depth: nat,
    entries: nat,
    look: LookView,
    names: Seq<Seq<u8>>,
) -> GitStep<Traces>
    decreases room(entries), names.len(),
{
    if names.len() == 0 {
        session::given(no_traces(), at)
    } else {
        let before = listed_step(
            replies,
            at,
            label,
            path,
            depth,
            entries,
            look,
            names.drop_last(),
        );
        let done = before.result->Ok_0;
        let capacity = capacity_step(replies, before.next, entries + done.entries);
        let child = path_step(
            replies,
            capacity.next,
            child_label(label, names.last()),
            bytes::joined_path(path, names.last()),
            depth,
            entries + done.entries,
            after(look, done.spent),
        );
        if before.result is Err {
            before
        } else if capacity.result is Err {
            session::halted(capacity)
        } else if child.result is Err {
            child
        } else {
            session::given(both(done, child.result->Ok_0), child.next)
        }
    }
}

/// Names whose start halts a look halt it in the same way.
proof fn lemma_listed_halt(
    replies: Seq<ReplyView>,
    at: nat,
    label: Seq<u8>,
    path: Seq<u8>,
    depth: nat,
    entries: nat,
    look: LookView,
    names: Seq<Seq<u8>>,
    count: int,
)
    requires
        0 <= count <= names.len(),
        listed_step(replies, at, label, path, depth, entries, look, names.take(count)).result
            is Err,
    ensures
        listed_step(replies, at, label, path, depth, entries, look, names) == listed_step(
            replies,
            at,
            label,
            path,
            depth,
            entries,
            look,
            names.take(count),
        ),
    decreases names.len() - count,
{
    if count < names.len() {
        assert(names.take(count + 1).drop_last() =~= names.take(count));
        lemma_listed_halt(replies, at, label, path, depth, entries, look, names, count + 1);
    } else {
        assert(names.take(count) =~= names);
    }
}

impl Survey {
    /// A survey that has taken nothing in.
    pub fn new() -> (result: Survey)
        ensures
            result.deep_view() == empty_survey(),
    {
        let result = Survey {
            transcript: Vec::new(),
            records: Ghost(Seq::empty()),
            entries: 0,
            inputs: Vec::new(),
            probes: Vec::new(),
            oids: Vec::new(),
        };
        assert(result.deep_view() =~= empty_survey());
        result
    }

    /// Takes in the code that a command ended with and the digest of its output.
    pub fn push_command(&mut self, code: Option<i32>, digest: &[u8])
        ensures
            final(self).deep_view() == with_record(
                old(self).deep_view(),
                Record::Command { code: records::exit_number(code), digest: digest@ },
            ),
    {
        let ghost record = Record::Command { code: records::exit_number(code), digest: digest@ };
        let bytes = digest::to_code_bytes(code);
        digest::push_field(&mut self.transcript, bytes.as_slice());
        digest::push_field(&mut self.transcript, digest);
        self.records = Ghost(self.records@.push(record));
        assert(self.transcript@ =~= old(self).transcript@ + records::encoded(record));
    }

    /// Takes in the digest of the output of a command that succeeded.
    pub fn push_output(&mut self, digest: &[u8])
        ensures
            final(self).deep_view() == with_record(
                old(self).deep_view(),
                Record::Output { digest: digest@ },
            ),
    {
        let ghost record = Record::Output { digest: digest@ };
        digest::push_field(&mut self.transcript, digest);
        self.records = Ghost(self.records@.push(record));
        assert(self.transcript@ =~= old(self).transcript@ + records::encoded(record));
    }

    /// Takes in that a path leads to nothing.
    fn push_missing(&mut self, label: &[u8])
        ensures
            final(self).deep_view() == with_record(
                old(self).deep_view(),
                Record::Missing { label: label@ },
            ),
    {
        let ghost record = Record::Missing { label: label@ };
        digest::push_field(&mut self.transcript, label);
        digest::push_field(&mut self.transcript, "missing".as_bytes());
        self.records = Ghost(self.records@.push(record));
        assert(self.transcript@ =~= old(self).transcript@ + records::encoded(record));
    }

    /// Takes in where a symbolic link points.
    fn push_link(&mut self, label: &[u8], target: &[u8])
        ensures
            final(self).deep_view() == with_record(
                old(self).deep_view(),
                Record::Link { label: label@, target: target@ },
            ),
    {
        let ghost record = Record::Link { label: label@, target: target@ };
        digest::push_field(&mut self.transcript, label);
        digest::push_field(&mut self.transcript, "symlink".as_bytes());
        digest::push_field(&mut self.transcript, target);
        self.records = Ghost(self.records@.push(record));
        assert(self.transcript@ =~= old(self).transcript@ + records::encoded(record));
    }

    /// Takes in a regular file.
    fn push_file(&mut self, label: &[u8], length: u64, mode: u32, contents: &[u8])
        ensures
            final(self).deep_view() == with_record(
                old(self).deep_view(),
                Record::File { label: label@, length, mode, contents: contents@ },
            ),
    {
        let ghost record = Record::File { label: label@, length, mode, contents: contents@ };
        let length_bytes = digest::to_low_bytes(length, 8);
        let mode_bytes = digest::to_low_bytes(mode as u64, 4);
        digest::push_field(&mut self.transcript, label);
        digest::push_field(&mut self.transcript, length_bytes.as_slice());
        digest::push_field(&mut self.transcript, mode_bytes.as_slice());
        digest::push_field(&mut self.transcript, "file".as_bytes());
        self.transcript.extend_from_slice(contents);
        self.records = Ghost(self.records@.push(record));
        assert(self.transcript@ =~= old(self).transcript@ + records::encoded(record));
    }

    /// Takes in a directory.
    fn push_directory(&mut self, label: &[u8], length: u64, mode: u32)
        ensures
            final(self).deep_view() == with_record(
                old(self).deep_view(),
                Record::Directory { label: label@, length, mode },
            ),
    {
        let ghost record = Record::Directory { label: label@, length, mode };
        let length_bytes = digest::to_low_bytes(length, 8);
        let mode_bytes = digest::to_low_bytes(mode as u64, 4);
        digest::push_field(&mut self.transcript, label);
        digest::push_field(&mut self.transcript, length_bytes.as_slice());
        digest::push_field(&mut self.transcript, mode_bytes.as_slice());
        digest::push_field(&mut self.transcript, "directory".as_bytes());
        self.records = Ghost(self.records@.push(record));
        assert(self.transcript@ =~= old(self).transcript@ + records::encoded(record));
    }

    /// Takes in which recovery is meant.
    pub fn push_recovery(&mut self, operation: RepositoryOperation, action: RecoveryAction)
        ensures
            final(self).deep_view() == with_record(
                old(self).deep_view(),
                Record::Recovery { operation, action },
            ),
    {
        let ghost record = Record::Recovery { operation, action };
        digest::push_field(&mut self.transcript, operation.label().as_bytes());
        digest::push_field(&mut self.transcript, action.label().as_bytes());
        self.records = Ghost(self.records@.push(record));
        assert(self.transcript@ =~= old(self).transcript@ + records::encoded(record));
    }

    /// Takes one more command in.
    pub fn push_probe(&mut self, probe: RecoveryProbe)
        ensures
            final(self).deep_view() == with_probe(old(self).deep_view(), probe.deep_view()),
    {
        let ghost before = self.probes.deep_view();
        self.probes.push(probe);
        assert(self.probes.deep_view() =~= before.push(probe.deep_view()));
    }

    /// Keeps an input.
    fn retain_input(&mut self, label: &[u8], input: RecoveryInput)
        ensures
            final(self).deep_view() == (SurveyView {
                inputs: old(self).deep_view().inputs.push(retained(label@, input.deep_view())),
                ..old(self).deep_view()
            }),
    {
        let ghost before = self.inputs.deep_view();
        let kept = RetainedInput { label: bytes::copy_bytes(label), input };
        self.inputs.push(kept);
        assert(self.inputs.deep_view() =~= before.push(kept.deep_view()));
    }
}

/// How a path is looked at.
pub open spec fn look_view(follow: bool, budget: Option<u64>, budget_error: Seq<char>) -> LookView {
    LookView { follow, budget: natural(budget), budget_error }
}

/// What is left of a budget after some bytes were read.
pub open spec fn budget_left(before: Option<u64>, after: Option<u64>, spent: nat) -> bool {
    match before {
        Some(bound) => spent <= bound && after == Some((bound - spent) as u64),
        None => after is None,
    }
}

/// Looks at an open regular file.
fn hash_file(
    session: &mut Session,
    survey: &mut Survey,
    label: &[u8],
    path: &[u8],
    handle: u64,
    metadata: &FileMetadata,
    follow: bool,
    budget: &mut Option<u64>,
    budget_error: &str,
) -> (result: GitResult<()>)
    requires
        old(survey).entries < RECOVERY_STATE_ENTRY_LIMIT,
    ensures
        final(session).replies() == old(session).replies(),
        ({
            let step = file_step(
                old(session).replies(),
                old(session).at(),
                label@,
                path@,
                handle,
                *metadata,
                look_view(follow, *old(budget), budget_error@),
            );
            &&& step.next == final(session).at()
            &&& match result {
                Ok(_) => {
                    &&& step.result is Ok
                    &&& final(survey).deep_view() == extended(
                        old(survey).deep_view(),
                        step.result->Ok_0,
                    )
                    &&& budget_left(*old(budget), *final(budget), step.result->Ok_0.spent)
                },
                Err(halt) => step.result == Err::<Traces, _>(halt.deep_view()),
            }
        }),
{
    let inspected = safety::recovery_control_input_requires_safety_inspection(label);
    let contents = read_contents(session, path, handle, inspected, *budget, budget_error)?;
    let oids = commands::settle(inspect_contents(label, contents.as_slice()))?;
    files::ensure_unchanged(session, path, handle, metadata, false)?;
    let ghost start = survey.deep_view();
    survey.entries = survey.entries + 1;
    survey.push_file(label, metadata.length, metadata.mode, contents.as_slice());
    order::insert_texts(&mut survey.oids, &oids);
    survey.retain_input(
        label,
        RecoveryInput::Opened { path: bytes::copy_bytes(path), handle, metadata: *metadata },
    );
    *budget = match *budget {
        Some(bound) => Some(bound - contents.len() as u64),
        None => None,
    };
    proof {
        let record = Record::File {
            label: label@,
            length: metadata.length,
            mode: metadata.mode,
            contents: contents@,
        };
        records::lemma_transcript_of_one(record);
        assert(survey.deep_view().records =~= start.records + seq![record]);
    }
    assert(survey.deep_view().inputs =~= start.inputs + seq![
        retained(
            label@,
            RecoveryInputView::Opened { path: path@, handle, metadata: *metadata },
        ),
    ]);
    Ok(())
}

/// Looks at a path under a label, and at all that it leads to.
#[verifier::rlimit(60)]
pub(crate) fn hash_recovery_path(
    session: &mut Session,
    survey: &mut Survey,
    label: &[u8],
    path: &[u8],
    depth: usize,
    follow: bool,
    budget: &mut Option<u64>,
    budget_error: &str,
) -> (result: GitResult<()>)
    ensures
        final(session).replies() == old(session).replies(),
        ({
            let step = path_step(
                old(session).replies(),
                old(session).at(),
                label@,
                path@,
                depth as nat,
                old(survey).entries as nat,
                look_view(follow, *old(budget), budget_error@),
            );
            &&& step.next == final(session).at()
            &&& match result {
                Ok(_) => {
                    &&& step.result is Ok
                    &&& final(survey).deep_view() == extended(
                        old(survey).deep_view(),
                        step.result->Ok_0,
                    )
                    &&& budget_left(*old(budget), *final(budget), step.result->Ok_0.spent)
                },
                Err(halt) => step.result == Err::<Traces, _>(halt.deep_view()),
            }
        }),
    decreases room(old(survey).entries as nat), 0nat,
{
    let ghost start = survey.deep_view();
    ensure_recovery_fingerprint_capacity(session, survey.entries)?;
    match session.ask(Action::Open { path: bytes::copy_bytes(path) })? {
        Reply::Missing => {
            survey.push_missing(label);
            survey.retain_input(label, RecoveryInput::Missing { path: bytes::copy_bytes(path) });
            proof {
                let record = Record::Missing { label: label@ };
                records::lemma_transcript_of_one(record);
                assert(survey.deep_view().records =~= start.records + seq![record]);
            }
            assert(survey.deep_view().inputs =~= start.inputs + seq![
                retained(label@, RecoveryInputView::Missing { path: path@ }),
            ]);
            Ok(())
        },
        Reply::Symlink => {
            if depth >= SYMLINK_LEVELS {
                return Err(
                    Halt::Failed(
                        files::refuse_path(
                            "recovery planning is blocked because ",
                            path,
                            " has too many symlink levels",
                        ),
                    ),
                );
            }
            let (metadata, target) = read_steady_link(session, path)?;
            survey.entries = survey.entries + 1;
            survey.push_link(label, target.as_slice());
            ensure_recovery_fingerprint_capacity(session, survey.entries)?;
            let ghost link = Record::Link { label: label@, target: target@ };
            let ghost first = Traces { records: seq![link], entries: 1, ..no_traces() };
            proof {
                lemma_extended_by_one(start, link, first);
                assert(survey.deep_view() == extended(start, first));
            }
            let ghost middle = survey.deep_view();
            let ghost mut inner = no_traces();
            if follow {
                let destination = resolve_link(path, target.as_slice());
                proof {
                    inner = path_step(
                        session.replies(),
                        session.at(),
                        label@,
                        destination@,
                        (depth + 1) as nat,
                        survey.entries as nat,
                        look_view(follow, *budget, budget_error@),
                    ).result->Ok_0;
                }
                hash_recovery_path(
                    session,
                    survey,
                    label,
                    destination.as_slice(),
                    depth + 1,
                    follow,
                    budget,
                    budget_error,
                )?;
            } else {
                proof {
                    lemma_extended_by_none(middle, inner);
                    assert(middle.inputs + inner.inputs =~= middle.inputs);
                    assert(extended(middle, inner) == middle);
                }
            }
            assert(survey.deep_view() == extended(middle, inner));
            ensure_same_link(session, path, target.as_slice(), &metadata)?;
            let ghost last = Traces {
                inputs: seq![
                    retained(
                        label@,
                        RecoveryInputView::Symlink { path: path@, target: target@, metadata },
                    ),
                ],
                ..no_traces()
            };
            let ghost before = survey.deep_view();
            survey.retain_input(
                label,
                RecoveryInput::Symlink { path: bytes::copy_bytes(path), target, metadata },
            );
            proof {
                lemma_extended_by_none(before, last);
                assert(before.inputs + last.inputs =~= survey.deep_view().inputs);
                assert(survey.deep_view() == extended(before, last));
                lemma_extended_by_both(start, first, inner);
                lemma_extended_by_both(start, both(first, inner), last);
            }
            Ok(())
        },
        Reply::Failed(source) => Err(Halt::Failed(files::recovery_state_io(path, source))),
        Reply::Opened { handle, metadata } => {
            commands::settle(safety::ensure_recovery_hook_observation_safe(label, metadata))?;
            if metadata.kind == FileKind::File {
                return hash_file(
                    session,
                    survey,
                    label,
                    path,
                    *handle,
                    metadata,
                    follow,
                    budget,
                    budget_error,
                );
            }
            if metadata.kind != FileKind::Directory {
                return Err(
                    Halt::Failed(
                        files::refuse_path(
                            "recovery planning is blocked because ",
                            path,
                            " is not a regular file or directory",
                        ),
                    ),
                );
            }
            survey.entries = survey.entries + 1;
            survey.push_directory(label, metadata.length, metadata.mode);
            let ghost directory = Record::Directory {
                label: label@,
                length: metadata.length,
                mode: metadata.mode,
            };
            let ghost first = Traces { records: seq![directory], entries: 1, ..no_traces() };
            proof {
                lemma_extended_by_one(start, directory, first);
                assert(survey.deep_view() == extended(start, first));
            }
            let ghost middle = survey.deep_view();
            let names = recovery_directory_children(session, path, *handle, survey.entries)?;
            let ghost inner = listed_step(
                session.replies(),
                session.at(),
                label@,
                path@,
                depth as nat,
                survey.entries as nat,
                look_view(follow, *budget, budget_error@),
                names.deep_view(),
            ).result->Ok_0;
            hash_listed(session, survey, label, path, depth, follow, budget, budget_error, &names)?;
            files::ensure_unchanged(session, path, *handle, metadata, true)?;
            let ghost last = Traces {
                inputs: seq![
                    retained(
                        label@,
                        RecoveryInputView::Opened {
                            path: path@,
                            handle: *handle,
                            metadata: *metadata,
                        },
                    ),
                ],
                ..no_traces()
            };
            let ghost before = survey.deep_view();
            survey.retain_input(
                label,
                RecoveryInput::Opened {
                    path: bytes::copy_bytes(path),
                    handle: *handle,
                    metadata: *metadata,
                },
            );
            proof {
                lemma_extended_by_none(before, last);
                assert(before.inputs + last.inputs =~= survey.deep_view().inputs);
                assert(survey.deep_view() == extended(before, last));
                lemma_extended_by_both(start, first, inner);
                lemma_extended_by_both(start, both(first, inner), last);
            }
            Ok(())
        },
        _ => Err(Halt::Pending(Action::Open { path: bytes::copy_bytes(path) })),
    }
}

/// Looks at named things in a directory, one after the other.
#[verifier::rlimit(40)]
fn hash_listed(
    session: &mut Session,
    survey: &mut Survey,
    label: &[u8],
    path: &[u8],
    depth: usize,
    follow: bool,
    budget: &mut Option<u64>,
    budget_error: &str,
    names: &Vec<Vec<u8>>,
) -> (result: GitResult<()>)
    ensures
        final(session).replies() == old(session).replies(),
        ({
            let step = listed_step(
                old(session).replies(),
                old(session).at(),
                label@,
                path@,
                depth as nat,
                old(survey).entries as nat,
                look_view(follow, *old(budget), budget_error@),
                names.deep_view(),
            );
            &&& step.next == final(session).at()
            &&& match result {
                Ok(_) => {
                    &&& step.result is Ok
                    &&& final(survey).deep_view() == extended(
                        old(survey).deep_view(),
                        step.result->Ok_0,
                    )
                    &&& budget_left(*old(budget), *final(budget), step.result->Ok_0.spent)
                },
                Err(halt) => step.result == Err::<Traces, _>(halt.deep_view()),
            }
        }),
    decreases room(old(survey).entries as nat), 1nat,
{
    let ghost all = names.deep_view();
    let ghost replies = session.replies();
    let ghost at = session.at();
    let ghost start = survey.deep_view();
    let ghost look = look_view(follow, *budget, budget_error@);
    let ghost mut done = no_traces();
    assert(all.take(0) =~= Seq::<Seq<u8>>::empty());
    proof {
        lemma_extended_by_none(start, done);
        assert(start.inputs + done.inputs =~= start.inputs);
    }
    let mut index: usize = 0;
    while index < names.len()
        invariant
            index <= names@.len(),
            all == names.deep_view(),
            session.replies() == replies,
            replies == old(session).replies(),
            at == old(session).at(),
            start == old(survey).deep_view(),
            look == look_view(follow, *old(budget), budget_error@),
            survey.deep_view() == extended(start, done),
            budget_left(*old(budget), *budget, done.spent),
            listed_step(
                replies,
                at,
                label@,
                path@,
                depth as nat,
                start.entries,
                look,
                all.take(index as int),
            ) == session::given::<_, GitErrorView>(done, session.at()),
        decreases names@.len() - index,
    {
        let name = names[index].as_slice();
        let ghost longer = all.take(index + 1);
        assert(longer.drop_last() =~= all.take(index as int));
        assert(longer.last() == name@);
        let ghost before = survey.deep_view();
        match ensure_recovery_fingerprint_capacity(session, survey.entries) {
            Ok(_) => {},
            Err(halt) => {
                proof {
                    lemma_listed_halt(
                        replies,
                        at,
                        label@,
                        path@,
                        depth as nat,
                        start.entries,
                        look,
                        all,
                        index + 1,
                    );
                }
                return Err(halt);
            },
        }
        let mut name_label = bytes::copy_bytes(label);
        name_label.push(47);
        name_label.extend_from_slice(name);
        assert(name_label@ =~= child_label(label@, name@));
        let name_path = bytes::join_path(path, name);
        assert(look_view(follow, *budget, budget_error@) == after(look, done.spent));
        let ghost child = path_step(
            replies,
            session.at(),
            name_label@,
            name_path@,
            depth as nat,
            survey.entries as nat,
            look_view(follow, *budget, budget_error@),
        );
        match hash_recovery_path(
            session,
            survey,
            name_label.as_slice(),
            name_path.as_slice(),
            depth,
            follow,
            budget,
            budget_error,
        ) {
            Ok(_) => {},
            Err(halt) => {
                proof {
                    lemma_listed_halt(
                        replies,
                        at,
                        label@,
                        path@,
                        depth as nat,
                        start.entries,
                        look,
                        all,
                        index + 1,
                    );
                }
                return Err(halt);
            },
        }
        proof {
            lemma_extended_by_both(start, done, child.result->Ok_0);
            done = both(done, child.result->Ok_0);
        }
        index += 1;
    }
    assert(all.take(index as int) =~= all);
    Ok(())
}

}
