//! Files of a repository that recovery looks at: reading them whole, and telling that they did not
//! change meanwhile.
use crate::bytes;
use crate::git::commands;
use crate::git::commands::{GitResult, GitStep};
use crate::git::recovery::bounded;
use crate::git::types::{
    GitError, GitErrorView, IoFailure, IoFailureView, RecoveryAction, RepositoryOperation,
};
use crate::number;
use crate::order;
use crate::session;
use crate::session::{
    Action, ActionView, BoundedCommandOutputView, FileKind, FileMetadata, Halt, Reply, ReplyView,
    Session,
};
use crate::text;
use crate::words;
use vstd::prelude::*;
use vstd::utf8;

verus! {

broadcast use crate::bytes::bytes_are_their_view;

/// How many bytes of a rebase file are read.
pub const RECOVERY_REBASE_TODO_LIMIT: u64 = 1048576;

/// The error of a request that the file system refused.
pub open spec fn state_failure(path: Seq<u8>, source: IoFailureView) -> GitErrorView {
    GitErrorView::Io { args: seq!["recovery-state "@ + bytes::lossy_text(path)], source }
}

/// The error of a request that the file system refused.
pub(crate) fn recovery_state_io(path: &[u8], source: &IoFailure) -> (result: GitError)
    ensures
        result.deep_view() == state_failure(path@, source.deep_view()),
{
    let shown = bytes::lossy(path);
    let what = text::concat2("recovery-state ", shown.as_str());
    GitError::Io { args: words::words1(what.as_str()), source: source.copied() }
}

/// The refusal where a path changed while it was looked at.
pub open spec fn path_changed(path: Seq<u8>) -> GitErrorView {
    commands::refusal(
        "recovery planning is blocked because "@ + bytes::lossy_text(path)
            + " changed while it was fingerprinted"@,
    )
}

/// The refusal where a path changed while it was looked at.
pub(crate) fn recovery_path_changed(path: &[u8]) -> (result: GitError)
    ensures
        result.deep_view() == path_changed(path@),
{
    let shown = bytes::lossy(path);
    let message = text::concat3(
        "recovery planning is blocked because ",
        shown.as_str(),
        " changed while it was fingerprinted",
    );
    commands::blocked(message.as_str())
}

/// A refusal that names a path between two texts.
pub open spec fn path_refusal(before: Seq<char>, path: Seq<u8>, after: Seq<char>) -> GitErrorView {
    commands::refusal(before + bytes::lossy_text(path) + after)
}

/// A refusal that names a path between two texts.
pub(crate) fn refuse_path(before: &str, path: &[u8], after: &str) -> (result: GitError)
    ensures
        result.deep_view() == path_refusal(before@, path@, after@),
{
    let shown = bytes::lossy(path);
    let message = text::concat3(before, shown.as_str(), after);
    commands::blocked(message.as_str())
}

/// Whether two looks saw the same file in the same state.
pub open spec fn same_file_state(left: FileMetadata, right: FileMetadata) -> bool {
    &&& left.device == right.device
    &&& left.inode == right.inode
    &&& left.mode == right.mode
    &&& left.length == right.length
    &&& left.modified == right.modified
    &&& left.modified_nanoseconds == right.modified_nanoseconds
    &&& left.changed == right.changed
    &&& left.changed_nanoseconds == right.changed_nanoseconds
}

/// Whether two looks saw the same file in the same state.
pub fn same_recovery_file(left: &FileMetadata, right: &FileMetadata) -> (result: bool)
    ensures
        result == same_file_state(*left, *right),
{
    left.device == right.device && left.inode == right.inode && left.mode == right.mode
        && left.length == right.length && left.modified == right.modified
        && left.modified_nanoseconds == right.modified_nanoseconds && left.changed == right.changed
        && left.changed_nanoseconds == right.changed_nanoseconds
}

/// Whether two looks saw the same file.
pub open spec fn same_file(left: FileMetadata, right: FileMetadata) -> bool {
    left.device == right.device && left.inode == right.inode
}

/// Whether two looks saw the same file.
pub fn same_path_identity(left: &FileMetadata, right: &FileMetadata) -> (result: bool)
    ensures
        result == same_file(*left, *right),
{
    left.device == right.device && left.inode == right.inode
}

/// Looks at an open file, or at a path itself.
pub open spec fn metadata_step(
    replies: Seq<ReplyView>,
    at: nat,
    action: ActionView,
    path: Seq<u8>,
) -> GitStep<
    FileMetadata,
> {
    session::followed(
        session::asked(replies, at, action),
        |reply: ReplyView, n: nat|
            match reply {
                ReplyView::Metadata(metadata) => session::given(metadata, n),
                ReplyView::Failed(source) => session::failed(state_failure(path, source), n),
                _ => session::pending(action, n),
            },
    )
}

/// Looks at an open file.
pub(crate) fn handle_metadata(session: &mut Session, handle: u64, path: &[u8]) -> (result: GitResult<
    FileMetadata,
>)
    ensures
        session::stepped(
            old(session),
            final(session),
            result,
            metadata_step(
                old(session).replies(),
                old(session).at(),
                ActionView::HandleMetadata { handle },
                path@,
            ),
        ),
{
    match session.ask(Action::HandleMetadata { handle })? {
        Reply::Metadata(metadata) => Ok(*metadata),
        Reply::Failed(source) => Err(Halt::Failed(recovery_state_io(path, source))),
        _ => Err(Halt::Pending(Action::HandleMetadata { handle })),
    }
}

/// Opens a path again and compares what is open: the same file, in the state in which it was.
pub open spec fn reopened_step(
    replies: Seq<ReplyView>,
    at: nat,
    path: Seq<u8>,
    handle: u64,
    metadata: FileMetadata,
    directory: bool,
) -> GitStep<()> {
    session::followed(
        metadata_step(replies, at, ActionView::HandleMetadata { handle }, path),
        |last: FileMetadata, n: nat|
            session::followed(
                session::asked(replies, n, ActionView::Open { path }),
                |reply: ReplyView, n: nat|
                    match reply {
                        ReplyView::Opened { handle: _, metadata: current } => if (directory
                            && last.kind != FileKind::Directory) || !same_file_state(metadata, last)
                            || !same_file(metadata, current) {
                            session::failed(path_changed(path), n)
                        } else {
                            session::given((), n)
                        },
                        ReplyView::Failed(source) => session::failed(
                            state_failure(path, source),
                            n,
                        ),
                        _ => session::failed(path_changed(path), n),
                    },
            ),
    )
}

/// Opens a path again and compares what is open.
pub(crate) fn ensure_unchanged(
    session: &mut Session,
    path: &[u8],
    handle: u64,
    metadata: &FileMetadata,
    directory: bool,
) -> (result: GitResult<()>)
    ensures
        session::stepped(
            old(session),
            final(session),
            result,
            reopened_step(
                old(session).replies(),
                old(session).at(),
                path@,
                handle,
                *metadata,
                directory,
            ),
        ),
{
    let last = handle_metadata(session, handle, path)?;
    match session.ask(Action::Open { path: bytes::copy_bytes(path) })? {
        Reply::Opened { handle: _, metadata: current } => {
            if (directory && last.kind != FileKind::Directory) || !same_recovery_file(
                metadata,
                &last,
            ) || !same_path_identity(metadata, current) {
                Err(Halt::Failed(recovery_path_changed(path)))
            } else {
                Ok(())
            }
        },
        Reply::Failed(source) => Err(Halt::Failed(recovery_state_io(path, source))),
        _ => Err(Halt::Failed(recovery_path_changed(path))),
    }
}

/// How many bytes to ask for next.
pub open spec fn next_read(limit: u64, have: nat) -> u64 {
    if limit + 1 - have < 8192 {
        (limit + 1 - have) as u64
    } else {
        8192
    }
}

/// Reads the rest of an open file, up to one byte more than a limit.
pub open spec fn read_rest_step(
    replies: Seq<ReplyView>,
    at: nat,
    path: Seq<u8>,
    handle: u64,
    limit: u64,
    contents: Seq<u8>,
) -> GitStep<Seq<u8>>
    decreases
            if contents.len() <= limit {
                limit + 1 - contents.len()
            } else {
                0
            },
{
    let late = bounded::out_of_time("recovery-process-configuration"@);
    let action = ActionView::Read { handle, limit: next_read(limit, contents.len()) };
    let time = bounded::in_time_step(replies, at, late);
    let read = session::asked(replies, time.next, action);
    if contents.len() > limit {
        session::given(contents, at)
    } else if time.result is Err {
        session::halted(time)
    } else if read.result is Err {
        session::halted(read)
    } else {
        match read.result->Ok_0 {
            ReplyView::Bytes(chunk) => if chunk.len() == 0 {
                session::given(contents, read.next)
            } else {
                read_rest_step(replies, read.next, path, handle, limit, contents + chunk)
            },
            ReplyView::Failed(source) => session::failed(state_failure(path, source), read.next),
            _ => session::pending(action, read.next),
        }
    }
}

/// Reads the rest of an open file, up to one byte more than a limit.
fn read_rest(session: &mut Session, path: &[u8], handle: u64, limit: u64) -> (result: GitResult<
    Vec<u8>,
>)
    requires
        limit < 0xffff_ffff,
    ensures
        session::stepped(
            old(session),
            final(session),
            result,
            read_rest_step(
                old(session).replies(),
                old(session).at(),
                path@,
                handle,
                limit,
                Seq::empty(),
            ),
        ),
{
    let mut contents: Vec<u8> = Vec::new();
    let ghost replies = session.replies();
    let ghost start = session.at();
    assert(contents@ =~= Seq::<u8>::empty());
    while contents.len() as u64 <= limit
        invariant
            limit < 0xffff_ffff,
            session.replies() == replies,
            replies == old(session).replies(),
            start == old(session).at(),
            contents@.len() <= limit + 1,
            read_rest_step(replies, start, path@, handle, limit, Seq::empty()) == read_rest_step(
                replies,
                session.at(),
                path@,
                handle,
                limit,
                contents@,
            ),
        decreases limit + 1 - contents@.len(),
    {
        bounded::ensure_in_time(session, words::words1("recovery-process-configuration"))?;
        let left: u64 = limit + 1 - contents.len() as u64;
        let requested: u64 = if left < 8192 {
            left
        } else {
            8192
        };
        match session.ask(Action::Read { handle, limit: requested })? {
            Reply::Bytes(chunk) => {
                if chunk.len() == 0 {
                    return Ok(contents);
                }
                let ghost before = contents@;
                contents.extend_from_slice(chunk.as_slice());
                assert(contents@ =~= before + chunk@);
            },
            Reply::Failed(source) => {
                return Err(Halt::Failed(recovery_state_io(path, source)));
            },
            _ => {
                return Err(Halt::Pending(Action::Read { handle, limit: requested }));
            },
        }
    }
    Ok(contents)
}

/// Reads a file that may be missing: it has to be a regular file, no longer than a limit, and must
/// not change meanwhile.
pub open spec fn optional_file_step(
    replies: Seq<ReplyView>,
    at: nat,
    path: Seq<u8>,
    limit: u64,
) -> GitStep<
    Option<Seq<char>>,
> {
    session::followed(
        session::asked(replies, at, ActionView::Open { path }),
        |reply: ReplyView, n: nat|
            match reply {
                ReplyView::Missing => session::given(None, n),
                ReplyView::Symlink => session::failed(
                    path_refusal(
                        "recovery is blocked because "@,
                        path,
                        " is a symlink instead of a regular file; replace it with a regular file and preview recovery again, or run Git manually"@,
                    ),
                    n,
                ),
                ReplyView::Failed(source) => session::failed(state_failure(path, source), n),
                ReplyView::Opened { handle, metadata } => if metadata.kind != FileKind::File {
                    session::failed(
                        path_refusal(
                            "recovery is blocked because "@,
                            path,
                            " is not a regular file; replace it with a regular file and preview recovery again, or run Git manually"@,
                        ),
                        n,
                    )
                } else {
                    session::followed(
                        read_rest_step(replies, n, path, handle, limit, Seq::empty()),
                        |contents: Seq<u8>, n: nat|
                            if contents.len() > limit {
                                session::failed(
                                    path_refusal(
                                        "recovery is blocked because "@,
                                        path,
                                        " exceeds the bounded inspection limit"@,
                                    ),
                                    n,
                                )
                            } else {
                                session::followed(
                                    reopened_step(replies, n, path, handle, metadata, false),
                                    |_same: (), n: nat|
                                        session::given(Some(bytes::lossy_text(contents)), n),
                                )
                            },
                    )
                },
                _ => session::pending(ActionView::Open { path }, n),
            },
    )
}

/// Reads a file that may be missing.
pub(crate) fn read_bounded_optional_file(session: &mut Session, path: &[u8], limit: u64) -> (result:
    GitResult<Option<String>>)
    requires
        limit < 0xffff_ffff,
    ensures
        session::stepped(
            old(session),
            final(session),
            result,
            optional_file_step(old(session).replies(), old(session).at(), path@, limit),
        ),
{
    match session.ask(Action::Open { path: bytes::copy_bytes(path) })? {
        Reply::Missing => Ok(None),
        Reply::Symlink => Err(
            Halt::Failed(
                refuse_path(
                    "recovery is blocked because ",
                    path,
                    " is a symlink instead of a regular file; replace it with a regular file and preview recovery again, or run Git manually",
                ),
            ),
        ),
        Reply::Failed(source) => Err(Halt::Failed(recovery_state_io(path, source))),
        Reply::Opened { handle, metadata } => {
            if metadata.kind != FileKind::File {
                return Err(
                    Halt::Failed(
                        refuse_path(
                            "recovery is blocked because ",
                            path,
                            " is not a regular file; replace it with a regular file and preview recovery again, or run Git manually",
                        ),
                    ),
                );
            }
            let contents = read_rest(session, path, *handle, limit)?;
            if contents.len() as u64 > limit {
                return Err(
                    Halt::Failed(
                        refuse_path(
                            "recovery is blocked because ",
                            path,
                            " exceeds the bounded inspection limit",
                        ),
                    ),
                );
            }
            ensure_unchanged(session, path, *handle, metadata, false)?;
            Ok(Some(bytes::lossy(contents.as_slice())))
        },
        _ => Err(Halt::Pending(Action::Open { path: bytes::copy_bytes(path) })),
    }
}

/// Reads a rebase file that may be missing.
pub open spec fn git_file_step(replies: Seq<ReplyView>, at: nat, relative: Seq<char>) -> GitStep<
    Option<Seq<char>>,
> {
    session::followed(
        bounded::git_path_until_step(replies, at, relative),
        |path: Seq<u8>, n: nat| optional_file_step(replies, n, path, RECOVERY_REBASE_TODO_LIMIT),
    )
}

/// Reads a rebase file that may be missing.
pub(crate) fn read_git_file(session: &mut Session, relative: &str) -> (result: GitResult<
    Option<String>,
>)
    ensures
        session::stepped(
            old(session),
            final(session),
            result,
            git_file_step(old(session).replies(), old(session).at(), relative@),
        ),
{
    let path = bounded::git_path_until(session, relative)?;
    read_bounded_optional_file(session, path.as_slice(), RECOVERY_REBASE_TODO_LIMIT)
}

/// Whether all characters are hexadecimal digits.
pub open spec fn all_hex(value: Seq<char>) -> bool {
    forall|i: int| 0 <= i < value.len() ==> is_hex(#[trigger] value[i])
}

/// Whether a character is a hexadecimal digit.
pub open spec fn is_hex(character: char) -> bool {
    '0' <= character <= '9' || 'a' <= character <= 'f' || 'A' <= character <= 'F'
}

/// Whether all characters are hexadecimal digits.
pub fn is_all_hex(value: &[char]) -> (result: bool)
    ensures
        result == all_hex(value@),
{
    let mut index: usize = 0;
    while index < value.len()
        invariant
            index <= value@.len(),
            forall|i: int| 0 <= i < index ==> is_hex(#[trigger] value@[i]),
        decreases value@.len() - index,
    {
        let character = value[index];
        if !(('0' <= character && character <= '9') || ('a' <= character && character <= 'f') || (
        'A' <= character && character <= 'F')) {
            assert(!is_hex(value@[index as int]));
            return false;
        }
        index += 1;
    }
    true
}

/// Whether a text is the full name of an object.
pub open spec fn is_object_name(value: Seq<char>) -> bool {
    (value.len() == 40 || value.len() == 64) && all_hex(value)
}

/// The commit that one instruction of a rebase plan names, where it names one.
pub open spec fn instruction_oid(fields: Seq<Seq<char>>) -> Option<Seq<char>> {
    if fields.len() == 0 {
        None
    } else {
        let command = fields[0];
        let rest = fields.skip(1);
        if command == "pick"@ || command == "p"@ || command == "reword"@ || command == "r"@
            || command == "edit"@ || command == "e"@ || command == "squash"@ || command == "s"@ {
            if rest.len() > 0 {
                Some(rest[0])
            } else {
                None
            }
        } else if command == "fixup"@ || command == "f"@ {
            first_plain(rest)
        } else if command == "merge"@ || command == "m"@ {
            behind_flag(rest)
        } else {
            None
        }
    }
}

/// Whether a field says how a message is taken over.
pub open spec fn is_message_flag(field: Seq<char>) -> bool {
    field == "-C"@ || field == "-c"@
}

/// The first field that is no such flag.
pub open spec fn first_plain(fields: Seq<Seq<char>>) -> Option<Seq<char>>
    decreases fields.len(),
{
    if fields.len() == 0 {
        None
    } else if !is_message_flag(fields[0]) {
        Some(fields[0])
    } else {
        first_plain(fields.skip(1))
    }
}

/// The field behind the first such flag.
pub open spec fn behind_flag(fields: Seq<Seq<char>>) -> Option<Seq<char>>
    decreases fields.len(),
{
    if fields.len() < 2 {
        None
    } else if is_message_flag(fields[0]) {
        Some(fields[1])
    } else {
        behind_flag(fields.skip(1))
    }
}

/// The commits that the lines of a rebase plan name, in order and without repetition.
pub open spec fn plan_oids(relative: Seq<char>, lines: Seq<Seq<char>>) -> Result<
    Seq<Seq<char>>,
    GitErrorView,
>
    decreases lines.len(),
{
    if lines.len() == 0 {
        Ok(Seq::empty())
    } else {
        match plan_oids(relative, lines.drop_last()) {
            Err(error) => Err(error),
            Ok(before) => match instruction_oid(text::ascii_words(lines.last(), ' ')) {
                None => Ok(before),
                Some(oid) => if oid.len() < 4 || !all_hex(oid) {
                    Err(
                        commands::refusal(
                            "recovery planning is blocked because "@ + relative
                                + " contains an invalid commit object ID"@,
                        ),
                    )
                } else {
                    Ok(order::inserted(before, oid))
                },
            },
        }
    }
}

/// Lines that start with refused ones are refused in the same way.
proof fn lemma_plan_prefix(relative: Seq<char>, lines: Seq<Seq<char>>, count: int)
    requires
        0 <= count <= lines.len(),
        plan_oids(relative, lines.take(count)) is Err,
    ensures
        plan_oids(relative, lines) == plan_oids(relative, lines.take(count)),
    decreases lines.len() - count,
{
    if count < lines.len() {
        assert(lines.take(count + 1).drop_last() =~= lines.take(count));
        lemma_plan_prefix(relative, lines, count + 1);
    } else {
        assert(lines.take(count) =~= lines);
    }
}

/// The commits of a rebase plan stand in ascending order, each of them once, and each is written
/// with at least four hexadecimal digits.
pub proof fn plan_oids_are_ordered_names(relative: Seq<char>, lines: Seq<Seq<char>>)
    requires
        plan_oids(relative, lines) is Ok,
    ensures
        order::ascending(plan_oids(relative, lines)->Ok_0),
        forall|oid: Seq<char>| #[trigger]
            plan_oids(relative, lines)->Ok_0.contains(oid) ==> oid.len() >= 4 && all_hex(oid),
    decreases lines.len(),
{
    if lines.len() > 0 {
        plan_oids_are_ordered_names(relative, lines.drop_last());
        let before = plan_oids(relative, lines.drop_last())->Ok_0;
        match instruction_oid(text::ascii_words(lines.last(), ' ')) {
            Some(oid) => {
                order::inserting_keeps_order(before, oid);
            },
            None => {},
        }
    }
}

/// The commit that one instruction of a rebase plan names.
fn find_instruction_oid<'a>(fields: &Vec<&'a [char]>) -> (result: Option<&'a [char]>)
    ensures
        result is Some == instruction_oid(text::slices(fields@)) is Some,
        result is Some ==> result->Some_0@ == instruction_oid(text::slices(fields@))->Some_0,
{
    let ghost all = text::slices(fields@);
    assert(all.len() == fields@.len());
    if fields.len() == 0 {
        return None;
    }
    let command = fields[0];
    assert(all[0] == command@);
    let ghost rest = all.skip(1);
    if text::is_text(command, "pick") || text::is_text(command, "p") || text::is_text(
        command,
        "reword",
    ) || text::is_text(command, "r") || text::is_text(command, "edit") || text::is_text(
        command,
        "e",
    ) || text::is_text(command, "squash") || text::is_text(command, "s") {
        if fields.len() > 1 {
            assert(rest[0] == fields@[1]@);
            return Some(fields[1]);
        }
        return None;
    }
    if text::is_text(command, "fixup") || text::is_text(command, "f") {
        let mut index: usize = 1;
        while index < fields.len()
            invariant
                1 <= index <= fields@.len(),
                all == text::slices(fields@),
                first_plain(all.skip(1)) == first_plain(all.skip(index as int)),
                instruction_oid(all) == first_plain(all.skip(1)),
            decreases fields@.len() - index,
        {
            let field = fields[index];
            assert(all.skip(index as int)[0] == field@);
            if !text::is_text(field, "-C") && !text::is_text(field, "-c") {
                return Some(field);
            }
            assert(all.skip(index as int).skip(1) =~= all.skip(index + 1));
            index += 1;
        }
        return None;
    }
    if text::is_text(command, "merge") || text::is_text(command, "m") {
        let mut index: usize = 1;
        while index < fields.len() - 1
            invariant
                1 <= index <= fields@.len(),
                all == text::slices(fields@),
                behind_flag(all.skip(1)) == behind_flag(all.skip(index as int)),
                instruction_oid(all) == behind_flag(all.skip(1)),
            decreases fields@.len() - index,
        {
            let field = fields[index];
            assert(all.skip(index as int)[0] == field@);
            assert(all.skip(index as int)[1] == fields@[index + 1]@);
            if text::is_text(field, "-C") || text::is_text(field, "-c") {
                return Some(fields[index + 1]);
            }
            assert(all.skip(index as int).skip(1) =~= all.skip(index + 1));
            index += 1;
        }
        return None;
    }
    None
}

/// The commits that a rebase plan still names.
pub fn parse_remaining_rebase_commit_oids(relative: &str, contents: &str) -> (result: Result<
    Vec<String>,
    GitError,
>)
    ensures
        (match result {
            Ok(oids) => Ok(oids.deep_view()),
            Err(error) => Err(error.deep_view()),
        }) == plan_oids(relative@, text::text_lines(contents@)),
{
    let characters = text::chars_of(contents);
    let lines = text::lines(characters.as_slice());
    let ghost all = text::slices(lines@);
    let mut oids: Vec<String> = Vec::new();
    assert(oids.deep_view() =~= Seq::<Seq<char>>::empty());
    assert(all.take(0) =~= Seq::<Seq<char>>::empty());
    let mut index: usize = 0;
    while index < lines.len()
        invariant
            index <= lines@.len(),
            all == text::slices(lines@),
            all == text::text_lines(contents@),
            plan_oids(relative@, all.take(index as int)) == Ok::<_, GitErrorView>(oids.deep_view()),
        decreases lines@.len() - index,
    {
        let line = lines[index];
        let ghost longer = all.take(index + 1);
        assert(longer.drop_last() =~= all.take(index as int));
        assert(longer.last() == line@);
        let line_words = text::space_out(line, ' ');
        let fields = text::split_filled(line_words.as_slice(), ' ');
        if let Some(oid) = find_instruction_oid(&fields) {
            if oid.len() < 4 || !is_all_hex(oid) {
                proof {
                    lemma_plan_prefix(relative@, all, index + 1);
                }
                let message = text::concat3(
                    "recovery planning is blocked because ",
                    relative,
                    " contains an invalid commit object ID",
                );
                return Err(commands::blocked(message.as_str()));
            }
            order::insert_text(&mut oids, text::string_of(oid));
        }
        index += 1;
    }
    assert(all.take(index as int) =~= all);
    Ok(oids)
}

/// The commits that the rebase in progress still has to apply.
pub open spec fn remaining_oids_step(replies: Seq<ReplyView>, at: nat) -> GitStep<Seq<Seq<char>>> {
    session::followed(
        git_file_step(replies, at, "rebase-merge/git-rebase-todo"@),
        |merge: Option<Seq<char>>, n: nat|
            if merge is Some {
                commands::settled(
                    plan_oids(
                        "rebase-merge/git-rebase-todo"@,
                        text::text_lines(merge->Some_0),
                    ),
                    n,
                )
            } else {
                session::followed(
                    git_file_step(replies, n, "rebase-apply/git-rebase-todo"@),
                    |apply: Option<Seq<char>>, n: nat|
                        if apply is Some {
                            commands::settled(
                                plan_oids(
                                    "rebase-apply/git-rebase-todo"@,
                                    text::text_lines(apply->Some_0),
                                ),
                                n,
                            )
                        } else {
                            session::given(Seq::empty(), n)
                        },
                )
            },
    )
}

/// The commits that the rebase in progress still has to apply.
pub(crate) fn remaining_rebase_commit_oids_until(session: &mut Session) -> (result: GitResult<
    Vec<String>,
>)
    ensures
        session::stepped(
            old(session),
            final(session),
            result,
            remaining_oids_step(old(session).replies(), old(session).at()),
        ),
{
    if let Some(contents) = read_git_file(session, "rebase-merge/git-rebase-todo")? {
        return commands::settle(
            parse_remaining_rebase_commit_oids("rebase-merge/git-rebase-todo", contents.as_str()),
        );
    }
    if let Some(contents) = read_git_file(session, "rebase-apply/git-rebase-todo")? {
        return commands::settle(
            parse_remaining_rebase_commit_oids("rebase-apply/git-rebase-todo", contents.as_str()),
        );
    }
    let none: Vec<String> = Vec::new();
    assert(none.deep_view() =~= Seq::<Seq<char>>::empty());
    Ok(none)
}

/// The commit that a rebase started from, as one of its files says.
pub open spec fn original_head(relative: Seq<char>, contents: Seq<char>) -> Result<
    Option<Seq<char>>,
    GitErrorView,
> {
    if is_object_name(text::trimmed(contents)) {
        Ok(Some(text::trimmed(contents)))
    } else {
        Err(
            commands::refusal(
                "recovery planning is blocked because "@ + relative
                    + " does not contain a valid object ID"@,
            ),
        )
    }
}

/// The commit that a rebase started from, as one of its files says.
fn parse_original_head(relative: &str, contents: &str) -> (result: Result<Option<String>, GitError>)
    ensures
        (match result {
            Ok(oid) => Ok(oid.deep_view()),
            Err(error) => Err(error.deep_view()),
        }) == original_head(relative@, contents@),
{
    let characters = text::chars_of(contents);
    let oid = text::trim(characters.as_slice());
    if (oid.len() == 40 || oid.len() == 64) && is_all_hex(oid) {
        return Ok(Some(text::string_of(oid)));
    }
    let message = text::concat3(
        "recovery planning is blocked because ",
        relative,
        " does not contain a valid object ID",
    );
    Err(commands::blocked(message.as_str()))
}

/// The commit whose tree a recovery may write over the working tree, where there is one.
pub open spec fn overwrite_target_step(
    replies: Seq<ReplyView>,
    at: nat,
    operation: RepositoryOperation,
    action: RecoveryAction,
) -> GitStep<Option<Seq<char>>> {
    match (operation, action) {
        (RepositoryOperation::Merge, RecoveryAction::Abort) => session::given(
            Some("ORIG_HEAD"@),
            at,
        ),
        (RepositoryOperation::Merge, _) => session::given(None, at),
        (RepositoryOperation::Rebase, _) => session::followed(
            git_file_step(replies, at, "rebase-merge/orig-head"@),
            |merge: Option<Seq<char>>, n: nat|
                if merge is Some {
                    commands::settled(original_head("rebase-merge/orig-head"@, merge->Some_0), n)
                } else {
                    session::followed(
                        git_file_step(replies, n, "rebase-apply/orig-head"@),
                        |apply: Option<Seq<char>>, n: nat|
                            if apply is Some {
                                commands::settled(
                                    original_head("rebase-apply/orig-head"@, apply->Some_0),
                                    n,
                                )
                            } else {
                                session::failed(
                                    commands::refusal(
                                        "recovery planning is blocked because the original rebase target is unavailable"@,
                                    ),
                                    n,
                                )
                            },
                    )
                },
        ),
    }
}

/// The commit whose tree a recovery may write over the working tree.
pub(crate) fn recovery_overwrite_target_until(
    session: &mut Session,
    operation: RepositoryOperation,
    action: RecoveryAction,
) -> (result: GitResult<Option<String>>)
    ensures
        session::stepped(
            old(session),
            final(session),
            result,
            overwrite_target_step(old(session).replies(), old(session).at(), operation, action),
        ),
{
    if operation == RepositoryOperation::Merge {
        return match action {
            RecoveryAction::Abort => Ok(Some("ORIG_HEAD".to_owned())),
            _ => Ok(None),
        };
    }
    if let Some(contents) = read_git_file(session, "rebase-merge/orig-head")? {
        return commands::settle(parse_original_head("rebase-merge/orig-head", contents.as_str()));
    }
    if let Some(contents) = read_git_file(session, "rebase-apply/orig-head")? {
        return commands::settle(parse_original_head("rebase-apply/orig-head", contents.as_str()));
    }
    Err(
        Halt::Failed(
            commands::blocked(
                "recovery planning is blocked because the original rebase target is unavailable",
            ),
        ),
    )
}

/// Whether the version of Git is one that recovery works with: 2.42 or a later one.
pub open spec fn version_suffices(version: Seq<char>) -> bool {
    let rest = version.skip("git version "@.len() as int);
    let components = text::pieces(rest, '.');
    let limit = u64::MAX as nat;
    if !text::has_prefix(version, "git version "@) || components.len() < 2 {
        false
    } else {
        match (number::number_in(components[0], limit), number::number_in(components[1], limit)) {
            (Some(major), Some(minor)) => major > 2 || (major == 2 && minor >= 42),
            _ => false,
        }
    }
}

/// The refusal of a Git that is too old.
pub open spec fn version_refusal() -> GitErrorView {
    commands::refusal(
        "recovery requires Git 2.42 or newer because exact attribute-state fingerprinting is unavailable in older Git versions; upgrade Git or run recovery manually"@,
    )
}

/// Refuses a Git that is too old.
pub fn ensure_recovery_git_version(version: &[u8]) -> (result: Result<(), GitError>)
    ensures
        result is Ok == version_suffices(bytes::lossy_text(version@)),
        result is Err ==> result->Err_0.deep_view() == version_refusal(),
{
    let shown = bytes::lossy(version);
    let characters = text::chars_of(shown.as_str());
    if let Some(rest) = text::strip_text_prefix(characters.as_slice(), "git version ") {
        let components = text::split(rest, '.');
        assert(components@.len() == text::slices(components@).len());
        if components.len() >= 2 {
            assert(text::slices(components@)[0] == components@[0]@);
            assert(text::slices(components@)[1] == components@[1]@);
            let major = number::parse_number(components[0], u64::MAX);
            let minor = number::parse_number(components[1], u64::MAX);
            if let (Some(major), Some(minor)) = (major, minor) {
                if major > 2 || (major == 2 && minor >= 42) {
                    return Ok(());
                }
            }
        }
    }
    Err(
        commands::blocked(
            "recovery requires Git 2.42 or newer because exact attribute-state fingerprinting is unavailable in older Git versions; upgrade Git or run recovery manually",
        ),
    )
}

/// Refuses a Git that is too old.
pub open spec fn version_step(replies: Seq<ReplyView>, at: nat) -> GitStep<()> {
    let args = seq!["version"@];
    session::followed(
        bounded::probe_step(replies, at, args),
        |output: BoundedCommandOutputView, n: nat|
            if !commands::succeeded(output.status) {
                session::failed(bounded::command_failure(output, args), n)
            } else if version_suffices(
                bytes::lossy_text(bytes::without_line_ending(output.stdout.bytes)),
            ) {
                session::given((), n)
            } else {
                session::failed(version_refusal(), n)
            },
    )
}

/// Refuses a Git that is too old.
pub(crate) fn ensure_recovery_git_version_until(session: &mut Session) -> (result: GitResult<()>)
    ensures
        session::stepped(
            old(session),
            final(session),
            result,
            version_step(old(session).replies(), old(session).at()),
        ),
{
    let output = bounded::probe(session, words::words1("version"))?;
    if !output.status.success() {
        return Err(Halt::Failed(output.git_error(words::words1("version"))));
    }
    commands::settle(
        ensure_recovery_git_version(
            bytes::strip_byte_line_ending(output.stdout.bytes.as_slice()),
        ),
    )
}

/// The merge or rebase that is in progress.
pub open spec fn operation_until_step(replies: Seq<ReplyView>, at: nat) -> GitStep<
    Option<RepositoryOperation>,
> {
    session::followed(
        bounded::git_path_until_step(replies, at, "rebase-apply"@),
        |apply: Seq<u8>, n: nat|
            session::followed(
                bounded::git_path_until_step(replies, n, "rebase-merge"@),
                |merge: Seq<u8>, n: nat|
                    session::followed(
                        rebase_marks_step(replies, n, merge, apply),
                        |rebasing: bool, n: nat|
                            if rebasing {
                                session::given(Some(RepositoryOperation::Rebase), n)
                            } else {
                                session::followed(
                                    bounded::git_path_until_step(replies, n, "MERGE_HEAD"@),
                                    |head: Seq<u8>, n: nat|
                                        session::followed(
                                            commands::exists_step(replies, n, head),
                                            |merging: bool, n: nat|
                                                session::given(
                                                    if merging {
                                                        Some(RepositoryOperation::Merge)
                                                    } else {
                                                        None
                                                    },
                                                    n,
                                                ),
                                        ),
                                )
                            },
                    ),
            ),
    )
}

/// Whether the directories of a rebase are there; one that holds mails being applied is not counted.
pub open spec fn rebase_marks_step(
    replies: Seq<ReplyView>,
    at: nat,
    merge: Seq<u8>,
    apply: Seq<u8>,
) -> GitStep<
    bool,
> {
    session::followed(
        commands::exists_step(replies, at, merge),
        |merging: bool, n: nat|
            if merging {
                session::given(true, n)
            } else {
                session::followed(
                    commands::exists_step(replies, n, apply),
                    |applying: bool, n: nat|
                        if !applying {
                            session::given(false, n)
                        } else {
                            session::followed(
                                commands::exists_step(
                                    replies,
                                    n,
                                    bytes::joined_path(apply, utf8::encode_utf8("applying"@)),
                                ),
                                |mail: bool, n: nat| session::given(!mail, n),
                            )
                        },
                )
            },
    )
}

/// Whether the directories of a rebase are there.
fn has_rebase_marks(session: &mut Session, merge: Vec<u8>, apply: Vec<u8>) -> (result: GitResult<
    bool,
>)
    ensures
        session::stepped(
            old(session),
            final(session),
            result,
            rebase_marks_step(old(session).replies(), old(session).at(), merge@, apply@),
        ),
{
    let applying = bytes::join_name(apply.as_slice(), "applying");
    if commands::path_exists(session, merge)? {
        return Ok(true);
    }
    if !commands::path_exists(session, apply)? {
        return Ok(false);
    }
    let mail = commands::path_exists(session, applying)?;
    Ok(!mail)
}

/// The merge or rebase that is in progress.
pub(crate) fn repository_operation_until(session: &mut Session) -> (result: GitResult<
    Option<RepositoryOperation>,
>)
    ensures
        session::stepped(
            old(session),
            final(session),
            result,
            operation_until_step(old(session).replies(), old(session).at()),
        ),
{
    let apply = bounded::git_path_until(session, "rebase-apply")?;
    let merge = bounded::git_path_until(session, "rebase-merge")?;
    if has_rebase_marks(session, merge, apply)? {
        return Ok(Some(RepositoryOperation::Rebase));
    }
    let head = bounded::git_path_until(session, "MERGE_HEAD")?;
    if commands::path_exists(session, head)? {
        Ok(Some(RepositoryOperation::Merge))
    } else {
        Ok(None)
    }
}

/// Whether conflicts are left.
pub open spec fn conflicts_step(replies: Seq<ReplyView>, at: nat) -> GitStep<bool> {
    let args = seq!["diff"@, "--quiet"@, "--diff-filter=U"@, "--"@];
    session::followed(
        bounded::probe_step(replies, at, args),
        |output: BoundedCommandOutputView, n: nat|
            if output.status.code == Some(0i32) {
                session::given(false, n)
            } else if output.status.code == Some(1i32) {
                session::given(true, n)
            } else {
                session::failed(bounded::command_failure(output, args), n)
            },
    )
}

/// Whether conflicts are left.
pub(crate) fn has_unresolved_conflicts_until(session: &mut Session) -> (result: GitResult<bool>)
    ensures
        session::stepped(
            old(session),
            final(session),
            result,
            conflicts_step(old(session).replies(), old(session).at()),
        ),
{
    let output = bounded::probe(
        session,
        words::words4("diff", "--quiet", "--diff-filter=U", "--"),
    )?;
    if output.ended_with(0) {
        return Ok(false);
    }
    if output.ended_with(1) {
        return Ok(true);
    }
    Err(
        Halt::Failed(
            output.git_error(words::words4("diff", "--quiet", "--diff-filter=U", "--")),
        ),
    )
}

}
