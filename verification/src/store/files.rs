//! Reading and replacing the files that are kept.
use crate::bytes;
use crate::git::types::{IoFailure, IoFailureView};
use crate::number;
use crate::session;
use crate::session::{Action, ActionView, Halt, Reply, ReplyView, Session};
use crate::store::types::{StoreError, StoreErrorView, StoreResult, StoreStep};
use crate::text;
use vstd::prelude::*;
use vstd::utf8;

verus! {

broadcast use crate::bytes::bytes_are_their_view;

/// How often a new name is tried for a file that is written in the place of another.
pub const WRITE_ATTEMPTS: u8 = 100;

/// The error of a request about a path that the file system refused.
pub open spec fn refused(path: Seq<u8>, source: IoFailureView) -> StoreErrorView {
    StoreErrorView::Io { path, source }
}

/// The error of a request about a path that the file system refused.
fn refuse(path: &[u8], source: &IoFailure) -> (result: StoreError)
    ensures
        result.deep_view() == refused(path@, source.deep_view()),
{
    StoreError::Io { path: bytes::copy_bytes(path), source: source.copied() }
}

/// The contents of a file, where there is one.
pub open spec fn read_step(replies: Seq<ReplyView>, at: nat, path: Seq<u8>) -> StoreStep<
    Option<Seq<char>>,
> {
    session::followed(
        session::asked(replies, at, ActionView::ReadText { path }),
        |reply: ReplyView, n: nat|
            match reply {
                ReplyView::Text(contents) => session::given(Some(contents), n),
                ReplyView::Failed(source) => session::failed(refused(path, source), n),
                _ => session::given(None, n),
            },
    )
}

/// The contents of a file, where there is one.
pub(crate) fn read_optional(session: &mut Session, path: &[u8]) -> (result: StoreResult<
    Option<String>,
>)
    ensures
        session::stepped(
            old(session),
            final(session),
            result,
            read_step(old(session).replies(), old(session).at(), path@),
        ),
{
    match session.ask(Action::ReadText { path: bytes::copy_bytes(path) })? {
        Reply::Text(contents) => Ok(Some(contents.as_str().to_owned())),
        Reply::Failed(source) => Err(Halt::Failed(refuse(path, source))),
        _ => Ok(None),
    }
}

/// Asks for something about a path that is done or refused.
pub open spec fn done_step(
    replies: Seq<ReplyView>,
    at: nat,
    action: ActionView,
    path: Seq<u8>,
) -> StoreStep<
    (),
> {
    session::followed(
        session::asked(replies, at, action),
        |reply: ReplyView, n: nat|
            match reply {
                ReplyView::Failed(source) => session::failed(refused(path, source), n),
                _ => session::given((), n),
            },
    )
}

/// Asks for something about a path that is done or refused.
pub(crate) fn ask_done(session: &mut Session, action: Action, path: &[u8]) -> (result: StoreResult<
    (),
>)
    ensures
        session::stepped(
            old(session),
            final(session),
            result,
            done_step(old(session).replies(), old(session).at(), action.deep_view(), path@),
        ),
{
    match session.ask(action)? {
        Reply::Failed(source) => Err(Halt::Failed(refuse(path, source))),
        _ => Ok(()),
    }
}

/// Creates a directory and those above it.
pub open spec fn create_step(replies: Seq<ReplyView>, at: nat, path: Seq<u8>) -> StoreStep<()> {
    done_step(replies, at, ActionView::CreateDirectories { path }, path)
}

/// Creates a directory and those above it.
pub(crate) fn create_directories(session: &mut Session, path: &[u8]) -> (result: StoreResult<()>)
    ensures
        session::stepped(
            old(session),
            final(session),
            result,
            create_step(old(session).replies(), old(session).at(), path@),
        ),
{
    ask_done(session, Action::CreateDirectories { path: bytes::copy_bytes(path) }, path)
}

/// Creates the directory that a file is in, where the path names one.
pub open spec fn create_parent_step(replies: Seq<ReplyView>, at: nat, path: Seq<u8>) -> StoreStep<()> {
    match bytes::parent(path) {
        Some(parent) => create_step(replies, at, parent),
        None => session::given((), at),
    }
}

/// Creates the directory that a file is in.
pub(crate) fn create_parent(session: &mut Session, path: &[u8]) -> (result: StoreResult<()>)
    ensures
        session::stepped(
            old(session),
            final(session),
            result,
            create_parent_step(old(session).replies(), old(session).at(), path@),
        ),
{
    match bytes::parent_path(path) {
        Some(parent) => {
            assert(parent.deep_view() =~= parent@);
            create_directories(session, parent)
        },
        None => Ok(()),
    }
}

/// Makes a rename last, where the path names a directory.
pub open spec fn sync_step(replies: Seq<ReplyView>, at: nat, path: Seq<u8>) -> StoreStep<()> {
    match bytes::parent(path) {
        Some(parent) => done_step(
            replies,
            at,
            ActionView::SyncDirectory { path: parent },
            parent,
        ),
        None => session::given((), at),
    }
}

/// Makes a rename last.
fn sync_parent_dir(session: &mut Session, path: &[u8]) -> (result: StoreResult<()>)
    ensures
        session::stepped(
            old(session),
            final(session),
            result,
            sync_step(old(session).replies(), old(session).at(), path@),
        ),
{
    match bytes::parent_path(path) {
        Some(parent) => {
            assert(parent.deep_view() =~= parent@);
            ask_done(session, Action::SyncDirectory { path: bytes::copy_bytes(parent) }, parent)
        },
        None => Ok(()),
    }
}

/// The name of a file that is written in the place of another.
pub open spec fn temporary_name(path: Seq<u8>, process: u64, attempt: nat) -> Seq<char> {
    let name = match bytes::file_name(path) {
        Some(name) => bytes::lossy_text(name),
        None => "store"@,
    };
    "."@ + name + ".tmp-"@ + number::decimal(process as nat) + "-"@ + number::decimal(attempt)
}

/// The path of a file that is written in the place of another, in the same directory.
pub open spec fn temporary_path(path: Seq<u8>, process: u64, attempt: nat) -> Seq<u8> {
    let directory = match bytes::file_name(path) {
        Some(_) => match bytes::parent(path) {
            Some(parent) => parent,
            None => Seq::empty(),
        },
        None => path,
    };
    bytes::joined_path(directory, utf8::encode_utf8(temporary_name(path, process, attempt)))
}

/// The path of a file that is written in the place of another.
pub fn unique_tmp_path(path: &[u8], process: u64, attempt: u8) -> (result: Vec<u8>)
    ensures
        result@ == temporary_path(path@, process, attempt as nat),
{
    let shown = match bytes::file_name_of(path) {
        Some(name) => {
            assert(name.deep_view() =~= name@);
            bytes::lossy(name)
        },
        None => "store".to_owned(),
    };
    let process = number::decimal_of(process);
    let attempt = number::decimal_of(attempt as u64);
    let start = text::concat5(".", shown.as_str(), ".tmp-", process.as_str(), "-");
    let name = text::concat2(start.as_str(), attempt.as_str());
    match bytes::file_name_of(path) {
        Some(_) => match bytes::parent_path(path) {
            Some(parent) => {
                assert(parent.deep_view() =~= parent@);
                bytes::join_name(parent, name.as_str())
            },
            None => {
                let none: Vec<u8> = Vec::new();
                assert(none@ =~= Seq::<u8>::empty());
                bytes::join_name(none.as_slice(), name.as_str())
            },
        },
        None => bytes::join_name(path, name.as_str()),
    }
}

/// Removes a file that could not be put in its place, and fails.
pub open spec fn abandoned_step(
    replies: Seq<ReplyView>,
    at: nat,
    temporary: Seq<u8>,
    path: Seq<u8>,
    source: IoFailureView,
) -> StoreStep<()> {
    session::followed(
        session::asked(replies, at, ActionView::Remove { path: temporary }),
        |_reply: ReplyView, n: nat| session::failed(refused(path, source), n),
    )
}

/// Removes a file that could not be put in its place, and fails.
fn abandon(session: &mut Session, temporary: &[u8], path: &[u8], source: &IoFailure) -> (result:
    StoreResult<()>)
    ensures
        session::stepped(
            old(session),
            final(session),
            result,
            abandoned_step(
                old(session).replies(),
                old(session).at(),
                temporary@,
                path@,
                source.deep_view(),
            ),
        ),
{
    session.ask(Action::Remove { path: bytes::copy_bytes(temporary) })?;
    Err(Halt::Failed(refuse(path, source)))
}

/// Puts a file in the place of another.
pub open spec fn replace_step(
    replies: Seq<ReplyView>,
    at: nat,
    temporary: Seq<u8>,
    path: Seq<u8>,
) -> StoreStep<
    (),
> {
    session::followed(
        session::asked(replies, at, ActionView::Rename { from: temporary, to: path }),
        |reply: ReplyView, n: nat|
            match reply {
                ReplyView::Failed(source) => abandoned_step(replies, n, temporary, path, source),
                _ => sync_step(replies, n, path),
            },
    )
}

/// Puts a file in the place of another.
fn replace(session: &mut Session, temporary: &[u8], path: &[u8]) -> (result: StoreResult<()>)
    ensures
        session::stepped(
            old(session),
            final(session),
            result,
            replace_step(old(session).replies(), old(session).at(), temporary@, path@),
        ),
{
    let action = Action::Rename {
        from: bytes::copy_bytes(temporary),
        to: bytes::copy_bytes(path),
    };
    match session.ask(action)? {
        Reply::Failed(source) => abandon(session, temporary, path, source),
        _ => sync_parent_dir(session, path),
    }
}

/// The failure that is reported where every name that was tried was taken.
pub open spec fn all_taken(last: Option<IoFailureView>) -> IoFailureView {
    match last {
        Some(source) => source,
        None => IoFailureView {
            not_found: false,
            code: None,
            message: "temporary store file already exists"@,
        },
    }
}

/// Writes a new file under a name that is not taken and puts it in the place of another.
pub open spec fn attempts_step(
    replies: Seq<ReplyView>,
    at: nat,
    path: Seq<u8>,
    contents: Seq<char>,
    process: u64,
    attempt: nat,
    last: Option<IoFailureView>,
) -> StoreStep<()>
    decreases
            if attempt <= WRITE_ATTEMPTS {
                WRITE_ATTEMPTS - attempt
            } else {
                0
            },
{
    let temporary = temporary_path(path, process, attempt);
    let written = session::asked::<StoreErrorView>(
        replies,
        at,
        ActionView::WriteNew { path: temporary, contents },
    );
    if attempt >= WRITE_ATTEMPTS {
        session::failed(refused(path, all_taken(last)), at)
    } else if written.result is Err {
        session::halted(written)
    } else {
        match written.result->Ok_0 {
            ReplyView::Exists(source) => attempts_step(
                replies,
                written.next,
                path,
                contents,
                process,
                attempt + 1,
                Some(source),
            ),
            ReplyView::Failed(source) => session::failed(
                refused(temporary, source),
                written.next,
            ),
            ReplyView::Unwritten(source) => abandoned_step(
                replies,
                written.next,
                temporary,
                temporary,
                source,
            ),
            _ => replace_step(replies, written.next, temporary, path),
        }
    }
}

/// Writes a new file under a name that is not taken and puts it in the place of another.
fn attempt_writes(session: &mut Session, path: &[u8], contents: &str, process: u64) -> (result:
    StoreResult<()>)
    ensures
        session::stepped(
            old(session),
            final(session),
            result,
            attempts_step(
                old(session).replies(),
                old(session).at(),
                path@,
                contents@,
                process,
                0,
                None,
            ),
        ),
{
    let ghost replies = session.replies();
    let ghost goal = attempts_step(replies, session.at(), path@, contents@, process, 0, None);
    let mut last: Option<IoFailure> = None;
    let mut attempt: u8 = 0;
    while attempt < WRITE_ATTEMPTS
        invariant
            attempt <= WRITE_ATTEMPTS,
            session.replies() == replies,
            replies == old(session).replies(),
            goal == attempts_step(
                replies,
                old(session).at(),
                path@,
                contents@,
                process,
                0,
                None,
            ),
            goal == attempts_step(
                replies,
                session.at(),
                path@,
                contents@,
                process,
                attempt as nat,
                last.deep_view(),
            ),
        decreases WRITE_ATTEMPTS - attempt,
    {
        let temporary = unique_tmp_path(path, process, attempt);
        let action = Action::WriteNew {
            path: bytes::copy_bytes(temporary.as_slice()),
            contents: contents.to_owned(),
        };
        match session.ask(action)? {
            Reply::Exists(source) => {
                last = Some(source.copied());
                attempt += 1;
            },
            Reply::Failed(source) => {
                return Err(Halt::Failed(refuse(temporary.as_slice(), source)));
            },
            Reply::Unwritten(source) => {
                return abandon(session, temporary.as_slice(), temporary.as_slice(), source);
            },
            _ => {
                return replace(session, temporary.as_slice(), path);
            },
        }
    }
    let source = match last {
        Some(source) => source,
        None => IoFailure {
            not_found: false,
            code: None,
            message: "temporary store file already exists".to_owned(),
        },
    };
    Err(Halt::Failed(refuse(path, &source)))
}

/// Replaces a file at once: readers see the old contents or the new ones.
pub open spec fn write_step(
    replies: Seq<ReplyView>,
    at: nat,
    path: Seq<u8>,
    contents: Seq<char>,
) -> StoreStep<
    (),
> {
    session::followed(
        create_parent_step(replies, at, path),
        |_created: (), n: nat|
            session::followed(
                session::asked(replies, n, ActionView::ProcessId),
                |reply: ReplyView, n: nat|
                    match reply {
                        ReplyView::Number(process) => attempts_step(
                            replies,
                            n,
                            path,
                            contents,
                            process,
                            0,
                            None,
                        ),
                        _ => session::pending(ActionView::ProcessId, n),
                    },
            ),
    )
}

/// Replaces a file at once.
pub(crate) fn write_atomic(session: &mut Session, path: &[u8], contents: &str) -> (result: StoreResult<
    (),
>)
    ensures
        session::stepped(
            old(session),
            final(session),
            result,
            write_step(old(session).replies(), old(session).at(), path@, contents@),
        ),
{
    create_parent(session, path)?;
    match session.ask(Action::ProcessId)? {
        Reply::Number(process) => attempt_writes(session, path, contents, *process),
        _ => Err(Halt::Pending(Action::ProcessId)),
    }
}

}
