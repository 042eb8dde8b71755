//! Reading the status report of `git status --porcelain=v2 --branch`.
use crate::bytes;
use crate::git::types::{
    BranchState, BranchStateView, ChangeKind, GitError, GitErrorView, Head, HeadView,
    StatusEntry, StatusEntryType, StatusEntryView, WorktreeStatus,
    WorktreeStatusView,
};
use crate::number;
use crate::text;
use vstd::prelude::*;
use vstd::utf8;

verus! {

/// The error for output of an unknown form.
pub open spec fn unreadable(message: Seq<char>) -> GitErrorView {
    GitErrorView::Parse { message }
}

/// The error for output of an unknown form.
pub fn parse_error(message: &str) -> (result: GitError)
    ensures
        result.deep_view() == unreadable(message@),
{
    GitError::Parse { message: message.to_owned() }
}

/// The text that a named part of the output holds.
pub open spec fn utf8_field(value: Seq<u8>, description: Seq<char>) -> Result<
    Seq<char>,
    GitErrorView,
> {
    if utf8::valid_utf8(value) {
        Ok(utf8::decode_utf8(value))
    } else {
        Err(unreadable(description + " is not UTF-8"@))
    }
}

/// The text that a named part of the output holds.
pub fn parse_utf8(value: &[u8], description: &str) -> (result: Result<String, GitError>)
    ensures
        text_outcome(result) == utf8_field(value@, description@),
{
    match bytes::utf8_text(value) {
        Ok(decoded) => Ok(decoded),
        Err(_) => {
            let message = text::concat2(description, " is not UTF-8");
            Err(parse_error(message.as_str()))
        },
    }
}

/// The values of a text or of the error in its place.
pub open spec fn text_outcome(result: Result<String, GitError>) -> Result<Seq<char>, GitErrorView> {
    match result {
        Ok(value) => Ok(value@),
        Err(error) => Err(error.deep_view()),
    }
}

/// How one letter of a status record reads.
pub open spec fn kind_of(letter: u8) -> ChangeKind {
    if letter == 46 {
        ChangeKind::Unmodified
    } else if letter == 77 {
        ChangeKind::Modified
    } else if letter == 65 {
        ChangeKind::Added
    } else if letter == 68 {
        ChangeKind::Deleted
    } else if letter == 82 {
        ChangeKind::Renamed
    } else if letter == 67 {
        ChangeKind::Copied
    } else if letter == 85 {
        ChangeKind::Unmerged
    } else if letter == 63 {
        ChangeKind::Untracked
    } else if letter == 33 {
        ChangeKind::Ignored
    } else {
        ChangeKind::Unknown(letter as char)
    }
}

/// How one letter of a status record reads.
pub fn change_kind(letter: u8) -> (result: ChangeKind)
    ensures
        result == kind_of(letter),
{
    match letter {
        46 => ChangeKind::Unmodified,
        77 => ChangeKind::Modified,
        65 => ChangeKind::Added,
        68 => ChangeKind::Deleted,
        82 => ChangeKind::Renamed,
        67 => ChangeKind::Copied,
        85 => ChangeKind::Unmerged,
        63 => ChangeKind::Untracked,
        33 => ChangeKind::Ignored,
        other => ChangeKind::Unknown(other as char),
    }
}

/// The two letters of a record: the change in the index and the change in the working tree.
pub open spec fn xy_of(value: Seq<u8>) -> Result<(ChangeKind, ChangeKind), GitErrorView> {
    if value.len() == 0 {
        Err(unreadable("missing index status"@))
    } else if value.len() == 1 {
        Err(unreadable("missing worktree status"@))
    } else {
        Ok((kind_of(value[0]), kind_of(value[1])))
    }
}

/// The two letters of a record.
pub fn parse_xy(value: &[u8]) -> (result: Result<(ChangeKind, ChangeKind), GitError>)
    ensures
        result is Ok == xy_of(value@) is Ok,
        result is Ok ==> result->Ok_0 == xy_of(value@)->Ok_0,
        result is Err ==> result->Err_0.deep_view() == xy_of(value@)->Err_0,
{
    if value.len() == 0 {
        return Err(parse_error("missing index status"));
    }
    if value.len() == 1 {
        return Err(parse_error("missing worktree status"));
    }
    Ok((change_kind(value[0]), change_kind(value[1])))
}

/// An entry for a path that Git does not track.
pub open spec fn loose_entry(path: Seq<u8>, kind: ChangeKind, family: StatusEntryType) -> StatusEntryView {
    StatusEntryView {
        path,
        original_path: None,
        index: ChangeKind::Unmodified,
        worktree: kind,
        entry_type: family,
    }
}

/// The entry of an ordinary record, whose path is the ninth of its fields.
pub open spec fn ordinary_entry(line: Seq<u8>) -> Result<StatusEntryView, GitErrorView> {
    let parts = text::pieces_at_most(line, 32u8, 9);
    if parts.len() <= 1 {
        Err(unreadable("ordinary entry missing status"@))
    } else if parts.len() <= 8 {
        Err(unreadable("ordinary entry missing path"@))
    } else {
        match xy_of(parts[1]) {
            Err(error) => Err(error),
            Ok((index, worktree)) => Ok(
                StatusEntryView {
                    path: parts[8],
                    original_path: None,
                    index,
                    worktree,
                    entry_type: StatusEntryType::Ordinary,
                },
            ),
        }
    }
}

/// The entry of a rename or copy record. The path before the rename is the record behind this one,
/// or stands behind a tab in the last field.
pub open spec fn renamed_entry(line: Seq<u8>, original: Option<Seq<u8>>) -> Result<
    StatusEntryView,
    GitErrorView,
> {
    let parts = text::pieces_at_most(line, 32u8, 10);
    if parts.len() <= 1 {
        Err(unreadable("renamed entry missing status"@))
    } else if parts.len() <= 9 {
        Err(unreadable("renamed entry missing path"@))
    } else {
        let at = text::position_of(parts[9], 9u8) as int;
        let paths = match original {
            Some(original) => Some((parts[9], original)),
            None => if at < parts[9].len() {
                Some((parts[9].take(at), parts[9].skip(at + 1)))
            } else {
                None
            },
        };
        match paths {
            None => Err(unreadable("renamed entry missing original path"@)),
            Some((path, original)) => match xy_of(parts[1]) {
                Err(error) => Err(error),
                Ok((index, worktree)) => Ok(
                    StatusEntryView {
                        path,
                        original_path: Some(original),
                        index,
                        worktree,
                        entry_type: if index == ChangeKind::Copied || worktree
                            == ChangeKind::Copied {
                            StatusEntryType::Copied
                        } else {
                            StatusEntryType::Renamed
                        },
                    },
                ),
            },
        }
    }
}

/// The entry of a conflict record, whose path is the eleventh of its fields.
pub open spec fn conflict_entry(line: Seq<u8>) -> Result<StatusEntryView, GitErrorView> {
    let parts = text::pieces_at_most(line, 32u8, 11);
    if parts.len() <= 10 {
        Err(unreadable("conflict entry missing path"@))
    } else {
        Ok(
            StatusEntryView {
                path: parts[10],
                original_path: None,
                index: ChangeKind::Unmerged,
                worktree: ChangeKind::Unmerged,
                entry_type: StatusEntryType::Conflict,
            },
        )
    }
}

/// The values of an entry or of the error in its place.
pub open spec fn entry_outcome(result: Result<StatusEntry, GitError>) -> Result<
    StatusEntryView,
    GitErrorView,
> {
    match result {
        Ok(entry) => Ok(entry.deep_view()),
        Err(error) => Err(error.deep_view()),
    }
}

/// An entry with the given paths and changes.
fn entry(
    path: &[u8],
    original_path: Option<&[u8]>,
    index: ChangeKind,
    worktree: ChangeKind,
    entry_type: StatusEntryType,
) -> (result: StatusEntry)
    ensures
        result.deep_view().path == path@,
        result.deep_view().original_path is Some == original_path is Some,
        original_path is Some ==> result.deep_view().original_path->Some_0
            == original_path->Some_0@,
        result.deep_view().index == index,
        result.deep_view().worktree == worktree,
        result.deep_view().entry_type == entry_type,
{
    let path_copy = bytes::copy_bytes(path);
    assert(path_copy.deep_view() =~= path@);
    let original_copy = match original_path {
        Some(original) => {
            let copy = bytes::copy_bytes(original);
            assert(copy.deep_view() =~= original@);
            Some(copy)
        },
        None => None,
    };
    StatusEntry { path: path_copy, original_path: original_copy, index, worktree, entry_type }
}

/// Reads an ordinary record.
pub fn parse_ordinary_entry(line: &[u8]) -> (result: Result<StatusEntry, GitError>)
    ensures
        entry_outcome(result) == ordinary_entry(line@),
{
    let parts = text::split_at_most(line, 32, 9);
    assert(parts@.len() == text::slices(parts@).len());
    if parts.len() <= 1 {
        return Err(parse_error("ordinary entry missing status"));
    }
    if parts.len() <= 8 {
        return Err(parse_error("ordinary entry missing path"));
    }
    assert(text::slices(parts@)[1] == parts@[1]@);
    assert(text::slices(parts@)[8] == parts@[8]@);
    let (index, worktree) = parse_xy(parts[1])?;
    Ok(entry(parts[8], None, index, worktree, StatusEntryType::Ordinary))
}

/// Reads a rename or copy record.
pub fn parse_renamed_entry(line: &[u8], original_path: Option<&[u8]>) -> (result: Result<
    StatusEntry,
    GitError,
>)
    ensures
        entry_outcome(result) == renamed_entry(
            line@,
            match original_path {
                Some(original) => Some(original@),
                None => None,
            },
        ),
{
    let parts = text::split_at_most(line, 32, 10);
    assert(parts@.len() == text::slices(parts@).len());
    if parts.len() <= 1 {
        return Err(parse_error("renamed entry missing status"));
    }
    if parts.len() <= 9 {
        return Err(parse_error("renamed entry missing path"));
    }
    assert(text::slices(parts@)[1] == parts@[1]@);
    assert(text::slices(parts@)[9] == parts@[9]@);
    proof {
        text::lemma_position(parts@[9]@, 9u8);
    }
    let (path, original) = match original_path {
        Some(original) => (parts[9], original),
        None => match text::split_once(parts[9], 9) {
            Some(pair) => pair,
            None => {
                return Err(parse_error("renamed entry missing original path"));
            },
        },
    };
    let (index, worktree) = parse_xy(parts[1])?;
    let family = if index == ChangeKind::Copied || worktree == ChangeKind::Copied {
        StatusEntryType::Copied
    } else {
        StatusEntryType::Renamed
    };
    Ok(entry(path, Some(original), index, worktree, family))
}

/// Reads a conflict record.
pub fn parse_conflict_entry(line: &[u8]) -> (result: Result<StatusEntry, GitError>)
    ensures
        entry_outcome(result) == conflict_entry(line@),
{
    let parts = text::split_at_most(line, 32, 11);
    assert(parts@.len() == text::slices(parts@).len());
    if parts.len() <= 10 {
        return Err(parse_error("conflict entry missing path"));
    }
    assert(text::slices(parts@)[10] == parts@[10]@);
    Ok(
        entry(
            parts[10],
            None,
            ChangeKind::Unmerged,
            ChangeKind::Unmerged,
            StatusEntryType::Conflict,
        ),
    )
}

/// The number behind a sign, for a count of commits.
pub open spec fn signed_count(word: Seq<char>, sign: char) -> Option<nat> {
    if word.len() > 0 && word[0] == sign {
        number::number_in(word.skip(1), u32::MAX as nat)
    } else {
        None
    }
}

/// The counts of the commits ahead and behind: a number behind `+` and one behind `-`.
pub open spec fn ahead_behind_of(value: Seq<char>) -> Result<(u32, u32), GitErrorView> {
    let parts = text::words(value);
    if parts.len() == 0 {
        Err(unreadable("missing ahead count"@))
    } else if !(parts[0].len() > 0 && parts[0][0] == '+') {
        Err(unreadable("ahead count must start with +"@))
    } else if signed_count(parts[0], '+') is None {
        Err(unreadable("ahead count is not a number"@))
    } else if parts.len() == 1 {
        Err(unreadable("missing behind count"@))
    } else if !(parts[1].len() > 0 && parts[1][0] == '-') {
        Err(unreadable("behind count must start with -"@))
    } else if signed_count(parts[1], '-') is None {
        Err(unreadable("behind count is not a number"@))
    } else {
        Ok(
            (
                signed_count(parts[0], '+')->Some_0 as u32,
                signed_count(parts[1], '-')->Some_0 as u32,
            ),
        )
    }
}

/// Reads a number up to `u32::MAX`.
pub fn parse_u32(word: &[char]) -> (result: Option<u32>)
    ensures
        result is Some == number::number_in(word@, u32::MAX as nat) is Some,
        result is Some ==> result->Some_0 as nat == number::number_in(
            word@,
            u32::MAX as nat,
        )->Some_0,
{
    match number::parse_number(word, 0xffff_ffff) {
        Some(value) => Some(value as u32),
        None => None,
    }
}

/// Reads the number behind a sign.
fn parse_signed(word: &[char], sign: char) -> (result: Option<u32>)
    requires
        word@.len() > 0,
        word@[0] == sign,
    ensures
        result is Some == signed_count(word@, sign) is Some,
        result is Some ==> result->Some_0 as nat == signed_count(word@, sign)->Some_0,
{
    let rest = vstd::slice::slice_subrange(word, 1, word.len());
    assert(rest@ =~= word@.skip(1));
    parse_u32(rest)
}

/// Reads the counts of the commits ahead and behind.
pub fn parse_ahead_behind(value: &[char]) -> (result: Result<(u32, u32), GitError>)
    ensures
        result is Ok == ahead_behind_of(value@) is Ok,
        result is Ok ==> result->Ok_0 == ahead_behind_of(value@)->Ok_0,
        result is Err ==> result->Err_0.deep_view() == ahead_behind_of(value@)->Err_0,
{
    let parts = text::split_whitespace(value);
    assert(parts@.len() == text::slices(parts@).len());
    if parts.len() == 0 {
        return Err(parse_error("missing ahead count"));
    }
    let first = parts[0];
    assert(text::slices(parts@)[0] == first@);
    if first.len() == 0 || first[0] != '+' {
        return Err(parse_error("ahead count must start with +"));
    }
    let ahead: u32 = match parse_signed(first, '+') {
        Some(ahead) => ahead,
        None => {
            return Err(parse_error("ahead count is not a number"));
        },
    };
    if parts.len() == 1 {
        return Err(parse_error("missing behind count"));
    }
    let second = parts[1];
    assert(text::slices(parts@)[1] == second@);
    if second.len() == 0 || second[0] != '-' {
        return Err(parse_error("behind count must start with -"));
    }
    let behind: u32 = match parse_signed(second, '-') {
        Some(behind) => behind,
        None => {
            return Err(parse_error("behind count is not a number"));
        },
    };
    Ok((ahead, behind))
}

/// What is known of a status report after some of its records.
#[verifier::ext_equal]
pub struct DraftView {
    pub branch: BranchStateView,
    pub oid: Option<Seq<char>>,
    pub entries: Seq<StatusEntryView>,
}

/// What is known of a status report after some of its records.
struct Draft {
    branch: BranchState,
    oid: Option<String>,
    entries: Vec<StatusEntry>,
}

impl DeepView for Draft {
    type V = DraftView;

    closed spec fn deep_view(&self) -> DraftView {
        DraftView {
            branch: self.branch.deep_view(),
            oid: self.oid.deep_view(),
            entries: self.entries.deep_view(),
        }
    }
}

/// The branch of a report that names none.
pub open spec fn no_branch() -> BranchStateView {
    BranchStateView { head: HeadView::Unborn, upstream: None, ahead: 0, behind: 0, unborn: false }
}

impl Default for BranchState {
    fn default() -> (result: Self)
        ensures
            result.deep_view() == no_branch(),
    {
        BranchState { head: Head::Unborn, upstream: None, ahead: 0, behind: 0, unborn: false }
    }
}

/// A draft with one more entry.
pub open spec fn with_entry(
    draft: DraftView,
    entry: Result<StatusEntryView, GitErrorView>,
) -> Result<
    DraftView,
    GitErrorView,
> {
    match entry {
        Ok(entry) => Ok(DraftView { entries: draft.entries.push(entry), ..draft }),
        Err(error) => Err(error),
    }
}

/// Whether a record takes the record behind it as the path before a rename.
pub open spec fn takes_next(line: Seq<u8>, nul_delimited: bool) -> bool {
    &&& nul_delimited
    &&& bytes::behind(line, "# branch.oid "@) is None
    &&& bytes::behind(line, "# branch.head "@) is None
    &&& bytes::behind(line, "# branch.upstream "@) is None
    &&& bytes::behind(line, "# branch.ab "@) is None
    &&& bytes::behind(line, "? "@) is None
    &&& bytes::behind(line, "! "@) is None
    &&& bytes::behind(line, "1 "@) is None
    &&& bytes::behind(line, "2 "@) is Some
}

/// What one record adds to a draft. `next` is the record behind it.
pub open spec fn read_record(
    line: Seq<u8>,
    next: Option<Seq<u8>>,
    nul_delimited: bool,
    draft: DraftView,
) -> Result<DraftView, GitErrorView> {
    if bytes::behind(line, "# branch.oid "@) is Some {
        match utf8_field(bytes::behind(line, "# branch.oid "@)->Some_0, "branch oid"@) {
            Err(error) => Err(error),
            Ok(value) => Ok(
                DraftView {
                    oid: Some(value),
                    branch: BranchStateView {
                        unborn: draft.branch.unborn || value == "(initial)"@,
                        ..draft.branch
                    },
                    ..draft
                },
            ),
        }
    } else if bytes::behind(line, "# branch.head "@) is Some {
        match utf8_field(bytes::behind(line, "# branch.head "@)->Some_0, "branch head"@) {
            Err(error) => Err(error),
            Ok(value) => Ok(
                DraftView {
                    branch: BranchStateView {
                        head: if value == "(detached)"@ {
                            HeadView::Detached(
                                match draft.oid {
                                    Some(oid) => oid,
                                    None => Seq::empty(),
                                },
                            )
                        } else {
                            HeadView::Branch(value)
                        },
                        ..draft.branch
                    },
                    ..draft
                },
            ),
        }
    } else if bytes::behind(line, "# branch.upstream "@) is Some {
        match utf8_field(bytes::behind(line, "# branch.upstream "@)->Some_0, "branch upstream"@) {
            Err(error) => Err(error),
            Ok(value) => Ok(
                DraftView {
                    branch: BranchStateView { upstream: Some(value), ..draft.branch },
                    ..draft
                },
            ),
        }
    } else if bytes::behind(line, "# branch.ab "@) is Some {
        match utf8_field(bytes::behind(line, "# branch.ab "@)->Some_0, "branch ahead/behind"@) {
            Err(error) => Err(error),
            Ok(value) => match ahead_behind_of(value) {
                Err(error) => Err(error),
                Ok((ahead, behind)) => Ok(
                    DraftView {
                        branch: BranchStateView { ahead, behind, ..draft.branch },
                        ..draft
                    },
                ),
            },
        }
    } else if bytes::behind(line, "? "@) is Some {
        with_entry(
            draft,
            Ok(
                loose_entry(
                    bytes::behind(line, "? "@)->Some_0,
                    ChangeKind::Untracked,
                    StatusEntryType::Untracked,
                ),
            ),
        )
    } else if bytes::behind(line, "! "@) is Some {
        with_entry(
            draft,
            Ok(
                loose_entry(
                    bytes::behind(line, "! "@)->Some_0,
                    ChangeKind::Ignored,
                    StatusEntryType::Ignored,
                ),
            ),
        )
    } else if bytes::behind(line, "1 "@) is Some {
        with_entry(draft, ordinary_entry(line))
    } else if bytes::behind(line, "2 "@) is Some {
        if nul_delimited && next is None {
            Err(unreadable("renamed entry missing original path"@))
        } else {
            with_entry(
                draft,
                renamed_entry(
                    line,
                    if nul_delimited {
                        next
                    } else {
                        None
                    },
                ),
            )
        }
    } else if bytes::behind(line, "u "@) is Some {
        with_entry(draft, conflict_entry(line))
    } else if bytes::behind(line, "# "@) is Some {
        Ok(draft)
    } else {
        Err(unreadable("unknown porcelain v2 record: "@ + bytes::lossy_text(line)))
    }
}

/// What a list of records adds to a draft, from the first of them on.
pub open spec fn read_records(
    records: Seq<Seq<u8>>,
    nul_delimited: bool,
    draft: DraftView,
) -> Result<
    DraftView,
    GitErrorView,
>
    decreases records.len(),
{
    if records.len() == 0 {
        Ok(draft)
    } else {
        let next = if records.len() > 1 {
            Some(records[1])
        } else {
            None
        };
        match read_record(records[0], next, nul_delimited, draft) {
            Err(error) => Err(error),
            Ok(longer) => if takes_next(records[0], nul_delimited) {
                read_records(records.skip(2), nul_delimited, longer)
            } else {
                read_records(records.skip(1), nul_delimited, longer)
            },
        }
    }
}

/// The records of a report: what stands between NUL bytes, or between line feeds where the report
/// holds no NUL byte.
pub open spec fn status_records(input: Seq<u8>) -> Seq<Seq<u8>> {
    text::filled(
        text::pieces(
            input,
            if input.contains(0u8) {
                0u8
            } else {
                10u8
            },
        ),
    )
}

/// The status report that some output holds.
pub open spec fn status_of(input: Seq<u8>) -> Result<WorktreeStatusView, GitErrorView> {
    let empty = DraftView { branch: no_branch(), oid: None, entries: Seq::empty() };
    match read_records(status_records(input), input.contains(0u8), empty) {
        Err(error) => Err(error),
        Ok(draft) => Ok(
            WorktreeStatusView { branch: draft.branch, entries: draft.entries, operation: None },
        ),
    }
}

/// The values of a status report or of the error in its place.
pub open spec fn status_outcome(result: Result<WorktreeStatus, GitError>) -> Result<
    WorktreeStatusView,
    GitErrorView,
> {
    match result {
        Ok(status) => Ok(status.deep_view()),
        Err(error) => Err(error.deep_view()),
    }
}

impl Draft {
    /// Adds an entry.
    fn push(&mut self, entry: StatusEntry)
        ensures
            with_entry(old(self).deep_view(), Ok(entry.deep_view())) == Ok::<_, GitErrorView>(
                final(self).deep_view(),
            ),
    {
        let ghost before = self.entries;
        self.entries.push(entry);
        assert(self.entries.deep_view() =~= before.deep_view().push(entry.deep_view()));
    }

    /// Reads one record.
    fn read(&mut self, line: &[u8], next: Option<&[u8]>, nul_delimited: bool) -> (result: Result<
        (),
        GitError,
    >)
        ensures
            (match result {
                Ok(_) => Ok::<DraftView, GitErrorView>(final(self).deep_view()),
                Err(error) => Err(error.deep_view()),
            }) == read_record(
                line@,
                match next {
                    Some(next) => Some(next@),
                    None => None,
                },
                nul_delimited,
                old(self).deep_view(),
            ),
    {
        if let Some(value) = bytes::strip_bytes_prefix(line, "# branch.oid ") {
            let value = parse_utf8(value, "branch oid")?;
            if text::same_text(value.as_str(), "(initial)") {
                self.branch.unborn = true;
            }
            self.oid = Some(value);
            return Ok(());
        }
        if let Some(value) = bytes::strip_bytes_prefix(line, "# branch.head ") {
            let value = parse_utf8(value, "branch head")?;
            self.branch.head = if text::same_text(value.as_str(), "(detached)") {
                Head::Detached(
                    match &self.oid {
                        Some(oid) => oid.clone(),
                        None => String::new(),
                    },
                )
            } else {
                Head::Branch(value)
            };
            return Ok(());
        }
        if let Some(value) = bytes::strip_bytes_prefix(line, "# branch.upstream ") {
            let value = parse_utf8(value, "branch upstream")?;
            self.branch.upstream = Some(value);
            return Ok(());
        }
        if let Some(value) = bytes::strip_bytes_prefix(line, "# branch.ab ") {
            let value = parse_utf8(value, "branch ahead/behind")?;
            let characters = text::chars_of(value.as_str());
            let (ahead, behind) = parse_ahead_behind(characters.as_slice())?;
            self.branch.ahead = ahead;
            self.branch.behind = behind;
            return Ok(());
        }
        if let Some(path) = bytes::strip_bytes_prefix(line, "? ") {
            self.push(
                entry(
                    path,
                    None,
                    ChangeKind::Unmodified,
                    ChangeKind::Untracked,
                    StatusEntryType::Untracked,
                ),
            );
            return Ok(());
        }
        if let Some(path) = bytes::strip_bytes_prefix(line, "! ") {
            self.push(
                entry(
                    path,
                    None,
                    ChangeKind::Unmodified,
                    ChangeKind::Ignored,
                    StatusEntryType::Ignored,
                ),
            );
            return Ok(());
        }
        if bytes::strip_bytes_prefix(line, "1 ").is_some() {
            self.push(parse_ordinary_entry(line)?);
            return Ok(());
        }
        if bytes::strip_bytes_prefix(line, "2 ").is_some() {
            if nul_delimited && next.is_none() {
                return Err(parse_error("renamed entry missing original path"));
            }
            let original = if nul_delimited {
                next
            } else {
                None
            };
            self.push(parse_renamed_entry(line, original)?);
            return Ok(());
        }
        if bytes::strip_bytes_prefix(line, "u ").is_some() {
            self.push(parse_conflict_entry(line)?);
            return Ok(());
        }
        if bytes::strip_bytes_prefix(line, "# ").is_none() {
            let shown = bytes::lossy(line);
            let message = text::concat2("unknown porcelain v2 record: ", shown.as_str());
            return Err(parse_error(message.as_str()));
        }
        Ok(())
    }
}

/// Whether a record takes the record behind it.
fn uses_next(line: &[u8], nul_delimited: bool) -> (result: bool)
    ensures
        result == takes_next(line@, nul_delimited),
{
    nul_delimited && bytes::strip_bytes_prefix(line, "# branch.oid ").is_none()
        && bytes::strip_bytes_prefix(line, "# branch.head ").is_none() && bytes::strip_bytes_prefix(
        line,
        "# branch.upstream ",
    ).is_none() && bytes::strip_bytes_prefix(line, "# branch.ab ").is_none()
        && bytes::strip_bytes_prefix(line, "? ").is_none() && bytes::strip_bytes_prefix(
        line,
        "! ",
    ).is_none() && bytes::strip_bytes_prefix(line, "1 ").is_none() && bytes::strip_bytes_prefix(
        line,
        "2 ",
    ).is_some()
}

/// Reads a status report.
pub fn parse_status_bytes(input: &[u8]) -> (result: Result<WorktreeStatus, GitError>)
    ensures
        status_outcome(result) == status_of(input@),
{
    let first_nul: usize = text::position(input, 0);
    proof {
        text::lemma_position(input@, 0u8);
    }
    let nul_delimited = first_nul < input.len();
    let separator: u8 = if nul_delimited {
        0
    } else {
        10
    };
    let records = text::split_filled(input, separator);
    let mut draft = Draft { branch: BranchState::default(), oid: None, entries: Vec::new() };
    let ghost empty = draft.deep_view();
    assert(empty.entries =~= Seq::<StatusEntryView>::empty());
    let ghost all = text::slices(records@);
    let mut index: usize = 0;
    assert(all.skip(0) =~= all);
    while index < records.len()
        invariant
            index <= records@.len(),
            all == text::slices(records@),
            all == status_records(input@),
            nul_delimited == input@.contains(0u8),
            empty == (DraftView { branch: no_branch(), oid: None, entries: Seq::empty() }),
            read_records(all.skip(index as int), nul_delimited, draft.deep_view()) == read_records(
                all,
                nul_delimited,
                empty,
            ),
        decreases records@.len() - index,
    {
        let line = records[index];
        let next = if index + 1 < records.len() {
            Some(records[index + 1])
        } else {
            None
        };
        let ghost rest = all.skip(index as int);
        assert(rest[0] == line@);
        assert(rest.len() > 1 ==> rest[1] == records@[index + 1]@);
        assert(rest.skip(1) =~= all.skip(index + 1));
        assert(rest.len() > 1 ==> rest.skip(2) =~= all.skip(index + 2));
        draft.read(line, next, nul_delimited)?;
        if uses_next(line, nul_delimited) {
            index += 2;
        } else {
            index += 1;
        }
    }
    Ok(WorktreeStatus { branch: draft.branch, entries: draft.entries, operation: None })
}

/// Reads a status report that is given as text.
pub fn parse_status(input: &str) -> (result: Result<WorktreeStatus, GitError>)
    ensures
        status_outcome(result) == status_of(utf8::encode_utf8(input@)),
{
    parse_status_bytes(input.as_bytes())
}

}
