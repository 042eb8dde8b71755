//! Reading a status report gives back what Git wrote into it.
use crate::bytes;
use crate::git::status;
use crate::git::status::DraftView;
use crate::git::types::{
    BranchStateView, ChangeKind, GitErrorView, HeadView, StatusEntryType, StatusEntryView,
    WorktreeStatusView,
};
use crate::number;
use crate::parts;
use crate::text;
use vstd::prelude::*;
use vstd::utf8;

verus! {

/// What Git writes into a status report, record by record.
#[verifier::ext_equal]
pub enum ReportRecord {
    /// The commit that is checked out.
    Oid { oid: Seq<char> },
    /// The branch that is checked out.
    Head { head: Seq<char> },
    /// The branch that the branch follows.
    Upstream { upstream: Seq<char> },
    /// The commits that the branch is ahead and behind.
    Counts { ahead: u32, behind: u32 },
    /// Anything else that is said of the branch.
    Remark { remark: Seq<u8> },
    /// A changed path. The fields are those between the letters and the path.
    Ordinary { index: ChangeKind, worktree: ChangeKind, fields: Seq<Seq<u8>>, path: Seq<u8> },
    /// A renamed or copied path.
    Renamed {
        index: ChangeKind,
        worktree: ChangeKind,
        fields: Seq<Seq<u8>>,
        path: Seq<u8>,
        original: Seq<u8>,
    },
    /// A path with a conflict. The fields are all those before the path.
    Conflict { fields: Seq<Seq<u8>>, path: Seq<u8> },
    /// A path that Git does not track.
    Untracked { path: Seq<u8> },
    /// A path that Git ignores.
    Ignored { path: Seq<u8> },
}

/// The letter that Git writes for a kind of change.
pub open spec fn letter_of(kind: ChangeKind) -> char {
    match kind {
        ChangeKind::Unmodified => '.',
        ChangeKind::Modified => 'M',
        ChangeKind::Added => 'A',
        ChangeKind::Deleted => 'D',
        ChangeKind::Renamed => 'R',
        ChangeKind::Copied => 'C',
        ChangeKind::Unmerged => 'U',
        ChangeKind::Untracked => '?',
        ChangeKind::Ignored => '!',
        ChangeKind::Unknown(letter) => letter,
    }
}

/// Whether a kind of change has a letter of its own that can stand in a record.
pub open spec fn has_letter(kind: ChangeKind) -> bool {
    match kind {
        ChangeKind::Unknown(letter) => {
            &&& letter as u32 <= 255
            &&& letter != '\0' && letter != '\n' && letter != ' '
            &&& letter != '.' && letter != 'M' && letter != 'A' && letter != 'D' && letter != 'R'
            &&& letter != 'C' && letter != 'U' && letter != '?' && letter != '!'
        },
        _ => true,
    }
}

/// The two letters of a record.
pub open spec fn letters_of(index: ChangeKind, worktree: ChangeKind) -> Seq<u8> {
    seq![letter_of(index) as u8, letter_of(worktree) as u8]
}

/// The byte that a record starts with, as a field.
pub open spec fn tag(letter: char) -> Seq<u8> {
    seq![letter as u8]
}

/// The counts as Git writes them.
pub open spec fn counts_text(ahead: u32, behind: u32) -> Seq<char> {
    seq!['+'] + number::decimal(ahead as nat) + seq![' '] + (seq!['-'] + number::decimal(
        behind as nat,
    ))
}

/// The fields before the path of a changed path.
pub open spec fn fields_of(
    letter: char,
    index: ChangeKind,
    worktree: ChangeKind,
    fields: Seq<Seq<u8>>,
) -> Seq<Seq<u8>> {
    seq![tag(letter), letters_of(index, worktree)] + fields
}

/// The records as Git writes them, without what delimits them. With `-z` the path before a rename follows as a
/// record, and otherwise it stands behind a tab.
pub open spec fn lines_of(record: ReportRecord, nul_delimited: bool) -> Seq<Seq<u8>> {
    match record {
        ReportRecord::Oid { oid } => seq![
            utf8::encode_utf8("# branch.oid "@) + utf8::encode_utf8(oid),
        ],
        ReportRecord::Head { head } => seq![
            utf8::encode_utf8("# branch.head "@) + utf8::encode_utf8(head),
        ],
        ReportRecord::Upstream { upstream } => seq![
            utf8::encode_utf8("# branch.upstream "@) + utf8::encode_utf8(upstream),
        ],
        ReportRecord::Counts { ahead, behind } => seq![
            utf8::encode_utf8("# branch.ab "@) + utf8::encode_utf8(counts_text(ahead, behind)),
        ],
        ReportRecord::Remark { remark } => seq![utf8::encode_utf8("# "@) + remark],
        ReportRecord::Ordinary { index, worktree, fields, path } => seq![
            parts::written(fields_of('1', index, worktree, fields), 32u8) + path,
        ],
        ReportRecord::Renamed { index, worktree, fields, path, original } => {
            let line = parts::written(fields_of('2', index, worktree, fields), 32u8) + path;
            if nul_delimited {
                seq![line, original]
            } else {
                seq![line + seq![9u8] + original]
            }
        },
        ReportRecord::Conflict { fields, path } => seq![
            parts::written(seq![tag('u')] + fields, 32u8) + path,
        ],
        ReportRecord::Untracked { path } => seq![utf8::encode_utf8("? "@) + path],
        ReportRecord::Ignored { path } => seq![utf8::encode_utf8("! "@) + path],
    }
}

/// Whether the fields of a record have no space in them.
pub open spec fn separable(fields: Seq<Seq<u8>>) -> bool {
    parts::free_of(fields, 32u8)
}

/// Whether Git can write a record: it has as many fields as Git writes, no field has a space in it, and nothing
/// in it reads as the end of the record.
pub open spec fn writable(record: ReportRecord, nul_delimited: bool) -> bool {
    &&& match record {
        ReportRecord::Remark { remark } => bytes::behind(remark, "branch."@) is None,
        ReportRecord::Ordinary { index, worktree, fields, path: _ } => has_letter(index)
            && has_letter(worktree) && fields.len() == 6 && separable(fields),
        ReportRecord::Renamed { index, worktree, fields, path, original } => {
            &&& has_letter(index)
            &&& has_letter(worktree)
            &&& fields.len() == 7
            &&& separable(fields)
            &&& original.len() > 0
            &&& !nul_delimited ==> !path.contains(9u8)
        },
        ReportRecord::Conflict { fields, path: _ } => fields.len() == 9 && separable(fields),
        _ => true,
    }
    &&& parts::free_of(lines_of(record, nul_delimited), 0u8)
    &&& !nul_delimited ==> parts::free_of(lines_of(record, nul_delimited), 10u8)
}

/// Whether Git can write all of some records.
pub open spec fn all_writable(records: Seq<ReportRecord>, nul_delimited: bool) -> bool {
    forall|i: int| 0 <= i < records.len() ==> writable(#[trigger] records[i], nul_delimited)
}

/// The records of a report as Git writes them.
pub open spec fn all_lines(records: Seq<ReportRecord>, nul_delimited: bool) -> Seq<Seq<u8>>
    decreases records.len(),
{
    if records.len() == 0 {
        Seq::empty()
    } else {
        lines_of(records[0], nul_delimited) + all_lines(records.drop_first(), nul_delimited)
    }
}

/// A report as Git writes it: with `-z` a NUL byte ends each record, and otherwise a line feed does.
pub open spec fn report(records: Seq<ReportRecord>, nul_delimited: bool) -> Seq<u8> {
    parts::written(
        all_lines(records, nul_delimited),
        if nul_delimited {
            0u8
        } else {
            10u8
        },
    )
}

/// What a record says of a path.
pub open spec fn entry_of(record: ReportRecord) -> Option<StatusEntryView> {
    match record {
        ReportRecord::Ordinary { index, worktree, fields: _, path } => Some(
            StatusEntryView {
                path,
                original_path: None,
                index,
                worktree,
                entry_type: StatusEntryType::Ordinary,
            },
        ),
        ReportRecord::Renamed { index, worktree, fields: _, path, original } => Some(
            StatusEntryView {
                path,
                original_path: Some(original),
                index,
                worktree,
                entry_type: if index is Copied || worktree is Copied {
                    StatusEntryType::Copied
                } else {
                    StatusEntryType::Renamed
                },
            },
        ),
        ReportRecord::Conflict { fields: _, path } => Some(
            StatusEntryView {
                path,
                original_path: None,
                index: ChangeKind::Unmerged,
                worktree: ChangeKind::Unmerged,
                entry_type: StatusEntryType::Conflict,
            },
        ),
        ReportRecord::Untracked { path } => Some(
            StatusEntryView {
                path,
                original_path: None,
                index: ChangeKind::Unmodified,
                worktree: ChangeKind::Untracked,
                entry_type: StatusEntryType::Untracked,
            },
        ),
        ReportRecord::Ignored { path } => Some(
            StatusEntryView {
                path,
                original_path: None,
                index: ChangeKind::Unmodified,
                worktree: ChangeKind::Ignored,
                entry_type: StatusEntryType::Ignored,
            },
        ),
        _ => None,
    }
}

/// What is known once a record has been read.
pub open spec fn told(record: ReportRecord, known: DraftView) -> DraftView {
    match record {
        ReportRecord::Oid { oid } => DraftView {
            oid: Some(oid),
            branch: BranchStateView {
                unborn: known.branch.unborn || oid == "(initial)"@,
                ..known.branch
            },
            ..known
        },
        ReportRecord::Head { head } => DraftView {
            branch: BranchStateView {
                head: if head != "(detached)"@ {
                    HeadView::Branch(head)
                } else if known.oid is Some {
                    HeadView::Detached(known.oid->Some_0)
                } else {
                    HeadView::Detached(Seq::empty())
                },
                ..known.branch
            },
            ..known
        },
        ReportRecord::Upstream { upstream } => DraftView {
            branch: BranchStateView { upstream: Some(upstream), ..known.branch },
            ..known
        },
        ReportRecord::Counts { ahead, behind } => DraftView {
            branch: BranchStateView { ahead, behind, ..known.branch },
            ..known
        },
        _ => match entry_of(record) {
            Some(entry) => DraftView { entries: known.entries.push(entry), ..known },
            None => known,
        },
    }
}

/// What is known once some records have been read.
pub open spec fn all_told(records: Seq<ReportRecord>, known: DraftView) -> DraftView
    decreases records.len(),
{
    if records.len() == 0 {
        known
    } else {
        all_told(records.drop_first(), told(records[0], known))
    }
}

/// What is known before anything has been read: no branch and no path.
pub open spec fn nothing_known() -> DraftView {
    DraftView {
        branch: BranchStateView {
            head: HeadView::Unborn,
            upstream: None,
            ahead: 0,
            behind: 0,
            unborn: false,
        },
        oid: None,
        entries: Seq::empty(),
    }
}

/// Some bytes start with an ASCII text if and only if its characters stand there.
proof fn lemma_behind(line: Seq<u8>, prefix: Seq<char>)
    requires
        utf8::is_ascii_chars(prefix),
    ensures
        bytes::behind(line, prefix) is Some ==> line.len() >= prefix.len(),
        forall|i: int|
            #![trigger prefix[i]]
            bytes::behind(line, prefix) is Some && 0 <= i < prefix.len() ==> line[i]
                == prefix[i] as u8,
        line.len() >= prefix.len() && (forall|i: int|
            0 <= i < prefix.len() ==> line[i] == #[trigger] prefix[i] as u8) ==> bytes::behind(
            line,
            prefix,
        ) == Some(line.skip(prefix.len() as int)),
        utf8::encode_utf8(prefix).len() == prefix.len(),
{
    utf8::is_ascii_chars_encode_utf8(prefix);
    let encoded = utf8::encode_utf8(prefix);
    let head = line.take(encoded.len() as int);
    if bytes::behind(line, prefix) is Some {
        assert forall|i: int| #![trigger prefix[i]] 0 <= i < prefix.len() implies line[i]
            == prefix[i] as u8 by {
            assert(head[i] == line[i]);
            assert(head[i] == encoded[i]);
        }
    }
    if line.len() >= prefix.len() && (forall|i: int|
        0 <= i < prefix.len() ==> line[i] == #[trigger] prefix[i] as u8) {
        assert forall|i: int| 0 <= i < prefix.len() implies head[i] == encoded[i] by {
            assert(prefix[i] as u8 == encoded[i]);
        }
        assert(head =~= encoded);
    }
}

/// What stands behind a prefix that was written there.
proof fn lemma_written_behind(prefix: Seq<char>, more: Seq<u8>)
    ensures
        bytes::behind(utf8::encode_utf8(prefix) + more, prefix) == Some(more),
{
    let encoded = utf8::encode_utf8(prefix);
    assert((encoded + more).take(encoded.len() as int) =~= encoded);
    assert((encoded + more).skip(encoded.len() as int) =~= more);
}

/// By which first bytes the families of records are told apart.
proof fn lemma_families(line: Seq<u8>)
    ensures
        bytes::behind(line, "# branch.oid "@) is Some ==> line[0] == 35 && line.len() > 11
            && line[9] == 111,
        bytes::behind(line, "# branch.head "@) is Some ==> line[0] == 35 && line.len() > 11
            && line[9] == 104,
        bytes::behind(line, "# branch.upstream "@) is Some ==> line[0] == 35 && line.len() > 11
            && line[9] == 117,
        bytes::behind(line, "# branch.ab "@) is Some ==> line[0] == 35 && line.len() > 11
            && line[9] == 97,
        bytes::behind(line, "? "@) is Some ==> line.len() >= 2 && line[0] == 63,
        bytes::behind(line, "! "@) is Some ==> line.len() >= 2 && line[0] == 33,
        bytes::behind(line, "1 "@) is Some <==> line.len() >= 2 && line[0] == 49 && line[1] == 32,
        bytes::behind(line, "2 "@) is Some <==> line.len() >= 2 && line[0] == 50 && line[1] == 32,
        bytes::behind(line, "u "@) is Some <==> line.len() >= 2 && line[0] == 117 && line[1] == 32,
        bytes::behind(line, "# "@) is Some ==> line.len() >= 2 && line[0] == 35,
{
    reveal_strlit("# branch.oid ");
    reveal_strlit("# branch.head ");
    reveal_strlit("# branch.upstream ");
    reveal_strlit("# branch.ab ");
    reveal_strlit("? ");
    reveal_strlit("! ");
    reveal_strlit("1 ");
    reveal_strlit("2 ");
    reveal_strlit("u ");
    reveal_strlit("# ");
    lemma_behind(line, "# branch.oid "@);
    assert("# branch.oid "@[0] == '#' && "# branch.oid "@[9] == 'o');
    lemma_behind(line, "# branch.head "@);
    assert("# branch.head "@[0] == '#' && "# branch.head "@[9] == 'h');
    lemma_behind(line, "# branch.upstream "@);
    assert("# branch.upstream "@[0] == '#' && "# branch.upstream "@[9] == 'u');
    lemma_behind(line, "# branch.ab "@);
    assert("# branch.ab "@[0] == '#' && "# branch.ab "@[9] == 'a');
    lemma_behind(line, "? "@);
    assert("? "@[0] == '?');
    lemma_behind(line, "! "@);
    assert("! "@[0] == '!');
    lemma_behind(line, "1 "@);
    assert("1 "@[0] == '1' && "1 "@[1] == ' ');
    lemma_behind(line, "2 "@);
    assert("2 "@[0] == '2' && "2 "@[1] == ' ');
    lemma_behind(line, "u "@);
    assert("u "@[0] == 'u' && "u "@[1] == ' ');
    lemma_behind(line, "# "@);
    assert("# "@[0] == '#');
}

/// The letter of a kind of change is read as that kind, and so are all others that Git might write.
pub proof fn letters_are_read_back(kind: ChangeKind)
    requires
        has_letter(kind),
    ensures
        status::kind_of(letter_of(kind) as u8) == kind,
{
    match kind {
        ChangeKind::Unknown(letter) => {
            assert((letter as u8) as char == letter);
        },
        _ => {},
    }
}

/// Two letters hold no space.
proof fn lemma_letters(index: ChangeKind, worktree: ChangeKind)
    requires
        has_letter(index),
        has_letter(worktree),
    ensures
        !letters_of(index, worktree).contains(32u8),
        status::xy_of(letters_of(index, worktree)) == Ok::<
            (ChangeKind, ChangeKind),
            GitErrorView,
        >((index, worktree)),
{
    letters_are_read_back(index);
    letters_are_read_back(worktree);
    assert(status::kind_of(32u8) == ChangeKind::Unknown(' '));
    let letters = letters_of(index, worktree);
    if letters.contains(32u8) {
        let at = choose|at: int| 0 <= at < letters.len() && letters[at] == 32u8;
        assert(letters[at] == letters[0] || letters[at] == letters[1]);
        assert(status::kind_of(letters[at]) == ChangeKind::Unknown(' '));
    }
}

/// A record that starts with a letter and a space.
proof fn lemma_fields(letter: char, fields: Seq<Seq<u8>>, path: Seq<u8>)
    requires
        (letter as u32) < 128,
        letter != ' ',
        separable(fields),
    ensures
        ({
            let all = seq![tag(letter)] + fields;
            let line = parts::written(all, 32u8) + path;
            &&& line.len() >= 2
            &&& line[0] == letter as u8
            &&& line[1] == 32
            &&& text::pieces_at_most(line, 32u8, (fields.len() + 2) as nat) == all.push(path)
        }),
{
    let all = seq![tag(letter)] + fields;
    let line = parts::written(all, 32u8) + path;
    assert forall|i: int| 0 <= i < all.len() implies !(#[trigger] all[i]).contains(32u8) by {
        if i > 0 {
            assert(all[i] == fields[i - 1]);
        } else {
            assert(all[i] == tag(letter));
        }
    }
    parts::last_part_is_kept_whole(all, path, 32u8);
    assert(line[0] == tag(letter)[0]);
    assert(line[1] == 32);
}

/// A record of a changed path gives back the path, whatever is in it, and both kinds of change.
pub proof fn ordinary_record_gives_its_path_back(
    index: ChangeKind,
    worktree: ChangeKind,
    fields: Seq<Seq<u8>>,
    path: Seq<u8>,
    next: Option<Seq<u8>>,
    nul_delimited: bool,
    known: DraftView,
)
    requires
        has_letter(index),
        has_letter(worktree),
        fields.len() == 6,
        separable(fields),
    ensures
        ({
            let line = parts::written(fields_of('1', index, worktree, fields), 32u8) + path;
            let entry = StatusEntryView {
                path,
                original_path: None,
                index,
                worktree,
                entry_type: StatusEntryType::Ordinary,
            };
            &&& status::ordinary_entry(line) == Ok::<StatusEntryView, GitErrorView>(entry)
            &&& status::read_record(line, next, nul_delimited, known) == Ok::<
                DraftView,
                GitErrorView,
            >(DraftView { entries: known.entries.push(entry), ..known })
            &&& !status::takes_next(line, nul_delimited)
            &&& line.len() > 0
        }),
{
    let rest = seq![letters_of(index, worktree)] + fields;
    let all = fields_of('1', index, worktree, fields);
    assert(all =~= seq![tag('1')] + rest);
    lemma_letters(index, worktree);
    assert forall|i: int| 0 <= i < rest.len() implies !(#[trigger] rest[i]).contains(32u8) by {
        if i > 0 {
            assert(rest[i] == fields[i - 1]);
        }
    }
    lemma_fields('1', rest, path);
    let line = parts::written(all, 32u8) + path;
    lemma_families(line);
    let read = text::pieces_at_most(line, 32u8, 9);
    assert(read == all.push(path));
    assert(read[1] == letters_of(index, worktree));
    assert(read[8] == path);
}

/// A record of a renamed or copied path gives back both paths: the one before the rename is the record behind it,
/// or stands behind a tab.
pub proof fn renamed_record_gives_its_paths_back(
    index: ChangeKind,
    worktree: ChangeKind,
    fields: Seq<Seq<u8>>,
    path: Seq<u8>,
    original: Seq<u8>,
    known: DraftView,
)
    requires
        has_letter(index),
        has_letter(worktree),
        fields.len() == 7,
        separable(fields),
    ensures
        ({
            let line = parts::written(fields_of('2', index, worktree, fields), 32u8) + path;
            let tabbed = line + seq![9u8] + original;
            let entry = StatusEntryView {
                path,
                original_path: Some(original),
                index,
                worktree,
                entry_type: if index is Copied || worktree is Copied {
                    StatusEntryType::Copied
                } else {
                    StatusEntryType::Renamed
                },
            };
            let longer = Ok::<DraftView, GitErrorView>(
                DraftView { entries: known.entries.push(entry), ..known },
            );
            &&& status::renamed_entry(line, Some(original)) == Ok::<StatusEntryView, GitErrorView>(
                entry,
            )
            &&& status::read_record(line, Some(original), true, known) == longer
            &&& status::takes_next(line, true)
            &&& line.len() > 0
            &&& !path.contains(9u8) ==> {
                &&& status::renamed_entry(tabbed, None) == Ok::<StatusEntryView, GitErrorView>(
                    entry,
                )
                &&& forall|next: Option<Seq<u8>>|
                    #[trigger] status::read_record(tabbed, next, false, known) == longer
                &&& !status::takes_next(tabbed, false)
            }
        }),
{
    let rest = seq![letters_of(index, worktree)] + fields;
    let all = fields_of('2', index, worktree, fields);
    assert(all =~= seq![tag('2')] + rest);
    lemma_letters(index, worktree);
    assert forall|i: int| 0 <= i < rest.len() implies !(#[trigger] rest[i]).contains(32u8) by {
        if i > 0 {
            assert(rest[i] == fields[i - 1]);
        }
    }
    lemma_fields('2', rest, path);
    let line = parts::written(all, 32u8) + path;
    lemma_families(line);
    let read = text::pieces_at_most(line, 32u8, 10);
    assert(read == all.push(path));
    assert(read[1] == letters_of(index, worktree));
    assert(read[9] == path);
    if !path.contains(9u8) {
        let both = path + seq![9u8] + original;
        let tabbed = line + seq![9u8] + original;
        assert(tabbed =~= parts::written(all, 32u8) + both);
        lemma_fields('2', rest, both);
        lemma_families(tabbed);
        let read = text::pieces_at_most(tabbed, 32u8, 10);
        assert(read == all.push(both));
        assert(read[1] == letters_of(index, worktree));
        assert(read[9] == both);
        assert forall|i: int| 0 <= i < path.len() implies both[i] != 9u8 by {
            assert(both[i] == path[i]);
            if path[i] == 9u8 {
                assert(path.contains(9u8));
            }
        }
        text::lemma_position_unique(both, 9u8, path.len() as int);
        assert(both.take(path.len() as int) =~= path);
        assert(both.skip(path.len() as int + 1) =~= original);
    }
}

/// A record of a conflict gives back the path, whatever is in it.
pub proof fn conflict_record_gives_its_path_back(
    fields: Seq<Seq<u8>>,
    path: Seq<u8>,
    next: Option<Seq<u8>>,
    nul_delimited: bool,
    known: DraftView,
)
    requires
        fields.len() == 9,
        separable(fields),
    ensures
        ({
            let line = parts::written(seq![tag('u')] + fields, 32u8) + path;
            let entry = StatusEntryView {
                path,
                original_path: None,
                index: ChangeKind::Unmerged,
                worktree: ChangeKind::Unmerged,
                entry_type: StatusEntryType::Conflict,
            };
            &&& status::conflict_entry(line) == Ok::<StatusEntryView, GitErrorView>(entry)
            &&& status::read_record(line, next, nul_delimited, known) == Ok::<
                DraftView,
                GitErrorView,
            >(DraftView { entries: known.entries.push(entry), ..known })
            &&& !status::takes_next(line, nul_delimited)
            &&& line.len() > 0
        }),
{
    let all = seq![tag('u')] + fields;
    lemma_fields('u', fields, path);
    let line = parts::written(all, 32u8) + path;
    lemma_families(line);
    let read = text::pieces_at_most(line, 32u8, 11);
    assert(read == all.push(path));
    assert(read[10] == path);
}

/// The counts of the commits ahead and behind are read as the numbers that were written.
pub proof fn counts_are_read_back(ahead: u32, behind: u32)
    ensures
        status::ahead_behind_of(counts_text(ahead, behind)) == Ok::<(u32, u32), GitErrorView>(
            (ahead, behind),
        ),
{
    let one = number::decimal(ahead as nat);
    let other = number::decimal(behind as nat);
    number::lemma_decimal(ahead as nat);
    number::lemma_decimal(behind as nat);
    number::written_number_reads_back(ahead as nat, u32::MAX as nat);
    number::written_number_reads_back(behind as nat, u32::MAX as nat);
    let first = seq!['+'] + one;
    let second = seq!['-'] + other;
    assert forall|i: int| 0 <= i < first.len() implies !text::is_white(#[trigger] first[i]) by {
        if i > 0 {
            assert(first[i] == one[i - 1]);
            assert(number::is_digit(one[i - 1]));
        }
    }
    assert forall|i: int| 0 <= i < second.len() implies !text::is_white(#[trigger] second[i]) by {
        if i > 0 {
            assert(second[i] == other[i - 1]);
            assert(number::is_digit(other[i - 1]));
        }
    }
    parts::two_words_are_read_back(first, second);
    let words = text::words(counts_text(ahead, behind));
    assert(words == seq![first, second]);
    assert(words[0] == first && words[1] == second);
    assert(first.skip(1) =~= one);
    assert(second.skip(1) =~= other);
}

/// What is said of the branch is read as it was written.
proof fn lemma_branch_record(
    record: ReportRecord,
    next: Option<Seq<u8>>,
    nul_delimited: bool,
    known: DraftView,
)
    requires
        record is Oid || record is Head || record is Upstream || record is Counts,
    ensures
        ({
            let lines = lines_of(record, nul_delimited);
            &&& lines.len() == 1
            &&& lines[0].len() > 0
            &&& status::read_record(lines[0], next, nul_delimited, known) == Ok::<
                DraftView,
                GitErrorView,
            >(told(record, known))
            &&& !status::takes_next(lines[0], nul_delimited)
        }),
{
    broadcast use {utf8::encode_utf8_valid_utf8, utf8::encode_utf8_decode_utf8};

    let line = lines_of(record, nul_delimited)[0];
    lemma_families(line);
    match record {
        ReportRecord::Oid { oid } => {
            lemma_written_behind("# branch.oid "@, utf8::encode_utf8(oid));
        },
        ReportRecord::Head { head } => {
            lemma_written_behind("# branch.head "@, utf8::encode_utf8(head));
        },
        ReportRecord::Upstream { upstream } => {
            lemma_written_behind("# branch.upstream "@, utf8::encode_utf8(upstream));
        },
        ReportRecord::Counts { ahead, behind } => {
            lemma_written_behind("# branch.ab "@, utf8::encode_utf8(counts_text(ahead, behind)));
            counts_are_read_back(ahead, behind);
        },
        _ => {},
    }
}

/// A path that Git does not track, and one that it ignores, is all that stands behind the mark.
pub proof fn loose_record_gives_its_path_back(
    path: Seq<u8>,
    next: Option<Seq<u8>>,
    nul_delimited: bool,
    known: DraftView,
)
    ensures
        ({
            let record = ReportRecord::Untracked { path };
            let line = utf8::encode_utf8("? "@) + path;
            &&& status::read_record(line, next, nul_delimited, known) == Ok::<
                DraftView,
                GitErrorView,
            >(told(record, known))
            &&& !status::takes_next(line, nul_delimited)
            &&& line.len() > 0
        }),
        ({
            let record = ReportRecord::Ignored { path };
            let line = utf8::encode_utf8("! "@) + path;
            &&& status::read_record(line, next, nul_delimited, known) == Ok::<
                DraftView,
                GitErrorView,
            >(told(record, known))
            &&& !status::takes_next(line, nul_delimited)
            &&& line.len() > 0
        }),
{
    lemma_families(utf8::encode_utf8("? "@) + path);
    lemma_written_behind("? "@, path);
    lemma_families(utf8::encode_utf8("! "@) + path);
    lemma_written_behind("! "@, path);
}

/// Anything else that is said of the branch changes nothing.
proof fn lemma_remark(
    remark: Seq<u8>,
    next: Option<Seq<u8>>,
    nul_delimited: bool,
    known: DraftView,
)
    requires
        bytes::behind(remark, "branch."@) is None,
    ensures
        ({
            let line = utf8::encode_utf8("# "@) + remark;
            &&& status::read_record(line, next, nul_delimited, known) == Ok::<
                DraftView,
                GitErrorView,
            >(known)
            &&& !status::takes_next(line, nul_delimited)
            &&& line.len() > 0
        }),
{
    let line = utf8::encode_utf8("# "@) + remark;
    lemma_families(line);
    lemma_written_behind("# "@, remark);
    reveal_strlit("# ");
    reveal_strlit("branch.");
    reveal_strlit("# branch.oid ");
    reveal_strlit("# branch.head ");
    reveal_strlit("# branch.upstream ");
    reveal_strlit("# branch.ab ");
    lemma_behind(line, "# "@);
    lemma_behind(remark, "branch."@);
    assert("# branch.oid "@.skip(2).take(7) =~= "branch."@);
    lemma_apart(line, remark, "# branch.oid "@);
    assert("# branch.head "@.skip(2).take(7) =~= "branch."@);
    lemma_apart(line, remark, "# branch.head "@);
    assert("# branch.upstream "@.skip(2).take(7) =~= "branch."@);
    lemma_apart(line, remark, "# branch.upstream "@);
    assert("# branch.ab "@.skip(2).take(7) =~= "branch."@);
    lemma_apart(line, remark, "# branch.ab "@);
}

/// A line that says nothing of the known things about a branch does not start as one that does.
proof fn lemma_apart(line: Seq<u8>, remark: Seq<u8>, prefix: Seq<char>)
    requires
        line == utf8::encode_utf8("# "@) + remark,
        utf8::is_ascii_chars(prefix),
        prefix.len() >= 9,
        prefix.skip(2).take(7) == "branch."@,
        bytes::behind(remark, "branch."@) is None,
    ensures
        bytes::behind(line, prefix) is None,
{
    reveal_strlit("# ");
    reveal_strlit("branch.");
    lemma_behind(line, prefix);
    lemma_behind(line, "# "@);
    lemma_behind(remark, "branch."@);
    if bytes::behind(line, prefix) is Some {
        let middle = prefix.skip(2).take(7);
        assert forall|i: int| 0 <= i < "branch."@.len() implies remark[i] == #[trigger] "branch."@[i]
            as u8 by {
            assert(middle[i] == prefix[i + 2]);
            assert(line[i + 2] == prefix[i + 2] as u8);
            assert(line[i + 2] == remark[i]);
        }
    }
}

/// Whether a record is read as what was written, whatever follows.
spec fn is_read_back(record: ReportRecord, nul_delimited: bool, known: DraftView) -> bool {
    let lines = lines_of(record, nul_delimited);
    &&& lines.len() == 1
    &&& lines[0].len() > 0
    &&& !status::takes_next(lines[0], nul_delimited)
    &&& forall|next: Option<Seq<u8>>|
        #[trigger] status::read_record(lines[0], next, nul_delimited, known) == Ok::<
            DraftView,
            GitErrorView,
        >(told(record, known))
}

/// Each record but a rename is one line and is read as what was written.
#[verifier::spinoff_prover]
proof fn lemma_one_line(record: ReportRecord, nul_delimited: bool, known: DraftView)
    requires
        writable(record, nul_delimited),
        !(record is Renamed),
    ensures
        is_read_back(record, nul_delimited, known),
{
    let line = lines_of(record, nul_delimited)[0];
    assert forall|next: Option<Seq<u8>>| #[trigger]
        status::read_record(line, next, nul_delimited, known) == Ok::<DraftView, GitErrorView>(
            told(record, known),
        ) && !status::takes_next(line, nul_delimited) && line.len() > 0 by {
        match record {
            ReportRecord::Remark { remark } => {
                lemma_remark(remark, next, nul_delimited, known);
            },
            ReportRecord::Ordinary { index, worktree, fields, path } => {
                ordinary_record_gives_its_path_back(
                    index,
                    worktree,
                    fields,
                    path,
                    next,
                    nul_delimited,
                    known,
                );
            },
            ReportRecord::Conflict { fields, path } => {
                conflict_record_gives_its_path_back(fields, path, next, nul_delimited, known);
            },
            ReportRecord::Untracked { path } => {
                loose_record_gives_its_path_back(path, next, nul_delimited, known);
            },
            ReportRecord::Ignored { path } => {
                loose_record_gives_its_path_back(path, next, nul_delimited, known);
            },
            _ => {
                lemma_branch_record(record, next, nul_delimited, known);
            },
        }
    }
    let read = status::read_record(line, None, nul_delimited, known);
    assert(read is Ok);
}

/// Each record is read as what was written.
#[verifier::spinoff_prover]
proof fn lemma_record(
    record: ReportRecord,
    more: Seq<Seq<u8>>,
    nul_delimited: bool,
    known: DraftView,
)
    requires
        writable(record, nul_delimited),
    ensures
        parts::none_empty(lines_of(record, nul_delimited)),
        status::read_records(lines_of(record, nul_delimited) + more, nul_delimited, known)
            == status::read_records(more, nul_delimited, told(record, known)),
        lines_of(record, nul_delimited).len() > 0,
{
    let lines = lines_of(record, nul_delimited);
    let all = lines + more;
    match record {
        ReportRecord::Renamed { index, worktree, fields, path, original } => {
            renamed_record_gives_its_paths_back(index, worktree, fields, path, original, known);
            if nul_delimited {
                assert(all[0] == lines[0]);
                assert(all[1] == original);
                assert(all.skip(2) =~= more);
            } else {
                lemma_first_line(lines[0], more, nul_delimited, known, told(record, known));
                assert(all =~= seq![lines[0]] + more);
            }
        },
        _ => {
            lemma_one_line(record, nul_delimited, known);
            lemma_first_line(lines[0], more, nul_delimited, known, told(record, known));
            assert(all =~= seq![lines[0]] + more);
        },
    }
}

/// Reading goes on behind a line that was read.
proof fn lemma_first_line(
    line: Seq<u8>,
    more: Seq<Seq<u8>>,
    nul_delimited: bool,
    known: DraftView,
    longer: DraftView,
)
    requires
        !status::takes_next(line, nul_delimited),
        forall|next: Option<Seq<u8>>|
            #[trigger] status::read_record(line, next, nul_delimited, known) == Ok::<
                DraftView,
                GitErrorView,
            >(longer),
    ensures
        status::read_records(seq![line] + more, nul_delimited, known) == status::read_records(
            more,
            nul_delimited,
            longer,
        ),
{
    let all = seq![line] + more;
    assert(all[0] == line);
    assert(all.skip(1) =~= more);
}

/// All records are read as what was written.
proof fn lemma_all_records(records: Seq<ReportRecord>, nul_delimited: bool, known: DraftView)
    requires
        all_writable(records, nul_delimited),
    ensures
        status::read_records(all_lines(records, nul_delimited), nul_delimited, known) == Ok::<
            DraftView,
            GitErrorView,
        >(all_told(records, known)),
        parts::none_empty(all_lines(records, nul_delimited)),
        parts::free_of(all_lines(records, nul_delimited), 0u8),
        !nul_delimited ==> parts::free_of(all_lines(records, nul_delimited), 10u8),
        records.len() > 0 ==> all_lines(records, nul_delimited).len() > 0,
    decreases records.len(),
{
    if records.len() > 0 {
        let rest = records.drop_first();
        assert forall|i: int| 0 <= i < rest.len() implies writable(
            #[trigger] rest[i],
            nul_delimited,
        ) by {
            assert(rest[i] == records[i + 1]);
        }
        lemma_all_records(rest, nul_delimited, told(records[0], known));
        assert(writable(records[0], nul_delimited));
        let first = lines_of(records[0], nul_delimited);
        let more = all_lines(rest, nul_delimited);
        lemma_record(records[0], more, nul_delimited, known);
        let all = all_lines(records, nul_delimited);
        assert(all == first + more);
        assert forall|i: int| 0 <= i < all.len() implies {
            &&& (#[trigger] all[i]).len() > 0
            &&& !all[i].contains(0u8)
            &&& !nul_delimited ==> !all[i].contains(10u8)
        } by {
            if i < first.len() {
                assert(all[i] == first[i]);
            } else {
                assert(all[i] == more[i - first.len()]);
            }
        }
    }
}

/// Reading a status report gives back what Git wrote into it, record by record and in that order, with NUL bytes
/// between the records and with line feeds.
pub proof fn report_is_read_back(records: Seq<ReportRecord>, nul_delimited: bool)
    requires
        all_writable(records, nul_delimited),
    ensures
        status::status_of(report(records, nul_delimited)) == Ok::<WorktreeStatusView, GitErrorView>(
            WorktreeStatusView {
                branch: all_told(records, nothing_known()).branch,
                entries: all_told(records, nothing_known()).entries,
                operation: None,
            },
        ),
{
    let lines = all_lines(records, nul_delimited);
    let separator = if nul_delimited {
        0u8
    } else {
        10u8
    };
    let input = report(records, nul_delimited);
    lemma_all_records(records, nul_delimited, nothing_known());
    parts::written_parts_are_read_back(lines, separator);
    parts::written_parts_hold_their_symbols(lines, separator, 0u8);
    if records.len() == 0 {
        assert(input =~= Seq::<u8>::empty());
        parts::written_parts_are_read_back(lines, 10u8);
        assert(status::status_records(input) == lines);
    } else {
        assert(input.contains(0u8) == nul_delimited);
    }
    assert(nothing_known().entries =~= Seq::<StatusEntryView>::empty());
}

/// Whether all of some records are of paths.
pub open spec fn only_paths(records: Seq<ReportRecord>) -> bool {
    forall|i: int| 0 <= i < records.len() ==> entry_of(#[trigger] records[i]) is Some
}

/// What some records say of paths.
pub open spec fn entries_of(records: Seq<ReportRecord>) -> Seq<StatusEntryView> {
    Seq::new(records.len(), |i: int| entry_of(records[i])->Some_0)
}

/// Records of paths add what they say and leave the branch alone.
proof fn lemma_only_paths(records: Seq<ReportRecord>, known: DraftView)
    requires
        only_paths(records),
    ensures
        all_told(records, known) == (DraftView {
            entries: known.entries + entries_of(records),
            ..known
        }),
    decreases records.len(),
{
    if records.len() == 0 {
        assert(known.entries + entries_of(records) =~= known.entries);
    } else {
        let rest = records.drop_first();
        assert forall|i: int| 0 <= i < rest.len() implies entry_of(#[trigger] rest[i]) is Some by {
            assert(rest[i] == records[i + 1]);
        }
        assert(entry_of(records[0]) is Some);
        let longer = told(records[0], known);
        lemma_only_paths(rest, longer);
        assert(longer.entries + entries_of(rest) =~= known.entries + entries_of(records));
    }
}

/// A report of a branch gives back the branch, what it follows, how far it is ahead and behind, and all paths in
/// their order.
pub proof fn branch_and_paths_are_read_back(
    oid: Seq<char>,
    head: Seq<char>,
    upstream: Seq<char>,
    counts: (u32, u32),
    records: Seq<ReportRecord>,
    nul_delimited: bool,
)
    requires
        all_writable(
            seq![
                ReportRecord::Oid { oid },
                ReportRecord::Head { head },
                ReportRecord::Upstream { upstream },
                ReportRecord::Counts { ahead: counts.0, behind: counts.1 },
            ] + records,
            nul_delimited,
        ),
        only_paths(records),
    ensures
        ({
            let all = seq![
                ReportRecord::Oid { oid },
                ReportRecord::Head { head },
                ReportRecord::Upstream { upstream },
                ReportRecord::Counts { ahead: counts.0, behind: counts.1 },
            ] + records;
            status::status_of(report(all, nul_delimited)) == Ok::<WorktreeStatusView, GitErrorView>(
                WorktreeStatusView {
                    branch: BranchStateView {
                        head: if head == "(detached)"@ {
                            HeadView::Detached(oid)
                        } else {
                            HeadView::Branch(head)
                        },
                        upstream: Some(upstream),
                        ahead: counts.0,
                        behind: counts.1,
                        unborn: oid == "(initial)"@,
                    },
                    entries: entries_of(records),
                    operation: None,
                },
            )
        }),
{
    let all = seq![
        ReportRecord::Oid { oid },
        ReportRecord::Head { head },
        ReportRecord::Upstream { upstream },
        ReportRecord::Counts { ahead: counts.0, behind: counts.1 },
    ] + records;
    report_is_read_back(all, nul_delimited);
    let one = told(all[0], nothing_known());
    let two = told(all[1], one);
    let three = told(all[2], two);
    let four = told(all[3], three);
    let r1 = all.drop_first();
    let r2 = r1.drop_first();
    let r3 = r2.drop_first();
    assert(r1[0] == all[1] && r2[0] == all[2] && r3[0] == all[3]);
    assert(r3.drop_first() =~= records);
    assert(all_told(all, nothing_known()) == all_told(r1, one));
    assert(all_told(r1, one) == all_told(r2, two));
    assert(all_told(r2, two) == all_told(r3, three));
    assert(all_told(r3, three) == all_told(records, four));
    lemma_only_paths(records, four);
    assert(four.entries + entries_of(records) =~= entries_of(records));
}

}
