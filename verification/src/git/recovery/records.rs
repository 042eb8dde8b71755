//! What a fingerprint lists, and the bytes that stand for it.
//!
//! Where digests and files have the lengths that they should have, the bytes of a list of records fix the
//! list: no two states that differ in what is listed of them are hashed from the same bytes.
use crate::digest;
use crate::git::commands;
use crate::git::recovery::lock;
use crate::git::types::{RecoveryAction, RepositoryOperation};
use vstd::prelude::*;
use vstd::utf8;

verus! {

/// One thing that a fingerprint lists.
#[verifier::ext_equal]
pub enum Record {
    /// A command: the code that it ended with, and the digest of its output.
    Command { code: i32, digest: Seq<u8> },
    /// A command that succeeded: the digest of its output.
    Output { digest: Seq<u8> },
    /// A path that leads to nothing.
    Missing { label: Seq<u8> },
    /// A symbolic link.
    Link { label: Seq<u8>, target: Seq<u8> },
    /// A regular file.
    File { label: Seq<u8>, length: u64, mode: u32, contents: Seq<u8> },
    /// A directory. What is in it follows.
    Directory { label: Seq<u8>, length: u64, mode: u32 },
    /// The recovery that is meant.
    Recovery { operation: RepositoryOperation, action: RecoveryAction },
}

/// The code that a command without a code counts as having ended with is the lowest number.
pub open spec fn exit_number(code: Option<i32>) -> i32 {
    match code {
        Some(code) => code,
        None => i32::MIN,
    }
}

/// Whether a record is of something at a path.
pub open spec fn is_of_path(record: Record) -> bool {
    record is Missing || record is Link || record is File || record is Directory
}

/// The field that a record starts with: the label of something at a path.
pub open spec fn leading_field(record: Record) -> Seq<u8> {
    match record {
        Record::Command { code, digest: _ } => digest::code_bytes(Some(code)),
        Record::Output { digest } => digest,
        Record::Missing { label } => label,
        Record::Link { label, target: _ } => label,
        Record::File { label, length: _, mode: _, contents: _ } => label,
        Record::Directory { label, length: _, mode: _ } => label,
        Record::Recovery { operation, action: _ } => operation_bytes(operation),
    }
}

/// The bytes of the name of an operation.
pub open spec fn operation_bytes(operation: RepositoryOperation) -> Seq<u8> {
    utf8::encode_utf8(commands::operation_label(operation))
}

/// The bytes of the name of a recovery action.
pub open spec fn action_bytes(action: RecoveryAction) -> Seq<u8> {
    utf8::encode_utf8(lock::action_label(action))
}

/// The fields of what the file system says of a file or a directory.
pub open spec fn metadata_fields(length: u64, mode: u32, kind: Seq<char>) -> Seq<u8> {
    digest::framed(digest::little_endian(length)) + (digest::framed(
        digest::low_bytes(mode as nat, 4),
    ) + digest::framed(utf8::encode_utf8(kind)))
}

/// What follows the leading field of a record. The contents of a file stand without a frame.
pub open spec fn trailing_bytes(record: Record) -> Seq<u8> {
    match record {
        Record::Command { code: _, digest } => digest::framed(digest),
        Record::Output { digest: _ } => Seq::empty(),
        Record::Missing { label: _ } => digest::framed(utf8::encode_utf8("missing"@)),
        Record::Link { label: _, target } => digest::framed(utf8::encode_utf8("symlink"@))
            + digest::framed(target),
        Record::File { label: _, length, mode, contents } => metadata_fields(length, mode, "file"@)
            + contents,
        Record::Directory { label: _, length, mode } => metadata_fields(
            length,
            mode,
            "directory"@,
        ),
        Record::Recovery { operation: _, action } => digest::framed(action_bytes(action)),
    }
}

/// The bytes that stand for a record.
pub open spec fn encoded(record: Record) -> Seq<u8> {
    digest::framed(leading_field(record)) + trailing_bytes(record)
}

/// The bytes that stand for a list of records: those of the records, one after the other.
pub open spec fn transcript_of(records: Seq<Record>) -> Seq<u8>
    decreases records.len(),
{
    if records.len() == 0 {
        Seq::empty()
    } else {
        encoded(records[0]) + transcript_of(records.skip(1))
    }
}

/// The bytes of two lists, one after the other, are those of the one and then those of the other.
pub proof fn lemma_transcript_of_both(first: Seq<Record>, second: Seq<Record>)
    ensures
        transcript_of(first + second) == transcript_of(first) + transcript_of(second),
    decreases first.len(),
{
    if first.len() == 0 {
        assert(first + second =~= second);
        assert(transcript_of(first) + transcript_of(second) =~= transcript_of(second));
    } else {
        lemma_transcript_of_both(first.skip(1), second);
        assert((first + second).skip(1) =~= first.skip(1) + second);
        assert(transcript_of(first + second) =~= transcript_of(first) + transcript_of(second));
    }
}

/// The bytes of one record are those of a list with this record alone.
pub proof fn lemma_transcript_of_one(record: Record)
    ensures
        transcript_of(seq![record]) == encoded(record),
{
    let records = seq![record];
    assert(records.skip(1) =~= Seq::<Record>::empty());
    assert(transcript_of(records.skip(1)) == Seq::<u8>::empty());
    assert(transcript_of(records) =~= encoded(record));
}

/// Whether a record holds what a machine can give: a digest of SHA-256 has 32 bytes, a file has as many
/// bytes as the file system says it has, and no field is too long for its length to be written.
pub open spec fn is_sound(record: Record) -> bool {
    &&& leading_field(record).len() <= u64::MAX
    &&& match record {
        Record::Command { code: _, digest } => digest.len() == 32,
        Record::Output { digest } => digest.len() == 32,
        Record::Link { label: _, target } => target.len() <= u64::MAX,
        Record::File { label: _, length, mode: _, contents } => contents.len() == length,
        _ => true,
    }
}

/// Whether every record of a list holds what a machine can give.
pub open spec fn all_sound(records: Seq<Record>) -> bool {
    forall|i: int| 0 <= i < records.len() ==> is_sound(#[trigger] records[i])
}

/// Whether a label is not the name of an operation.
pub open spec fn is_plain_label(label: Seq<u8>) -> bool {
    label != operation_bytes(RepositoryOperation::Merge) && label != operation_bytes(
        RepositoryOperation::Rebase,
    )
}

/// Whether a label is as long as the field that tells what is at a path.
pub open spec fn is_kind_sized(label: Seq<u8>) -> bool {
    label.len() == 7 || label.len() == 8
}

/// Whether two records can follow one another: a digest alone is not followed by a label that could be
/// taken for what is at a path with the digest as its label.
pub open spec fn may_follow(first: Record, second: Record) -> bool {
    first is Output && is_of_path(second) ==> !is_kind_sized(leading_field(second))
}

/// Whether the records of a list can be told apart by their bytes.
pub open spec fn told_apart(records: Seq<Record>) -> bool {
    &&& forall|i: int|
        0 <= i < records.len() && is_of_path(#[trigger] records[i]) ==> is_plain_label(
            leading_field(records[i]),
        )
    &&& forall|i: int|
        0 < i < records.len() ==> may_follow(records[i - 1], #[trigger] records[i])
}

/// A list whose records can be told apart, with one more list behind it.
pub proof fn lemma_told_apart_both(first: Seq<Record>, second: Seq<Record>)
    requires
        told_apart(first),
        told_apart(second),
        first.len() > 0 && second.len() > 0 ==> may_follow(first.last(), second[0]),
    ensures
        told_apart(first + second),
{
    let all = first + second;
    assert forall|i: int| 0 <= i < all.len() && is_of_path(#[trigger] all[i]) implies is_plain_label(
        leading_field(all[i]),
    ) by {
        if i < first.len() {
            assert(all[i] == first[i]);
        } else {
            assert(all[i] == second[i - first.len()]);
        }
    }
    assert forall|i: int| 0 < i < all.len() implies may_follow(all[i - 1], #[trigger] all[i]) by {
        if i < first.len() {
            assert(may_follow(first[i - 1], first[i]));
        } else if i == first.len() {
            assert(all[i] == second[0]);
        } else {
            assert(may_follow(second[i - first.len() - 1], second[i - first.len()]));
        }
    }
}

/// The fixed words of records are ASCII, and so are as long in bytes as in characters; those of one
/// place differ.
proof fn lemma_words()
    ensures
        utf8::encode_utf8("missing"@).len() == 7,
        utf8::encode_utf8("symlink"@).len() == 7,
        utf8::encode_utf8("missing"@) != utf8::encode_utf8("symlink"@),
        utf8::encode_utf8("file"@).len() == 4,
        utf8::encode_utf8("directory"@).len() == 9,
        operation_bytes(RepositoryOperation::Merge).len() == 5,
        operation_bytes(RepositoryOperation::Rebase).len() == 6,
        action_bytes(RecoveryAction::Continue).len() == 8,
        action_bytes(RecoveryAction::Abort).len() == 5,
        action_bytes(RecoveryAction::Skip).len() == 4,
{
    reveal_strlit("missing");
    reveal_strlit("symlink");
    reveal_strlit("file");
    reveal_strlit("directory");
    reveal_strlit("merge");
    reveal_strlit("rebase");
    reveal_strlit("continue");
    reveal_strlit("abort");
    reveal_strlit("skip");
    utf8::is_ascii_chars_encode_utf8("missing"@);
    utf8::is_ascii_chars_encode_utf8("symlink"@);
    utf8::is_ascii_chars_encode_utf8("file"@);
    utf8::is_ascii_chars_encode_utf8("directory"@);
    utf8::is_ascii_chars_encode_utf8("merge"@);
    utf8::is_ascii_chars_encode_utf8("rebase"@);
    utf8::is_ascii_chars_encode_utf8("continue"@);
    utf8::is_ascii_chars_encode_utf8("abort"@);
    utf8::is_ascii_chars_encode_utf8("skip"@);
    assert(utf8::encode_utf8("missing"@)[0] != utf8::encode_utf8("symlink"@)[0]);
}

/// A record starts with its leading field, whatever follows.
proof fn lemma_led(record: Record, rest: Seq<u8>)
    ensures
        encoded(record) + rest == digest::framed(leading_field(record)) + (trailing_bytes(record)
            + rest),
{
    assert(encoded(record) + rest =~= digest::framed(leading_field(record)) + (trailing_bytes(
        record,
    ) + rest));
}

/// The field behind the label of something at a path.
spec fn kind_field(record: Record) -> Seq<u8> {
    match record {
        Record::Missing { label: _ } => utf8::encode_utf8("missing"@),
        Record::Link { label: _, target: _ } => utf8::encode_utf8("symlink"@),
        Record::File { label: _, length, mode: _, contents: _ } => digest::little_endian(length),
        Record::Directory { label: _, length, mode: _ } => digest::little_endian(length),
        _ => Seq::empty(),
    }
}

/// What follows the field behind the label of something at a path.
spec fn behind_kind(record: Record) -> Seq<u8> {
    match record {
        Record::Missing { label: _ } => Seq::empty(),
        Record::Link { label: _, target } => digest::framed(target),
        Record::File { label: _, length: _, mode, contents } => digest::framed(
            digest::low_bytes(mode as nat, 4),
        ) + digest::framed(utf8::encode_utf8("file"@)) + contents,
        Record::Directory { label: _, length: _, mode } => digest::framed(
            digest::low_bytes(mode as nat, 4),
        ) + digest::framed(utf8::encode_utf8("directory"@)),
        _ => Seq::empty(),
    }
}

/// What follows the label of something at a path starts with a field of seven or eight bytes.
proof fn lemma_kind(record: Record, rest: Seq<u8>)
    requires
        is_of_path(record),
    ensures
        trailing_bytes(record) + rest == digest::framed(kind_field(record)) + (behind_kind(record)
            + rest),
        kind_field(record).len() == if record is File || record is Directory {
            8int
        } else {
            7
        },
{
    lemma_words();
    if record is File {
        digest::lemma_low_bytes_len(record->File_length as nat, 8);
    }
    if record is Directory {
        digest::lemma_low_bytes_len(record->Directory_length as nat, 8);
    }
    assert(trailing_bytes(record) + rest =~= digest::framed(kind_field(record)) + (behind_kind(
        record,
    ) + rest));
}

/// Two files or directories with the same bytes are the same.
proof fn lemma_same_file(left: Record, left_rest: Seq<u8>, right: Record, right_rest: Seq<u8>)
    requires
        left is File || left is Directory,
        right is File || right is Directory,
        is_sound(left),
        is_sound(right),
        leading_field(left) == leading_field(right),
        kind_field(left) == kind_field(right),
        behind_kind(left) + left_rest == behind_kind(right) + right_rest,
    ensures
        left == right,
        left_rest == right_rest,
{
    lemma_words();
    let (one_length, one_mode, one_kind, one_contents) = match left {
        Record::File { label: _, length, mode, contents } => (
            length,
            mode,
            utf8::encode_utf8("file"@),
            contents,
        ),
        Record::Directory { label: _, length, mode } => (
            length,
            mode,
            utf8::encode_utf8("directory"@),
            Seq::empty(),
        ),
        _ => (0u64, 0u32, Seq::empty(), Seq::empty()),
    };
    let (other_length, other_mode, other_kind, other_contents) = match right {
        Record::File { label: _, length, mode, contents } => (
            length,
            mode,
            utf8::encode_utf8("file"@),
            contents,
        ),
        Record::Directory { label: _, length, mode } => (
            length,
            mode,
            utf8::encode_utf8("directory"@),
            Seq::empty(),
        ),
        _ => (0u64, 0u32, Seq::empty(), Seq::empty()),
    };
    digest::little_endian_is_injective(one_length, other_length);
    digest::lemma_low_bytes_len(one_mode as nat, 4);
    digest::lemma_low_bytes_len(other_mode as nat, 4);
    let one = digest::framed(one_kind) + (one_contents + left_rest);
    let other = digest::framed(other_kind) + (other_contents + right_rest);
    assert(behind_kind(left) + left_rest =~= digest::framed(digest::low_bytes(one_mode as nat, 4))
        + one);
    assert(behind_kind(right) + right_rest =~= digest::framed(
        digest::low_bytes(other_mode as nat, 4),
    ) + other);
    digest::framing_is_injective(
        digest::low_bytes(one_mode as nat, 4),
        one,
        digest::low_bytes(other_mode as nat, 4),
        other,
    );
    digest::four_bytes_are_injective(one_mode, other_mode);
    digest::framing_is_injective(
        one_kind,
        one_contents + left_rest,
        other_kind,
        other_contents + right_rest,
    );
    let count = one_contents.len() as int;
    assert(one_contents =~= (one_contents + left_rest).take(count));
    assert(other_contents =~= (other_contents + right_rest).take(count));
    assert(left_rest =~= (one_contents + left_rest).skip(count));
    assert(right_rest =~= (other_contents + right_rest).skip(count));
}

/// Two things at paths with the same bytes are the same.
proof fn lemma_same_path_record(
    left: Record,
    left_rest: Seq<u8>,
    right: Record,
    right_rest: Seq<u8>,
)
    requires
        is_of_path(left),
        is_of_path(right),
        is_sound(left),
        is_sound(right),
        leading_field(left) == leading_field(right),
        trailing_bytes(left) + left_rest == trailing_bytes(right) + right_rest,
    ensures
        left == right,
        left_rest == right_rest,
{
    lemma_words();
    lemma_kind(left, left_rest);
    lemma_kind(right, right_rest);
    digest::framing_is_injective(
        kind_field(left),
        behind_kind(left) + left_rest,
        kind_field(right),
        behind_kind(right) + right_rest,
    );
    if left is File || left is Directory {
        lemma_same_file(left, left_rest, right, right_rest);
    } else if left is Link {
        digest::framing_is_injective(left->Link_target, left_rest, right->Link_target, right_rest);
    } else {
        assert(behind_kind(left) + left_rest =~= left_rest);
        assert(behind_kind(right) + right_rest =~= right_rest);
    }
}

/// What follows a digest alone, where anything does, does not start like what is at a path.
proof fn lemma_no_kind(records: Seq<Record>, record: Record, rest: Seq<u8>)
    requires
        is_of_path(record),
        records.len() > 0,
        all_sound(records),
        told_apart(records),
        records[0] is Output,
    ensures
        transcript_of(records.skip(1)) != trailing_bytes(record) + rest,
{
    lemma_words();
    lemma_kind(record, rest);
    let next = records.skip(1);
    if transcript_of(next) == trailing_bytes(record) + rest {
        digest::lemma_low_bytes_len(kind_field(record).len(), 8);
        assert(next.len() > 0);
        assert(next[0] == records[1]);
        assert(may_follow(records[0], records[1]));
        assert(is_sound(records[1]));
        lemma_led(next[0], transcript_of(next.skip(1)));
        digest::framing_is_injective(
            leading_field(next[0]),
            trailing_bytes(next[0]) + transcript_of(next.skip(1)),
            kind_field(record),
            behind_kind(record) + rest,
        );
        if next[0] is Command {
            digest::lemma_low_bytes_len(code_number(next[0]->Command_code), 4);
        }
    }
}

/// A code as a number without a sign.
spec fn code_number(code: i32) -> nat {
    (if code < 0 {
        code + 0x1_0000_0000
    } else {
        code as int
    }) as nat
}

/// Records of different sorts start with different bytes.
proof fn lemma_same_sort(left: Seq<Record>, right: Seq<Record>)
    requires
        left.len() > 0,
        right.len() > 0,
        all_sound(left),
        all_sound(right),
        told_apart(left),
        told_apart(right),
        leading_field(left[0]) == leading_field(right[0]),
        trailing_bytes(left[0]) + transcript_of(left.skip(1)) == trailing_bytes(right[0])
            + transcript_of(right.skip(1)),
    ensures
        left[0] is Command ==> right[0] is Command,
        left[0] is Output ==> right[0] is Output,
        left[0] is Recovery ==> right[0] is Recovery,
{
    lemma_words();
    let one = left[0];
    let other = right[0];
    assert(is_sound(one) && is_sound(other));
    if one is Command {
        digest::lemma_low_bytes_len(code_number(one->Command_code), 4);
        if is_of_path(other) {
            lemma_kind(other, transcript_of(right.skip(1)));
            digest::framing_is_injective(
                one->Command_digest,
                transcript_of(left.skip(1)),
                kind_field(other),
                behind_kind(other) + transcript_of(right.skip(1)),
            );
        }
    } else if one is Output {
        if other is Command {
            digest::lemma_low_bytes_len(code_number(other->Command_code), 4);
        }
        if is_of_path(other) {
            assert(trailing_bytes(one) + transcript_of(left.skip(1)) =~= transcript_of(
                left.skip(1),
            ));
            lemma_no_kind(left, other, transcript_of(right.skip(1)));
        }
    } else if one is Recovery {
        if other is Command {
            digest::lemma_low_bytes_len(code_number(other->Command_code), 4);
        }
    }
}

/// Lists with the same bytes start with the same record, and go on with the same bytes.
proof fn lemma_same_start(left: Seq<Record>, right: Seq<Record>)
    requires
        left.len() > 0,
        right.len() > 0,
        all_sound(left),
        all_sound(right),
        told_apart(left),
        told_apart(right),
        transcript_of(left) == transcript_of(right),
    ensures
        left[0] == right[0],
        transcript_of(left.skip(1)) == transcript_of(right.skip(1)),
{
    lemma_words();
    let one = left[0];
    let other = right[0];
    let one_rest = transcript_of(left.skip(1));
    let other_rest = transcript_of(right.skip(1));
    assert(is_sound(one) && is_sound(other));
    lemma_led(one, one_rest);
    lemma_led(other, other_rest);
    digest::framing_is_injective(
        leading_field(one),
        trailing_bytes(one) + one_rest,
        leading_field(other),
        trailing_bytes(other) + other_rest,
    );
    lemma_same_sort(left, right);
    lemma_same_sort(right, left);
    if one is Command {
        digest::code_bytes_are_injective(one->Command_code, other->Command_code);
        digest::framing_is_injective(
            one->Command_digest,
            one_rest,
            other->Command_digest,
            other_rest,
        );
    } else if one is Output {
        assert(trailing_bytes(one) + one_rest =~= one_rest);
        assert(trailing_bytes(other) + other_rest =~= other_rest);
    } else if one is Recovery {
        digest::framing_is_injective(
            action_bytes(one->Recovery_action),
            one_rest,
            action_bytes(other->Recovery_action),
            other_rest,
        );
    } else {
        lemma_same_path_record(one, one_rest, other, other_rest);
    }
}

/// The bytes that stand for a list of records fix the list.
pub proof fn transcripts_are_injective(left: Seq<Record>, right: Seq<Record>)
    requires
        all_sound(left),
        all_sound(right),
        told_apart(left),
        told_apart(right),
        transcript_of(left) == transcript_of(right),
    ensures
        left == right,
    decreases left.len(),
{
    if left.len() == 0 || right.len() == 0 {
        if left.len() > 0 {
            digest::lemma_low_bytes_len(leading_field(left[0]).len(), 8);
        }
        if right.len() > 0 {
            digest::lemma_low_bytes_len(leading_field(right[0]).len(), 8);
        }
        assert(left =~= right);
    } else {
        lemma_same_start(left, right);
        let one = left.skip(1);
        let other = right.skip(1);
        lemma_rest(left);
        lemma_rest(right);
        transcripts_are_injective(one, other);
        assert(left =~= seq![left[0]] + one);
        assert(right =~= seq![right[0]] + other);
    }
}

/// What holds of the records of a list holds of those behind the first.
proof fn lemma_rest(records: Seq<Record>)
    requires
        records.len() > 0,
        all_sound(records),
        told_apart(records),
    ensures
        all_sound(records.skip(1)),
        told_apart(records.skip(1)),
{
    let rest = records.skip(1);
    assert forall|i: int| 0 <= i < rest.len() implies is_sound(#[trigger] rest[i]) by {
        assert(rest[i] == records[i + 1]);
    }
    assert forall|i: int| 0 <= i < rest.len() && is_of_path(#[trigger] rest[i]) implies is_plain_label(
        leading_field(rest[i]),
    ) by {
        assert(rest[i] == records[i + 1]);
    }
    assert forall|i: int| 0 < i < rest.len() implies may_follow(rest[i - 1], #[trigger] rest[i]) by {
        assert(may_follow(records[i], records[i + 1]));
    }
}

}
