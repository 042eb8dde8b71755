//! What holds of the store as a whole: what is written is read back, and what each operation keeps.
use crate::git::types::IoFailureView;
use crate::number;
use crate::order;
use crate::session;
use crate::session::{ActionView, HaltView, ReplyView};
use crate::store::files;
use crate::store::formats;
use crate::store::operations;
use crate::store::types;
use crate::store::types::{
    AppStateView, AuditEntryView, RepositoryRecordView, StoreErrorView, StorePathsView, StoreStep,
};
use crate::text;
use vstd::prelude::*;
use vstd::utf8;

verus! {

/// Whether a text is one line: it has no line feed, and no carriage return at its end.
pub open spec fn is_one_line(value: Seq<char>) -> bool {
    &&& forall|i: int| 0 <= i < value.len() ==> (#[trigger] value[i]) != '\n'
    &&& value.len() > 0 ==> value.last() != '\r'
}

/// The first line of a text is what stands before its first line feed.
proof fn lemma_first_line(line: Seq<char>, rest: Seq<char>)
    requires
        is_one_line(line),
    ensures
        text::text_lines(line + seq!['\n'] + rest) == seq![line] + text::text_lines(rest),
{
    let whole = line + seq!['\n'] + rest;
    let at = line.len() as int;
    assert forall|i: int| 0 <= i < at implies whole[i] != '\n' by {
        assert(whole[i] == line[i]);
    }
    assert(whole[at] == '\n');
    text::lemma_position_unique(whole, '\n', at);
    assert(whole.take(at) =~= line);
    assert(whole.skip(at + 1) =~= rest);
}

/// A line behind full lines is one more line.
proof fn lemma_one_more_line(contents: Seq<char>, line: Seq<char>)
    requires
        contents.len() > 0 ==> contents.last() == '\n',
        is_one_line(line),
    ensures
        text::text_lines(contents + (line + "\n"@)) == text::text_lines(contents).push(line),
    decreases contents.len(),
{
    reveal_strlit("\n");
    assert("\n"@ =~= seq!['\n']);
    let added = line + "\n"@;
    if contents.len() == 0 {
        assert(contents + added =~= line + seq!['\n'] + Seq::<char>::empty());
        lemma_first_line(line, Seq::empty());
        assert(seq![line] + text::text_lines(Seq::<char>::empty())
            =~= text::text_lines(contents).push(line));
    } else {
        let at = text::position_of(contents, '\n') as int;
        text::lemma_position(contents, '\n');
        assert(contents[contents.len() - 1] == '\n');
        assert(at < contents.len());
        let rest = contents.skip(at + 1);
        assert(rest.len() > 0 ==> rest.last() == '\n');
        lemma_one_more_line(rest, line);
        let whole = contents + added;
        assert forall|i: int| 0 <= i < at implies whole[i] != '\n' by {
            assert(whole[i] == contents[i]);
        }
        assert(whole[at] == '\n');
        text::lemma_position_unique(whole, '\n', at);
        assert(whole.take(at) =~= contents.take(at));
        assert(whole.skip(at + 1) =~= rest + added);
        let first = text::without_return(contents.take(at));
        assert(seq![first] + text::text_lines(rest).push(line) =~= (seq![first]
            + text::text_lines(rest)).push(line));
    }
}

/// The first piece of a text is what stands before the first separator.
proof fn lemma_first_piece(first: Seq<char>, separator: char, rest: Seq<char>)
    requires
        forall|i: int| 0 <= i < first.len() ==> (#[trigger] first[i]) != separator,
    ensures
        text::pieces(first + seq![separator] + rest, separator) == seq![first] + text::pieces(
            rest,
            separator,
        ),
{
    let whole = first + seq![separator] + rest;
    let at = first.len() as int;
    assert forall|i: int| 0 <= i < at implies whole[i] != separator by {
        assert(whole[i] == first[i]);
    }
    assert(whole[at] == separator);
    text::lemma_position_unique(whole, separator, at);
    assert(whole.take(at) =~= first);
    assert(whole.skip(at + 1) =~= rest);
}

/// A text without the separator is one piece.
proof fn lemma_only_piece(value: Seq<char>, separator: char)
    requires
        forall|i: int| 0 <= i < value.len() ==> (#[trigger] value[i]) != separator,
    ensures
        text::pieces(value, separator) == seq![value],
{
    text::lemma_position_unique(value, separator, value.len() as int);
}

/// Whether a character can stand in a field: it is printable ASCII other than a space or a comma.
pub open spec fn is_field_character(character: char) -> bool {
    '!' <= character <= '~' && character != ','
}

/// Whether a text can be a field.
pub open spec fn is_field(value: Seq<char>) -> bool {
    forall|i: int| 0 <= i < value.len() ==> is_field_character(#[trigger] value[i])
}

/// The name of a repository can be a field.
proof fn lemma_id_is_field(id: Seq<char>)
    requires
        types::is_repo_id(id),
    ensures
        is_field(id),
{
    assert forall|i: int| 0 <= i < id.len() implies is_field_character(#[trigger] id[i]) by {
        assert(types::is_id_character(id[i]));
    }
}

/// Decimal digits can be a field.
proof fn lemma_decimal_is_field(value: nat)
    ensures
        is_field(number::decimal(value)),
        number::decimal(value).len() > 0,
{
    number::lemma_decimal(value);
    let digits = number::decimal(value);
    assert forall|i: int| 0 <= i < digits.len() implies is_field_character(
        #[trigger] digits[i],
    ) by {
        assert(number::is_digit(digits[i]));
    }
}

/// Hexadecimal digits can be a field, and give the bytes back.
proof fn lemma_hex_is_field(bytes: Seq<u8>)
    ensures
        is_field(number::hex(bytes)),
        formats::bytes_in(number::hex(bytes)) == Ok::<_, Seq<char>>(bytes),
{
    number::written_bytes_read_back(bytes);
    lemma_hex_digits(bytes);
    let digits = number::hex(bytes);
    assert forall|i: int|
        0 <= i < digits.len() implies '\0' <= #[trigger] digits[i] <= '\u{7f}' by {
        assert(is_field_character(digits[i]));
    }
    utf8::is_ascii_chars_encode_utf8(digits);
    assert(utf8::encode_utf8(digits) =~= Seq::new(digits.len(), |i: int| digits[i] as u8));
}

/// Hexadecimal digits are letters and digits.
proof fn lemma_hex_digits(bytes: Seq<u8>)
    ensures
        is_field(number::hex(bytes)),
    decreases bytes.len(),
{
    if bytes.len() > 0 {
        let before = bytes.drop_last();
        lemma_hex_digits(before);
        let digits = number::hex(bytes);
        assert forall|i: int| 0 <= i < digits.len() implies is_field_character(
            #[trigger] digits[i],
        ) by {
            if i < number::hex(before).len() {
                assert(digits[i] == number::hex(before)[i]);
            }
        }
    }
}

/// The hexadecimal digits of a text give the text back.
proof fn lemma_text_reads_back(value: Seq<char>)
    ensures
        formats::text_in(number::hex(utf8::encode_utf8(value))) == Ok::<_, Seq<char>>(value),
{
    lemma_hex_is_field(utf8::encode_utf8(value));
    utf8::encode_utf8_valid_utf8(value);
    utf8::encode_utf8_decode_utf8(value);
}

/// Whether records can stand in a registry: each has the name of its path, and they are ordered by name.
pub open spec fn is_registry(records: Seq<RepositoryRecordView>) -> bool {
    &&& forall|i: int|
        0 <= i < records.len() ==> (#[trigger] records[i]).id == types::id_of_path(records[i].path)
    &&& forall|i: int, j: int|
        0 <= i < j < records.len() ==> order::precedes(
            (#[trigger] records[i]).id,
            (#[trigger] records[j]).id,
        )
}

/// The fields of a record can be told apart, and the line is one line.
proof fn lemma_record_line(record: RepositoryRecordView, line: nat)
    requires
        record.id == types::id_of_path(record.path),
    ensures
        is_one_line(formats::record_line(record)),
        formats::record_line(record).len() > 0,
        formats::record_in(text::pieces(formats::record_line(record), '\t'), line) == Ok::<
            _,
            Seq<char>,
        >(record),
{
    reveal_strlit("\t");
    assert("\t"@ =~= seq!['\t']);
    let id = record.id;
    let path = number::hex(record.path);
    let added = number::decimal(record.added_at as nat);
    let seen = number::decimal(record.last_seen_at as nat);
    types::id_of_path_is_acceptable(record.path);
    lemma_id_is_field(id);
    lemma_hex_is_field(record.path);
    lemma_decimal_is_field(record.added_at as nat);
    lemma_decimal_is_field(record.last_seen_at as nat);
    number::written_number_reads_back(record.added_at as nat, u64::MAX as nat);
    number::written_number_reads_back(record.last_seen_at as nat, u64::MAX as nat);
    let whole = formats::record_line(record);
    let tab = seq!['\t'];
    assert(whole =~= id + tab + (path + tab + (added + tab + seen)));
    lemma_first_piece(id, '\t', path + tab + (added + tab + seen));
    lemma_first_piece(path, '\t', added + tab + seen);
    lemma_first_piece(added, '\t', seen);
    lemma_only_piece(seen, '\t');
    let fields = text::pieces(whole, '\t');
    assert(fields =~= seq![id, path, added, seen]);
    assert forall|i: int| 0 <= i < whole.len() implies (#[trigger] whole[i]) != '\n' by {
        if whole[i] == '\n' {
            assert(i < id.len() ==> is_field_character(id[i]));
        }
    }
    assert(whole.last() == seen.last());
    assert(is_field_character(seen[seen.len() - 1]));
}

/// A name that stands behind all others is not among them.
proof fn lemma_not_among(records: Seq<RepositoryRecordView>, id: Seq<char>)
    requires
        forall|i: int| 0 <= i < records.len() ==> (#[trigger] records[i]).id != id,
    ensures
        formats::record_of(records, id) is None,
    decreases records.len(),
{
    if records.len() > 0 {
        let rest = records.skip(1);
        assert forall|i: int| 0 <= i < rest.len() implies (#[trigger] rest[i]).id != id by {
            assert(rest[i] == records[i + 1]);
        }
        lemma_not_among(rest, id);
    }
}

/// The text of a registry has only full lines.
proof fn lemma_registry_text_is_full(records: Seq<RepositoryRecordView>)
    ensures
        formats::registry_text(records).len() > 0 ==> formats::registry_text(records).last()
            == '\n',
{
    reveal_strlit("\n");
    if records.len() > 0 {
        let line = formats::record_line(records.last()) + "\n"@;
        assert(line.last() == '\n');
    }
}

/// A registry that is written is read back as it was.
pub proof fn registry_reads_back(records: Seq<RepositoryRecordView>)
    requires
        is_registry(records),
    ensures
        formats::registry_in(text::text_lines(formats::registry_text(records))) == Ok::<
            _,
            Seq<char>,
        >(records),
        text::text_lines(formats::registry_text(records)).len() == records.len(),
    decreases records.len(),
{
    if records.len() == 0 {
        assert(records =~= Seq::<RepositoryRecordView>::empty());
    } else {
        let before = records.drop_last();
        let last = records.last();
        assert(is_registry(before)) by {
            assert forall|i: int| 0 <= i < before.len() implies (#[trigger] before[i]).id
                == types::id_of_path(before[i].path) by {
                assert(before[i] == records[i]);
            }
            assert forall|i: int, j: int| 0 <= i < j < before.len() implies order::precedes(
                (#[trigger] before[i]).id,
                (#[trigger] before[j]).id,
            ) by {
                assert(before[i] == records[i] && before[j] == records[j]);
            }
        }
        registry_reads_back(before);
        lemma_registry_text_is_full(before);
        assert(records[records.len() - 1] == last);
        lemma_record_line(last, records.len());
        lemma_one_more_line(formats::registry_text(before), formats::record_line(last));
        let lines = text::text_lines(formats::registry_text(records));
        assert(lines == text::text_lines(formats::registry_text(before)).push(
            formats::record_line(last),
        ));
        assert(lines.drop_last() =~= text::text_lines(formats::registry_text(before)));
        assert forall|i: int| 0 <= i < before.len() implies (#[trigger] before[i]).id != last.id
            && !order::precedes(last.id, before[i].id) by {
            assert(before[i] == records[i]);
            assert(order::precedes(records[i].id, records[records.len() - 1].id));
            order::order_is_total(records[i].id, last.id);
        }
        lemma_not_among(before, last.id);
        formats::lemma_with_record_behind(before, last, before.len() as int);
        assert(before.skip(before.len() as int) =~= Seq::<RepositoryRecordView>::empty());
        assert(before.take(before.len() as int) =~= before);
        assert(before + seq![last] =~= records);
    }
}

/// Putting a record among records keeps them a registry; the record is found again, and so is every other.
pub proof fn registering_keeps_the_registry(
    records: Seq<RepositoryRecordView>,
    record: RepositoryRecordView,
)
    requires
        is_registry(records),
        record.id == types::id_of_path(record.path),
    ensures
        is_registry(formats::with_record(records, record)),
        formats::record_of(formats::with_record(records, record), record.id) == Some(record),
        forall|id: Seq<char>|
            id != record.id ==> #[trigger] formats::record_of(
                formats::with_record(records, record),
                id,
            ) == formats::record_of(records, id),
    decreases records.len(),
{
    let result = formats::with_record(records, record);
    if records.len() == 0 {
        assert(result[0] == record);
        assert(result.skip(1) =~= records);
    } else {
        let rest = records.skip(1);
        assert(is_registry(rest)) by {
            assert forall|i: int| 0 <= i < rest.len() implies (#[trigger] rest[i]).id
                == types::id_of_path(rest[i].path) by {
                assert(rest[i] == records[i + 1]);
            }
            assert forall|i: int, j: int| 0 <= i < j < rest.len() implies order::precedes(
                (#[trigger] rest[i]).id,
                (#[trigger] rest[j]).id,
            ) by {
                assert(rest[i] == records[i + 1] && rest[j] == records[j + 1]);
            }
        }
        if records[0].id == record.id {
            assert(result.skip(1) =~= rest);
            assert(result[0] == record);
            assert forall|i: int, j: int| 0 <= i < j < result.len() implies order::precedes(
                (#[trigger] result[i]).id,
                (#[trigger] result[j]).id,
            ) by {
                assert(result[j] == records[j]);
                assert(result[i].id == records[i].id);
            }
            assert forall|i: int| 0 <= i < result.len() implies (#[trigger] result[i]).id
                == types::id_of_path(result[i].path) by {
                if i > 0 {
                    assert(result[i] == records[i]);
                }
            }
        } else if order::precedes(record.id, records[0].id) {
            assert(result.skip(1) =~= records);
            assert(result[0] == record);
            assert forall|i: int, j: int| 0 <= i < j < result.len() implies order::precedes(
                (#[trigger] result[i]).id,
                (#[trigger] result[j]).id,
            ) by {
                assert(result[j] == records[j - 1]);
                if i > 0 {
                    assert(result[i] == records[i - 1]);
                } else if j > 1 {
                    assert(order::precedes(records[0].id, records[j - 1].id));
                    order::order_is_transitive(record.id, records[0].id, records[j - 1].id);
                }
            }
            assert forall|i: int| 0 <= i < result.len() implies (#[trigger] result[i]).id
                == types::id_of_path(result[i].path) by {
                if i > 0 {
                    assert(result[i] == records[i - 1]);
                }
            }
        } else {
            registering_keeps_the_registry(rest, record);
            let tail = formats::with_record(rest, record);
            order::order_is_total(records[0].id, record.id);
            assert(result.skip(1) =~= tail);
            assert(result[0] == records[0]);
            assert forall|j: int| 0 <= j < tail.len() implies order::precedes(
                records[0].id,
                (#[trigger] tail[j]).id,
            ) by {
                lemma_with_record_members(rest, record, j);
                if tail[j] != record {
                    let k = choose|k: int| 0 <= k < rest.len() && rest[k] == tail[j];
                    assert(rest[k] == records[k + 1]);
                }
            }
            assert forall|i: int, j: int| 0 <= i < j < result.len() implies order::precedes(
                (#[trigger] result[i]).id,
                (#[trigger] result[j]).id,
            ) by {
                assert(result[j] == tail[j - 1]);
                if i > 0 {
                    assert(result[i] == tail[i - 1]);
                }
            }
            assert forall|i: int| 0 <= i < result.len() implies (#[trigger] result[i]).id
                == types::id_of_path(result[i].path) by {
                if i > 0 {
                    assert(result[i] == tail[i - 1]);
                }
            }
            assert forall|id: Seq<char>| id != record.id implies #[trigger] formats::record_of(
                result,
                id,
            ) == formats::record_of(records, id) by {
                assert(formats::record_of(tail, id) == formats::record_of(rest, id));
            }
        }
    }
}

/// Among records there are, after one is put among them, only it and those that were there.
proof fn lemma_with_record_members(
    records: Seq<RepositoryRecordView>,
    record: RepositoryRecordView,
    at: int,
)
    requires
        0 <= at < formats::with_record(records, record).len(),
    ensures
        formats::with_record(records, record)[at] == record || exists|k: int|
            0 <= k < records.len() && records[k] == formats::with_record(records, record)[at],
    decreases records.len(),
{
    let result = formats::with_record(records, record);
    if records.len() == 0 {
    } else if records[0].id == record.id {
        if at > 0 {
            assert(records[at] == result[at]);
        }
    } else if order::precedes(record.id, records[0].id) {
        if at > 0 {
            assert(records[at - 1] == result[at]);
        }
    } else if at == 0 {
        assert(records[0] == result[0]);
    } else {
        let rest = records.skip(1);
        lemma_with_record_members(rest, record, at - 1);
        assert(result[at] == formats::with_record(rest, record)[at - 1]);
        if result[at] != record {
            let k = choose|k: int| 0 <= k < rest.len() && rest[k] == result[at];
            assert(records[k + 1] == result[at]);
        }
    }
}

/// Whatever lines give records, the records are a registry: ordered, each under the name of its path, and
/// none twice.
pub proof fn read_registry_is_ordered(lines: Seq<Seq<char>>)
    requires
        formats::registry_in(lines) is Ok,
    ensures
        is_registry(formats::registry_in(lines)->Ok_0),
    decreases lines.len(),
{
    if lines.len() > 0 {
        read_registry_is_ordered(lines.drop_last());
        let records = formats::registry_in(lines.drop_last())->Ok_0;
        if lines.last().len() > 0 {
            let record = formats::record_in(
                text::pieces(lines.last(), '\t'),
                lines.len(),
            )->Ok_0;
            registering_keeps_the_registry(records, record);
        }
    }
}

/// Taking a repository out leaves the other records as they are.
pub proof fn removing_keeps_the_others(records: Seq<RepositoryRecordView>, id: Seq<char>)
    ensures
        formats::record_of(formats::without_record(records, id), id) is None,
        forall|other: Seq<char>|
            other != id ==> #[trigger] formats::record_of(
                formats::without_record(records, id),
                other,
            ) == formats::record_of(records, other),
    decreases records.len(),
{
    if records.len() > 0 {
        let before = records.drop_last();
        removing_keeps_the_others(before, id);
        let kept = formats::without_record(before, id);
        assert(before.push(records.last()) =~= records);
        lemma_record_of_longer(kept, records.last(), id);
        assert forall|other: Seq<char>| other != id implies #[trigger] formats::record_of(
            formats::without_record(records, id),
            other,
        ) == formats::record_of(records, other) by {
            assert(formats::record_of(kept, other) == formats::record_of(before, other));
            lemma_record_of_longer(before, records.last(), other);
            lemma_record_of_longer(kept, records.last(), other);
        }
    }
}

/// Where records are followed by one more, it is found where none before it is.
proof fn lemma_record_of_longer(
    records: Seq<RepositoryRecordView>,
    last: RepositoryRecordView,
    id: Seq<char>,
)
    ensures
        formats::record_of(records.push(last), id) == (match formats::record_of(records, id) {
            Some(record) => Some(record),
            None => if last.id == id {
                Some(last)
            } else {
                None
            },
        }),
    decreases records.len(),
{
    let longer = records.push(last);
    if records.len() == 0 {
        assert(longer.skip(1) =~= records);
        assert(formats::record_of(longer.skip(1), id) is None);
        assert(longer[0] == last);
    } else {
        let rest = records.skip(1);
        lemma_record_of_longer(rest, last, id);
        assert(longer.skip(1) =~= rest.push(last));
        assert(longer[0] == records[0]);
    }
}

/// Whether a state can be kept: all names are acceptable.
pub open spec fn is_state(state: AppStateView) -> bool {
    &&& state.active_repo is Some ==> types::is_repo_id(state.active_repo->Some_0)
    &&& forall|i: int|
        0 <= i < state.recent_repos.len() ==> types::is_repo_id(#[trigger] state.recent_repos[i])
}

/// What stands behind a separator, with no further one in it, is one more piece.
proof fn lemma_last_piece(before: Seq<char>, separator: char, last: Seq<char>)
    requires
        forall|i: int| 0 <= i < last.len() ==> (#[trigger] last[i]) != separator,
    ensures
        text::pieces(before + seq![separator] + last, separator) == text::pieces(
            before,
            separator,
        ).push(last),
    decreases before.len(),
{
    let whole = before + seq![separator] + last;
    let at = text::position_of(before, separator) as int;
    text::lemma_position(before, separator);
    assert forall|i: int| 0 <= i < at implies whole[i] != separator by {
        assert(whole[i] == before[i]);
    }
    assert(whole[at] == separator);
    text::lemma_position_unique(whole, separator, at);
    assert(whole.take(at) =~= before.take(at));
    if at < before.len() {
        let rest = before.skip(at + 1);
        lemma_last_piece(rest, separator, last);
        assert(whole.skip(at + 1) =~= rest + seq![separator] + last);
        assert(seq![before.take(at)] + text::pieces(rest, separator).push(last) =~= (
        seq![before.take(at)] + text::pieces(rest, separator)).push(last));
    } else {
        assert(before.take(at) =~= before);
        assert(whole.skip(at + 1) =~= last);
        lemma_only_piece(last, separator);
        assert(seq![before] + seq![last] =~= seq![before].push(last));
    }
}

/// Names with commas between them are told apart again, where there are any.
proof fn lemma_joined_pieces(ids: Seq<Seq<char>>)
    requires
        ids.len() > 0,
        forall|i: int| 0 <= i < ids.len() ==> types::is_repo_id(#[trigger] ids[i]),
    ensures
        text::pieces(text::joined(ids, ","@), ',') == ids,
        forall|i: int|
            0 <= i < text::joined(ids, ","@).len() ==> {
                ||| is_field_character(#[trigger] text::joined(ids, ","@)[i])
                ||| text::joined(ids, ","@)[i] == ','
            },
    decreases ids.len(),
{
    reveal_strlit(",");
    assert(","@ =~= seq![',']);
    let last = ids.last();
    assert(types::is_repo_id(ids[ids.len() - 1]));
    lemma_id_is_field(last);
    assert forall|i: int| 0 <= i < last.len() implies (#[trigger] last[i]) != ',' by {
        assert(is_field_character(last[i]));
    }
    if ids.len() == 1 {
        lemma_only_piece(last, ',');
        assert(seq![last] =~= ids);
    } else {
        let before = ids.drop_last();
        assert forall|i: int| 0 <= i < before.len() implies types::is_repo_id(
            #[trigger] before[i],
        ) by {
            assert(before[i] == ids[i]);
        }
        lemma_joined_pieces(before);
        lemma_last_piece(text::joined(before, ","@), ',', last);
        assert(before.push(last) =~= ids);
        let whole = text::joined(ids, ","@);
        assert forall|i: int| 0 <= i < whole.len() implies {
            ||| is_field_character(#[trigger] whole[i])
            ||| whole[i] == ','
        } by {
            let start = text::joined(before, ","@);
            if i < start.len() {
                assert(whole[i] == start[i]);
            } else if i > start.len() {
                assert(whole[i] == last[i - start.len() - 1]);
            }
        }
    }
}

/// Names with commas between them are told apart again.
proof fn lemma_joined_ids(ids: Seq<Seq<char>>)
    requires
        forall|i: int| 0 <= i < ids.len() ==> types::is_repo_id(#[trigger] ids[i]),
    ensures
        text::filled(text::pieces(text::joined(ids, ","@), ',')) == ids,
        forall|i: int|
            0 <= i < text::joined(ids, ","@).len() ==> {
                ||| is_field_character(#[trigger] text::joined(ids, ","@)[i])
                ||| text::joined(ids, ","@)[i] == ','
            },
    decreases ids.len(),
{
    reveal_strlit(",");
    assert(","@ =~= seq![',']);
    let whole = text::joined(ids, ","@);
    if ids.len() == 0 {
        lemma_only_piece(whole, ',');
        let one = text::pieces(whole, ',');
        assert(one.drop_last() =~= Seq::<Seq<char>>::empty());
        assert(text::filled(one.drop_last()) =~= Seq::<Seq<char>>::empty());
        assert(text::filled(one) =~= ids);
    } else {
        lemma_joined_pieces(ids);
        lemma_all_filled(ids);
    }
}

/// Pieces none of which is empty stay as they are.
proof fn lemma_all_filled(list: Seq<Seq<char>>)
    requires
        forall|i: int| 0 <= i < list.len() ==> (#[trigger] list[i]).len() > 0,
    ensures
        text::filled(list) == list,
    decreases list.len(),
{
    if list.len() > 0 {
        lemma_all_filled(list.drop_last());
        assert(list[list.len() - 1].len() > 0);
        assert(list.drop_last().push(list.last()) =~= list);
    } else {
        assert(list =~= Seq::<Seq<char>>::empty());
    }
}

/// A state that is written is read back as it was.
pub proof fn state_reads_back(state: AppStateView)
    requires
        is_state(state),
    ensures
        formats::state_in(text::text_lines(formats::state_text(state))) == Ok::<_, Seq<char>>(
            state,
        ),
{
    reveal_strlit("");
    reveal_strlit("\n");
    reveal_strlit("active\t");
    reveal_strlit("recent\t");
    reveal_strlit("\nrecent\t");
    let active = match state.active_repo {
        Some(id) => id,
        None => ""@,
    };
    let recent = text::joined(state.recent_repos, ","@);
    let first = "active\t"@ + active;
    let second = "recent\t"@ + recent;
    lemma_joined_ids(state.recent_repos);
    if state.active_repo is Some {
        lemma_id_is_field(active);
    } else {
        assert(active =~= Seq::<char>::empty());
    }
    assert(is_one_line(first)) by {
        assert forall|i: int| 0 <= i < first.len() implies (#[trigger] first[i]) != '\n' by {
            if i >= 7 {
                assert(first[i] == active[i - 7]);
                assert(is_field_character(active[i - 7]));
            }
        }
        if active.len() > 0 {
            assert(is_field_character(active[active.len() - 1]));
            assert(first.last() == active[active.len() - 1]);
        } else {
            assert(first.last() == '\t');
        }
    }
    assert(is_one_line(second)) by {
        assert forall|i: int| 0 <= i < second.len() implies (#[trigger] second[i]) != '\n' by {
            if i >= 7 {
                assert(second[i] == recent[i - 7]);
            }
        }
        if recent.len() > 0 {
            assert(second.last() == recent[recent.len() - 1]);
        } else {
            assert(second.last() == '\t');
        }
    }
    let contents = first + "\n"@;
    assert("\nrecent\t"@ =~= "\n"@ + "recent\t"@);
    assert(formats::state_text(state) =~= contents + (second + "\n"@));
    assert("\n"@ =~= seq!['\n']);
    assert(contents =~= first + seq!['\n'] + Seq::<char>::empty());
    lemma_first_line(first, Seq::empty());
    lemma_one_more_line(contents, second);
    let lines = text::text_lines(formats::state_text(state));
    assert(lines =~= seq![first, second]);
    assert(lines.drop_last() =~= seq![first]);
    assert(seq![first].drop_last() =~= Seq::<Seq<char>>::empty());
    assert(first.take(7) =~= "active\t"@);
    assert(first.skip(7) =~= active);
    assert(second.take(7) =~= "recent\t"@);
    assert(second.skip(7) =~= recent);
    assert(second[0] == 'r' && "active\t"@[0] == 'a');
    assert(!text::has_prefix(second, "active\t"@)) by {
        assert(second.take(7)[0] == 'r');
    }
    let one = AppStateView { active_repo: state.active_repo, recent_repos: Seq::empty() };
    assert(formats::state_in(seq![first]) == Ok::<_, Seq<char>>(one)) by {
        assert(formats::state_in(Seq::<Seq<char>>::empty()) == Ok::<_, Seq<char>>(
            types::empty_state(),
        ));
    }
}

/// The recent repositories after one is used: it comes first, the others stay in order behind it, there
/// are at most as many as are kept, and where none was there twice, none is.
pub proof fn used_repository_comes_first(recent: Seq<Seq<char>>, id: Seq<char>)
    ensures
        operations::with_recent(recent, id).len() > 0,
        operations::with_recent(recent, id)[0] == id,
        operations::with_recent(recent, id).len() <= operations::RECENT_LIMIT,
        recent.no_duplicates() ==> operations::with_recent(recent, id).no_duplicates(),
{
    lemma_without(recent, id);
    let others = operations::without(recent, id);
    let all = seq![id] + others;
    if recent.no_duplicates() {
        assert forall|i: int, j: int| 0 <= i < j < all.len() implies all[i] != all[j] by {
            assert(all[j] == others[j - 1]);
            if i > 0 {
                assert(all[i] == others[i - 1]);
            } else {
                assert(others.contains(others[j - 1]));
            }
        }
    }
}

/// What is left of a list without an element: neither that element nor anything new, in the same order.
proof fn lemma_without(list: Seq<Seq<char>>, id: Seq<char>)
    ensures
        !operations::without(list, id).contains(id),
        operations::without(list, id).len() <= list.len(),
        forall|other: Seq<char>|
            other != id ==> #[trigger] operations::without(list, id).contains(other)
                == list.contains(other),
        list.no_duplicates() ==> operations::without(list, id).no_duplicates(),
    decreases list.len(),
{
    if list.len() > 0 {
        let before = list.drop_last();
        lemma_without(before, id);
        let kept = operations::without(before, id);
        let result = operations::without(list, id);
        assert forall|other: Seq<char>| other != id implies #[trigger] result.contains(other)
            == list.contains(other) by {
            lemma_contains_longer(before, list.last(), other);
            assert(before.push(list.last()) =~= list);
            lemma_contains_longer(kept, list.last(), other);
            assert(kept.contains(other) == before.contains(other));
        }
        lemma_contains_longer(kept, list.last(), id);
        if list.no_duplicates() {
            assert(before.no_duplicates());
            assert(!before.contains(list.last())) by {
                if before.contains(list.last()) {
                    let k = choose|k: int| 0 <= k < before.len() && before[k] == list.last();
                    assert(list[k] == list[list.len() - 1]);
                }
            }
            if list.last() != id {
                assert(!kept.contains(list.last()));
                assert forall|i: int, j: int| 0 <= i < j < result.len() implies result[i]
                    != result[j] by {
                    if j == result.len() - 1 {
                        assert(kept.contains(kept[i]));
                    }
                }
            }
        }
    }
}

/// A longer list holds what it held and the new element.
proof fn lemma_contains_longer(list: Seq<Seq<char>>, last: Seq<char>, other: Seq<char>)
    ensures
        list.push(last).contains(other) == (list.contains(other) || other == last),
{
    let longer = list.push(last);
    if list.contains(other) {
        let k = choose|k: int| 0 <= k < list.len() && list[k] == other;
        assert(longer[k] == other);
    }
    if other == last {
        assert(longer[list.len() as int] == other);
    }
    if longer.contains(other) {
        let k = choose|k: int| 0 <= k < longer.len() && longer[k] == other;
        if k < list.len() {
            assert(list[k] == other);
        }
    }
}

/// A repository that is removed is neither active nor recent afterwards; the others are as they were.
pub proof fn removed_repository_is_forgotten(state: AppStateView, id: Seq<char>)
    ensures
        operations::forgotten(state, id).active_repo != Some(id),
        state.active_repo != Some(id) ==> operations::forgotten(state, id).active_repo
            == state.active_repo,
        !operations::forgotten(state, id).recent_repos.contains(id),
        forall|other: Seq<char>|
            other != id ==> #[trigger] operations::forgotten(state, id).recent_repos.contains(other)
                == state.recent_repos.contains(other),
{
    lemma_without(state.recent_repos, id);
}

/// Whether an entry of the log can be told from others: its repository has an acceptable name, other than
/// the dash that stands for none.
pub open spec fn is_entry(entry: AuditEntryView) -> bool {
    entry.repo_id is Some ==> types::is_repo_id(entry.repo_id->Some_0) && entry.repo_id->Some_0
        != "-"@
}

/// The fields of an entry can be told apart, and the line is one line.
proof fn lemma_entry_line(entry: AuditEntryView, line: nat)
    requires
        is_entry(entry),
    ensures
        is_one_line(formats::entry_line(entry)),
        formats::entry_line(entry).len() > 0,
        formats::entry_in(text::pieces(formats::entry_line(entry), '\t'), line) == Ok::<
            _,
            Seq<char>,
        >(entry),
{
    reveal_strlit("-");
    let timestamp = number::decimal(entry.timestamp as nat);
    let id = match entry.repo_id {
        Some(id) => id,
        None => "-"@,
    };
    let operation = number::hex(utf8::encode_utf8(entry.operation));
    let outcome = number::hex(utf8::encode_utf8(entry.result));
    let message = number::hex(utf8::encode_utf8(entry.message));
    lemma_decimal_is_field(entry.timestamp as nat);
    number::written_number_reads_back(entry.timestamp as nat, u64::MAX as nat);
    assert(is_field(id)) by {
        if entry.repo_id is Some {
            lemma_id_is_field(id);
        }
    }
    lemma_hex_is_field(utf8::encode_utf8(entry.operation));
    lemma_hex_is_field(utf8::encode_utf8(entry.result));
    lemma_hex_is_field(utf8::encode_utf8(entry.message));
    lemma_text_reads_back(entry.operation);
    lemma_text_reads_back(entry.result);
    lemma_text_reads_back(entry.message);
    lemma_five_fields(timestamp, id, operation, outcome, message);
}

/// Five fields are told apart again, and are one line.
proof fn lemma_five_fields(
    first: Seq<char>,
    second: Seq<char>,
    third: Seq<char>,
    fourth: Seq<char>,
    fifth: Seq<char>,
)
    requires
        is_field(first),
        is_field(second),
        is_field(third),
        is_field(fourth),
        is_field(fifth),
    ensures
        ({
            let whole = formats::four_fields(first, second, third, fourth) + "\t"@ + fifth;
            &&& is_one_line(whole)
            &&& whole.len() > 0
            &&& text::pieces(whole, '\t') == seq![first, second, third, fourth, fifth]
        }),
{
    reveal_strlit("\t");
    let tab = seq!['\t'];
    assert("\t"@ =~= tab);
    let whole = formats::four_fields(first, second, third, fourth) + "\t"@ + fifth;
    let behind_third = fourth + tab + fifth;
    let behind_second = third + tab + behind_third;
    let behind_first = second + tab + behind_second;
    assert(whole =~= first + tab + behind_first);
    lemma_field_has_no_tab(first);
    lemma_field_has_no_tab(second);
    lemma_field_has_no_tab(third);
    lemma_field_has_no_tab(fourth);
    lemma_field_has_no_tab(fifth);
    lemma_first_piece(first, '\t', behind_first);
    lemma_first_piece(second, '\t', behind_second);
    lemma_first_piece(third, '\t', behind_third);
    lemma_first_piece(fourth, '\t', fifth);
    lemma_only_piece(fifth, '\t');
    assert(text::pieces(whole, '\t') =~= seq![first, second, third, fourth, fifth]);
    lemma_field_then_line(fourth, fifth);
    lemma_field_then_line(third, behind_third);
    lemma_field_then_line(second, behind_second);
    lemma_field_then_line(first, behind_first);
}

/// There is no tab in a field.
proof fn lemma_field_has_no_tab(field: Seq<char>)
    requires
        is_field(field),
    ensures
        forall|i: int| 0 <= i < field.len() ==> (#[trigger] field[i]) != '\t',
{
    assert forall|i: int| 0 <= i < field.len() implies (#[trigger] field[i]) != '\t' by {
        assert(is_field_character(field[i]));
    }
}

/// A field, a tab and what is part of one line are part of one line.
proof fn lemma_field_then_line(field: Seq<char>, rest: Seq<char>)
    requires
        is_field(field),
        is_field(rest) || is_one_line(rest),
    ensures
        is_one_line(field + seq!['\t'] + rest),
{
    let whole = field + seq!['\t'] + rest;
    assert forall|i: int| 0 <= i < whole.len() implies (#[trigger] whole[i]) != '\n' by {
        if i < field.len() {
            assert(whole[i] == field[i]);
            assert(is_field_character(field[i]));
        } else if i > field.len() {
            assert(whole[i] == rest[i - field.len() - 1]);
            if is_field(rest) {
                assert(is_field_character(rest[i - field.len() - 1]));
            }
        }
    }
    if rest.len() > 0 {
        assert(whole.last() == rest[rest.len() - 1]);
        if is_field(rest) {
            assert(is_field_character(rest[rest.len() - 1]));
        }
    } else {
        assert(whole.last() == '\t');
    }
}

/// An entry that is appended to a log of full lines is read back behind the entries that were there.
pub proof fn appended_entry_reads_back(contents: Seq<char>, entry: AuditEntryView)
    requires
        contents.len() > 0 ==> contents.last() == '\n',
        formats::audit_in(text::text_lines(contents)) is Ok,
        is_entry(entry),
    ensures
        ({
            let longer = contents + (formats::entry_line(entry) + "\n"@);
            &&& longer.last() == '\n'
            &&& formats::audit_in(text::text_lines(longer)) == Ok::<_, Seq<char>>(
                formats::audit_in(text::text_lines(contents))->Ok_0.push(entry),
            )
        }),
{
    reveal_strlit("\n");
    let line = formats::entry_line(entry);
    let lines = text::text_lines(contents).push(line);
    lemma_entry_line(entry, lines.len());
    lemma_one_more_line(contents, line);
    assert(lines.drop_last() =~= text::text_lines(contents));
    assert((line + "\n"@).last() == '\n');
}

/// Whether an action changes what is kept.
pub open spec fn changes_files(action: ActionView) -> bool {
    match action {
        ActionView::WriteNew { .. } => true,
        ActionView::Rename { .. } => true,
        ActionView::Remove { .. } => true,
        ActionView::Append { .. } => true,
        _ => false,
    }
}

/// Whether a part of an operation waits for an action that changes what is kept.
pub open spec fn waits_to_change<T>(step: StoreStep<T>) -> bool {
    match step.result {
        Err(HaltView::Pending(action)) => changes_files(action),
        _ => false,
    }
}

/// Registering changes nothing before the path is known to be in a repository and both files that are kept
/// have been read: a registry or a state that cannot be read stays as it is.
pub proof fn unreadable_store_is_not_changed_by_adding(
    replies: Seq<ReplyView>,
    at: nat,
    paths: StorePathsView,
    path: Seq<u8>,
)
    requires
        waits_to_change(operations::add_step(replies, at, paths, path)),
    ensures
        ({
            let root = operations::root_step(replies, at, path);
            let clock = operations::clock_step(replies, root.next);
            let records = operations::registry_step(replies, clock.next, paths);
            let state = operations::state_step(replies, records.next, paths);
            &&& root.result is Ok && root.result->Ok_0 is Ok
            &&& clock.result is Ok
            &&& records.result is Ok
            &&& state.result is Ok
        }),
{
}

/// Removing changes nothing before both files that are kept have been read.
pub proof fn unreadable_store_is_not_changed_by_removing(
    replies: Seq<ReplyView>,
    at: nat,
    paths: StorePathsView,
    id: Seq<char>,
)
    requires
        waits_to_change(operations::remove_step(replies, at, paths, id)),
    ensures
        ({
            let records = operations::registry_step(replies, at, paths);
            let state = operations::state_step(replies, records.next, paths);
            &&& records.result is Ok
            &&& state.result is Ok
        }),
{
}

/// Whether a new file was written in full just before an answer.
pub open spec fn was_written(
    replies: Seq<ReplyView>,
    next: nat,
    path: Seq<u8>,
    contents: Seq<char>,
) -> bool {
    &&& next > 0
    &&& session::asked::<StoreErrorView>(
        replies,
        (next - 1) as nat,
        ActionView::WriteNew { path, contents },
    ) == session::given::<ReplyView, StoreErrorView>(ReplyView::Done, next)
}

/// What an attempt to write renames.
proof fn lemma_renamed(
    replies: Seq<ReplyView>,
    at: nat,
    path: Seq<u8>,
    contents: Seq<char>,
    process: u64,
    attempt: nat,
    last: Option<IoFailureView>,
)
    ensures
        ({
            let step = files::attempts_step(
                replies,
                at,
                path,
                contents,
                process,
                attempt,
                last,
            );
            match step.result {
                Err(HaltView::Pending(ActionView::Rename { from, to })) => {
                    &&& to == path
                    &&& was_written(replies, step.next, from, contents)
                },
                _ => true,
            }
        }),
    decreases
            if attempt <= files::WRITE_ATTEMPTS {
                files::WRITE_ATTEMPTS - attempt
            } else {
                0
            },
{
    let temporary = files::temporary_path(path, process, attempt);
    let written = session::asked::<StoreErrorView>(
        replies,
        at,
        ActionView::WriteNew { path: temporary, contents },
    );
    if attempt < files::WRITE_ATTEMPTS && written.result is Ok {
        match written.result->Ok_0 {
            ReplyView::Exists(source) => {
                lemma_renamed(
                    replies,
                    written.next,
                    path,
                    contents,
                    process,
                    attempt + 1,
                    Some(source),
                );
            },
            _ => {},
        }
    }
}

/// A file is replaced only by one that holds all of the new contents: the rename is asked for right after the
/// new file was written in full, and it names the file that was to be replaced.
pub proof fn file_is_replaced_only_when_written(
    replies: Seq<ReplyView>,
    at: nat,
    path: Seq<u8>,
    contents: Seq<char>,
)
    ensures
        ({
            let step = files::write_step(replies, at, path, contents);
            match step.result {
                Err(HaltView::Pending(ActionView::Rename { from, to })) => {
                    &&& to == path
                    &&& was_written(replies, step.next, from, contents)
                },
                _ => true,
            }
        }),
{
    let created = files::create_parent_step(replies, at, path);
    let asked = session::asked::<StoreErrorView>(replies, created.next, ActionView::ProcessId);
    lemma_renamed(replies, asked.next, path, contents, asked.result->Ok_0->Number_0, 0, None);
}

/// Where the state cannot be saved, the registry is put back: once the new registry was written, the saving
/// fails only after the registry as it was has been written again, or could not be.
pub proof fn failed_save_restores_the_registry(
    replies: Seq<ReplyView>,
    at: nat,
    paths: StorePathsView,
    before: Seq<RepositoryRecordView>,
    records: Seq<RepositoryRecordView>,
    state: AppStateView,
)
    requires
        files::write_step(
            replies,
            at,
            paths.registry_file,
            formats::registry_text(records),
        ).result is Ok,
    ensures
        ({
            let step = operations::save_step(replies, at, paths, before, records, state);
            let written = files::write_step(
                replies,
                at,
                paths.registry_file,
                formats::registry_text(records),
            );
            let saved = files::write_step(
                replies,
                written.next,
                paths.state_file,
                formats::state_text(state),
            );
            let restored = files::write_step(
                replies,
                saved.next,
                paths.registry_file,
                formats::registry_text(before),
            );
            match step.result {
                Err(HaltView::Failed(error)) => {
                    &&& saved.result is Err && saved.result->Err_0 is Failed
                    &&& step.next == restored.next
                    &&& restored.result is Ok ==> saved.result->Err_0->Failed_0 == error
                    &&& restored.result is Err ==> restored.result == step.result
                },
                _ => true,
            }
        }),
{
}

}
