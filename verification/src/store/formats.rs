//! The files that are kept, as text: lines of fields with a tab between them. Paths and free text are
//! written as hexadecimal digits.
use crate::bytes;
use crate::number;
use crate::order;
use crate::store::types;
use crate::store::types::{
    AppState, AppStateView, AuditEntry, AuditEntryView, RepoId, RepositoryRecord,
    RepositoryRecordView, StoreError, StoreErrorView,
};
use crate::text;
use vstd::prelude::*;
use vstd::utf8;

verus! {

broadcast use crate::bytes::bytes_are_their_view;

/// Something that was read, or why it could not be read.
pub type Read<T> = Result<T, Seq<char>>;

/// The error of something that could not be read; which file it is in is not known yet.
pub open spec fn unread(message: Seq<char>) -> StoreErrorView {
    StoreErrorView::Parse { path: None, message }
}

/// The error of something that could not be read.
pub(crate) fn parse_store_error(message: &str) -> (result: StoreError)
    ensures
        result.deep_view() == unread(message@),
{
    StoreError::Parse { path: None, message: message.to_owned() }
}

/// The values of something that was read, or the error.
pub open spec fn reading<T: DeepView>(result: Result<T, StoreError>) -> Result<
    T::V,
    StoreErrorView,
> {
    match result {
        Ok(value) => Ok(value.deep_view()),
        Err(error) => Err(error.deep_view()),
    }
}

/// What could not be read as an error.
pub open spec fn settled<T>(read: Read<T>) -> Result<T, StoreErrorView> {
    match read {
        Ok(value) => Ok(value),
        Err(message) => Err(unread(message)),
    }
}

/// The name of a repository that a text gives.
pub open spec fn id_in(value: Seq<char>) -> Read<Seq<char>> {
    if types::is_repo_id(value) {
        Ok(value)
    } else {
        Err(types::id_refusal())
    }
}

/// The name of a repository that a text gives.
fn read_id(value: &[char]) -> (result: Result<RepoId, StoreError>)
    ensures
        reading(result) == settled(id_in(value@)),
{
    let name = text::string_of(value);
    RepoId::parse(name.as_str())
}

/// The bytes that hexadecimal digits give.
pub open spec fn bytes_in(value: Seq<char>) -> Read<Seq<u8>> {
    let digits = utf8::encode_utf8(value);
    if digits.len() % 2 != 0 {
        Err("hex value has odd length"@)
    } else {
        match number::unhex(digits) {
            Some(bytes) => Ok(bytes),
            None => Err("invalid hex digit"@),
        }
    }
}

/// The bytes that hexadecimal digits give.
fn decode_bytes(value: &[char]) -> (result: Result<Vec<u8>, StoreError>)
    ensures
        reading(result) == settled(bytes_in(value@)),
{
    let name = text::string_of(value);
    let digits = name.as_str().as_bytes();
    if digits.len() % 2 != 0 {
        return Err(parse_store_error("hex value has odd length"));
    }
    match number::decode_hex(digits) {
        Some(bytes) => Ok(bytes),
        None => Err(parse_store_error("invalid hex digit")),
    }
}

/// The text that hexadecimal digits give.
pub open spec fn text_in(value: Seq<char>) -> Read<Seq<char>> {
    match bytes_in(value) {
        Err(message) => Err(message),
        Ok(bytes) => if utf8::valid_utf8(bytes) {
            Ok(utf8::decode_utf8(bytes))
        } else {
            Err("string is not UTF-8"@)
        },
    }
}

/// The text that hexadecimal digits give.
fn decode_string(value: &[char]) -> (result: Result<String, StoreError>)
    ensures
        reading(result) == settled(text_in(value@)),
{
    match decode_bytes(value) {
        Err(error) => Err(error),
        Ok(decoded) => match bytes::utf8_text(decoded.as_slice()) {
            Ok(decoded) => Ok(decoded),
            Err(_) => Err(parse_store_error("string is not UTF-8")),
        },
    }
}

/// The number that a field gives.
pub open spec fn number_in(value: Seq<char>, label: Seq<char>) -> Read<u64> {
    match number::number_in(value, u64::MAX as nat) {
        Some(number) => Ok(number as u64),
        None => Err(label + " is not a number"@),
    }
}

/// The number that a field gives.
fn parse_u64(value: &[char], label: &str) -> (result: Result<u64, StoreError>)
    ensures
        reading(result) == settled(number_in(value@, label@)),
{
    match number::parse_number(value, u64::MAX) {
        Some(number) => Ok(number),
        None => {
            let message = text::concat2(label, " is not a number");
            Err(parse_store_error(message.as_str()))
        },
    }
}

/// What is said of a line.
pub open spec fn about_line(kind: Seq<char>, line: nat, said: Seq<char>) -> Seq<char> {
    kind + " line "@ + number::decimal(line) + said
}

/// What is said of a line.
fn refuse_line(kind: &str, line: usize, said: &str) -> (result: StoreError)
    ensures
        result.deep_view() == unread(about_line(kind@, line as nat, said@)),
{
    let shown = number::decimal_of(line as u64);
    let message = text::concat4(kind, " line ", shown.as_str(), said);
    parse_store_error(message.as_str())
}

/// The refusal of a line with another number of fields than it should have.
pub open spec fn field_count_refusal(kind: Seq<char>, line: nat, fields: nat) -> Seq<char> {
    about_line(kind, line, " has "@ + number::decimal(fields) + " fields"@)
}

/// The refusal of a line with another number of fields than it should have.
fn refuse_field_count(kind: &str, line: usize, fields: usize) -> (result: StoreError)
    ensures
        result.deep_view() == unread(field_count_refusal(kind@, line as nat, fields as nat)),
{
    let count = number::decimal_of(fields as u64);
    let said = text::concat3(" has ", count.as_str(), " fields");
    refuse_line(kind, line, said.as_str())
}

/// The record that the fields of a line give.
pub open spec fn record_in(fields: Seq<Seq<char>>, line: nat) -> Read<RepositoryRecordView> {
    if fields.len() != 4 {
        Err(field_count_refusal("registry"@, line, fields.len()))
    } else {
        match id_in(fields[0]) {
            Err(message) => Err(message),
            Ok(id) => match bytes_in(fields[1]) {
                Err(message) => Err(message),
                Ok(path) => match number_in(fields[2], "added_at"@) {
                    Err(message) => Err(message),
                    Ok(added_at) => match number_in(fields[3], "last_seen_at"@) {
                        Err(message) => Err(message),
                        Ok(last_seen_at) => if id != types::id_of_path(path) {
                            Err(about_line("registry"@, line, " id does not match path"@))
                        } else {
                            Ok(RepositoryRecordView { id, path, added_at, last_seen_at })
                        },
                    },
                },
            },
        }
    }
}

/// The record that the fields of a line give.
fn read_record(fields: &Vec<&[char]>, line: usize) -> (result: Result<RepositoryRecord, StoreError>)
    ensures
        reading(result) == settled(record_in(text::slices(fields@), line as nat)),
{
    let ghost all = text::slices(fields@);
    if fields.len() != 4 {
        return Err(refuse_field_count("registry", line, fields.len()));
    }
    assert(all[0] == fields@[0]@ && all[1] == fields@[1]@ && all[2] == fields@[2]@ && all[3]
        == fields@[3]@);
    let id = match read_id(fields[0]) {
        Ok(id) => id,
        Err(error) => {
            return Err(error);
        },
    };
    let path = match decode_bytes(fields[1]) {
        Ok(path) => path,
        Err(error) => {
            return Err(error);
        },
    };
    let added_at = match parse_u64(fields[2], "added_at") {
        Ok(added_at) => added_at,
        Err(error) => {
            return Err(error);
        },
    };
    let last_seen_at = match parse_u64(fields[3], "last_seen_at") {
        Ok(last_seen_at) => last_seen_at,
        Err(error) => {
            return Err(error);
        },
    };
    let expected = RepoId::from_path(path.as_slice());
    if !id.same(&expected) {
        return Err(refuse_line("registry", line, " id does not match path"));
    }
    Ok(RepositoryRecord { id, path, added_at, last_seen_at })
}

/// The record of a repository among records, where there is one.
pub open spec fn record_of(records: Seq<RepositoryRecordView>, id: Seq<char>) -> Option<
    RepositoryRecordView,
>
    decreases records.len(),
{
    if records.len() == 0 {
        None
    } else if records[0].id == id {
        Some(records[0])
    } else {
        record_of(records.skip(1), id)
    }
}

/// Records, ordered by name, with one more; it takes the place of one with the same name.
pub open spec fn with_record(
    records: Seq<RepositoryRecordView>,
    record: RepositoryRecordView,
) -> Seq<
    RepositoryRecordView,
>
    decreases records.len(),
{
    if records.len() == 0 {
        seq![record]
    } else if records[0].id == record.id {
        seq![record] + records.skip(1)
    } else if order::precedes(record.id, records[0].id) {
        seq![record] + records
    } else {
        seq![records[0]] + with_record(records.skip(1), record)
    }
}

/// Records without those of a repository.
pub open spec fn without_record(records: Seq<RepositoryRecordView>, id: Seq<char>) -> Seq<
    RepositoryRecordView,
>
    decreases records.len(),
{
    if records.len() == 0 {
        Seq::empty()
    } else if records.last().id == id {
        without_record(records.drop_last(), id)
    } else {
        without_record(records.drop_last(), id).push(records.last())
    }
}

/// The record of a repository among records, where there is one.
pub(crate) fn find_record<'a>(records: &'a Vec<RepositoryRecord>, id: &RepoId) -> (result: Option<
    &'a RepositoryRecord,
>)
    ensures
        (match result {
            Some(record) => Some(record.deep_view()),
            None => None,
        }) == record_of(records.deep_view(), id@),
{
    let ghost all = records.deep_view();
    let mut index: usize = 0;
    assert(all.skip(0) =~= all);
    while index < records.len()
        invariant
            index <= records@.len(),
            all == records.deep_view(),
            record_of(all, id@) == record_of(all.skip(index as int), id@),
        decreases records@.len() - index,
    {
        let ghost rest = all.skip(index as int);
        assert(rest[0] == records@[index as int].deep_view());
        assert(rest.skip(1) =~= all.skip(index + 1));
        if records[index].id.same(id) {
            return Some(&records[index]);
        }
        index += 1;
    }
    None
}

/// Where a name stands behind those of the first records, the record comes behind them.
pub proof fn lemma_with_record_behind(
    records: Seq<RepositoryRecordView>,
    record: RepositoryRecordView,
    count: int,
)
    requires
        0 <= count <= records.len(),
        forall|i: int|
            0 <= i < count ==> (#[trigger] records[i]).id != record.id && !order::precedes(
                record.id,
                records[i].id,
            ),
    ensures
        with_record(records, record) == records.take(count) + with_record(
            records.skip(count),
            record,
        ),
    decreases count,
{
    if count == 0 {
        assert(records.skip(0) =~= records);
        assert(records.take(0) + with_record(records, record) =~= with_record(records, record));
    } else {
        let rest = records.skip(1);
        assert forall|i: int| 0 <= i < count - 1 implies (#[trigger] rest[i]).id != record.id
            && !order::precedes(record.id, rest[i].id) by {
            assert(rest[i] == records[i + 1]);
        }
        lemma_with_record_behind(rest, record, count - 1);
        assert(rest.skip(count - 1) =~= records.skip(count));
        assert(seq![records[0]] + rest.take(count - 1) =~= records.take(count));
        assert(seq![records[0]] + (rest.take(count - 1) + with_record(records.skip(count), record))
            =~= records.take(count) + with_record(records.skip(count), record));
    }
}

/// Puts a record among records.
pub(crate) fn put_record(records: &mut Vec<RepositoryRecord>, record: RepositoryRecord)
    ensures
        final(records).deep_view() == with_record(old(records).deep_view(), record.deep_view()),
{
    let ghost start = records.deep_view();
    let ghost added = record.deep_view();
    let name = text::chars_of(record.id.as_str());
    let mut index: usize = 0;
    while index < records.len()
        invariant
            index <= records@.len(),
            records.deep_view() == start,
            start == old(records).deep_view(),
            added == record.deep_view(),
            name@ == added.id,
            forall|i: int|
                0 <= i < index ==> (#[trigger] start[i]).id != added.id && !order::precedes(
                    added.id,
                    start[i].id,
                ),
        decreases records@.len() - index,
    {
        assert(start[index as int] == records@[index as int].deep_view());
        let other = text::chars_of(records[index].id.as_str());
        let ghost rest = start.skip(index as int);
        assert(rest[0] == start[index as int]);
        if records[index].id.same(&record.id) {
            proof {
                lemma_with_record_behind(start, added, index as int);
            }
            let ghost replaced = rest.skip(1);
            records.set(index, record);
            assert(records.deep_view() =~= start.take(index as int) + (seq![added] + replaced));
            return;
        }
        if order::is_before(name.as_slice(), other.as_slice()) {
            proof {
                lemma_with_record_behind(start, added, index as int);
            }
            records.insert(index, record);
            assert(records.deep_view() =~= start.take(index as int) + (seq![added] + rest));
            return;
        }
        index += 1;
    }
    proof {
        lemma_with_record_behind(start, added, index as int);
        assert(start.skip(index as int) =~= Seq::<RepositoryRecordView>::empty());
        assert(start.take(index as int) =~= start);
    }
    records.push(record);
    assert(records.deep_view() =~= start + seq![added]);
}

/// Records without those of a repository.
pub(crate) fn drop_record(records: Vec<RepositoryRecord>, id: &RepoId) -> (result: Vec<
    RepositoryRecord,
>)
    ensures
        result.deep_view() == without_record(records.deep_view(), id@),
{
    let ghost all = records.deep_view();
    let mut kept: Vec<RepositoryRecord> = Vec::new();
    let mut index: usize = 0;
    assert(kept.deep_view() =~= without_record(all.take(0), id@));
    while index < records.len()
        invariant
            index <= records@.len(),
            all == records.deep_view(),
            kept.deep_view() == without_record(all.take(index as int), id@),
        decreases records@.len() - index,
    {
        let ghost longer = all.take(index + 1);
        assert(longer.drop_last() =~= all.take(index as int));
        assert(longer.last() == records@[index as int].deep_view());
        if !records[index].id.same(id) {
            let ghost before = kept.deep_view();
            let copy = records[index].copied();
            kept.push(copy);
            assert(kept.deep_view() =~= before.push(longer.last()));
        }
        index += 1;
    }
    assert(all.take(index as int) =~= all);
    kept
}

/// A copy of records.
pub(crate) fn copy_records(records: &Vec<RepositoryRecord>) -> (result: Vec<RepositoryRecord>)
    ensures
        result.deep_view() == records.deep_view(),
{
    let mut copies: Vec<RepositoryRecord> = Vec::new();
    let mut index: usize = 0;
    while index < records.len()
        invariant
            index <= records@.len(),
            copies@.len() == index,
            forall|i: int|
                0 <= i < index ==> (#[trigger] copies@[i]).deep_view() == records@[i].deep_view(),
        decreases records@.len() - index,
    {
        let copy = records[index].copied();
        copies.push(copy);
        index += 1;
    }
    assert(copies.deep_view() =~= records.deep_view());
    copies
}

/// The records that the lines of a registry give, ordered by name. Empty lines are left out, and a name
/// may not be repeated.
pub open spec fn registry_in(lines: Seq<Seq<char>>) -> Read<Seq<RepositoryRecordView>>
    decreases lines.len(),
{
    if lines.len() == 0 {
        Ok(Seq::empty())
    } else {
        match registry_in(lines.drop_last()) {
            Err(message) => Err(message),
            Ok(records) => if lines.last().len() == 0 {
                Ok(records)
            } else {
                match record_in(text::pieces(lines.last(), '\t'), lines.len()) {
                    Err(message) => Err(message),
                    Ok(record) => if record_of(records, record.id) is Some {
                        Err(
                            about_line(
                                "registry"@,
                                lines.len(),
                                " duplicates repository id"@,
                            ),
                        )
                    } else {
                        Ok(with_record(records, record))
                    },
                }
            },
        }
    }
}

/// Where a registry cannot be read up to a line, it cannot be read.
proof fn lemma_unread_registry(lines: Seq<Seq<char>>, count: int)
    requires
        0 <= count <= lines.len(),
        registry_in(lines.take(count)) is Err,
    ensures
        registry_in(lines) == registry_in(lines.take(count)),
    decreases lines.len() - count,
{
    if count < lines.len() {
        assert(lines.take(count + 1).drop_last() =~= lines.take(count));
        lemma_unread_registry(lines, count + 1);
    } else {
        assert(lines.take(count) =~= lines);
    }
}

/// Reads a registry.
pub fn parse_registry(contents: &str) -> (result: Result<Vec<RepositoryRecord>, StoreError>)
    ensures
        reading(result) == settled(registry_in(text::text_lines(contents@))),
{
    let characters = text::chars_of(contents);
    let lines = text::lines(characters.as_slice());
    let ghost all = text::slices(lines@);
    let mut records: Vec<RepositoryRecord> = Vec::new();
    let mut index: usize = 0;
    assert(records.deep_view() =~= Seq::<RepositoryRecordView>::empty());
    while index < lines.len()
        invariant
            index <= lines@.len(),
            all == text::slices(lines@),
            all == text::text_lines(contents@),
            registry_in(all.take(index as int)) == Ok::<_, Seq<char>>(records.deep_view()),
        decreases lines@.len() - index,
    {
        let line = lines[index];
        let ghost longer = all.take(index + 1);
        assert(longer.drop_last() =~= all.take(index as int));
        assert(longer.last() == line@);
        index += 1;
        if line.len() > 0 {
            let fields = text::split(line, '\t');
            match read_record(&fields, index) {
                Err(error) => {
                    proof {
                        lemma_unread_registry(all, index as int);
                    }
                    return Err(error);
                },
                Ok(record) => {
                    if find_record(&records, &record.id).is_some() {
                        proof {
                            lemma_unread_registry(all, index as int);
                        }
                        return Err(refuse_line("registry", index, " duplicates repository id"));
                    }
                    put_record(&mut records, record);
                },
            }
        }
    }
    assert(all.take(index as int) =~= all);
    Ok(records)
}

/// Four fields as a line.
pub open spec fn four_fields(
    first: Seq<char>,
    second: Seq<char>,
    third: Seq<char>,
    fourth: Seq<char>,
) -> Seq<char> {
    first + "\t"@ + second + "\t"@ + third + "\t"@ + fourth
}

/// A record as a line.
pub open spec fn record_line(record: RepositoryRecordView) -> Seq<char> {
    four_fields(
        record.id,
        number::hex(record.path),
        number::decimal(record.added_at as nat),
        number::decimal(record.last_seen_at as nat),
    )
}

/// Records as the text of a registry.
pub open spec fn registry_text(records: Seq<RepositoryRecordView>) -> Seq<char>
    decreases records.len(),
{
    if records.len() == 0 {
        Seq::empty()
    } else {
        registry_text(records.drop_last()) + (record_line(records.last()) + "\n"@)
    }
}

/// A record as a line.
fn format_record(record: &RepositoryRecord) -> (result: String)
    ensures
        result@ == record_line(record.deep_view()) + "\n"@,
{
    let path = number::encode_hex(record.path.as_slice());
    let added_at = number::decimal_of(record.added_at);
    let last_seen_at = number::decimal_of(record.last_seen_at);
    let start = text::concat5(record.id.as_str(), "\t", path.as_str(), "\t", added_at.as_str());
    text::concat4(start.as_str(), "\t", last_seen_at.as_str(), "\n")
}

/// Records as the text of a registry.
pub fn format_registry(records: &Vec<RepositoryRecord>) -> (result: String)
    ensures
        result@ == registry_text(records.deep_view()),
{
    let ghost all = records.deep_view();
    let mut result = String::new();
    let mut index: usize = 0;
    while index < records.len()
        invariant
            index <= records@.len(),
            all == records.deep_view(),
            result@ == registry_text(all.take(index as int)),
        decreases records@.len() - index,
    {
        let ghost longer = all.take(index + 1);
        assert(longer.drop_last() =~= all.take(index as int));
        assert(longer.last() == records@[index as int].deep_view());
        let line = format_record(&records[index]);
        result = text::concat2(result.as_str(), line.as_str());
        index += 1;
    }
    assert(all.take(index as int) =~= all);
    result
}

/// The names of repositories that texts give.
pub open spec fn ids_in(values: Seq<Seq<char>>) -> Read<Seq<Seq<char>>> {
    if forall|i: int| 0 <= i < values.len() ==> types::is_repo_id(#[trigger] values[i]) {
        Ok(values)
    } else {
        Err(types::id_refusal())
    }
}

/// The names of repositories that texts give.
fn read_ids(values: &Vec<&[char]>) -> (result: Result<Vec<RepoId>, StoreError>)
    ensures
        reading(result) == settled(ids_in(text::slices(values@))),
{
    let ghost all = text::slices(values@);
    let mut ids: Vec<RepoId> = Vec::new();
    let mut index: usize = 0;
    while index < values.len()
        invariant
            index <= values@.len(),
            all == text::slices(values@),
            ids@.len() == index,
            forall|i: int| 0 <= i < index ==> (#[trigger] ids@[i])@ == all[i],
            forall|i: int| 0 <= i < index ==> types::is_repo_id(#[trigger] all[i]),
        decreases values@.len() - index,
    {
        assert(all[index as int] == values@[index as int]@);
        match read_id(values[index]) {
            Ok(id) => {
                ids.push(id);
            },
            Err(error) => {
                return Err(error);
            },
        }
        index += 1;
    }
    assert(ids.deep_view() =~= all);
    Ok(ids)
}

/// A state after one more line.
pub open spec fn state_after(state: AppStateView, line: Seq<char>) -> Read<AppStateView> {
    if text::has_prefix(line, "active\t"@) {
        let value = line.skip("active\t"@.len() as int);
        if value.len() == 0 {
            Ok(state)
        } else {
            match id_in(value) {
                Ok(id) => Ok(AppStateView { active_repo: Some(id), ..state }),
                Err(message) => Err(message),
            }
        }
    } else if text::has_prefix(line, "recent\t"@) {
        let value = line.skip("recent\t"@.len() as int);
        match ids_in(text::filled(text::pieces(value, ','))) {
            Ok(ids) => Ok(AppStateView { recent_repos: ids, ..state }),
            Err(message) => Err(message),
        }
    } else if line.len() > 0 {
        Err("unknown state line: "@ + line)
    } else {
        Ok(state)
    }
}

/// A state after one more line.
fn read_state_line(state: AppState, line: &[char]) -> (result: Result<AppState, StoreError>)
    ensures
        reading(result) == settled(state_after(state.deep_view(), line@)),
{
    match text::strip_text_prefix(line, "active\t") {
        Some(value) => {
            if value.len() == 0 {
                return Ok(state);
            }
            return match read_id(value) {
                Ok(id) => Ok(AppState { active_repo: Some(id), ..state }),
                Err(error) => Err(error),
            };
        },
        None => {},
    }
    match text::strip_text_prefix(line, "recent\t") {
        Some(value) => {
            let values = text::split_filled(value, ',');
            return match read_ids(&values) {
                Ok(ids) => Ok(AppState { recent_repos: ids, ..state }),
                Err(error) => Err(error),
            };
        },
        None => {},
    }
    if line.len() > 0 {
        let shown = text::string_of(line);
        let message = text::concat2("unknown state line: ", shown.as_str());
        return Err(parse_store_error(message.as_str()));
    }
    Ok(state)
}

/// The state that lines give; of two lines of one kind the last counts.
pub open spec fn state_in(lines: Seq<Seq<char>>) -> Read<AppStateView>
    decreases lines.len(),
{
    if lines.len() == 0 {
        Ok(types::empty_state())
    } else {
        match state_in(lines.drop_last()) {
            Err(message) => Err(message),
            Ok(state) => state_after(state, lines.last()),
        }
    }
}

/// Where a state cannot be read up to a line, it cannot be read.
proof fn lemma_unread_state(lines: Seq<Seq<char>>, count: int)
    requires
        0 <= count <= lines.len(),
        state_in(lines.take(count)) is Err,
    ensures
        state_in(lines) == state_in(lines.take(count)),
    decreases lines.len() - count,
{
    if count < lines.len() {
        assert(lines.take(count + 1).drop_last() =~= lines.take(count));
        lemma_unread_state(lines, count + 1);
    } else {
        assert(lines.take(count) =~= lines);
    }
}

/// Reads a state.
pub fn parse_state(contents: &str) -> (result: Result<AppState, StoreError>)
    ensures
        reading(result) == settled(state_in(text::text_lines(contents@))),
{
    let characters = text::chars_of(contents);
    let lines = text::lines(characters.as_slice());
    let ghost all = text::slices(lines@);
    let mut state = AppState::default();
    let mut index: usize = 0;
    while index < lines.len()
        invariant
            index <= lines@.len(),
            all == text::slices(lines@),
            all == text::text_lines(contents@),
            state_in(all.take(index as int)) == Ok::<_, Seq<char>>(state.deep_view()),
        decreases lines@.len() - index,
    {
        let ghost longer = all.take(index + 1);
        assert(longer.drop_last() =~= all.take(index as int));
        assert(longer.last() == lines@[index as int]@);
        match read_state_line(state, lines[index]) {
            Ok(next) => {
                state = next;
            },
            Err(error) => {
                proof {
                    lemma_unread_state(all, index + 1);
                }
                return Err(error);
            },
        }
        index += 1;
    }
    assert(all.take(index as int) =~= all);
    Ok(state)
}

/// A state as text.
pub open spec fn state_text(state: AppStateView) -> Seq<char> {
    let active = match state.active_repo {
        Some(id) => id,
        None => ""@,
    };
    "active\t"@ + active + "\nrecent\t"@ + text::joined(state.recent_repos, ","@) + "\n"@
}

/// A state as text.
pub fn format_state(state: &AppState) -> (result: String)
    ensures
        result@ == state_text(state.deep_view()),
{
    let active = match &state.active_repo {
        Some(id) => id.as_str(),
        None => "",
    };
    let mut names: Vec<String> = Vec::new();
    let mut index: usize = 0;
    while index < state.recent_repos.len()
        invariant
            index <= state.recent_repos@.len(),
            names@.len() == index,
            forall|i: int| 0 <= i < index ==> (#[trigger] names@[i])@ == state.recent_repos@[i]@,
        decreases state.recent_repos@.len() - index,
    {
        names.push(state.recent_repos[index].as_str().to_owned());
        index += 1;
    }
    assert(names.deep_view() =~= state.recent_repos.deep_view());
    let recent = text::join(&names, ",");
    text::concat5("active\t", active, "\nrecent\t", recent.as_str(), "\n")
}

/// The entry that the fields of a line give.
pub open spec fn entry_in(fields: Seq<Seq<char>>, line: nat) -> Read<AuditEntryView> {
    if fields.len() != 5 {
        Err(field_count_refusal("audit"@, line, fields.len()))
    } else {
        match number_in(fields[0], "timestamp"@) {
            Err(message) => Err(message),
            Ok(timestamp) => match optional_id_in(fields[1]) {
                Err(message) => Err(message),
                Ok(repo_id) => match text_in(fields[2]) {
                    Err(message) => Err(message),
                    Ok(operation) => match text_in(fields[3]) {
                        Err(message) => Err(message),
                        Ok(result) => match text_in(fields[4]) {
                            Err(message) => Err(message),
                            Ok(message) => Ok(
                                AuditEntryView { timestamp, repo_id, operation, result, message },
                            ),
                        },
                    },
                },
            },
        }
    }
}

/// The name of a repository that a field gives; a dash stands for none.
pub open spec fn optional_id_in(field: Seq<char>) -> Read<Option<Seq<char>>> {
    if field == "-"@ {
        Ok(None)
    } else {
        match id_in(field) {
            Ok(id) => Ok(Some(id)),
            Err(message) => Err(message),
        }
    }
}

/// The name of a repository that a field gives.
fn read_optional_id(field: &[char]) -> (result: Result<Option<RepoId>, StoreError>)
    ensures
        reading(result) == settled(optional_id_in(field@)),
{
    if text::is_text(field, "-") {
        return Ok(None);
    }
    match read_id(field) {
        Ok(id) => Ok(Some(id)),
        Err(error) => Err(error),
    }
}

/// The entry that the fields of a line give.
fn read_entry(fields: &Vec<&[char]>, line: usize) -> (result: Result<AuditEntry, StoreError>)
    ensures
        reading(result) == settled(entry_in(text::slices(fields@), line as nat)),
{
    let ghost all = text::slices(fields@);
    if fields.len() != 5 {
        return Err(refuse_field_count("audit", line, fields.len()));
    }
    assert(all[0] == fields@[0]@ && all[1] == fields@[1]@ && all[2] == fields@[2]@ && all[3]
        == fields@[3]@ && all[4] == fields@[4]@);
    let timestamp = match parse_u64(fields[0], "timestamp") {
        Ok(timestamp) => timestamp,
        Err(error) => {
            return Err(error);
        },
    };
    let repo_id = match read_optional_id(fields[1]) {
        Ok(repo_id) => repo_id,
        Err(error) => {
            return Err(error);
        },
    };
    let operation = match decode_string(fields[2]) {
        Ok(operation) => operation,
        Err(error) => {
            return Err(error);
        },
    };
    let outcome = match decode_string(fields[3]) {
        Ok(outcome) => outcome,
        Err(error) => {
            return Err(error);
        },
    };
    match decode_string(fields[4]) {
        Ok(message) => Ok(AuditEntry { timestamp, repo_id, operation, result: outcome, message }),
        Err(error) => Err(error),
    }
}

/// The entries that the lines of a log give; empty lines are left out.
pub open spec fn audit_in(lines: Seq<Seq<char>>) -> Read<Seq<AuditEntryView>>
    decreases lines.len(),
{
    if lines.len() == 0 {
        Ok(Seq::empty())
    } else {
        match audit_in(lines.drop_last()) {
            Err(message) => Err(message),
            Ok(entries) => if lines.last().len() == 0 {
                Ok(entries)
            } else {
                match entry_in(text::pieces(lines.last(), '\t'), lines.len()) {
                    Err(message) => Err(message),
                    Ok(entry) => Ok(entries.push(entry)),
                }
            },
        }
    }
}

/// Where a log cannot be read up to a line, it cannot be read.
proof fn lemma_unread_audit(lines: Seq<Seq<char>>, count: int)
    requires
        0 <= count <= lines.len(),
        audit_in(lines.take(count)) is Err,
    ensures
        audit_in(lines) == audit_in(lines.take(count)),
    decreases lines.len() - count,
{
    if count < lines.len() {
        assert(lines.take(count + 1).drop_last() =~= lines.take(count));
        lemma_unread_audit(lines, count + 1);
    } else {
        assert(lines.take(count) =~= lines);
    }
}

/// Reads a log.
pub fn parse_audit_entries(contents: &str) -> (result: Result<Vec<AuditEntry>, StoreError>)
    ensures
        reading(result) == settled(audit_in(text::text_lines(contents@))),
{
    let characters = text::chars_of(contents);
    let lines = text::lines(characters.as_slice());
    let ghost all = text::slices(lines@);
    let mut entries: Vec<AuditEntry> = Vec::new();
    let mut index: usize = 0;
    assert(entries.deep_view() =~= Seq::<AuditEntryView>::empty());
    while index < lines.len()
        invariant
            index <= lines@.len(),
            all == text::slices(lines@),
            all == text::text_lines(contents@),
            audit_in(all.take(index as int)) == Ok::<_, Seq<char>>(entries.deep_view()),
        decreases lines@.len() - index,
    {
        let line = lines[index];
        let ghost longer = all.take(index + 1);
        assert(longer.drop_last() =~= all.take(index as int));
        assert(longer.last() == line@);
        index += 1;
        if line.len() > 0 {
            let fields = text::split(line, '\t');
            match read_entry(&fields, index) {
                Err(error) => {
                    proof {
                        lemma_unread_audit(all, index as int);
                    }
                    return Err(error);
                },
                Ok(entry) => {
                    let ghost before = entries.deep_view();
                    entries.push(entry);
                    assert(entries.deep_view() =~= before.push(entry.deep_view()));
                },
            }
        }
    }
    assert(all.take(index as int) =~= all);
    Ok(entries)
}

/// An entry as a line.
pub open spec fn entry_line(entry: AuditEntryView) -> Seq<char> {
    let id = match entry.repo_id {
        Some(id) => id,
        None => "-"@,
    };
    four_fields(
        number::decimal(entry.timestamp as nat),
        id,
        number::hex(utf8::encode_utf8(entry.operation)),
        number::hex(utf8::encode_utf8(entry.result)),
    ) + "\t"@ + number::hex(utf8::encode_utf8(entry.message))
}

/// An entry as a line.
pub fn format_audit_entry(entry: &AuditEntry) -> (result: String)
    ensures
        result@ == entry_line(entry.deep_view()) + "\n"@,
{
    let timestamp = number::decimal_of(entry.timestamp);
    let id = match &entry.repo_id {
        Some(id) => id.as_str(),
        None => "-",
    };
    let operation = number::encode_hex(entry.operation.as_str().as_bytes());
    let outcome = number::encode_hex(entry.result.as_str().as_bytes());
    let message = number::encode_hex(entry.message.as_str().as_bytes());
    let start = text::concat5(timestamp.as_str(), "\t", id, "\t", operation.as_str());
    let middle = text::concat3(start.as_str(), "\t", outcome.as_str());
    text::concat4(middle.as_str(), "\t", message.as_str(), "\n")
}

}
