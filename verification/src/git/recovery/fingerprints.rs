//! What a fingerprint promises: it is the same where everything that it lists is the same, and another
//! where anything that it lists is another, unless SHA-256 collides. So a recovery that was prepared is
//! refused where anything that was listed changed meanwhile.
use crate::bytes;
use crate::digest;
use crate::git::recovery::bounded;
use crate::git::recovery::collisions;
use crate::git::recovery::drivers;
use crate::git::recovery::files;
use crate::git::recovery::lock::RecoveryLockView;
use crate::git::recovery::operations;
use crate::git::recovery::operations::RecoveryStateView;
use crate::git::recovery::records;
use crate::git::recovery::records::Record;
use crate::git::recovery::safety::RecoveryProbeSafetyView;
use crate::git::recovery::state;
use crate::git::recovery::survey;
use crate::git::recovery::survey::{LookView, SurveyView, Traces};
use crate::git::types::{GitErrorView, GitOutputView, RecoveryAction, RepositoryOperation};
use crate::session;
use crate::session::{ActionView, BoundedCommandPolicy, HaltView, ReplyView};
use crate::text;
use vstd::prelude::*;
use vstd::utf8;

verus! {

/// Whether something at a path is listed under a label.
pub open spec fn is_listed(records: Seq<Record>, label: Seq<u8>) -> bool {
    exists|i: int|
        0 <= i < records.len() && records::is_of_path(#[trigger] records[i])
            && records::leading_field(records[i]) == label
}

/// Whether records are of something at a path with a label, and of what is below it.
spec fn of_label(records: Seq<Record>, label: Seq<u8>) -> bool {
    &&& records.len() > 0
    &&& records::leading_field(records[0]) == label
    &&& forall|i: int|
        0 <= i < records.len() ==> records::is_of_path(#[trigger] records[i]) && (
        records::leading_field(records[i]) == label || records::leading_field(records[i]).contains(
            47u8,
        ))
}

/// Whether records are of things below a path.
spec fn below_label(records: Seq<Record>) -> bool {
    forall|i: int|
        0 <= i < records.len() ==> records::is_of_path(#[trigger] records[i])
            && records::leading_field(records[i]).contains(47u8)
}

/// A look at a path lists what is there under the label of the look.
proof fn lemma_path_records(
    replies: Seq<ReplyView>,
    at: nat,
    label: Seq<u8>,
    path: Seq<u8>,
    depth: nat,
    entries: nat,
    look: LookView,
)
    requires
        survey::path_step(replies, at, label, path, depth, entries, look).result is Ok,
    ensures
        of_label(
            survey::path_step(
                replies,
                at,
                label,
                path,
                depth,
                entries,
                look,
            ).result->Ok_0.records,
            label,
        ),
    decreases survey::room(entries), 0nat,
{
    let capacity = survey::capacity_step(replies, at, entries);
    let opened = session::asked::<GitErrorView>(
        replies,
        capacity.next,
        ActionView::Open { path },
    );
    let link = survey::link_step(replies, opened.next, path);
    let space = survey::capacity_step(replies, link.next, entries + 1);
    match opened.result->Ok_0 {
        ReplyView::Symlink => {
            if look.follow {
                lemma_path_records(
                    replies,
                    space.next,
                    label,
                    survey::link_destination(path, link.result->Ok_0.1),
                    depth + 1,
                    entries + 1,
                    look,
                );
            }
        },
        ReplyView::Opened { handle, metadata } => {
            if metadata.kind == session::FileKind::Directory {
                let names = survey::children_step(replies, opened.next, path, handle, entries + 1);
                lemma_listed_records(
                    replies,
                    names.next,
                    label,
                    path,
                    depth,
                    entries + 1,
                    look,
                    names.result->Ok_0,
                );
            }
        },
        _ => {},
    }
}

/// A look at what is in a directory lists it below the label of the directory.
proof fn lemma_listed_records(
    replies: Seq<ReplyView>,
    at: nat,
    label: Seq<u8>,
    path: Seq<u8>,
    depth: nat,
    entries: nat,
    look: LookView,
    names: Seq<Seq<u8>>,
)
    requires
        survey::listed_step(replies, at, label, path, depth, entries, look, names).result is Ok,
    ensures
        below_label(
            survey::listed_step(
                replies,
                at,
                label,
                path,
                depth,
                entries,
                look,
                names,
            ).result->Ok_0.records,
        ),
    decreases survey::room(entries), names.len(),
{
    if names.len() > 0 {
        let before = survey::listed_step(
            replies,
            at,
            label,
            path,
            depth,
            entries,
            look,
            names.drop_last(),
        );
        let done = before.result->Ok_0;
        let capacity = survey::capacity_step(replies, before.next, entries + done.entries);
        let inner = survey::child_label(label, names.last());
        lemma_listed_records(replies, at, label, path, depth, entries, look, names.drop_last());
        lemma_path_records(
            replies,
            capacity.next,
            inner,
            bytes::joined_path(path, names.last()),
            depth,
            entries + done.entries,
            survey::after(look, done.spent),
        );
        assert(inner[label.len() as int] == 47u8);
    }
}

/// The names of operations hold no slash.
proof fn lemma_operations_hold_no_slash()
    ensures
        !records::operation_bytes(RepositoryOperation::Merge).contains(47u8),
        !records::operation_bytes(RepositoryOperation::Rebase).contains(47u8),
{
    reveal_strlit("merge");
    reveal_strlit("rebase");
    utf8::is_ascii_chars_encode_utf8("merge"@);
    utf8::is_ascii_chars_encode_utf8("rebase"@);
}

/// A word that is not the name of an operation is not so as a label either.
proof fn lemma_plain_word(word: Seq<char>)
    requires
        word != "merge"@,
        word != "rebase"@,
    ensures
        records::is_plain_label(utf8::encode_utf8(word)),
{
    utf8::encode_utf8_decode_utf8(word);
    utf8::encode_utf8_decode_utf8("merge"@);
    utf8::encode_utf8_decode_utf8("rebase"@);
}

/// Whether a survey goes on where another ends.
#[verifier::opaque]
spec fn goes_on(before: SurveyView, after: SurveyView) -> bool {
    &&& before.records.len() <= after.records.len()
    &&& before.probes.len() <= after.probes.len()
    &&& forall|i: int|
        0 <= i < before.records.len() ==> before.records[i] == #[trigger] after.records[i]
    &&& forall|i: int|
        0 <= i < before.probes.len() ==> before.probes[i] == #[trigger] after.probes[i]
}

/// What is listed stays listed.
proof fn lemma_stays_listed(before: SurveyView, after: SurveyView, label: Seq<u8>)
    requires
        goes_on(before, after),
        is_listed(before.records, label),
    ensures
        is_listed(after.records, label),
{
    reveal(goes_on);
    let i = choose|i: int|
        0 <= i < before.records.len() && records::is_of_path(#[trigger] before.records[i])
            && records::leading_field(before.records[i]) == label;
    assert(after.records[i] == before.records[i]);
}

/// Whether the bytes of a survey stand for its records, and the records can be told apart.
#[verifier::opaque]
spec fn is_readable(survey: SurveyView) -> bool {
    &&& survey.transcript == records::transcript_of(survey.records)
    &&& records::told_apart(survey.records)
}

/// Whether a survey ends with a digest alone.
spec fn ends_with_digest(survey: SurveyView) -> bool {
    survey.records.len() > 0 && survey.records.last() is Output
}

/// A survey stays readable with one more command, or with the recovery that is meant.
proof fn lemma_one_more(survey: SurveyView, record: Record)
    requires
        is_readable(survey),
        !records::is_of_path(record),
    ensures
        is_readable(survey::with_record(survey, record)),
        goes_on(survey, survey::with_record(survey, record)),
{
    reveal(is_readable);
    reveal(goes_on);
    records::lemma_transcript_of_one(record);
    records::lemma_transcript_of_both(survey.records, seq![record]);
    records::lemma_told_apart_both(survey.records, seq![record]);
    assert(survey.records.push(record) =~= survey.records + seq![record]);
}

/// A survey stays readable after a look at a path.
proof fn lemma_one_more_look(survey: SurveyView, traces: Traces, label: Seq<u8>)
    requires
        is_readable(survey),
        of_label(traces.records, label),
        records::is_plain_label(label),
        ends_with_digest(survey) ==> !records::is_kind_sized(label),
    ensures
        is_readable(survey::extended(survey, traces)),
        goes_on(survey, survey::extended(survey, traces)),
        !ends_with_digest(survey::extended(survey, traces)),
        is_listed(survey::extended(survey, traces).records, label),
{
    reveal(is_readable);
    reveal(goes_on);
    let added = traces.records;
    lemma_operations_hold_no_slash();
    assert forall|i: int|
        0 <= i < added.len() && records::is_of_path(#[trigger] added[i]) implies records::is_plain_label(
        records::leading_field(added[i]),
    ) by {}
    assert(records::told_apart(added)) by {
        assert forall|i: int| 0 < i < added.len() implies records::may_follow(
            added[i - 1],
            #[trigger] added[i],
        ) by {
            assert(records::is_of_path(added[i - 1]));
        }
    }
    assert(records::is_of_path(added[0]));
    records::lemma_transcript_of_both(survey.records, added);
    records::lemma_told_apart_both(survey.records, added);
    let after = survey::extended(survey, traces);
    assert(after.records[survey.records.len() as int] == added[0]);
    assert(after.records.last() == added.last());
    assert(records::is_of_path(added.last()));
}

/// Taking in what a path leads to keeps a survey readable.
proof fn lemma_path_into(
    replies: Seq<ReplyView>,
    at: nat,
    survey: SurveyView,
    label: Seq<u8>,
    path: Seq<u8>,
)
    requires
        state::path_into_step(replies, at, survey, label, path).result is Ok,
        is_readable(survey),
        records::is_plain_label(label),
        ends_with_digest(survey) ==> !records::is_kind_sized(label),
    ensures
        ({
            let after = state::path_into_step(replies, at, survey, label, path).result->Ok_0;
            &&& is_readable(after)
            &&& goes_on(survey, after)
            &&& !ends_with_digest(after)
            &&& is_listed(after.records, label)
        }),
{
    let look = survey::look_view(true, None, state::input_limit_refusal());
    let step = survey::path_step(replies, at, label, path, 0, survey.entries, look);
    lemma_path_records(replies, at, label, path, 0, survey.entries, look);
    lemma_one_more_look(survey, step.result->Ok_0, label);
}

/// Taking in files of the repository's own keeps a survey readable, and lists each of them.
proof fn lemma_control(
    replies: Seq<ReplyView>,
    at: nat,
    survey: SurveyView,
    names: Seq<Seq<char>>,
)
    requires
        state::control_step(replies, at, survey, names).result is Ok,
        is_readable(survey),
        forall|i: int|
            0 <= i < names.len() ==> records::is_plain_label(
                utf8::encode_utf8(#[trigger] names[i]),
            ),
        names.len() > 0 && ends_with_digest(survey) ==> !records::is_kind_sized(
            utf8::encode_utf8(names[0]),
        ),
    ensures
        ({
            let after = state::control_step(replies, at, survey, names).result->Ok_0;
            &&& is_readable(after)
            &&& goes_on(survey, after)
            &&& forall|i: int|
                0 <= i < names.len() ==> is_listed(
                    after.records,
                    utf8::encode_utf8(#[trigger] names[i]),
                )
        }),
    decreases names.len(),
{
    if names.len() > 0 {
        let path = bounded::git_path_until_step(replies, at, names[0]);
        let label = utf8::encode_utf8(names[0]);
        let taken = state::path_into_step(replies, path.next, survey, label, path.result->Ok_0);
        let rest = names.skip(1);
        let middle = taken.result->Ok_0;
        let after = state::control_step(replies, taken.next, middle, rest).result->Ok_0;
        assert forall|i: int| 0 <= i < rest.len() implies records::is_plain_label(
            utf8::encode_utf8(#[trigger] rest[i]),
        ) by {
            assert(rest[i] == names[i + 1]);
        }
        assert(records::is_plain_label(utf8::encode_utf8(names[0])));
        lemma_path_into(replies, path.next, survey, label, path.result->Ok_0);
        lemma_control(replies, taken.next, middle, rest);
        lemma_goes_on(survey, middle, after);
        lemma_stays_listed(middle, after, label);
        assert forall|i: int| 0 <= i < names.len() implies is_listed(
            after.records,
            utf8::encode_utf8(#[trigger] names[i]),
        ) by {
            if i > 0 {
                assert(rest[i - 1] == names[i]);
            }
        }
    } else {
        reveal(goes_on);
    }
}

/// The names of the repository's own files are no names of operations, and the first is a short one.
proof fn lemma_control_names()
    ensures
        forall|i: int|
            0 <= i < state::control_paths().len() ==> records::is_plain_label(
                utf8::encode_utf8(#[trigger] state::control_paths()[i]),
            ),
        state::control_paths().len() > 0,
        !records::is_kind_sized(utf8::encode_utf8(state::control_paths()[0])),
{
    reveal_strlit("merge");
    reveal_strlit("rebase");
    reveal_strlit("HEAD");
    reveal_strlit("index");
    reveal_strlit("ORIG_HEAD");
    reveal_strlit("MERGE_HEAD");
    reveal_strlit("MERGE_MSG");
    reveal_strlit("MERGE_MODE");
    reveal_strlit("MERGE_AUTOSTASH");
    reveal_strlit("MERGE_RR");
    reveal_strlit("AUTO_MERGE");
    reveal_strlit("SQUASH_MSG");
    reveal_strlit("REBASE_HEAD");
    reveal_strlit("CHERRY_PICK_HEAD");
    reveal_strlit("REVERT_HEAD");
    reveal_strlit("BISECT_HEAD");
    reveal_strlit("rebase-apply");
    reveal_strlit("rebase-merge");
    reveal_strlit("sequencer");
    reveal_strlit("rr-cache");
    reveal_strlit("info/attributes");
    reveal_strlit("info/sparse-checkout");
    utf8::is_ascii_chars_encode_utf8("HEAD"@);
    assert("index"@[0] != "merge"@[0]);
    let names = state::control_paths();
    assert forall|i: int| 0 <= i < names.len() implies records::is_plain_label(
        utf8::encode_utf8(#[trigger] names[i]),
    ) by {
        assert("rebase"@.len() == 6);
        assert(names[i].len() != 6);
        lemma_plain_word(names[i]);
    }
}

/// Whether a survey starts with the settings and the outputs that every fingerprint lists first: four
/// commands with their codes, and then the digests of the status, of the changes of the working tree and
/// of the index, of the refs, and of all settings.
pub open spec fn starts_with_outputs(survey: SurveyView) -> bool {
    &&& survey.records.len() >= 9
    &&& survey.probes.len() >= 9
    &&& forall|i: int|
        0 <= i < 4 ==> #[trigger] survey.records[i] == (Record::Command {
            code: records::exit_number(survey.probes[i].status),
            digest: survey.probes[i].digest,
        })
    &&& forall|i: int|
        4 <= i < 9 ==> #[trigger] survey.records[i] == (Record::Output {
            digest: survey.probes[i].digest,
        })
    &&& survey.probes[0].args == seq!["config"@, "--get"@, "core.fsmonitor"@]
    &&& survey.probes[1].args == seq!["config"@, "--get"@, "commit.gpgsign"@]
    &&& survey.probes[2].args == seq!["config"@, "--get"@, "tag.gpgsign"@]
    &&& survey.probes[3].args == seq!["config"@, "--name-only"@, "--null"@, "--list"@]
    &&& survey.probes[4].args == state::status_words()
    &&& survey.probes[5].args == state::change_words()
    &&& survey.probes[6].args == state::staged_words()
    &&& survey.probes[7].args == state::ref_words()
    &&& survey.probes[8].args == state::settings_words()
}

/// Taking in a setting adds its record.
proof fn lemma_setting(replies: Seq<ReplyView>, at: nat, survey: SurveyView, key: Seq<char>)
    requires
        state::setting_step(replies, at, survey, key).result is Ok,
        is_readable(survey),
    ensures
        ({
            let after = state::setting_step(replies, at, survey, key).result->Ok_0;
            &&& is_readable(after)
            &&& goes_on(survey, after)
            &&& after.records.len() == survey.records.len() + 1
            &&& after.probes.len() == survey.probes.len() + 1
            &&& after.probes.last().args == seq!["config"@, "--get"@, key]
            &&& after.records.last() == (Record::Command {
                code: records::exit_number(after.probes.last().status),
                digest: after.probes.last().digest,
            })
        }),
{
    reveal(is_readable);
    reveal(goes_on);
    let step = bounded::probe_step(replies, at, seq!["config"@, "--get"@, key]);
    let output = step.result->Ok_0;
    lemma_one_more(
        survey,
        Record::Command {
            code: records::exit_number(output.status.code),
            digest: output.stdout.digest,
        },
    );
}

/// Taking in the settings adds their records.
proof fn lemma_process_settings(replies: Seq<ReplyView>, at: nat)
    requires
        state::process_settings_step(replies, at, survey::empty_survey()).result is Ok,
    ensures
        ({
            let after = state::process_settings_step(
                replies,
                at,
                survey::empty_survey(),
            ).result->Ok_0;
            &&& is_readable(after)
            &&& after.records.len() == 4
            &&& after.probes.len() == 4
            &&& forall|i: int|
                0 <= i < 4 ==> #[trigger] after.records[i] == (Record::Command {
                    code: records::exit_number(after.probes[i].status),
                    digest: after.probes[i].digest,
                })
            &&& after.probes[0].args == seq!["config"@, "--get"@, "core.fsmonitor"@]
            &&& after.probes[1].args == seq!["config"@, "--get"@, "commit.gpgsign"@]
            &&& after.probes[2].args == seq!["config"@, "--get"@, "tag.gpgsign"@]
            &&& after.probes[3].args == seq!["config"@, "--name-only"@, "--null"@, "--list"@]
        }),
{
    reveal(is_readable);
    reveal(goes_on);
    let start = survey::empty_survey();
    let first = state::setting_step(replies, at, start, "core.fsmonitor"@);
    let one = first.result->Ok_0;
    let second = state::setting_step(replies, first.next, one, "commit.gpgsign"@);
    let two = second.result->Ok_0;
    let third = state::setting_step(replies, second.next, two, "tag.gpgsign"@);
    let three = third.result->Ok_0;
    lemma_setting(replies, at, start, "core.fsmonitor"@);
    lemma_setting(replies, first.next, one, "commit.gpgsign"@);
    lemma_setting(replies, second.next, two, "tag.gpgsign"@);
    let output = bounded::probe_step(
        replies,
        third.next,
        seq!["config"@, "--name-only"@, "--null"@, "--list"@],
    ).result->Ok_0;
    lemma_one_more(
        three,
        Record::Command {
            code: records::exit_number(output.status.code),
            digest: output.stdout.digest,
        },
    );
    let after = state::process_settings_step(replies, at, start).result->Ok_0;
    assert(two.records[0] == one.records[0] && three.records[0] == two.records[0]);
    assert(three.records[1] == two.records[1]);
    assert(two.probes[0] == one.probes[0] && three.probes[0] == two.probes[0]);
    assert(three.probes[1] == two.probes[1]);
    assert forall|i: int| 0 <= i < 3 implies after.records[i] == three.records[i]
        && after.probes[i] == three.probes[i] by {}
}

/// Taking in the output of a command adds its digest.
proof fn lemma_digest(
    replies: Seq<ReplyView>,
    at: nat,
    survey: SurveyView,
    args: Seq<Seq<char>>,
)
    requires
        state::digest_step(replies, at, survey, args).result is Ok,
        is_readable(survey),
    ensures
        ({
            let after = state::digest_step(replies, at, survey, args).result->Ok_0;
            &&& is_readable(after)
            &&& goes_on(survey, after)
            &&& after.records.len() == survey.records.len() + 1
            &&& after.probes.len() == survey.probes.len() + 1
            &&& after.probes.last().args == args
            &&& after.records.last() == (Record::Output { digest: after.probes.last().digest })
        }),
{
    reveal(is_readable);
    reveal(goes_on);
    let step = bounded::bounded_step(replies, at, args, true, BoundedCommandPolicy::Digest);
    lemma_one_more(survey, Record::Output { digest: step.result->Ok_0.stdout.digest });
}

/// Taking in the settings and the outputs adds nine records.
proof fn lemma_outputs(replies: Seq<ReplyView>, at: nat, survey: SurveyView)
    requires
        state::outputs_step(replies, at, survey).result is Ok,
        is_readable(survey),
        survey.records.len() == 4,
        survey.probes.len() == 4,
    ensures
        ({
            let after = state::outputs_step(replies, at, survey).result->Ok_0;
            &&& is_readable(after)
            &&& goes_on(survey, after)
            &&& after.records.len() == 9
            &&& after.probes.len() == 9
            &&& forall|i: int|
                4 <= i < 9 ==> #[trigger] after.records[i] == (Record::Output {
                    digest: after.probes[i].digest,
                })
            &&& after.probes[4].args == state::status_words()
            &&& after.probes[5].args == state::change_words()
            &&& after.probes[6].args == state::staged_words()
            &&& after.probes[7].args == state::ref_words()
            &&& after.probes[8].args == state::settings_words()
        }),
{
    reveal(goes_on);
    let first = state::digest_step(replies, at, survey, state::status_words());
    let one = first.result->Ok_0;
    let second = state::digest_step(replies, first.next, one, state::change_words());
    let two = second.result->Ok_0;
    let third = state::digest_step(replies, second.next, two, state::staged_words());
    let three = third.result->Ok_0;
    let fourth = state::digest_step(replies, third.next, three, state::ref_words());
    let four = fourth.result->Ok_0;
    let fifth = state::digest_step(replies, fourth.next, four, state::settings_words());
    let five = fifth.result->Ok_0;
    assert(state::outputs_step(replies, at, survey) == fifth);
    lemma_digest(replies, at, survey, state::status_words());
    lemma_digest(replies, first.next, one, state::change_words());
    lemma_digest(replies, second.next, two, state::staged_words());
    lemma_digest(replies, third.next, three, state::ref_words());
    lemma_digest(replies, fourth.next, four, state::settings_words());
    assert forall|i: int| 0 <= i < 5 implies one.records[i] == five.records[i] && one.probes[i]
        == five.probes[i] by {
        assert(one.records[i] == two.records[i] && two.records[i] == three.records[i]);
        assert(three.records[i] == four.records[i]);
        assert(one.probes[i] == two.probes[i] && two.probes[i] == three.probes[i]);
        assert(three.probes[i] == four.probes[i]);
    }
    assert(two.records[5] == three.records[5] && three.records[5] == four.records[5]);
    assert(two.probes[5] == three.probes[5] && three.probes[5] == four.probes[5]);
    assert(three.records[6] == four.records[6]);
    assert(three.probes[6] == four.probes[6]);
    assert forall|i: int| 0 <= i < survey.records.len() implies survey.records[i]
        == #[trigger] five.records[i] by {
        assert(one.records[i] == five.records[i]);
    }
    assert forall|i: int| 0 <= i < survey.probes.len() implies survey.probes[i]
        == #[trigger] five.probes[i] by {
        assert(one.probes[i] == five.probes[i]);
    }
    assert(five.records[4] == one.records[4] && five.probes[4] == one.probes[4]);
    assert(five.records[5] == four.records[5] && five.probes[5] == four.probes[5]);
    assert(five.records[6] == four.records[6] && five.probes[6] == four.probes[6]);
    assert(five.records[7] == four.records[7] && five.probes[7] == four.probes[7]);
}

/// A survey that goes on where one ends that goes on where another ends goes on where that one ends.
proof fn lemma_goes_on(first: SurveyView, second: SurveyView, third: SurveyView)
    requires
        goes_on(first, second),
        goes_on(second, third),
    ensures
        goes_on(first, third),
{
    reveal(goes_on);
    assert forall|i: int| 0 <= i < first.records.len() implies first.records[i]
        == #[trigger] third.records[i] by {
        assert(first.records[i] == second.records[i]);
    }
    assert forall|i: int| 0 <= i < first.probes.len() implies first.probes[i]
        == #[trigger] third.probes[i] by {
        assert(first.probes[i] == second.probes[i]);
    }
}

/// Taking in the hooks and the attributes files from outside keeps a survey readable.
proof fn lemma_attributes_survey(replies: Seq<ReplyView>, at: nat, survey: SurveyView)
    requires
        operations::attributes_survey_step(replies, at, survey).result is Ok,
        is_readable(survey),
    ensures
        ({
            let after = operations::attributes_survey_step(replies, at, survey).result->Ok_0;
            &&& is_readable(after)
            &&& goes_on(survey, after)
            &&& is_listed(after.records, utf8::encode_utf8("hooks"@))
        }),
{
    reveal(is_readable);
    reveal(goes_on);
    reveal_strlit("hooks");
    reveal_strlit("GIT_ATTR_SYSTEM");
    reveal_strlit("GIT_ATTR_GLOBAL");
    reveal_strlit("merge");
    reveal_strlit("rebase");
    utf8::is_ascii_chars_encode_utf8("hooks"@);
    assert("hooks"@[0] != "merge"@[0]);
    let label = utf8::encode_utf8("hooks"@);
    lemma_plain_word("hooks"@);
    lemma_plain_word("GIT_ATTR_SYSTEM"@);
    lemma_plain_word("GIT_ATTR_GLOBAL"@);
    let output = bounded::probe_step(
        replies,
        at,
        seq!["config"@, "--path"@, "--get"@, "core.hooksPath"@],
    ).result->Ok_0;
    lemma_one_more(
        survey,
        Record::Command {
            code: records::exit_number(output.status.code),
            digest: output.stdout.digest,
        },
    );
    let setting = state::hooks_setting_step(replies, at, survey);
    let probed = setting.result->Ok_0.0;
    lemma_path_into(replies, setting.next, probed, label, setting.result->Ok_0.1);
    let hooks = state::hooks_step(replies, at, survey);
    let one = hooks.result->Ok_0;
    lemma_goes_on(survey, probed, one);
    lemma_variable(replies, hooks.next, one, "GIT_ATTR_SYSTEM"@);
    let system = state::variable_step(replies, hooks.next, one, "GIT_ATTR_SYSTEM"@);
    let two = system.result->Ok_0;
    lemma_variable(replies, system.next, two, "GIT_ATTR_GLOBAL"@);
    let three = state::variable_step(
        replies,
        system.next,
        two,
        "GIT_ATTR_GLOBAL"@,
    ).result->Ok_0;
    lemma_goes_on(survey, one, two);
    lemma_goes_on(survey, two, three);
    lemma_stays_listed(one, two, label);
    lemma_stays_listed(two, three, label);
}

/// Taking in an attributes file from outside keeps a survey readable.
proof fn lemma_variable(
    replies: Seq<ReplyView>,
    at: nat,
    survey: SurveyView,
    variable: Seq<char>,
)
    requires
        state::variable_step(replies, at, survey, variable).result is Ok,
        is_readable(survey),
        !ends_with_digest(survey),
        records::is_plain_label(utf8::encode_utf8(variable)),
    ensures
        ({
            let after = state::variable_step(replies, at, survey, variable).result->Ok_0;
            &&& is_readable(after)
            &&& goes_on(survey, after)
            &&& !ends_with_digest(after)
        }),
{
    reveal(is_readable);
    reveal(goes_on);
    let path = state::variable_path_step(replies, at, variable);
    if path.result->Ok_0 is Some {
        lemma_path_into(
            replies,
            path.next,
            survey,
            utf8::encode_utf8(variable),
            path.result->Ok_0->Some_0,
        );
    }
}

/// Whether a survey lists all files of the repository's own, and the hooks.
pub open spec fn lists_own_files(survey: SurveyView) -> bool {
    &&& forall|i: int|
        0 <= i < state::control_paths().len() ==> is_listed(
            survey.records,
            utf8::encode_utf8(#[trigger] state::control_paths()[i]),
        )
    &&& is_listed(survey.records, utf8::encode_utf8("hooks"@))
}

/// What a survey started with and what it listed stays so.
proof fn lemma_stays_covered(before: SurveyView, after: SurveyView)
    requires
        goes_on(before, after),
        starts_with_outputs(before),
        lists_own_files(before),
    ensures
        starts_with_outputs(after),
        lists_own_files(after),
{
    reveal(goes_on);
    assert forall|i: int| 0 <= i < 9 implies before.records[i] == #[trigger] after.records[i]
        && before.probes[i] == after.probes[i] by {}
    assert(before.probes[0] == after.probes[0] && before.probes[1] == after.probes[1]);
    assert(before.probes[2] == after.probes[2] && before.probes[3] == after.probes[3]);
    assert(before.probes[4] == after.probes[4] && before.probes[5] == after.probes[5]);
    assert(before.probes[6] == after.probes[6] && before.probes[7] == after.probes[7]);
    assert(before.probes[8] == after.probes[8]);
    assert forall|i: int| 0 <= i < state::control_paths().len() implies is_listed(
        after.records,
        utf8::encode_utf8(#[trigger] state::control_paths()[i]),
    ) by {
        lemma_stays_listed(before, after, utf8::encode_utf8(state::control_paths()[i]));
    }
    lemma_stays_listed(before, after, utf8::encode_utf8("hooks"@));
}

/// What Git reports, and the files of the repository's own, make a readable survey.
proof fn lemma_repository_survey(replies: Seq<ReplyView>, at: nat)
    requires
        operations::repository_survey_step(replies, at).result is Ok,
    ensures
        ({
            let after = operations::repository_survey_step(replies, at).result->Ok_0;
            &&& is_readable(after)
            &&& starts_with_outputs(after)
            &&& lists_own_files(after)
        }),
{
    reveal(is_readable);
    reveal(goes_on);
    let settings = state::process_settings_step(replies, at, survey::empty_survey());
    let one = settings.result->Ok_0;
    lemma_process_settings(replies, at);
    let outputs = state::outputs_step(replies, settings.next, one);
    let two = outputs.result->Ok_0;
    lemma_outputs(replies, settings.next, one);
    let control = state::control_step(replies, outputs.next, two, state::control_paths());
    let three = control.result->Ok_0;
    lemma_control_names();
    lemma_control(replies, outputs.next, two, state::control_paths());
    let four = operations::attributes_survey_step(replies, control.next, three).result->Ok_0;
    lemma_attributes_survey(replies, control.next, three);
    assert forall|i: int| 0 <= i < 4 implies one.records[i] == two.records[i] && one.probes[i]
        == two.probes[i] by {}
    assert(one.probes[0] == two.probes[0] && one.probes[1] == two.probes[1]);
    assert(one.probes[2] == two.probes[2] && one.probes[3] == two.probes[3]);
    assert(starts_with_outputs(two));
    lemma_goes_on(two, three, four);
    assert forall|i: int| 0 <= i < 9 implies two.records[i] == #[trigger] four.records[i]
        && two.probes[i] == four.probes[i] by {}
    assert(two.probes[0] == four.probes[0] && two.probes[1] == four.probes[1]);
    assert(two.probes[2] == four.probes[2] && two.probes[3] == four.probes[3]);
    assert(two.probes[4] == four.probes[4] && two.probes[5] == four.probes[5]);
    assert(two.probes[6] == four.probes[6] && two.probes[7] == four.probes[7]);
    assert(two.probes[8] == four.probes[8]);
    assert forall|i: int| 0 <= i < state::control_paths().len() implies is_listed(
        four.records,
        utf8::encode_utf8(#[trigger] state::control_paths()[i]),
    ) by {
        lemma_stays_listed(three, four, utf8::encode_utf8(state::control_paths()[i]));
    }
}

/// The label of an untracked path.
pub open spec fn untracked_label(path: Seq<u8>) -> Seq<u8> {
    utf8::encode_utf8("untracked-worktree/"@) + path
}

/// The label of an attributes file of the working tree.
pub open spec fn attributes_label(path: Seq<u8>) -> Seq<u8> {
    utf8::encode_utf8("worktree-attributes/"@) + path
}

/// The labels of paths in the working tree are long, and are no names of operations.
proof fn lemma_worktree_labels(path: Seq<u8>)
    ensures
        records::is_plain_label(untracked_label(path)),
        !records::is_kind_sized(untracked_label(path)),
        records::is_plain_label(attributes_label(path)),
        !records::is_kind_sized(attributes_label(path)),
{
    reveal_strlit("untracked-worktree/");
    reveal_strlit("worktree-attributes/");
    reveal_strlit("merge");
    reveal_strlit("rebase");
    utf8::is_ascii_chars_encode_utf8("untracked-worktree/"@);
    utf8::is_ascii_chars_encode_utf8("worktree-attributes/"@);
    utf8::is_ascii_chars_encode_utf8("merge"@);
    utf8::is_ascii_chars_encode_utf8("rebase"@);
}

/// Taking in untracked paths keeps a survey readable, and lists each of them.
proof fn lemma_untracked(
    replies: Seq<ReplyView>,
    at: nat,
    survey: SurveyView,
    root: Seq<u8>,
    paths: Seq<Seq<u8>>,
    spent: nat,
)
    requires
        state::untracked_step(replies, at, survey, root, paths, spent).result is Ok,
        is_readable(survey),
    ensures
        ({
            let after = state::untracked_step(
                replies,
                at,
                survey,
                root,
                paths,
                spent,
            ).result->Ok_0;
            &&& is_readable(after)
            &&& goes_on(survey, after)
            &&& forall|i: int|
                0 <= i < paths.len() ==> is_listed(
                    after.records,
                    untracked_label(#[trigger] paths[i]),
                )
        }),
    decreases paths.len(),
{
    if paths.len() > 0 {
        let label = untracked_label(paths[0]);
        let path = bytes::joined_path(root, paths[0]);
        let look = state::untracked_look(spent);
        let taken = survey::path_step(replies, at, label, path, 0, survey.entries, look);
        let middle = survey::extended(survey, taken.result->Ok_0);
        let rest = paths.skip(1);
        let more = spent + taken.result->Ok_0.spent;
        let after = state::untracked_step(
            replies,
            taken.next,
            middle,
            root,
            rest,
            more,
        ).result->Ok_0;
        lemma_worktree_labels(paths[0]);
        lemma_path_records(replies, at, label, path, 0, survey.entries, look);
        lemma_one_more_look(survey, taken.result->Ok_0, label);
        lemma_untracked(replies, taken.next, middle, root, rest, more);
        lemma_goes_on(survey, middle, after);
        lemma_stays_listed(middle, after, label);
        assert forall|i: int| 0 <= i < paths.len() implies is_listed(
            after.records,
            untracked_label(#[trigger] paths[i]),
        ) by {
            if i > 0 {
                assert(rest[i - 1] == paths[i]);
            }
        }
    } else {
        reveal(goes_on);
    }
}

/// Taking in attributes files of the working tree keeps a survey readable, and lists each of them.
proof fn lemma_attributes(
    replies: Seq<ReplyView>,
    at: nat,
    survey: SurveyView,
    root: Seq<u8>,
    paths: Seq<Seq<u8>>,
)
    requires
        state::attributes_step(replies, at, survey, root, paths).result is Ok,
        is_readable(survey),
    ensures
        ({
            let after = state::attributes_step(replies, at, survey, root, paths).result->Ok_0;
            &&& is_readable(after)
            &&& goes_on(survey, after)
            &&& forall|i: int|
                0 <= i < paths.len() ==> is_listed(
                    after.records,
                    attributes_label(#[trigger] paths[i]),
                )
        }),
    decreases paths.len(),
{
    if paths.len() > 0 {
        let label = attributes_label(paths[0]);
        let path = bytes::joined_path(root, paths[0]);
        let taken = state::path_into_step(replies, at, survey, label, path);
        let middle = taken.result->Ok_0;
        let rest = paths.skip(1);
        let after = state::attributes_step(replies, taken.next, middle, root, rest).result->Ok_0;
        lemma_worktree_labels(paths[0]);
        lemma_path_into(replies, at, survey, label, path);
        lemma_attributes(replies, taken.next, middle, root, rest);
        lemma_goes_on(survey, middle, after);
        lemma_stays_listed(middle, after, label);
        assert forall|i: int| 0 <= i < paths.len() implies is_listed(
            after.records,
            attributes_label(#[trigger] paths[i]),
        ) by {
            if i > 0 {
                assert(rest[i - 1] == paths[i]);
            }
        }
    } else {
        reveal(goes_on);
    }
}

/// Taking in the commits of a rebase plan keeps a survey readable.
proof fn lemma_touched(
    replies: Seq<ReplyView>,
    at: nat,
    survey: SurveyView,
    oids: Seq<Seq<char>>,
    known: Seq<Seq<u8>>,
)
    requires
        collisions::touched_step(replies, at, survey, oids, known).result is Ok,
        is_readable(survey),
    ensures
        ({
            let after = collisions::touched_step(replies, at, survey, oids, known).result->Ok_0.0;
            &&& is_readable(after)
            &&& goes_on(survey, after)
        }),
    decreases oids.len(),
{
    reveal(is_readable);
    reveal(goes_on);
    if oids.len() > 0 {
        let args = collisions::touched_words(oids[0]);
        let output = bounded::whole_output_step(
            replies,
            at,
            args,
            "recovery planning is blocked because an intermediate rebase commit touches too many paths"@,
        );
        let touched = output.result->Ok_0;
        let more = state::with_inside_paths(
            known,
            text::pieces(touched.stdout.bytes, 0u8),
            collisions::target_refusal(),
        )->Ok_0;
        let middle = state::probed(survey, args, touched, RecoveryProbeSafetyView::Unchecked);
        let rest = oids.skip(1);
        let after = collisions::touched_step(
            replies,
            output.next,
            middle,
            rest,
            more,
        ).result->Ok_0.0;
        lemma_one_more(
            survey,
            Record::Command {
                code: records::exit_number(touched.status.code),
                digest: touched.stdout.digest,
            },
        );
        lemma_touched(replies, output.next, middle, rest, more);
        lemma_goes_on(survey, middle, after);
    }
}

/// Taking in which paths are ignored keeps a survey readable.
proof fn lemma_ignored(
    replies: Seq<ReplyView>,
    at: nat,
    survey: SurveyView,
    paths: Seq<Seq<u8>>,
    known: Seq<Seq<u8>>,
)
    requires
        collisions::ignored_step(replies, at, survey, paths, known).result is Ok,
        is_readable(survey),
    ensures
        ({
            let after = collisions::ignored_step(replies, at, survey, paths, known).result->Ok_0.0;
            &&& is_readable(after)
            &&& goes_on(survey, after)
        }),
    decreases paths.len(),
{
    reveal(is_readable);
    reveal(goes_on);
    if paths.len() > 0 {
        let count = drivers::chunk_len(paths.len());
        let args = collisions::ignored_words(paths.take(count));
        let output = bounded::whole_output_step(
            replies,
            at,
            args,
            "recovery planning is blocked because relevant ignored paths exceed the bounded output limit"@,
        );
        let ignored = output.result->Ok_0;
        let middle = state::digested(survey, args, ignored);
        let rest = paths.skip(count);
        let more = collisions::with_paths(
            known,
            text::filled(text::pieces(ignored.stdout.bytes, 0u8)),
        );
        let after = collisions::ignored_step(
            replies,
            output.next,
            middle,
            rest,
            more,
        ).result->Ok_0.0;
        lemma_one_more(survey, Record::Output { digest: ignored.stdout.digest });
        lemma_ignored(replies, output.next, middle, rest, more);
        lemma_goes_on(survey, middle, after);
    }
}

/// Looking for files that a recovery would overwrite keeps a survey readable.
proof fn lemma_collisions(
    replies: Seq<ReplyView>,
    at: nat,
    operation: RepositoryOperation,
    action: RecoveryAction,
    survey: SurveyView,
)
    requires
        collisions::collisions_step(replies, at, operation, action, survey).result is Ok,
        is_readable(survey),
    ensures
        ({
            let after = collisions::collisions_step(
                replies,
                at,
                operation,
                action,
                survey,
            ).result->Ok_0;
            &&& is_readable(after)
            &&& goes_on(survey, after)
        }),
{
    reveal(is_readable);
    reveal(goes_on);
    let target = files::overwrite_target_step(replies, at, operation, action);
    if target.result->Ok_0 is Some {
        let aim = target.result->Ok_0->Some_0;
        let args = collisions::changed_words(action, aim);
        let output = bounded::whole_output_step(
            replies,
            target.next,
            args,
            "recovery planning is blocked because recovery target paths exceed the bounded output limit"@,
        );
        let changed = output.result->Ok_0;
        let paths = state::with_inside_paths(
            Seq::empty(),
            text::pieces(changed.stdout.bytes, 0u8),
            collisions::target_refusal(),
        )->Ok_0;
        let middle = state::digested(survey, args, changed);
        lemma_one_more(survey, Record::Output { digest: changed.stdout.digest });
        let written = collisions::written_paths_step(
            replies,
            target.next,
            operation,
            action,
            aim,
            survey,
        );
        let listed = written.result->Ok_0;
        if operation == RepositoryOperation::Rebase && action != RecoveryAction::Abort {
            lemma_touched(replies, output.next, middle, survey.oids, paths);
            lemma_goes_on(survey, middle, listed.0);
        }
        lemma_ignored(replies, written.next, listed.0, listed.1, Seq::empty());
        let after = collisions::ignored_step(
            replies,
            written.next,
            listed.0,
            listed.1,
            Seq::empty(),
        ).result->Ok_0.0;
        lemma_goes_on(survey, listed.0, after);
    }
}

/// Whether a survey lists the recovery that is meant, where one is.
pub open spec fn lists_recovery(
    survey: SurveyView,
    recovery: Option<(RepositoryOperation, RecoveryAction)>,
) -> bool {
    match recovery {
        Some((operation, action)) => survey.records.contains(
            Record::Recovery { operation, action },
        ),
        None => true,
    }
}

/// Taking in which recovery is meant keeps a survey readable, and lists it.
proof fn lemma_recovery_survey(
    replies: Seq<ReplyView>,
    at: nat,
    recovery: Option<(RepositoryOperation, RecoveryAction)>,
    survey: SurveyView,
)
    requires
        operations::recovery_survey_step(replies, at, recovery, survey).result is Ok,
        is_readable(survey),
    ensures
        ({
            let after = operations::recovery_survey_step(
                replies,
                at,
                recovery,
                survey,
            ).result->Ok_0;
            &&& is_readable(after)
            &&& goes_on(survey, after)
            &&& lists_recovery(after, recovery)
        }),
{
    reveal(goes_on);
    if recovery is Some {
        let (operation, action) = recovery->Some_0;
        let record = Record::Recovery { operation, action };
        let middle = survey::with_record(survey, record);
        lemma_one_more(survey, record);
        lemma_collisions(replies, at, operation, action, middle);
        let after = operations::recovery_survey_step(replies, at, recovery, survey).result->Ok_0;
        lemma_goes_on(survey, middle, after);
        let last = survey.records.len() as int;
        assert(middle.records[last] == record);
        assert(after.records[last] == middle.records[last]);
    }
}

/// Whether a survey lists untracked paths and attributes files of the working tree.
pub open spec fn lists_worktree(
    survey: SurveyView,
    untracked: Seq<Seq<u8>>,
    attributes: Seq<Seq<u8>>,
) -> bool {
    &&& forall|i: int|
        0 <= i < untracked.len() ==> is_listed(
            survey.records,
            untracked_label(#[trigger] untracked[i]),
        )
    &&& forall|i: int|
        0 <= i < attributes.len() ==> is_listed(
            survey.records,
            attributes_label(#[trigger] attributes[i]),
        )
}

/// The untracked paths and the attributes files of the working tree that are found while a survey of it
/// is made.
pub open spec fn worktree_files(
    replies: Seq<ReplyView>,
    at: nat,
    recovery: Option<(RepositoryOperation, RecoveryAction)>,
    survey: SurveyView,
) -> (Seq<Seq<u8>>, Seq<Seq<u8>>) {
    let root = bounded::repo_root_until_step(replies, at);
    let paths = state::untracked_paths_step(replies, root.next);
    let untracked = state::untracked_step(
        replies,
        paths.next,
        survey,
        root.result->Ok_0,
        paths.result->Ok_0,
        0,
    );
    let meant = operations::recovery_survey_step(
        replies,
        untracked.next,
        recovery,
        untracked.result->Ok_0,
    );
    let attributes = state::worktree_attributes_step(replies, meant.next);
    (paths.result->Ok_0, attributes.result->Ok_0)
}

/// The working tree keeps a survey readable, and its untracked and its attributes files are listed.
proof fn lemma_worktree_survey(
    replies: Seq<ReplyView>,
    at: nat,
    recovery: Option<(RepositoryOperation, RecoveryAction)>,
    survey: SurveyView,
)
    requires
        operations::worktree_survey_step(replies, at, recovery, survey).result is Ok,
        is_readable(survey),
    ensures
        ({
            let after = operations::worktree_survey_step(
                replies,
                at,
                recovery,
                survey,
            ).result->Ok_0;
            &&& is_readable(after)
            &&& goes_on(survey, after)
            &&& lists_recovery(after, recovery)
            &&& ({
                let found = worktree_files(replies, at, recovery, survey);
                lists_worktree(after, found.0, found.1)
            })
        }),
{
    reveal(is_readable);
    reveal(goes_on);
    let top = bounded::repo_root_until_step(replies, at);
    let root = top.result->Ok_0;
    let paths = state::untracked_paths_step(replies, top.next);
    let untracked = state::untracked_step(
        replies,
        paths.next,
        survey,
        root,
        paths.result->Ok_0,
        0,
    );
    let one = untracked.result->Ok_0;
    let meant = operations::recovery_survey_step(replies, untracked.next, recovery, one);
    let two = meant.result->Ok_0;
    let listed = state::worktree_attributes_step(replies, meant.next);
    let three = state::attributes_step(
        replies,
        listed.next,
        two,
        root,
        listed.result->Ok_0,
    ).result->Ok_0;
    lemma_untracked(replies, paths.next, survey, root, paths.result->Ok_0, 0);
    lemma_recovery_survey(replies, untracked.next, recovery, one);
    lemma_attributes(replies, listed.next, two, root, listed.result->Ok_0);
    lemma_goes_on(survey, one, two);
    lemma_goes_on(survey, two, three);
    lemma_goes_on(one, two, three);
    let found = paths.result->Ok_0;
    assert forall|i: int| 0 <= i < found.len() implies is_listed(
        three.records,
        untracked_label(#[trigger] found[i]),
    ) by {
        lemma_stays_listed(one, three, untracked_label(found[i]));
    }
    if recovery is Some {
        let record = Record::Recovery {
            operation: recovery->Some_0.0,
            action: recovery->Some_0.1,
        };
        let i = choose|i: int| 0 <= i < two.records.len() && two.records[i] == record;
        assert(three.records[i] == two.records[i]);
    }
}

/// What a fingerprint lists is readable, and covers the repository.
proof fn lemma_surveyed(
    replies: Seq<ReplyView>,
    at: nat,
    recovery: Option<(RepositoryOperation, RecoveryAction)>,
)
    requires
        operations::surveyed_step(replies, at, recovery).result is Ok,
    ensures
        ({
            let first = operations::repository_survey_step(replies, at);
            let survey = operations::surveyed_step(replies, at, recovery).result->Ok_0;
            let found = worktree_files(replies, first.next, recovery, first.result->Ok_0);
            &&& is_readable(survey)
            &&& starts_with_outputs(survey)
            &&& lists_own_files(survey)
            &&& lists_recovery(survey, recovery)
            &&& lists_worktree(survey, found.0, found.1)
        }),
{
    let first = operations::repository_survey_step(replies, at);
    lemma_repository_survey(replies, at);
    lemma_worktree_survey(replies, first.next, recovery, first.result->Ok_0);
    lemma_stays_covered(
        first.result->Ok_0,
        operations::surveyed_step(replies, at, recovery).result->Ok_0,
    );
}

/// A fingerprint lists the settings that could start a process, the status, the changes of the working
/// tree and of the index, the refs, all settings, each of the repository's own files that a recovery
/// depends on, the hooks, the recovery that is meant, each untracked path and each attributes file of the
/// working tree, and it is made from these records alone.
pub proof fn fingerprint_covers_the_repository(
    replies: Seq<ReplyView>,
    at: nat,
    recovery: Option<(RepositoryOperation, RecoveryAction)>,
    held: Option<(RecoveryLockView, RepositoryOperation, RecoveryAction)>,
)
    requires
        operations::fingerprint_step(replies, at, recovery, held).result is Ok,
    ensures
        ({
            let first = operations::repository_survey_step(replies, at);
            let survey = operations::surveyed_step(replies, at, recovery).result->Ok_0;
            let found = worktree_files(replies, first.next, recovery, first.result->Ok_0);
            let state = operations::fingerprint_step(replies, at, recovery, held).result->Ok_0;
            &&& starts_with_outputs(survey)
            &&& lists_own_files(survey)
            &&& lists_recovery(survey, recovery)
            &&& lists_worktree(survey, found.0, found.1)
            &&& state.fingerprint == digest::sha256(records::transcript_of(survey.records))
        }),
{
    reveal(is_readable);
    lemma_surveyed(replies, at, recovery);
}

/// What a fingerprint lists of a repository.
pub open spec fn listed(
    replies: Seq<ReplyView>,
    at: nat,
    recovery: Option<(RepositoryOperation, RecoveryAction)>,
) -> Seq<Record> {
    operations::surveyed_step(replies, at, recovery).result->Ok_0.records
}

/// Two fingerprints are the same if and only if everything that they list is the same: each change of
/// what is listed shows, and where it is undone the fingerprint is the old one. This is so unless the
/// bytes that are hashed are a collision of SHA-256. Every digest has 32 bytes, and every file as many
/// bytes as the file system says it has: contents of files go in without a frame, so that bytes beyond
/// the length could be taken for records that follow.
pub proof fn fingerprint_tells_states_apart(
    replies: Seq<ReplyView>,
    at: nat,
    recovery: Option<(RepositoryOperation, RecoveryAction)>,
    held: Option<(RecoveryLockView, RepositoryOperation, RecoveryAction)>,
    other_replies: Seq<ReplyView>,
    other_at: nat,
    other_recovery: Option<(RepositoryOperation, RecoveryAction)>,
    other_held: Option<(RecoveryLockView, RepositoryOperation, RecoveryAction)>,
)
    requires
        operations::fingerprint_step(replies, at, recovery, held).result is Ok,
        operations::fingerprint_step(
            other_replies,
            other_at,
            other_recovery,
            other_held,
        ).result is Ok,
        records::all_sound(listed(replies, at, recovery)),
        records::all_sound(listed(other_replies, other_at, other_recovery)),
        !digest::collide(
            records::transcript_of(listed(replies, at, recovery)),
            records::transcript_of(listed(other_replies, other_at, other_recovery)),
        ),
    ensures
        operations::fingerprint_step(replies, at, recovery, held).result->Ok_0
            == operations::fingerprint_step(
            other_replies,
            other_at,
            other_recovery,
            other_held,
        ).result->Ok_0 <==> listed(replies, at, recovery) == listed(
            other_replies,
            other_at,
            other_recovery,
        ),
{
    reveal(is_readable);
    lemma_surveyed(replies, at, recovery);
    lemma_surveyed(other_replies, other_at, other_recovery);
    let left = listed(replies, at, recovery);
    let right = listed(other_replies, other_at, other_recovery);
    if records::transcript_of(left) == records::transcript_of(right) {
        records::transcripts_are_injective(left, right);
    }
}

/// The state of a repository, taken twice, is the same if and only if everything that is listed of it is
/// the same, unless SHA-256 collides.
pub proof fn recovery_state_shows_every_change(
    replies: Seq<ReplyView>,
    at: nat,
    milliseconds: u64,
    other_replies: Seq<ReplyView>,
    other_at: nat,
    other_milliseconds: u64,
)
    requires
        operations::recovery_state_step(replies, at, milliseconds).result is Ok,
        operations::recovery_state_step(other_replies, other_at, other_milliseconds).result is Ok,
        ({
            let start = operations::planned_step(replies, at, milliseconds).next;
            let other_start = operations::planned_step(
                other_replies,
                other_at,
                other_milliseconds,
            ).next;
            &&& records::all_sound(listed(replies, start, None))
            &&& records::all_sound(listed(other_replies, other_start, None))
            &&& !digest::collide(
                records::transcript_of(listed(replies, start, None)),
                records::transcript_of(listed(other_replies, other_start, None)),
            )
        }),
    ensures
        ({
            let start = operations::planned_step(replies, at, milliseconds).next;
            let other_start = operations::planned_step(
                other_replies,
                other_at,
                other_milliseconds,
            ).next;
            let state = operations::recovery_state_step(replies, at, milliseconds).result->Ok_0;
            let other = operations::recovery_state_step(
                other_replies,
                other_at,
                other_milliseconds,
            ).result->Ok_0;
            state == other <==> listed(replies, start, None) == listed(
                other_replies,
                other_start,
                None,
            )
        }),
{
    fingerprint_tells_states_apart(
        replies,
        operations::planned_step(replies, at, milliseconds).next,
        None,
        None,
        other_replies,
        operations::planned_step(other_replies, other_at, other_milliseconds).next,
        None,
        None,
    );
}

/// A recovery that was prepared is refused, because the state of the repository changed, where the
/// version of Git, the configuration and the lock are in order and the fingerprint is not the one that
/// the recovery was prepared with, or could not be made because something changed meanwhile.
pub proof fn changed_state_is_refused(
    replies: Seq<ReplyView>,
    at: nat,
    milliseconds: u64,
    operation: RepositoryOperation,
    action: RecoveryAction,
    expected: RecoveryStateView,
)
    requires
        ({
            let begun = operations::begun_step(replies, at, milliseconds);
            let held = operations::locked_step(replies, begun.next, operation, action);
            let state = operations::fingerprint_step(
                replies,
                held.next,
                Some((operation, action)),
                Some((held.result->Ok_0, operation, action)),
            );
            &&& begun.result is Ok
            &&& operations::action_allowed(operation, action) is Ok
            &&& held.result is Ok
            &&& match state.result {
                Ok(state) => state != expected,
                Err(halt) => operations::says_changed(halt),
            }
        }),
    ensures
        ({
            let begun = operations::begun_step(replies, at, milliseconds);
            let held = operations::locked_step(replies, begun.next, operation, action);
            let state = operations::fingerprint_step(
                replies,
                held.next,
                Some((operation, action)),
                Some((held.result->Ok_0, operation, action)),
            );
            operations::recover_exact_step(
                replies,
                at,
                milliseconds,
                operation,
                action,
                expected,
            ) == session::failed::<GitOutputView, GitErrorView>(
                operations::state_changed(operation, action),
                state.next,
            )
        }),
{
}

/// A recovery that was prepared is refused, because the state of the repository changed, where anything
/// that its fingerprint lists is not as it was when the recovery was prepared, unless SHA-256 collides.
pub proof fn change_after_preview_is_refused(
    before: Seq<ReplyView>,
    before_at: nat,
    before_milliseconds: u64,
    replies: Seq<ReplyView>,
    at: nat,
    milliseconds: u64,
    operation: RepositoryOperation,
    action: RecoveryAction,
)
    requires
        operations::prepare_recovery_step(
            before,
            before_at,
            before_milliseconds,
            operation,
            action,
        ).result is Ok,
        ({
            let recovery = Some((operation, action));
            let valid = operations::validate_recovery_step(
                before,
                before_at,
                before_milliseconds,
                operation,
                action,
            );
            let begun = operations::begun_step(replies, at, milliseconds);
            let held = operations::locked_step(replies, begun.next, operation, action);
            let state = operations::fingerprint_step(
                replies,
                held.next,
                recovery,
                Some((held.result->Ok_0, operation, action)),
            );
            let shown = listed(before, valid.next, recovery);
            let now = listed(replies, held.next, recovery);
            &&& begun.result is Ok
            &&& held.result is Ok
            &&& state.result is Ok
            &&& shown != now
            &&& records::all_sound(shown)
            &&& records::all_sound(now)
            &&& !digest::collide(records::transcript_of(shown), records::transcript_of(now))
        }),
    ensures
        operations::recover_exact_step(
            replies,
            at,
            milliseconds,
            operation,
            action,
            operations::prepare_recovery_step(
                before,
                before_at,
                before_milliseconds,
                operation,
                action,
            ).result->Ok_0,
        ).result == Err::<GitOutputView, _>(
            HaltView::Failed(operations::state_changed(operation, action)),
        ),
{
    let recovery = Some((operation, action));
    let valid = operations::validate_recovery_step(
        before,
        before_at,
        before_milliseconds,
        operation,
        action,
    );
    let begun = operations::begun_step(replies, at, milliseconds);
    let held = operations::locked_step(replies, begun.next, operation, action);
    let planned = operations::planned_step(before, before_at, before_milliseconds);
    let expected = operations::prepare_recovery_step(
        before,
        before_at,
        before_milliseconds,
        operation,
        action,
    ).result->Ok_0;
    assert(operations::validate_step(before, planned.next, operation, action).result is Ok);
    fingerprint_tells_states_apart(
        before,
        valid.next,
        recovery,
        None,
        replies,
        held.next,
        recovery,
        Some((held.result->Ok_0, operation, action)),
    );
    changed_state_is_refused(replies, at, milliseconds, operation, action, expected);
}

}
