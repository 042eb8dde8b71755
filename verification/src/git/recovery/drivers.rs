//! Programs that Git settings, attributes and hooks could start during a recovery.
use crate::bytes;
use crate::git::commands;
use crate::git::commands::{Git, GitResult, GitStep};
use crate::git::recovery::bounded;
use crate::git::recovery::files;
use crate::git::types::{GitError, GitErrorView, RecoveryAction, RepositoryOperation};
use crate::order;
use crate::session;
use crate::session::{
    BoundedCommandOutput, BoundedCommandOutputView, Halt, ReplyView, Session,
};
use crate::text;
use crate::words;
use vstd::prelude::*;
use vstd::slice::slice_subrange;
use vstd::utf8;

verus! {

broadcast use crate::bytes::bytes_are_their_view;

/// The name of a setting, with ASCII letters in lower case.
pub open spec fn setting_name(name: Seq<u8>) -> Seq<char> {
    text::lowered(bytes::lossy_text(name))
}

/// Whether a setting names a program that Git may run on files of a repository.
pub open spec fn names_external_driver(name: Seq<u8>) -> bool {
    let setting = setting_name(name);
    ||| setting == "diff.external"@
    ||| text::has_prefix(setting, "filter."@) && (text::has_suffix(setting, ".clean"@)
        || text::has_suffix(setting, ".smudge"@) || text::has_suffix(setting, ".process"@))
    ||| text::has_prefix(setting, "diff."@) && (text::has_suffix(setting, ".command"@)
        || text::has_suffix(setting, ".textconv"@))
    ||| text::has_prefix(setting, "merge."@) && text::has_suffix(setting, ".driver"@)
}

/// The filter that a setting belongs to, where it is a setting of a filter's programs.
pub open spec fn filter_of(name: Seq<u8>) -> Option<Seq<char>> {
    let setting = setting_name(name);
    let rest = setting.skip("filter."@.len() as int);
    let driver = if text::has_suffix(rest, ".clean"@) {
        rest.take(rest.len() - ".clean"@.len())
    } else if text::has_suffix(rest, ".smudge"@) {
        rest.take(rest.len() - ".smudge"@.len())
    } else if text::has_suffix(rest, ".process"@) {
        rest.take(rest.len() - ".process"@.len())
    } else {
        Seq::empty()
    };
    if text::has_prefix(setting, "filter."@) && driver.len() > 0 {
        Some(driver)
    } else {
        None
    }
}

/// The name of a setting, with ASCII letters in lower case.
fn lowered_setting(name: &[u8]) -> (result: Vec<char>)
    ensures
        result@ == setting_name(name@),
{
    let shown = bytes::lossy(name);
    let characters = text::chars_of(shown.as_str());
    text::to_lowercase(characters.as_slice())
}

/// Whether a setting names a program that Git may run on files of a repository.
pub fn is_recovery_external_driver_config(name: &[u8]) -> (result: bool)
    ensures
        result == names_external_driver(name@),
{
    let lowered = lowered_setting(name);
    let setting = lowered.as_slice();
    text::is_text(setting, "diff.external") || (text::starts_with(setting, "filter.") && (
    text::ends_with(setting, ".clean") || text::ends_with(setting, ".smudge") || text::ends_with(
        setting,
        ".process",
    ))) || (text::starts_with(setting, "diff.") && (text::ends_with(setting, ".command")
        || text::ends_with(setting, ".textconv"))) || (text::starts_with(setting, "merge.")
        && text::ends_with(setting, ".driver"))
}

/// The filter that a setting belongs to.
pub fn recovery_filter_driver(name: &[u8]) -> (result: Option<String>)
    ensures
        result.deep_view() == filter_of(name@),
{
    let lowered = lowered_setting(name);
    let rest = match text::strip_text_prefix(lowered.as_slice(), "filter.") {
        Some(rest) => rest,
        None => {
            return None;
        },
    };
    let driver = if let Some(driver) = text::strip_text_suffix(rest, ".clean") {
        driver
    } else if let Some(driver) = text::strip_text_suffix(rest, ".smudge") {
        driver
    } else if let Some(driver) = text::strip_text_suffix(rest, ".process") {
        driver
    } else {
        return None;
    };
    if driver.len() == 0 {
        return None;
    }
    Some(text::string_of(driver))
}

/// The settings of a list that name programs outside of filters, as they are shown.
pub open spec fn loose_drivers(names: Seq<Seq<u8>>) -> Seq<Seq<char>>
    decreases names.len(),
{
    if names.len() == 0 {
        Seq::empty()
    } else {
        let before = loose_drivers(names.drop_last());
        if names_external_driver(names.last()) && filter_of(names.last()) is None {
            before.push(bytes::lossy_text(names.last()))
        } else {
            before
        }
    }
}

/// The filters that the settings of a list configure, in order.
pub open spec fn configured_filters(names: Seq<Seq<u8>>) -> Seq<Seq<char>>
    decreases names.len(),
{
    if names.len() == 0 {
        Seq::empty()
    } else {
        let before = configured_filters(names.drop_last());
        if names_external_driver(names.last()) && filter_of(names.last()) is Some {
            order::inserted(before, filter_of(names.last())->Some_0)
        } else {
            before
        }
    }
}

/// The settings of a list that belong to a filter, as they are shown.
pub open spec fn filter_settings(names: Seq<Seq<u8>>, driver: Seq<char>) -> Seq<Seq<char>>
    decreases names.len(),
{
    if names.len() == 0 {
        Seq::empty()
    } else {
        let before = filter_settings(names.drop_last(), driver);
        if names_external_driver(names.last()) && filter_of(names.last()) == Some(driver) {
            before.push(bytes::lossy_text(names.last()))
        } else {
            before
        }
    }
}

/// The settings of a list that belong to some filters, filter by filter.
pub open spec fn settings_of_filters(names: Seq<Seq<u8>>, drivers: Seq<Seq<char>>) -> Seq<Seq<char>>
    decreases drivers.len(),
{
    if drivers.len() == 0 {
        Seq::empty()
    } else {
        settings_of_filters(names, drivers.drop_last()) + filter_settings(names, drivers.last())
    }
}

/// The settings of a list that name programs outside of filters, as they are shown.
pub(crate) fn find_loose_drivers(names: &Vec<&[u8]>) -> (result: Vec<String>)
    ensures
        result.deep_view() == loose_drivers(text::slices(names@)),
{
    let ghost all = text::slices(names@);
    let mut result: Vec<String> = Vec::new();
    assert(result.deep_view() =~= Seq::<Seq<char>>::empty());
    assert(all.take(0) =~= Seq::<Seq<u8>>::empty());
    let mut index: usize = 0;
    while index < names.len()
        invariant
            index <= names@.len(),
            all == text::slices(names@),
            result.deep_view() == loose_drivers(all.take(index as int)),
        decreases names@.len() - index,
    {
        let name = names[index];
        assert(all.take(index + 1).drop_last() =~= all.take(index as int));
        assert(all.take(index + 1).last() == name@);
        if is_recovery_external_driver_config(name) && recovery_filter_driver(name).is_none() {
            let shown = bytes::lossy(name);
            words::push_word(&mut result, shown.as_str());
        }
        index += 1;
    }
    assert(all.take(index as int) =~= all);
    result
}

/// The filters that the settings of a list configure.
fn find_configured_filters(names: &Vec<&[u8]>) -> (result: Vec<String>)
    ensures
        result.deep_view() == configured_filters(text::slices(names@)),
{
    let ghost all = text::slices(names@);
    let mut result: Vec<String> = Vec::new();
    assert(result.deep_view() =~= Seq::<Seq<char>>::empty());
    assert(all.take(0) =~= Seq::<Seq<u8>>::empty());
    let mut index: usize = 0;
    while index < names.len()
        invariant
            index <= names@.len(),
            all == text::slices(names@),
            result.deep_view() == configured_filters(all.take(index as int)),
        decreases names@.len() - index,
    {
        let name = names[index];
        assert(all.take(index + 1).drop_last() =~= all.take(index as int));
        assert(all.take(index + 1).last() == name@);
        if is_recovery_external_driver_config(name) {
            if let Some(driver) = recovery_filter_driver(name) {
                order::insert_text(&mut result, driver);
            }
        }
        index += 1;
    }
    assert(all.take(index as int) =~= all);
    result
}

/// Appends the settings of a list that belong to a filter.
fn push_filter_settings(result: &mut Vec<String>, names: &Vec<&[u8]>, driver: &str)
    ensures
        final(result).deep_view() == old(result).deep_view() + filter_settings(
            text::slices(names@),
            driver@,
        ),
{
    let ghost all = text::slices(names@);
    let ghost start = result.deep_view();
    assert(all.take(0) =~= Seq::<Seq<u8>>::empty());
    assert(start + Seq::<Seq<char>>::empty() =~= start);
    let mut index: usize = 0;
    while index < names.len()
        invariant
            index <= names@.len(),
            all == text::slices(names@),
            start == old(result).deep_view(),
            result.deep_view() == start + filter_settings(all.take(index as int), driver@),
        decreases names@.len() - index,
    {
        let name = names[index];
        assert(all.take(index + 1).drop_last() =~= all.take(index as int));
        assert(all.take(index + 1).last() == name@);
        if is_recovery_external_driver_config(name) {
            if let Some(found) = recovery_filter_driver(name) {
                if text::same_text(found.as_str(), driver) {
                    let shown = bytes::lossy(name);
                    let ghost before = result.deep_view();
                    words::push_word(result, shown.as_str());
                    assert(result.deep_view() =~= start + filter_settings(
                        all.take(index + 1),
                        driver@,
                    ));
                }
            }
        }
        index += 1;
    }
    assert(all.take(index as int) =~= all);
}

/// The settings of a list that belong to some filters.
fn find_settings_of_filters(names: &Vec<&[u8]>, drivers: &Vec<String>) -> (result: Vec<String>)
    ensures
        result.deep_view() == settings_of_filters(text::slices(names@), drivers.deep_view()),
{
    let ghost all = drivers.deep_view();
    let mut result: Vec<String> = Vec::new();
    assert(result.deep_view() =~= Seq::<Seq<char>>::empty());
    assert(all.take(0) =~= Seq::<Seq<char>>::empty());
    let mut index: usize = 0;
    while index < drivers.len()
        invariant
            index <= drivers@.len(),
            all == drivers.deep_view(),
            result.deep_view() == settings_of_filters(text::slices(names@), all.take(index as int)),
        decreases drivers@.len() - index,
    {
        assert(all.take(index + 1).drop_last() =~= all.take(index as int));
        assert(all.take(index + 1).last() == drivers@[index as int]@);
        push_filter_settings(&mut result, names, drivers[index].as_str());
        index += 1;
    }
    assert(all.take(index as int) =~= all);
    result
}

/// The filters that attribute triples (path, attribute, value) name, added to those that are known to
/// be active: only the configured ones count.
pub open spec fn active_in(
    fields: Seq<Seq<u8>>,
    configured: Seq<Seq<char>>,
    active: Seq<Seq<char>>,
) -> Result<Seq<Seq<char>>, GitErrorView>
    decreases fields.len(),
{
    if fields.len() == 0 {
        Ok(active)
    } else if fields.len() < 3 {
        Err(
            commands::refusal(
                "recovery is blocked because effective attributes could not be parsed"@,
            ),
        )
    } else {
        let driver = setting_name(fields[2]);
        active_in(
            fields.skip(3),
            configured,
            if configured.contains(driver) {
                order::inserted(active, driver)
            } else {
                active
            },
        )
    }
}

/// Adds the filters that attribute triples name.
fn add_active(fields: &Vec<&[u8]>, configured: &Vec<String>, active: &mut Vec<String>) -> (result:
    Result<(), GitError>)
    ensures
        (match result {
            Ok(_) => Ok(final(active).deep_view()),
            Err(error) => Err(error.deep_view()),
        }) == active_in(text::slices(fields@), configured.deep_view(), old(active).deep_view()),
{
    let ghost all = text::slices(fields@);
    let ghost start = active.deep_view();
    let mut index: usize = 0;
    assert(all.skip(0) =~= all);
    while index < fields.len()
        invariant
            index <= fields@.len(),
            all == text::slices(fields@),
            start == old(active).deep_view(),
            active_in(all, configured.deep_view(), start) == active_in(
                all.skip(index as int),
                configured.deep_view(),
                active.deep_view(),
            ),
        decreases fields@.len() - index,
    {
        if fields.len() - index < 3 {
            return Err(
                commands::blocked(
                    "recovery is blocked because effective attributes could not be parsed",
                ),
            );
        }
        let ghost rest = all.skip(index as int);
        assert(rest[2] == fields@[index + 2]@);
        assert(rest.skip(3) =~= all.skip(index + 3));
        let lowered = lowered_setting(fields[index + 2]);
        let driver = text::string_of(lowered.as_slice());
        if text::holds_text(configured, driver.as_str()) {
            order::insert_text(active, driver);
        }
        index += 3;
    }
    Ok(())
}

/// Whether all byte strings of a list are valid UTF-8.
pub open spec fn all_text(list: Seq<Seq<u8>>) -> bool {
    forall|i: int| 0 <= i < list.len() ==> utf8::valid_utf8(#[trigger] list[i])
}

/// The texts that byte strings encode, each behind a prefix.
pub open spec fn decoded(list: Seq<Seq<u8>>, prefix: Seq<char>) -> Seq<Seq<char>> {
    Seq::new(list.len(), |i: int| prefix + utf8::decode_utf8(list[i]))
}

/// Appends the texts that byte strings encode, each behind a prefix; says no where one is not valid.
pub(crate) fn push_decoded(args: &mut Vec<String>, list: &[&[u8]], prefix: &str) -> (result: bool)
    ensures
        result == all_text(text::slices(list@)),
        result ==> final(args).deep_view() == old(args).deep_view() + decoded(
            text::slices(list@),
            prefix@,
        ),
{
    let ghost all = text::slices(list@);
    let ghost start = args.deep_view();
    assert(start + decoded(all, prefix@).take(0) =~= start);
    let mut index: usize = 0;
    while index < list.len()
        invariant
            index <= list@.len(),
            all == text::slices(list@),
            start == old(args).deep_view(),
            forall|i: int| 0 <= i < index ==> utf8::valid_utf8(#[trigger] all[i]),
            args.deep_view() == start + decoded(all, prefix@).take(index as int),
        decreases list@.len() - index,
    {
        assert(all[index as int] == list@[index as int]@);
        match bytes::utf8_text(list[index]) {
            Ok(decoded_text) => {
                let word = text::concat2(prefix, decoded_text.as_str());
                words::push_word(args, word.as_str());
                index += 1;
                assert(args.deep_view() =~= start + decoded(all, prefix@).take(index as int));
            },
            Err(_) => {
                return false;
            },
        }
    }
    assert(decoded(all, prefix@).take(index as int) =~= decoded(all, prefix@));
    true
}

/// The lesser of a number and 128.
pub open spec fn chunk_len(count: nat) -> int {
    if count < 128 {
        count as int
    } else {
        128
    }
}

/// The arguments that ask for the filter attribute of paths, in a tree or in the index.
pub open spec fn attribute_words(source: Option<Seq<char>>) -> Seq<Seq<char>> {
    match source {
        Some(source) => seq!["check-attr"@, "-z"@, "--source="@ + source, "filter"@, "--"@],
        None => seq!["check-attr"@, "-z"@, "filter"@, "--"@],
    }
}

/// The active filters of paths, asked for in portions.
pub open spec fn attribute_chunks_step(
    replies: Seq<ReplyView>,
    at: nat,
    source: Option<Seq<char>>,
    paths: Seq<Seq<u8>>,
    configured: Seq<Seq<char>>,
    active: Seq<Seq<char>>,
) -> GitStep<Seq<Seq<char>>>
    decreases paths.len(),
{
    let count = chunk_len(paths.len());
    let chunk = paths.take(count);
    let attributes = bounded::whole_output_step(
        replies,
        at,
        attribute_words(source) + decoded(chunk, Seq::empty()),
        "recovery is blocked because effective attributes exceed the bounded output limit"@,
    );
    if paths.len() == 0 {
        session::given(active, at)
    } else if !all_text(chunk) {
        session::failed(
            commands::refusal(
                "recovery is blocked because an attribute path is not valid UTF-8"@,
            ),
            at,
        )
    } else if attributes.result is Err {
        session::halted(attributes)
    } else {
        let fields = text::filled(text::pieces(attributes.result->Ok_0.stdout.bytes, 0u8));
        match active_in(fields, configured, active) {
            Err(error) => session::failed(error, attributes.next),
            Ok(more) => attribute_chunks_step(
                replies,
                attributes.next,
                source,
                paths.skip(count),
                configured,
                more,
            ),
        }
    }
}

/// The active filters of paths, asked for in portions.
fn add_attribute_chunks(
    session: &mut Session,
    source: Option<&str>,
    paths: &Vec<&[u8]>,
    configured: &Vec<String>,
    active: &mut Vec<String>,
) -> (result: GitResult<()>)
    ensures
        final(session).replies() == old(session).replies(),
        ({
            let step = attribute_chunks_step(
                old(session).replies(),
                old(session).at(),
                source.deep_view(),
                text::slices(paths@),
                configured.deep_view(),
                old(active).deep_view(),
            );
            &&& step.next == final(session).at()
            &&& match result {
                Ok(_) => step.result == Ok::<_, session::HaltView<GitErrorView>>(
                    final(active).deep_view(),
                ),
                Err(halt) => step.result == Err::<Seq<Seq<char>>, _>(halt.deep_view()),
            }
        }),
{
    let ghost all = text::slices(paths@);
    let ghost replies = session.replies();
    let ghost goal = attribute_chunks_step(
        replies,
        session.at(),
        source.deep_view(),
        all,
        configured.deep_view(),
        active.deep_view(),
    );
    let mut index: usize = 0;
    assert(all.skip(0) =~= all);
    proof {
        reveal_strlit("");
        assert(""@ =~= Seq::<char>::empty());
    }
    while index < paths.len()
        invariant
            index <= paths@.len(),
            all == text::slices(paths@),
            session.replies() == replies,
            replies == old(session).replies(),
            ""@ == Seq::<char>::empty(),
            goal == attribute_chunks_step(
                old(session).replies(),
                old(session).at(),
                source.deep_view(),
                all,
                configured.deep_view(),
                old(active).deep_view(),
            ),
            goal == attribute_chunks_step(
                replies,
                session.at(),
                source.deep_view(),
                all.skip(index as int),
                configured.deep_view(),
                active.deep_view(),
            ),
        decreases paths@.len() - index,
    {
        let left: usize = paths.len() - index;
        let count: usize = if left < 128 {
            left
        } else {
            128
        };
        let chunk = slice_subrange(paths.as_slice(), index, index + count);
        let ghost rest = all.skip(index as int);
        assert(text::slices(chunk@) =~= rest.take(count as int));
        assert(rest.skip(count as int) =~= all.skip(index + count));
        let mut args = match source {
            Some(source) => {
                let option = text::concat2("--source=", source);
                words::words5("check-attr", "-z", option.as_str(), "filter", "--")
            },
            None => words::words4("check-attr", "-z", "filter", "--"),
        };
        if !push_decoded(&mut args, chunk, "") {
            return Err(
                Halt::Failed(
                    commands::blocked(
                        "recovery is blocked because an attribute path is not valid UTF-8",
                    ),
                ),
            );
        }
        let attributes = bounded::whole_output(
            session,
            args,
            "recovery is blocked because effective attributes exceed the bounded output limit",
        )?;
        let fields = text::split_filled(attributes.stdout.bytes.as_slice(), 0);
        match add_active(&fields, configured, active) {
            Ok(_) => {},
            Err(error) => {
                return Err(Halt::Failed(error));
            },
        }
        index += count;
    }
    Ok(())
}

/// The arguments that list the paths of a tree or of the index.
pub open spec fn list_words(source: Option<Seq<char>>) -> Seq<Seq<char>> {
    match source {
        Some(source) => seq!["ls-tree"@, "-r"@, "--name-only"@, "-z"@, source, "--"@],
        None => seq!["ls-files"@, "--cached"@, "-z"@, "--"@],
    }
}

/// The active filters of all paths of a tree or of the index, added to those that are known.
pub open spec fn source_filters_step(
    replies: Seq<ReplyView>,
    at: nat,
    source: Option<Seq<char>>,
    configured: Seq<Seq<char>>,
    active: Seq<Seq<char>>,
) -> GitStep<Seq<Seq<char>>> {
    session::followed(
        bounded::whole_output_step(
            replies,
            at,
            list_words(source),
            "recovery is blocked because paths requiring attribute inspection exceed the bounded output limit"@,
        ),
        |paths: BoundedCommandOutputView, n: nat|
            attribute_chunks_step(
                replies,
                n,
                source,
                text::filled(text::pieces(paths.stdout.bytes, 0u8)),
                configured,
                active,
            ),
    )
}

/// The active filters of all paths of a tree or of the index.
fn add_source_filters(
    session: &mut Session,
    source: Option<&str>,
    configured: &Vec<String>,
    active: &mut Vec<String>,
) -> (result: GitResult<()>)
    ensures
        final(session).replies() == old(session).replies(),
        ({
            let step = source_filters_step(
                old(session).replies(),
                old(session).at(),
                source.deep_view(),
                configured.deep_view(),
                old(active).deep_view(),
            );
            &&& step.next == final(session).at()
            &&& match result {
                Ok(_) => step.result == Ok::<_, session::HaltView<GitErrorView>>(
                    final(active).deep_view(),
                ),
                Err(halt) => step.result == Err::<Seq<Seq<char>>, _>(halt.deep_view()),
            }
        }),
{
    let args = match source {
        Some(source) => words::words6("ls-tree", "-r", "--name-only", "-z", source, "--"),
        None => words::words4("ls-files", "--cached", "-z", "--"),
    };
    let output = bounded::whole_output(
        session,
        args,
        "recovery is blocked because paths requiring attribute inspection exceed the bounded output limit",
    )?;
    let paths = text::split_filled(output.stdout.bytes.as_slice(), 0);
    add_attribute_chunks(session, source, &paths, configured, active)
}

/// The active filters of some trees, added to those that are known.
pub open spec fn tree_filters_step(
    replies: Seq<ReplyView>,
    at: nat,
    trees: Seq<Seq<char>>,
    configured: Seq<Seq<char>>,
    active: Seq<Seq<char>>,
) -> GitStep<Seq<Seq<char>>>
    decreases trees.len(),
{
    if trees.len() == 0 {
        session::given(active, at)
    } else {
        let first = source_filters_step(replies, at, Some(trees[0]), configured, active);
        if first.result is Err {
            session::halted(first)
        } else {
            tree_filters_step(
                replies,
                first.next,
                trees.skip(1),
                configured,
                first.result->Ok_0,
            )
        }
    }
}

/// The trees that a recovery may check out, besides the index.
pub open spec fn filter_trees_step(replies: Seq<ReplyView>, at: nat) -> GitStep<Seq<Seq<char>>> {
    session::followed(
        files::operation_until_step(replies, at),
        |operation: Option<RepositoryOperation>, n: nat|
            match operation {
                Some(RepositoryOperation::Merge) => session::given(seq!["ORIG_HEAD"@], n),
                Some(RepositoryOperation::Rebase) => session::followed(
                    files::overwrite_target_step(
                        replies,
                        n,
                        RepositoryOperation::Rebase,
                        RecoveryAction::Abort,
                    ),
                    |target: Option<Seq<char>>, n: nat|
                        session::followed(
                            files::remaining_oids_step(replies, n),
                            |oids: Seq<Seq<char>>, n: nat|
                                session::given(
                                    match target {
                                        Some(target) => order::inserted(oids, target),
                                        None => oids,
                                    },
                                    n,
                                ),
                        ),
                ),
                None => session::given(Seq::empty(), n),
            },
    )
}

/// The trees that a recovery may check out, besides the index.
fn filter_trees(session: &mut Session) -> (result: GitResult<Vec<String>>)
    ensures
        session::stepped(
            old(session),
            final(session),
            result,
            filter_trees_step(old(session).replies(), old(session).at()),
        ),
{
    match files::repository_operation_until(session)? {
        Some(RepositoryOperation::Merge) => Ok(words::words1("ORIG_HEAD")),
        Some(RepositoryOperation::Rebase) => {
            let target = files::recovery_overwrite_target_until(
                session,
                RepositoryOperation::Rebase,
                RecoveryAction::Abort,
            )?;
            let mut oids = files::remaining_rebase_commit_oids_until(session)?;
            if let Some(target) = target {
                order::insert_text(&mut oids, target);
            }
            Ok(oids)
        },
        None => {
            let none: Vec<String> = Vec::new();
            assert(none.deep_view() =~= Seq::<Seq<char>>::empty());
            Ok(none)
        },
    }
}

/// The configured filters that the attributes of the index, or of a tree that a recovery may check
/// out, make active.
pub open spec fn active_filters_step(
    replies: Seq<ReplyView>,
    at: nat,
    configured: Seq<Seq<char>>,
) -> GitStep<Seq<Seq<char>>> {
    session::followed(
        filter_trees_step(replies, at),
        |trees: Seq<Seq<char>>, n: nat|
            session::followed(
                source_filters_step(replies, n, None, configured, Seq::empty()),
                |active: Seq<Seq<char>>, n: nat|
                    tree_filters_step(replies, n, trees, configured, active),
            ),
    )
}

/// The configured filters that attributes make active.
pub(crate) fn active_recovery_filters_until(session: &mut Session, configured: &Vec<String>) -> (result:
    GitResult<Vec<String>>)
    ensures
        session::stepped(
            old(session),
            final(session),
            result,
            active_filters_step(
                old(session).replies(),
                old(session).at(),
                configured.deep_view(),
            ),
        ),
{
    let trees = filter_trees(session)?;
    let mut active: Vec<String> = Vec::new();
    assert(active.deep_view() =~= Seq::<Seq<char>>::empty());
    add_source_filters(session, None, configured, &mut active)?;
    let ghost all = trees.deep_view();
    let ghost replies = session.replies();
    let ghost goal = tree_filters_step(
        replies,
        session.at(),
        all,
        configured.deep_view(),
        active.deep_view(),
    );
    let ghost whole = active_filters_step(
        old(session).replies(),
        old(session).at(),
        configured.deep_view(),
    );
    assert(goal == whole);
    let mut index: usize = 0;
    assert(all.skip(0) =~= all);
    while index < trees.len()
        invariant
            index <= trees@.len(),
            all == trees.deep_view(),
            session.replies() == replies,
            replies == old(session).replies(),
            whole == active_filters_step(
                old(session).replies(),
                old(session).at(),
                configured.deep_view(),
            ),
            whole == tree_filters_step(
                replies,
                session.at(),
                all.skip(index as int),
                configured.deep_view(),
                active.deep_view(),
            ),
        decreases trees@.len() - index,
    {
        let tree = trees[index].as_str();
        let ghost rest = all.skip(index as int);
        assert(rest[0] == tree@);
        assert(rest.skip(1) =~= all.skip(index + 1));
        add_source_filters(session, Some(tree), configured, &mut active)?;
        index += 1;
    }
    Ok(active)
}

/// The refusal where programs could be started.
pub open spec fn active_driver_refusal(names: Seq<Seq<char>>) -> GitErrorView {
    commands::refusal(
        "recovery is blocked because configured external Git drivers are active or may be activated by a recovery target tree and start uncontained processes: "@
            + text::joined(names, ", "@)
            + "; disable the applicable attributes or remove the drivers from every Git config scope, preview recovery again, or run Git manually"@,
    )
}

/// Refuses where settings name programs that a recovery could start.
pub open spec fn external_drivers_step(
    replies: Seq<ReplyView>,
    at: nat,
    args: Seq<Seq<char>>,
    output: BoundedCommandOutputView,
) -> GitStep<()> {
    let names = text::pieces(output.stdout.bytes, 0u8);
    let configured = configured_filters(names);
    if !commands::succeeded(output.status) {
        session::failed(bounded::command_failure(output, args), at)
    } else if output.stdout.truncated {
        session::failed(
            commands::refusal(
                "recovery is blocked because Git configuration exceeds the bounded diagnostic limit, so external drivers cannot be ruled out"@,
            ),
            at,
        )
    } else {
        session::followed(
            if configured.len() > 0 {
                active_filters_step(replies, at, configured)
            } else {
                session::given(Seq::empty(), at)
            },
            |active: Seq<Seq<char>>, n: nat|
                {
                    let found = loose_drivers(names) + settings_of_filters(names, active);
                    if found.len() > 0 {
                        session::failed(active_driver_refusal(found), n)
                    } else {
                        session::given((), n)
                    }
                },
        )
    }
}

/// Refuses where settings name programs that a recovery could start.
pub(crate) fn ensure_recovery_external_drivers_safe_until(
    session: &mut Session,
    args: Vec<String>,
    output: &BoundedCommandOutput,
) -> (result: GitResult<()>)
    ensures
        session::stepped(
            old(session),
            final(session),
            result,
            external_drivers_step(
                old(session).replies(),
                old(session).at(),
                args.deep_view(),
                output.deep_view(),
            ),
        ),
{
    if !output.status.success() {
        return Err(Halt::Failed(output.git_error(args)));
    }
    if output.stdout.truncated {
        return Err(
            Halt::Failed(
                commands::blocked(
                    "recovery is blocked because Git configuration exceeds the bounded diagnostic limit, so external drivers cannot be ruled out",
                ),
            ),
        );
    }
    let names = text::split(output.stdout.bytes.as_slice(), 0);
    let mut found = find_loose_drivers(&names);
    let configured = find_configured_filters(&names);
    assert(configured@.len() == configured.deep_view().len());
    let active = if configured.len() > 0 {
        active_recovery_filters_until(session, &configured)?
    } else {
        let none: Vec<String> = Vec::new();
        assert(none.deep_view() =~= Seq::<Seq<char>>::empty());
        none
    };
    let mut more = find_settings_of_filters(&names, &active);
    let ghost all = found.deep_view() + more.deep_view();
    found.append(&mut more);
    assert(found.deep_view() =~= all);
    if found.len() > 0 {
        let list = text::join(&found, ", ");
        let message = text::concat3(
            "recovery is blocked because configured external Git drivers are active or may be activated by a recovery target tree and start uncontained processes: ",
            list.as_str(),
            "; disable the applicable attributes or remove the drivers from every Git config scope, preview recovery again, or run Git manually",
        );
        return Err(Halt::Failed(commands::blocked(message.as_str())));
    }
    Ok(())
}

}
