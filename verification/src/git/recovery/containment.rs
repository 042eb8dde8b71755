//! What a recovery makes sure of before it starts: that nothing starts a process that is not contained, that it holds
//! its lock, and that all that it depends on is in its fingerprint.
use crate::bytes;
use crate::git::commands;
use crate::git::effects;
use crate::git::recovery::bounded;
use crate::git::recovery::drivers;
use crate::git::recovery::effects::{looked_at_by, reports};
use crate::git::recovery::fence;
use crate::git::recovery::files;
use crate::git::recovery::fingerprints;
use crate::git::recovery::lock;
use crate::git::recovery::lock::RecoveryLockView;
use crate::git::recovery::operations;
use crate::git::recovery::safety;
use crate::git::recovery::safety::RecoveryProbeSafetyView;
use crate::git::recovery::state;
use crate::git::recovery::survey;
use crate::git::recovery::survey::{
    RecoveryInputView, RecoveryProbeView, RetainedInputView, SurveyView,
};
use crate::git::types::{
    GitErrorView, IoFailureView, RecoveryAction, RepositoryOperation,
};
use crate::order;
use crate::parts;
use crate::session::{
    ActionView, BoundedCommandOutputView, BoundedCommandPolicy, FileKind, FileMetadata, HaltView,
    ReplyView,
};
use crate::text;
use vstd::prelude::*;
use vstd::utf8;

verus! {

/// A recovery starts its deadline first, and then asks for the version of Git.
pub proof fn recovery_starts_with_its_deadline(
    replies: Seq<ReplyView>,
    at: nat,
    milliseconds: u64,
    output: BoundedCommandOutputView,
)
    ensures
        ({
            let step = operations::begun_step(replies, at, milliseconds);
            &&& at >= replies.len() ==> effects::waits_for(
                step,
                ActionView::StartDeadline { milliseconds },
            )
            &&& at + 1 == replies.len() && replies[at as int] == ReplyView::Done
                ==> effects::waits_for(step, looked_at_by(seq!["version"@]))
            &&& at + 1 < replies.len() && replies[at as int] == ReplyView::Done && reports(
                replies,
                at + 1,
                0,
                output,
            ) ==> (step.result is Ok <==> files::version_suffices(
                bytes::lossy_text(bytes::without_line_ending(output.stdout.bytes)),
            ))
        }),
{
}

/// A path of the repository is asked by `git rev-parse --path-format=absolute --git-path`, and the root by
/// `git rev-parse --show-toplevel`: each is what Git writes before the end of its line.
pub proof fn paths_are_asked_of_git(
    replies: Seq<ReplyView>,
    at: nat,
    name: Seq<char>,
    path: Seq<u8>,
    output: BoundedCommandOutputView,
)
    ensures
        ({
            let step = bounded::git_path_until_step(replies, at, name);
            &&& at >= replies.len() ==> effects::waits_for(
                step,
                looked_at_by(seq!["rev-parse"@, "--path-format=absolute"@, "--git-path"@, name]),
            )
            &&& reports(replies, at, 0, output) && output.stdout.bytes == path.push(10u8)
                ==> step.result == Ok::<Seq<u8>, HaltView<GitErrorView>>(path)
        }),
        ({
            let step = bounded::repo_root_until_step(replies, at);
            &&& at >= replies.len() ==> effects::waits_for(
                step,
                looked_at_by(seq!["rev-parse"@, "--show-toplevel"@]),
            )
            &&& reports(replies, at, 0, output) && output.stdout.bytes == path.push(10u8)
                ==> step.result == Ok::<Seq<u8>, HaltView<GitErrorView>>(path)
        }),
{
    assert(path.push(10u8).drop_last() =~= path);
}

/// Whether a file of the repository is not there or holds nothing but white space.
pub open spec fn is_blank_file(replies: Seq<ReplyView>, at: nat, name: Seq<char>) -> bool {
    let file = files::git_file_step(replies, at, name);
    file.result is Ok && (file.result->Ok_0 is None || text::trimmed(
        file.result->Ok_0->Some_0,
    ).len() == 0)
}

/// Where the look at a file of the repository ends.
pub open spec fn behind_file(replies: Seq<ReplyView>, at: nat, name: Seq<char>) -> nat {
    files::git_file_step(replies, at, name).next
}

/// The options of a rebase are safe if and only if it neither signs nor names a strategy, in either place where Git keeps
/// them.
pub proof fn rebase_neither_signs_nor_names_a_strategy(replies: Seq<ReplyView>, at: nat)
    ensures
        ({
            let step = safety::rebase_options_step(replies, at);
            let n1 = behind_file(replies, at, "rebase-merge/gpg_sign_opt"@);
            let n2 = behind_file(replies, n1, "rebase-apply/gpg_sign_opt"@);
            let n3 = behind_file(replies, n2, "rebase-merge/strategy"@);
            let n4 = behind_file(replies, n3, "rebase-apply/strategy"@);
            let n5 = behind_file(replies, n4, "rebase-merge/strategy_opts"@);
            step.result is Ok <==> {
                &&& is_blank_file(replies, at, "rebase-merge/gpg_sign_opt"@)
                &&& is_blank_file(replies, n1, "rebase-apply/gpg_sign_opt"@)
                &&& is_blank_file(replies, n2, "rebase-merge/strategy"@)
                &&& is_blank_file(replies, n3, "rebase-apply/strategy"@)
                &&& is_blank_file(replies, n4, "rebase-merge/strategy_opts"@)
                &&& is_blank_file(replies, n5, "rebase-apply/strategy_opts"@)
            }
        }),
{
}

/// Whether the plan of a rebase is not there or runs no command.
pub open spec fn is_harmless_plan(replies: Seq<ReplyView>, at: nat, name: Seq<char>) -> bool {
    let file = files::git_file_step(replies, at, name);
    file.result is Ok && (file.result->Ok_0 is None || !safety::any_runs_command(
        text::text_lines(file.result->Ok_0->Some_0),
    ))
}

/// Nothing may start a process if and only if the settings, the options of a rebase, the drivers and the hooks are safe
/// and neither plan of a rebase runs a command.
pub proof fn contained_recovery_runs_nothing_else(replies: Seq<ReplyView>, at: nat)
    ensures
        ({
            let step = safety::process_configuration_step(replies, at);
            let settings = safety::settings_safe_step(replies, at);
            let options = safety::rebase_options_step(replies, settings.next);
            let driving = safety::no_drivers_step(replies, options.next);
            let hooks = safety::no_hooks_step(replies, driving.next);
            let n = behind_file(replies, hooks.next, "rebase-merge/git-rebase-todo"@);
            step.result is Ok <==> {
                &&& settings.result is Ok
                &&& options.result is Ok
                &&& driving.result is Ok
                &&& hooks.result is Ok
                &&& is_harmless_plan(replies, hooks.next, "rebase-merge/git-rebase-todo"@)
                &&& is_harmless_plan(replies, n, "rebase-apply/git-rebase-todo"@)
            }
        }),
{
}

/// The first field of a line that starts with a word and a gap is that word.
proof fn lemma_first_field(line: Seq<char>, word: Seq<char>)
    requires
        word.len() > 0,
        word.len() < line.len(),
        line.take(word.len() as int) == word,
        text::ascii_gap(line[word.len() as int] as int),
        forall|i: int|
            0 <= i < word.len() ==> !text::ascii_gap((#[trigger] word[i]) as int) && word[i] != ' ',
    ensures
        text::ascii_words(line, ' ').len() > 0,
        text::ascii_words(line, ' ')[0] == word,
{
    let spaced = text::spaced(line, ' ');
    let at = word.len() as int;
    assert forall|i: int| 0 <= i < at implies spaced[i] == word[i] && spaced[i] != ' ' by {
        assert(line.take(at)[i] == line[i]);
    }
    assert(spaced[at] == ' ');
    text::lemma_position_unique(spaced, ' ', at);
    assert(spaced.take(at) =~= word);
    lemma_first_filled(text::pieces(spaced, ' '));
}

/// What is filled and comes first stays first.
proof fn lemma_first_filled(list: Seq<Seq<char>>)
    requires
        list.len() > 0,
        list[0].len() > 0,
    ensures
        text::filled(list).len() > 0,
        text::filled(list)[0] == list[0],
    decreases list.len(),
{
    if list.len() == 1 {
        reveal_with_fuel(text::filled, 2);
        assert(list.drop_last() =~= Seq::<Seq<char>>::empty());
        assert(text::filled(list) =~= seq![list[0]]);
    } else {
        assert(list.drop_last()[0] == list[0]);
        lemma_first_filled(list.drop_last());
    }
}

/// A line of a plan that starts with `exec` or `x` and a gap runs a command, whatever the command is.
pub proof fn exec_lines_run_commands(gap: char, command: Seq<char>)
    requires
        gap == ' ' || gap == '\t',
    ensures
        safety::runs_command("exec"@ + seq![gap] + command),
        safety::runs_command("x"@ + seq![gap] + command),
{
    reveal_strlit("exec");
    reveal_strlit("x");
    let long = "exec"@ + seq![gap] + command;
    let short = "x"@ + seq![gap] + command;
    assert(long.take(4) =~= "exec"@);
    assert(short.take(1) =~= "x"@);
    assert(long[4] == gap && short[1] == gap);
    lemma_first_field(long, "exec"@);
    lemma_first_field(short, "x"@);
}

/// A plan with a line that runs a command is not harmless, wherever in the plan the line is.
pub proof fn plans_with_commands_are_refused(
    before: Seq<Seq<char>>,
    line: Seq<char>,
    behind: Seq<Seq<char>>,
)
    requires
        safety::runs_command(line),
    ensures
        safety::any_runs_command(before.push(line) + behind),
{
    let all = before.push(line) + behind;
    assert(all[before.len() as int] == line);
}

/// The hooks that Git may run.
pub open spec fn git_hooks() -> Seq<Seq<char>> {
    seq![
        "applypatch-msg"@,
        "commit-msg"@,
        "fsmonitor-watchman"@,
        "p4-changelist"@,
        "p4-post-changelist"@,
        "p4-pre-submit"@,
        "p4-prepare-changelist"@,
        "post-applypatch"@,
        "post-checkout"@,
        "post-commit"@,
        "post-index-change"@,
        "post-merge"@,
        "post-receive"@,
        "post-rewrite"@,
        "post-update"@,
        "pre-applypatch"@,
        "pre-auto-gc"@,
        "pre-commit"@,
        "pre-merge-commit"@,
        "pre-push"@,
        "pre-rebase"@,
        "pre-receive"@,
        "prepare-commit-msg"@,
        "proc-receive"@,
        "push-to-checkout"@,
        "reference-transaction"@,
        "sendemail-validate"@,
        "update"@,
    ]
}

/// Whether a hook was looked at and cannot be run.
pub open spec fn hook_was_looked_at(
    replies: Seq<ReplyView>,
    directory: Seq<u8>,
    hook: Seq<char>,
) -> bool {
    exists|n: nat|
        (#[trigger] commands::hook_enabled_step(
            replies,
            n,
            bytes::joined_path(directory, utf8::encode_utf8(hook)),
        )).result == Ok::<bool, HaltView<GitErrorView>>(false)
}

/// A hook is looked at where it is, and it is on where its file runs as a hook.
pub proof fn hook_is_on_where_its_file_runs(
    replies: Seq<ReplyView>,
    at: nat,
    path: Seq<u8>,
    metadata: FileMetadata,
)
    ensures
        ({
            let step = commands::hook_enabled_step(replies, at, path);
            &&& at >= replies.len() ==> effects::waits_for(step, ActionView::Metadata { path })
            &&& at < replies.len() && replies[at as int] == ReplyView::Metadata(metadata)
                ==> step.result == Ok::<bool, HaltView<GitErrorView>>(
                metadata.kind == FileKind::File && metadata.mode & 0o111 != 0,
            )
        }),
{
}

/// Where no hook of a list can be run, each of them was looked at.
proof fn lemma_hooks(
    replies: Seq<ReplyView>,
    at: nat,
    directory: Seq<u8>,
    hooks: Seq<Seq<char>>,
)
    requires
        safety::runnable_hooks_step(replies, at, directory, hooks).result is Ok,
        safety::runnable_hooks_step(replies, at, directory, hooks).result->Ok_0.len() == 0,
    ensures
        forall|i: int|
            0 <= i < hooks.len() ==> hook_was_looked_at(replies, directory, #[trigger] hooks[i]),
    decreases hooks.len(),
{
    if hooks.len() > 0 {
        let rest = hooks.drop_last();
        let before = safety::runnable_hooks_step(replies, at, directory, rest);
        assert(before.result is Ok);
        assert(before.result->Ok_0.len() == 0);
        lemma_hooks(replies, at, directory, rest);
        let last = commands::hook_enabled_step(
            replies,
            before.next,
            bytes::joined_path(directory, utf8::encode_utf8(hooks.last())),
        );
        assert(last.result == Ok::<bool, HaltView<GitErrorView>>(false));
        assert forall|i: int| 0 <= i < hooks.len() implies hook_was_looked_at(
            replies,
            directory,
            #[trigger] hooks[i],
        ) by {
            if i < rest.len() {
                assert(rest[i] == hooks[i]);
            }
        }
    }
}

/// A recovery goes on only where none of the hooks of Git can be run from the directory for hooks.
pub proof fn recovery_runs_no_hook(replies: Seq<ReplyView>, at: nat)
    requires
        safety::no_hooks_step(replies, at).result is Ok,
    ensures
        ({
            let directory = safety::hooks_path_step(replies, at);
            &&& directory.result is Ok
            &&& forall|i: int|
                0 <= i < git_hooks().len() ==> hook_was_looked_at(
                    replies,
                    directory.result->Ok_0,
                    #[trigger] git_hooks()[i],
                )
        }),
{
    let directory = safety::hooks_path_step(replies, at);
    assert(git_hooks() =~= safety::recovery_hooks());
    lemma_hooks(replies, directory.next, directory.result->Ok_0, safety::recovery_hooks());
}

/// The directory for hooks is the configured one, from the root where it is not absolute, and otherwise `hooks` of the
/// repository.
pub proof fn hooks_are_where_git_is_told(
    replies: Seq<ReplyView>,
    at: nat,
    path: Seq<u8>,
    output: BoundedCommandOutputView,
)
    ensures
        ({
            let step = safety::hooks_path_step(replies, at);
            let root = bounded::repo_root_until_step(replies, at + 1);
            &&& at >= replies.len() ==> effects::waits_for(
                step,
                looked_at_by(seq!["config"@, "--path"@, "--get"@, "core.hooksPath"@]),
            )
            &&& reports(replies, at, 0, output) && output.stdout.bytes == path.push(10u8) ==> {
                &&& bytes::absolute(path) ==> step.result == Ok::<Seq<u8>, HaltView<GitErrorView>>(
                    path,
                )
                &&& !bytes::absolute(path) && root.result is Ok ==> step.result == Ok::<
                    Seq<u8>,
                    HaltView<GitErrorView>,
                >(bytes::joined_path(root.result->Ok_0, path))
            }
            &&& reports(replies, at, 1, output) ==> step == bounded::git_path_until_step(
                replies,
                at + 1,
                "hooks"@,
            )
        }),
{
    assert(path.push(10u8).drop_last() =~= path);
}

/// A setting that names a program and belongs to no filter is always refused.
proof fn lemma_loose(names: Seq<Seq<u8>>)
    requires
        drivers::loose_drivers(names).len() == 0,
    ensures
        forall|i: int|
            #![trigger names[i]]
            0 <= i < names.len() && drivers::names_external_driver(names[i])
                ==> drivers::filter_of(names[i]) is Some,
    decreases names.len(),
{
    if names.len() > 0 {
        let rest = names.drop_last();
        lemma_loose(rest);
        assert forall|i: int|
            #![trigger names[i]]
            0 <= i < names.len() && drivers::names_external_driver(names[i]) implies
            drivers::filter_of(names[i]) is Some by {
            if i < rest.len() {
                assert(rest[i] == names[i]);
            }
        }
    }
}

/// A filter of which a list of settings says nothing has no setting in it.
proof fn lemma_filter_settings(names: Seq<Seq<u8>>, driver: Seq<char>)
    requires
        drivers::filter_settings(names, driver).len() == 0,
    ensures
        forall|i: int|
            #![trigger names[i]]
            0 <= i < names.len() && drivers::names_external_driver(names[i])
                ==> drivers::filter_of(names[i]) != Some(driver),
    decreases names.len(),
{
    if names.len() > 0 {
        let rest = names.drop_last();
        lemma_filter_settings(rest, driver);
        assert forall|i: int|
            #![trigger names[i]]
            0 <= i < names.len() && drivers::names_external_driver(names[i]) implies
            drivers::filter_of(names[i]) != Some(driver) by {
            if i < rest.len() {
                assert(rest[i] == names[i]);
            }
        }
    }
}

/// Where no filter of a list has a setting, each of them has none.
proof fn lemma_settings_of_filters(names: Seq<Seq<u8>>, active: Seq<Seq<char>>)
    requires
        drivers::settings_of_filters(names, active).len() == 0,
    ensures
        forall|i: int|
            0 <= i < active.len() ==> drivers::filter_settings(
                names,
                #[trigger] active[i],
            ).len() == 0,
    decreases active.len(),
{
    if active.len() > 0 {
        let rest = active.drop_last();
        lemma_settings_of_filters(names, rest);
        assert forall|i: int| 0 <= i < active.len() implies drivers::filter_settings(
            names,
            #[trigger] active[i],
        ).len() == 0 by {
            if i < rest.len() {
                assert(rest[i] == active[i]);
            }
        }
    }
}

/// All settings are asked by `git config --name-only --null --list`. A recovery goes on only where each one that names a
/// program belongs to a filter, and where no filter that is active on a path has such a setting.
pub proof fn recovery_starts_no_driver(
    replies: Seq<ReplyView>,
    at: nat,
    names: Seq<Seq<u8>>,
    output: BoundedCommandOutputView,
    place: int,
)
    requires
        parts::free_of(names, 0u8),
        output.stdout.bytes == parts::written(names, 0u8),
        0 <= place < names.len(),
        drivers::names_external_driver(names[place]),
    ensures
        ({
            let step = safety::no_drivers_step(replies, at);
            &&& at >= replies.len() ==> effects::waits_for(
                step,
                looked_at_by(seq!["config"@, "--name-only"@, "--null"@, "--list"@]),
            )
            &&& reports(replies, at, 0, output) && step.result is Ok ==> {
                &&& drivers::filter_of(names[place]) is Some
                &&& exists|configured: Seq<Seq<char>>|
                    {
                        let active = #[trigger] drivers::active_filters_step(
                            replies,
                            at + 1,
                            configured,
                        );
                        &&& configured.contains(drivers::filter_of(names[place])->Some_0)
                        &&& active.result is Ok
                        &&& !active.result->Ok_0.contains(drivers::filter_of(names[place])->Some_0)
                    }
            }
        }),
{
    let step = safety::no_drivers_step(replies, at);
    let all = text::pieces(output.stdout.bytes, 0u8);
    assert(parts::written(names, 0u8) + Seq::<u8>::empty() =~= parts::written(names, 0u8));
    parts::split_parts_are_those_written(names, Seq::empty(), 0u8);
    assert(all == names.push(Seq::empty()));
    assert(all[place] == names[place]);
    if reports(replies, at, 0, output) && step.result is Ok {
        let configured = drivers::configured_filters(all);
        lemma_configured(all, place);
        let active = if configured.len() > 0 {
            drivers::active_filters_step(replies, at + 1, configured)
        } else {
            crate::session::given(Seq::empty(), at + 1)
        };
        let loose = drivers::loose_drivers(all);
        assert(active.result is Ok);
        let filters = active.result->Ok_0;
        let found = loose + drivers::settings_of_filters(all, filters);
        assert(found.len() == 0);
        assert(loose.len() == 0);
        lemma_loose(all);
        assert(drivers::settings_of_filters(all, filters).len() == 0);
        lemma_settings_of_filters(all, filters);
        let driver = drivers::filter_of(names[place])->Some_0;
        assert(configured.contains(driver));
        assert(configured.len() > 0);
        if filters.contains(driver) {
            let i = choose|i: int| 0 <= i < filters.len() && filters[i] == driver;
            lemma_filter_settings(all, filters[i]);
        }
    }
}

/// The filters that are configured are all those that a setting belongs to.
proof fn lemma_configured(names: Seq<Seq<u8>>, place: int)
    requires
        0 <= place < names.len(),
        drivers::names_external_driver(names[place]),
    ensures
        drivers::filter_of(names[place]) is Some ==> drivers::configured_filters(names).contains(
            drivers::filter_of(names[place])->Some_0,
        ),
        order::ascending(drivers::configured_filters(names)),
    decreases names.len(),
{
    lemma_configured_order(names);
    lemma_configured_order(names.drop_last());
    let before = drivers::configured_filters(names.drop_last());
    if place < names.len() - 1 {
        assert(names.drop_last()[place] == names[place]);
        lemma_configured(names.drop_last(), place);
    }
    if drivers::names_external_driver(names.last()) && drivers::filter_of(names.last()) is Some {
        order::inserting_keeps_order(before, drivers::filter_of(names.last())->Some_0);
    }
}

/// The filters that are configured are in order.
proof fn lemma_configured_order(names: Seq<Seq<u8>>)
    ensures
        order::ascending(drivers::configured_filters(names)),
    decreases names.len(),
{
    if names.len() > 0 {
        let before = drivers::configured_filters(names.drop_last());
        lemma_configured_order(names.drop_last());
        if drivers::names_external_driver(names.last()) && drivers::filter_of(names.last())
            is Some {
            order::inserting_keeps_order(before, drivers::filter_of(names.last())->Some_0);
        }
    }
}

/// Which filters are active is asked by `git check-attr -z filter`, of the index or of a tree: each third field names a
/// filter, and those that are configured are active.
pub proof fn active_filters_are_those_of_the_paths(
    path: Seq<u8>,
    attribute: Seq<u8>,
    value: Seq<u8>,
    more: Seq<Seq<u8>>,
    configured: Seq<Seq<char>>,
    active: Seq<Seq<char>>,
    source: Seq<char>,
)
    requires
        order::ascending(active),
    ensures
        ({
            let found = drivers::active_in(seq![path, attribute, value] + more, configured, active);
            let driver = text::lowered(bytes::lossy_text(value));
            found is Ok && configured.contains(driver) ==> found->Ok_0.contains(driver)
        }),
        drivers::attribute_words(None) == seq!["check-attr"@, "-z"@, "filter"@, "--"@],
        drivers::attribute_words(Some(source)) == seq![
            "check-attr"@,
            "-z"@,
            "--source="@ + source,
            "filter"@,
            "--"@,
        ],
        drivers::list_words(None) == seq!["ls-files"@, "--cached"@, "-z"@, "--"@],
        drivers::list_words(Some(source)) == seq![
            "ls-tree"@,
            "-r"@,
            "--name-only"@,
            "-z"@,
            source,
            "--"@,
        ],
{
    let fields = seq![path, attribute, value] + more;
    let driver = text::lowered(bytes::lossy_text(value));
    assert(fields[2] == value);
    assert(fields.skip(3) =~= more);
    if configured.contains(driver) {
        order::inserting_keeps_order(active, driver);
        lemma_active_grows(more, configured, order::inserted(active, driver), driver);
    }
}

/// A filter that was found to be active stays so.
proof fn lemma_active_grows(
    fields: Seq<Seq<u8>>,
    configured: Seq<Seq<char>>,
    active: Seq<Seq<char>>,
    driver: Seq<char>,
)
    requires
        order::ascending(active),
        active.contains(driver),
    ensures
        drivers::active_in(fields, configured, active) is Ok ==> drivers::active_in(
            fields,
            configured,
            active,
        )->Ok_0.contains(driver),
    decreases fields.len(),
{
    if fields.len() >= 3 {
        let next = drivers::setting_name(fields[2]);
        if configured.contains(next) {
            order::inserting_keeps_order(active, next);
            lemma_active_grows(fields.skip(3), configured, order::inserted(active, next), driver);
        } else {
            lemma_active_grows(fields.skip(3), configured, active, driver);
        }
    }
}

/// What Git keeps for itself that a recovery depends on.
pub open spec fn own_files() -> Seq<Seq<char>> {
    seq![
        "HEAD"@,
        "index"@,
        "ORIG_HEAD"@,
        "MERGE_HEAD"@,
        "MERGE_MSG"@,
        "MERGE_MODE"@,
        "MERGE_AUTOSTASH"@,
        "MERGE_RR"@,
        "AUTO_MERGE"@,
        "SQUASH_MSG"@,
        "REBASE_HEAD"@,
        "CHERRY_PICK_HEAD"@,
        "REVERT_HEAD"@,
        "BISECT_HEAD"@,
        "rebase-apply"@,
        "rebase-merge"@,
        "sequencer"@,
        "rr-cache"@,
        "info/attributes"@,
        "info/sparse-checkout"@,
    ]
}

/// Whether a survey holds what `git status`, both kinds of `git diff`, `git for-each-ref` and `git config --list` write,
/// and all that Git keeps for itself that a recovery depends on.
pub open spec fn holds_what_git_says_and_keeps(survey: SurveyView) -> bool {
    &&& survey.probes.len() >= 9
    &&& survey.probes[4].args == seq![
        "status"@,
        "--porcelain=v2"@,
        "--branch"@,
        "--untracked-files=all"@,
        "-z"@,
    ]
    &&& survey.probes[5].args == seq![
        "diff"@,
        "--binary"@,
        "--no-ext-diff"@,
        "--no-textconv"@,
        "--full-index"@,
        "--"@,
    ]
    &&& survey.probes[6].args == seq![
        "diff"@,
        "--cached"@,
        "--binary"@,
        "--no-ext-diff"@,
        "--no-textconv"@,
        "--full-index"@,
        "--"@,
    ]
    &&& survey.probes[7].args == seq![
        "for-each-ref"@,
        "--sort=refname"@,
        "--format=%(refname)%00%(objectname)%00%(symref)%00"@,
    ]
    &&& survey.probes[8].args == seq![
        "config"@,
        "--null"@,
        "--list"@,
        "--show-origin"@,
        "--show-scope"@,
    ]
    &&& forall|i: int|
        0 <= i < own_files().len() ==> fingerprints::is_listed(
            survey.records,
            utf8::encode_utf8(#[trigger] own_files()[i]),
        )
}

/// A survey that starts with the outputs and lists Git's own files holds all of it.
proof fn lemma_holds(survey: SurveyView)
    requires
        fingerprints::starts_with_outputs(survey),
        fingerprints::lists_own_files(survey),
    ensures
        holds_what_git_says_and_keeps(survey),
{
    assert(own_files() =~= state::control_paths());
}

/// A fingerprint holds what `git status`, both kinds of `git diff`, `git for-each-ref` and `git config --list` write, and
/// all that Git keeps for itself that a recovery depends on.
#[verifier::spinoff_prover]
pub proof fn fingerprint_holds_what_git_says_and_keeps(
    replies: Seq<ReplyView>,
    at: nat,
    recovery: Option<(RepositoryOperation, RecoveryAction)>,
    held: Option<(RecoveryLockView, RepositoryOperation, RecoveryAction)>,
)
    requires
        operations::fingerprint_step(replies, at, recovery, held).result is Ok,
    ensures
        holds_what_git_says_and_keeps(
            operations::surveyed_step(replies, at, recovery).result->Ok_0,
        ),
{
    fingerprints::fingerprint_covers_the_repository(replies, at, recovery, held);
    lemma_holds(operations::surveyed_step(replies, at, recovery).result->Ok_0);
}

/// Two looks at a file agree if and only if its device, its inode, its mode, its length and both of its times are the
/// same.
pub proof fn unchanged_files_have_the_same_state(left: FileMetadata, right: FileMetadata)
    ensures
        files::same_file_state(left, right) <==> {
            &&& left.device == right.device && left.inode == right.inode
            &&& left.mode == right.mode && left.length == right.length
            &&& left.modified == right.modified && left.modified_nanoseconds
                == right.modified_nanoseconds
            &&& left.changed == right.changed && left.changed_nanoseconds
                == right.changed_nanoseconds
        },
        files::same_file(left, right) <==> left.device == right.device && left.inode == right.inode,
{
}

/// A command repeats what it gave if and only if it ends with the same code, zero or one, and its output has the same
/// digest.
pub proof fn repeated_commands_give_the_same(
    probe: RecoveryProbeView,
    output: BoundedCommandOutputView,
)
    ensures
        fence::probe_repeats(probe, output) is Ok <==> {
            &&& output.status.code == probe.status
            &&& output.status.code == Some(0i32) || output.status.code == Some(1i32)
            &&& output.stdout.digest == probe.digest
        },
{
}

/// Whether a command of a fingerprint was run once more and gave the same.
pub open spec fn was_repeated(
    replies: Seq<ReplyView>,
    probe: RecoveryProbeView,
) -> bool {
    exists|n: nat| (#[trigger] fence::probe_again_step(replies, n, probe)).result is Ok
}

/// The commands of a fingerprint are all run once more.
proof fn lemma_probes(
    replies: Seq<ReplyView>,
    at: nat,
    probes: Seq<RecoveryProbeView>,
)
    requires
        fence::probes_step(replies, at, probes).result is Ok,
    ensures
        forall|i: int| 0 <= i < probes.len() ==> was_repeated(replies, #[trigger] probes[i]),
    decreases probes.len(),
{
    if probes.len() > 0 {
        let first = fence::probe_again_step(replies, at, probes[0]);
        assert(first.result is Ok);
        assert(was_repeated(replies, probes[0]));
        lemma_probes(replies, first.next, probes.skip(1));
        assert forall|i: int| 0 <= i < probes.len() implies was_repeated(
            replies,
            #[trigger] probes[i],
        ) by {
            if i > 0 {
                assert(probes.skip(1)[i - 1] == probes[i]);
            }
        }
    }
}

/// Whether an input of a fingerprint was looked at once more and was the same.
pub open spec fn was_seen_again(
    replies: Seq<ReplyView>,
    input: RecoveryInputView,
) -> bool {
    exists|n: nat| (#[trigger] fence::input_again_step(replies, n, input)).result is Ok
}

/// The inputs of a fingerprint but one are looked at once more.
proof fn lemma_inputs(
    replies: Seq<ReplyView>,
    at: nat,
    inputs: Seq<RetainedInputView>,
    from: nat,
    but: Option<int>,
)
    requires
        fence::inputs_step(replies, at, inputs, from, but).result is Ok,
    ensures
        forall|i: int|
            #![trigger inputs[i]]
            from <= i < inputs.len() && but != Some(i) ==> was_seen_again(replies, inputs[i].input),
    decreases inputs.len() - from,
{
    if from < inputs.len() {
        if but == Some(from as int) {
            lemma_inputs(replies, at, inputs, from + 1, but);
        } else {
            let first = fence::input_again_step(replies, at, inputs[from as int].input);
            assert(first.result is Ok);
            assert(was_seen_again(replies, inputs[from as int].input));
            lemma_inputs(replies, first.next, inputs, from + 1, but);
        }
    }
}

/// A fingerprint is taken only where all of it was looked at once more and nothing had changed: each command and each
/// input.
pub proof fn fingerprint_is_looked_at_again(
    replies: Seq<ReplyView>,
    at: nat,
    survey: SurveyView,
)
    requires
        fence::fence_step(replies, at, survey).result is Ok,
    ensures
        forall|i: int|
            0 <= i < survey.probes.len() ==> was_repeated(replies, #[trigger] survey.probes[i]),
        forall|i: int|
            #![trigger survey.inputs[i]]
            0 <= i < survey.inputs.len() ==> was_seen_again(replies, survey.inputs[i].input),
{
    lemma_probes(replies, at, survey.probes);
    let probes = fence::probes_step(replies, at, survey.probes);
    let last = fence::index_input(survey.inputs);
    let inputs = fence::inputs_step(replies, probes.next, survey.inputs, 0, last);
    lemma_inputs(replies, probes.next, survey.inputs, 0, last);
    if last is Some {
        let index = last->Some_0;
        let again = fence::input_again_step(replies, inputs.next, survey.inputs[index].input);
        assert(again.result is Ok);
        assert(was_seen_again(replies, survey.inputs[index].input));
    }
}

/// A lock is taken by opening its file and locking it. Where another recovery holds it, this one is refused as such; any
/// other refusal is told as it came.
pub proof fn locks_are_taken_or_refused(
    replies: Seq<ReplyView>,
    at: nat,
    path: Seq<u8>,
    operation: RepositoryOperation,
    action: RecoveryAction,
    handle: u64,
    source: IoFailureView,
    contended: Option<i32>,
)
    ensures
        ({
            let step = lock::locked_file_step(replies, at, path, operation, action);
            &&& at >= replies.len() ==> effects::waits_for(step, ActionView::OpenLock { path })
            &&& at < replies.len() && replies[at as int] == ReplyView::Number(handle) ==> {
                &&& at + 1 == replies.len() ==> effects::waits_for(
                    step,
                    ActionView::Lock { handle },
                )
                &&& at + 1 < replies.len() && replies[at as int + 1] == ReplyView::Done
                    ==> step.result == Ok::<u64, HaltView<GitErrorView>>(handle)
                &&& at + 1 < replies.len() && replies[at as int + 1] == (ReplyView::Refused {
                    source,
                    contended,
                }) ==> {
                    &&& step.result is Err && step.result->Err_0 is Failed
                    &&& source.code == contended ==> step.result->Err_0->Failed_0 is Blocked
                    &&& source.code != contended ==> step.result->Err_0->Failed_0 is Io
                }
            }
        }),
{
}

/// A lock is intact if and only if it is that of the repository, its directory is the one that it was taken in, and both
/// of its files are in place: regular, unchanged, and linked once.
pub proof fn intact_locks_are_in_place(
    held: RecoveryLockView,
    root: Seq<u8>,
    opened: FileMetadata,
    current: FileMetadata,
    opened_guard: FileMetadata,
    current_guard: FileMetadata,
    directory: FileMetadata,
)
    ensures
        lock::lock_intact(
            held,
            root,
            opened,
            current,
            opened_guard,
            current_guard,
            directory,
        ) <==> {
            &&& order::path_parts(root) == order::path_parts(held.repository_root)
            &&& lock::key_in_path(held.path) == Some(lock::repository_key(root))
            &&& held.directory.kind == FileKind::Directory && directory.kind == FileKind::Directory
            &&& held.directory.device == directory.device && held.directory.inode
                == directory.inode
            &&& opened.kind == FileKind::File && current.kind == FileKind::File && opened.links == 1
            &&& files::same_file_state(opened, current)
            &&& opened_guard.kind == FileKind::File && current_guard.kind == FileKind::File
                && opened_guard.links == 1
            &&& files::same_file_state(opened_guard, current_guard)
        },
{
}

/// The directory for locks is `recovery-locks` in the directory for data, made where it is not there.
pub proof fn locks_are_kept_with_the_data(
    replies: Seq<ReplyView>,
    at: nat,
    operation: RepositoryOperation,
    action: RecoveryAction,
    resolved: Seq<u8>,
)
    ensures
        ({
            let step = lock::lock_home_step(replies, at, operation, action);
            let data = lock::data_directory_step(replies, at);
            let n = data.next;
            let directory = bytes::joined_path(
                data.result->Ok_0->Some_0,
                utf8::encode_utf8("recovery-locks"@),
            );
            &&& data.result is Ok && data.result->Ok_0 is None ==> step.result is Err
                && step.result->Err_0 is Failed
            &&& data.result is Ok && data.result->Ok_0 is Some ==> {
                &&& n >= replies.len() ==> effects::waits_for(
                    step,
                    ActionView::CreateDirectories { path: directory },
                )
                &&& n < replies.len() && replies[n as int] == ReplyView::Done ==> {
                    &&& n + 1 == replies.len() ==> effects::waits_for(
                        step,
                        ActionView::Canonicalize { path: directory },
                    )
                    &&& n + 2 < replies.len() && replies[n as int + 1] == ReplyView::Bytes(resolved)
                        && replies[n as int + 2] == ReplyView::Flag(true) ==> step.result == Ok::<
                        Seq<u8>,
                        HaltView<GitErrorView>,
                    >(resolved)
                    &&& n + 2 < replies.len() && replies[n as int + 1] == ReplyView::Bytes(resolved)
                        && replies[n as int + 2] == ReplyView::Flag(false) ==> step.result is Err
                        && step.result->Err_0 is Failed
                }
            }
        }),
{
}

/// What is observed of a setting that has to be off is refused unless it is not set or off.
pub proof fn settings_that_start_processes_are_refused(
    key: Seq<char>,
    args: Seq<Seq<char>>,
    output: BoundedCommandOutputView,
)
    requires
        !output.stdout.truncated,
    ensures
        ({
            let seen = safety::observation(
                RecoveryProbeSafetyView::DisabledConfig(key),
                args,
                output,
            );
            let value = text::trimmed(
                bytes::lossy_text(bytes::without_line_ending(output.stdout.bytes)),
            );
            &&& output.status.code == Some(1i32) ==> seen is Ok
            &&& output.status.code == Some(0i32) ==> (seen is Ok <==> value.len() == 0 || value
                == "0"@ || value == "false"@ || value == "no"@ || value == "off"@)
            &&& output.status.code != Some(0i32) && output.status.code != Some(1i32) ==> seen is Err
        }),
{
}

/// A hook that is observed among the files of the repository is refused where it can be run, and nowhere else.
pub proof fn runnable_hooks_are_refused(place: int, metadata: FileMetadata)
    requires
        0 <= place < git_hooks().len(),
    ensures
        ({
            let label = utf8::encode_utf8("hooks/"@) + utf8::encode_utf8(git_hooks()[place]);
            safety::hook_observation(label, metadata, safety::recovery_hooks()) is Ok
                <==> !commands::runs_as_hook(metadata)
        }),
{
    let hooks = safety::recovery_hooks();
    assert(git_hooks() =~= hooks);
    let lead = utf8::encode_utf8("hooks/"@);
    let name = utf8::encode_utf8(hooks[place]);
    let label = lead + name;
    assert(label.take(lead.len() as int) =~= lead);
    assert(label.skip(lead.len() as int) =~= name);
    lemma_hook_label(label, metadata, hooks, place);
}

/// A hook with the label of one of a list is judged by whether it can be run.
proof fn lemma_hook_label(
    label: Seq<u8>,
    metadata: FileMetadata,
    hooks: Seq<Seq<char>>,
    place: int,
)
    requires
        0 <= place < hooks.len(),
        safety::hook_label(label, hooks[place]),
    ensures
        safety::hook_observation(label, metadata, hooks) is Ok <==> !commands::runs_as_hook(
            metadata,
        ),
    decreases hooks.len(),
{
    if !safety::hook_label(label, hooks[0]) {
        assert(hooks.skip(1)[place - 1] == hooks[place]);
        lemma_hook_label(label, metadata, hooks.skip(1), place - 1);
    }
}

/// How long and how much a command may take: a diagnostic one is stopped where it writes too much or its time is over, one
/// whose output is only digested where its time is over, and one that carries out a recovery never.
pub proof fn commands_are_stopped_by_their_policy(exceeded: bool, ended: bool, expired: bool)
    ensures
        bounded::run_decision(BoundedCommandPolicy::Diagnostic, true, ended, expired)
            == bounded::BoundedRunDecision::StopForOutput,
        bounded::run_decision(BoundedCommandPolicy::Diagnostic, false, true, expired)
            == bounded::BoundedRunDecision::Collect,
        bounded::run_decision(BoundedCommandPolicy::Diagnostic, false, false, true)
            == bounded::BoundedRunDecision::StopForTime,
        bounded::run_decision(BoundedCommandPolicy::Diagnostic, false, false, false)
            == bounded::BoundedRunDecision::LookAgain,
        bounded::run_decision(BoundedCommandPolicy::Digest, exceeded, true, expired)
            == bounded::BoundedRunDecision::Collect,
        bounded::run_decision(BoundedCommandPolicy::Digest, exceeded, false, true)
            == bounded::BoundedRunDecision::StopForTime,
        bounded::run_decision(BoundedCommandPolicy::Digest, exceeded, false, false)
            == bounded::BoundedRunDecision::LookAgain,
        bounded::run_decision(BoundedCommandPolicy::RecoveryExecution, exceeded, ended, expired)
            == bounded::BoundedRunDecision::WaitForEnd,
        bounded::capture_bound(BoundedCommandPolicy::Diagnostic) == 67108864,
        bounded::capture_bound(BoundedCommandPolicy::Digest) == usize::MAX,
        bounded::capture_bound(BoundedCommandPolicy::RecoveryExecution) == usize::MAX,
{
}

/// A stream that fits is kept whole and is not truncated; of one that does not fit, as much is kept as fits, and it is
/// marked.
pub proof fn streams_are_kept_as_far_as_they_fit(
    all: Seq<u8>,
    output_limit: usize,
    capture_limit: usize,
    digest_all: bool,
)
    requires
        output_limit <= capture_limit,
        all.len() < usize::MAX,
    ensures
        ({
            let kept = bounded::captured(all, output_limit, capture_limit, digest_all);
            &&& all.len() <= output_limit ==> kept.bytes == all && !kept.truncated
            &&& all.len() > output_limit ==> kept.bytes == all.take(output_limit as int)
                && kept.truncated
            &&& !kept.truncated ==> bounded::stream_text(kept) == bytes::lossy_text(all)
            &&& kept.truncated ==> text::has_suffix(
                bounded::stream_text(kept),
                "[output truncated by bitbygit]\n"@,
            )
        }),
{
    let kept = bounded::captured(all, output_limit, capture_limit, digest_all);
    if all.len() <= output_limit {
        assert(kept.bytes =~= all);
    } else {
        assert(kept.bytes =~= all.take(output_limit as int));
    }
    let shown = bytes::lossy_text(kept.bytes);
    let mark = "[output truncated by bitbygit]\n"@;
    let one = shown.push('\n') + mark;
    let other = shown + mark;
    assert(one.skip(one.len() - mark.len()) =~= mark);
    assert(other.skip(other.len() - mark.len()) =~= mark);
}

/// A recovery is prepared where everything is safe and it is valid, and what is given is the fingerprint of the state for
/// that recovery.
pub proof fn prepared_recovery_is_valid_and_fingerprinted(
    replies: Seq<ReplyView>,
    at: nat,
    milliseconds: u64,
    operation: RepositoryOperation,
    action: RecoveryAction,
)
    ensures
        ({
            let step = operations::prepare_recovery_step(
                replies,
                at,
                milliseconds,
                operation,
                action,
            );
            let begun = operations::begun_step(replies, at, milliseconds);
            let safe = safety::process_configuration_step(replies, begun.next);
            let valid = operations::validate_step(replies, safe.next, operation, action);
            let state = operations::fingerprint_step(
                replies,
                valid.next,
                Some((operation, action)),
                None,
            );
            &&& step.result is Ok ==> begun.result is Ok && safe.result is Ok && valid.result is Ok
                && state.result is Ok && step.result->Ok_0 == state.result->Ok_0
            &&& begun.result is Ok && safe.result is Ok && valid.result is Ok ==> step == state
        }),
{
}

/// A fingerprint is taken if and only if everything was surveyed, nothing had changed, the lock was still held, and again
/// nothing had changed; it is the digest of what was surveyed.
#[verifier::spinoff_prover]
#[verifier::rlimit(40)]
pub proof fn fingerprint_is_taken_between_two_looks(
    replies: Seq<ReplyView>,
    at: nat,
    recovery: Option<(RepositoryOperation, RecoveryAction)>,
    held: Option<(RecoveryLockView, RepositoryOperation, RecoveryAction)>,
)
    ensures
        ({
            let step = operations::fingerprint_step(replies, at, recovery, held);
            let survey = operations::surveyed_step(replies, at, recovery);
            let same = fence::fence_step(replies, survey.next, survey.result->Ok_0);
            let lock = operations::held_step(replies, same.next, held);
            let still = fence::fence_step(replies, lock.next, survey.result->Ok_0);
            &&& step.result is Ok <==> survey.result is Ok && same.result is Ok && lock.result is Ok
                && still.result is Ok
            &&& step.result is Ok ==> step.result->Ok_0.fingerprint == crate::digest::sha256(
                survey.result->Ok_0.transcript,
            )
        }),
{
}

/// A recovery holds its lock if and only if nothing may start a process, the lock was taken, the time was not over, and
/// the lock is still that of the repository.
#[verifier::spinoff_prover]
#[verifier::rlimit(40)]
pub proof fn recovery_holds_its_lock(
    replies: Seq<ReplyView>,
    at: nat,
    operation: RepositoryOperation,
    action: RecoveryAction,
)
    ensures
        ({
            let step = operations::locked_step(replies, at, operation, action);
            let safe = safety::process_configuration_step(replies, at);
            let held = lock::acquire_step(replies, safe.next, operation, action);
            let n = held.next;
            let again = operations::lock_again_step(
                replies,
                n + 1,
                held.result->Ok_0,
                operation,
                action,
            );
            &&& step.result is Ok <==> {
                &&& safe.result is Ok
                &&& held.result is Ok
                &&& n < replies.len() && replies[n as int] == ReplyView::Done
                &&& again.result is Ok
            }
            &&& step.result is Ok ==> step.result->Ok_0 == held.result->Ok_0
            &&& safe.result is Ok && held.result is Ok && n >= replies.len() ==> effects::waits_for(
                step,
                ActionView::CheckDeadline,
            )
        }),
{
}

/// The answers with which a file is read in some chunks: the time is looked at before each of them, and an empty one ends
/// the file.
pub open spec fn read_in_chunks(replies: Seq<ReplyView>, at: nat, chunks: Seq<Seq<u8>>) -> bool
    decreases chunks.len(),
{
    &&& at + 1 < replies.len()
    &&& replies[at as int] == ReplyView::Done
    &&& if chunks.len() == 0 {
        replies[at as int + 1] == ReplyView::Bytes(Seq::empty())
    } else {
        &&& replies[at as int + 1] == ReplyView::Bytes(chunks[0])
        &&& 0 < chunks[0].len() <= 65536
        &&& read_in_chunks(replies, at + 2, chunks.skip(1))
    }
}

/// Some chunks in a row.
pub open spec fn in_a_row(chunks: Seq<Seq<u8>>) -> Seq<u8>
    decreases chunks.len(),
{
    if chunks.len() == 0 {
        Seq::empty()
    } else {
        chunks[0] + in_a_row(chunks.skip(1))
    }
}

/// The contents of a file are all of its chunks in a row.
pub proof fn files_are_read_whole(
    replies: Seq<ReplyView>,
    at: nat,
    path: Seq<u8>,
    handle: u64,
    error: Seq<char>,
    contents: Seq<u8>,
    chunks: Seq<Seq<u8>>,
)
    requires
        read_in_chunks(replies, at, chunks),
    ensures
        survey::contents_step(replies, at, path, handle, false, None, error, contents).result
            == Ok::<Seq<u8>, HaltView<GitErrorView>>(contents + in_a_row(chunks)),
    decreases chunks.len(),
{
    if chunks.len() == 0 {
        assert(contents + in_a_row(chunks) =~= contents);
    } else {
        files_are_read_whole(
            replies,
            at + 2,
            path,
            handle,
            error,
            contents + chunks[0],
            chunks.skip(1),
        );
        assert(contents + chunks[0] + in_a_row(chunks.skip(1)) =~= contents + in_a_row(chunks));
    }
}

}
