//! What Git is asked, name by name, before a recovery: the marks of what is under way, the files of a rebase, and the
//! settings that start a process.
use crate::git::effects;
use crate::git::recovery::bounded;
use crate::git::recovery::containment::{behind_file, is_blank_file, is_harmless_plan};
use crate::git::recovery::effects::looked_at_by;
use crate::git::recovery::files;
use crate::git::recovery::operations;
use crate::git::recovery::safety;
use crate::git::recovery::state;
use crate::git::recovery::survey::SurveyView;
use crate::git::types::{GitErrorView, RecoveryAction, RepositoryOperation};
use crate::session::{ActionView, HaltView, ReplyView};
use vstd::prelude::*;

verus! {

/// The look that asks Git for the place of a file of its own.
pub open spec fn place_of(name: Seq<char>) -> ActionView {
    looked_at_by(seq!["rev-parse"@, "--path-format=absolute"@, "--git-path"@, name])
}

/// The look that asks Git for a setting.
pub open spec fn setting(key: Seq<char>) -> ActionView {
    looked_at_by(seq!["config"@, "--get"@, key])
}

/// What a recovery may take up is recognised by `rebase-apply`, `rebase-merge` and `MERGE_HEAD`.
pub proof fn marks_of_a_recovery_are_asked_for(replies: Seq<ReplyView>, at: nat)
    ensures
        ({
            let active = files::operation_until_step(replies, at);
            let apply = bounded::git_path_until_step(replies, at, "rebase-apply"@);
            let merge = bounded::git_path_until_step(replies, apply.next, "rebase-merge"@);
            let marks = files::rebase_marks_step(
                replies,
                merge.next,
                merge.result->Ok_0,
                apply.result->Ok_0,
            );
            &&& at >= replies.len() ==> effects::waits_for(active, place_of("rebase-apply"@))
            &&& apply.result is Ok && apply.next >= replies.len() ==> effects::waits_for(
                active,
                place_of("rebase-merge"@),
            )
            &&& apply.result is Ok && merge.result is Ok && marks.result == Ok::<
                bool,
                HaltView<GitErrorView>,
            >(false) && marks.next >= replies.len() ==> effects::waits_for(
                active,
                place_of("MERGE_HEAD"@),
            )
        }),
{
}

/// Where a rebase began is read from `orig-head`, and what is left of it from `git-rebase-todo`: first in `rebase-merge`,
/// and where it is not there in `rebase-apply`.
pub proof fn files_of_a_rebase_are_asked_for(
    replies: Seq<ReplyView>,
    at: nat,
    action: RecoveryAction,
)
    ensures
        ({
            let start = files::overwrite_target_step(
                replies,
                at,
                RepositoryOperation::Rebase,
                action,
            );
            let first = files::git_file_step(replies, at, "rebase-merge/orig-head"@);
            &&& at >= replies.len() ==> effects::waits_for(
                start,
                place_of("rebase-merge/orig-head"@),
            )
            &&& first.result == Ok::<Option<Seq<char>>, HaltView<GitErrorView>>(None) && first.next
                >= replies.len() ==> effects::waits_for(start, place_of("rebase-apply/orig-head"@))
        }),
        ({
            let left = files::remaining_oids_step(replies, at);
            let first = files::git_file_step(replies, at, "rebase-merge/git-rebase-todo"@);
            &&& at >= replies.len() ==> effects::waits_for(
                left,
                place_of("rebase-merge/git-rebase-todo"@),
            )
            &&& first.result == Ok::<Option<Seq<char>>, HaltView<GitErrorView>>(None) && first.next
                >= replies.len() ==> effects::waits_for(
                left,
                place_of("rebase-apply/git-rebase-todo"@),
            )
        }),
{
}

/// The options of a rebase are those in `gpg_sign_opt`, `strategy` and `strategy_opts`, in either place where Git keeps
/// them.
pub proof fn options_of_a_rebase_are_asked_for(replies: Seq<ReplyView>, at: nat)
    ensures
        ({
            let step = safety::rebase_options_step(replies, at);
            let n1 = behind_file(replies, at, "rebase-merge/gpg_sign_opt"@);
            let n2 = behind_file(replies, n1, "rebase-apply/gpg_sign_opt"@);
            let n3 = behind_file(replies, n2, "rebase-merge/strategy"@);
            let n4 = behind_file(replies, n3, "rebase-apply/strategy"@);
            let n5 = behind_file(replies, n4, "rebase-merge/strategy_opts"@);
            let ok1 = is_blank_file(replies, at, "rebase-merge/gpg_sign_opt"@);
            let ok2 = ok1 && is_blank_file(replies, n1, "rebase-apply/gpg_sign_opt"@);
            let ok3 = ok2 && is_blank_file(replies, n2, "rebase-merge/strategy"@);
            let ok4 = ok3 && is_blank_file(replies, n3, "rebase-apply/strategy"@);
            let ok5 = ok4 && is_blank_file(replies, n4, "rebase-merge/strategy_opts"@);
            let asks = |name: Seq<char>| effects::waits_for(step, place_of(name));
            &&& at >= replies.len() ==> asks("rebase-merge/gpg_sign_opt"@)
            &&& ok1 && n1 >= replies.len() ==> asks("rebase-apply/gpg_sign_opt"@)
            &&& ok2 && n2 >= replies.len() ==> asks("rebase-merge/strategy"@)
            &&& ok3 && n3 >= replies.len() ==> asks("rebase-apply/strategy"@)
            &&& ok4 && n4 >= replies.len() ==> asks("rebase-merge/strategy_opts"@)
            &&& ok5 && n5 >= replies.len() ==> asks("rebase-apply/strategy_opts"@)
        }),
{
}

/// The settings that start a process are `core.fsmonitor`, `commit.gpgsign` and `tag.gpgsign`.
pub proof fn settings_that_start_a_process_are_asked_for(replies: Seq<ReplyView>, at: nat)
    ensures
        ({
            let step = safety::settings_safe_step(replies, at);
            let monitor = safety::setting_enabled_step(replies, at, "core.fsmonitor"@);
            let commit = safety::setting_enabled_step(replies, monitor.next, "commit.gpgsign"@);
            let off = Ok::<bool, HaltView<GitErrorView>>(false);
            &&& at >= replies.len() ==> effects::waits_for(step, setting("core.fsmonitor"@))
            &&& monitor.result == off && monitor.next >= replies.len() ==> effects::waits_for(
                step,
                setting("commit.gpgsign"@),
            )
            &&& monitor.result == off && commit.result == off && commit.next >= replies.len()
                ==> effects::waits_for(step, setting("tag.gpgsign"@))
        }),
{
}

/// The plans that must not run a command are those in `rebase-merge` and in `rebase-apply`.
pub proof fn plans_of_a_rebase_are_asked_for(replies: Seq<ReplyView>, at: nat)
    ensures
        ({
            let step = safety::process_configuration_step(replies, at);
            let settings = safety::settings_safe_step(replies, at);
            let options = safety::rebase_options_step(replies, settings.next);
            let driving = safety::no_drivers_step(replies, options.next);
            let hooks = safety::no_hooks_step(replies, driving.next);
            let n = behind_file(replies, hooks.next, "rebase-merge/git-rebase-todo"@);
            let ok = settings.result is Ok && options.result is Ok && driving.result is Ok
                && hooks.result is Ok;
            &&& ok && hooks.next >= replies.len() ==> effects::waits_for(
                step,
                place_of("rebase-merge/git-rebase-todo"@),
            )
            &&& ok && is_harmless_plan(replies, hooks.next, "rebase-merge/git-rebase-todo"@) && n
                >= replies.len() ==> effects::waits_for(
                step,
                place_of("rebase-apply/git-rebase-todo"@),
            )
        }),
{
}

/// The attributes of the system and those of the user are looked for where Git says that they are, by `git var`.
pub proof fn files_of_attributes_are_asked_for(
    replies: Seq<ReplyView>,
    at: nat,
    known: SurveyView,
)
    ensures
        ({
            let step = operations::attributes_survey_step(replies, at, known);
            let hooks = state::hooks_step(replies, at, known);
            let system = state::variable_step(
                replies,
                hooks.next,
                hooks.result->Ok_0,
                "GIT_ATTR_SYSTEM"@,
            );
            &&& hooks.result is Ok && hooks.next >= replies.len() ==> effects::waits_for(
                step,
                looked_at_by(seq!["var"@, "GIT_ATTR_SYSTEM"@]),
            )
            &&& hooks.result is Ok && system.result is Ok && system.next >= replies.len()
                ==> effects::waits_for(step, looked_at_by(seq!["var"@, "GIT_ATTR_GLOBAL"@]))
        }),
{
}

}
