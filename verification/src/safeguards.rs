//! What the settings and the policy guarantee, whatever is configured.
use crate::config;
use crate::config::{
    AppConfigView, ConfigErrorView, ConfirmationConfig, ConfirmationSetting, OperationFamily,
};
use crate::operation;
use crate::operation::{ConfirmationRequirement, OperationKind, RiskLevel};
use crate::parts;
use crate::policy;
use crate::policy::EffectivePolicyView;
use crate::text;
use vstd::prelude::*;
use vstd::utf8;

verus! {

/// Whether a character is an ASCII letter, a digit, a dash, an underscore or a slash.
pub open spec fn is_plain(character: char) -> bool {
    ||| 'a' <= character <= 'z'
    ||| 'A' <= character <= 'Z'
    ||| '0' <= character <= '9'
    ||| character == '-'
    ||| character == '_'
    ||| character == '/'
}

/// Whether a name is made of plain characters, in parts between slashes of which none is empty.
pub open spec fn is_plain_name(name: Seq<char>) -> bool {
    &&& name.len() > 0
    &&& name[0] != '-'
    &&& name[0] != '/'
    &&& name.last() != '/'
    &&& forall|i: int| 0 <= i < name.len() ==> is_plain(#[trigger] name[i])
    &&& forall|i: int|
        #![trigger name[i]]
        0 <= i < name.len() - 1 && name[i] == '/' ==> name[i + 1] != '/'
}

/// The parts of a plain name are not empty and hold no dot.
proof fn lemma_plain_parts(name: Seq<char>)
    requires
        name.len() > 0,
        name[0] != '/',
        name.last() != '/',
        forall|i: int| 0 <= i < name.len() ==> is_plain(#[trigger] name[i]),
        forall|i: int|
            #![trigger name[i]]
            0 <= i < name.len() - 1 && name[i] == '/' ==> name[i + 1] != '/',
    ensures
        forall|i: int|
            0 <= i < text::pieces(name, '/').len() ==> config::good_component(
                #[trigger] text::pieces(name, '/')[i],
            ),
    decreases name.len(),
{
    text::lemma_position(name, '/');
    let at = text::position_of(name, '/') as int;
    let all = text::pieces(name, '/');
    if at < name.len() {
        let rest = name.skip(at + 1);
        assert(name[at] == '/');
        assert(at + 1 < name.len());
        assert(rest[0] == name[at + 1]);
        assert(rest.last() == name.last());
        assert forall|i: int| 0 <= i < rest.len() implies is_plain(#[trigger] rest[i]) by {
            assert(rest[i] == name[i + at + 1]);
        }
        assert forall|i: int| #![trigger rest[i]] 0 <= i < rest.len() - 1 && rest[i] == '/' implies
            rest[i + 1] != '/' by {
            assert(rest[i] == name[i + at + 1]);
            assert(rest[i + 1] == name[i + 1 + at + 1]);
        }
        lemma_plain_parts(rest);
        lemma_good_part(name.take(at));
        assert forall|i: int| 0 <= i < all.len() implies config::good_component(
            #[trigger] all[i],
        ) by {
            if i > 0 {
                assert(all[i] == text::pieces(rest, '/')[i - 1]);
            }
        }
    } else {
        lemma_good_part(name);
    }
}

/// A part of plain characters is a good one.
proof fn lemma_good_part(part: Seq<char>)
    requires
        part.len() > 0,
        forall|i: int| 0 <= i < part.len() ==> is_plain(#[trigger] part[i]),
    ensures
        config::good_component(part),
{
    reveal_strlit(".lock");
    assert(is_plain(part[0]));
    if text::has_suffix(part, ".lock"@) {
        let end = part.skip(part.len() - ".lock"@.len());
        assert(end[0] == '.');
        assert(end[0] == part[part.len() - 5]);
    }
}

/// Every plain name is a valid name of a branch, except `HEAD`.
pub proof fn plain_names_are_valid(name: Seq<char>)
    requires
        is_plain_name(name),
        name != "HEAD"@,
    ensures
        config::is_branch_name(name),
{
    reveal_strlit("@");
    reveal_strlit("..");
    reveal_strlit("//");
    reveal_strlit("@{");
    assert(is_plain(name[0]) && is_plain(name[name.len() - 1]));
    text::lemma_nothing_to_trim(name);
    lemma_plain_parts(name);
    assert forall|i: int| 0 <= i < name.len() implies !config::is_forbidden(#[trigger] name[i]) by {
        assert(is_plain(name[i]));
    }
    if text::contains_text(name, ".."@) {
        let i = choose|i: int|
            0 <= i <= name.len() && text::has_prefix(#[trigger] name.skip(i), ".."@);
        assert(name.skip(i).take(2)[0] == name[i]);
    }
    if text::contains_text(name, "@{"@) {
        let i = choose|i: int|
            0 <= i <= name.len() && text::has_prefix(#[trigger] name.skip(i), "@{"@);
        assert(name.skip(i).take(2)[0] == name[i]);
    }
    if text::contains_text(name, "//"@) {
        let i = choose|i: int|
            0 <= i <= name.len() && text::has_prefix(#[trigger] name.skip(i), "//"@);
        assert(name.skip(i).take(2)[0] == name[i]);
        assert(name.skip(i).take(2)[1] == name[i + 1]);
    }
}

/// A text holds what it was put together around.
proof fn lemma_holds(before: Seq<char>, middle: Seq<char>, behind: Seq<char>)
    ensures
        text::contains_text(before + middle + behind, middle),
{
    let whole = before + middle + behind;
    let rest = whole.skip(before.len() as int);
    assert(rest.take(middle.len() as int) =~= middle);
    assert(text::has_prefix(whole.skip(before.len() as int), middle));
}

/// No valid name of a branch holds what Git refuses in one: two dots, two slashes or `@{` in a row, a space, a control
/// character or one of `~^:?*[\`; a dash or a slash in front; a slash or a dot at its end; `@` or `HEAD` alone.
pub proof fn names_that_git_refuses_are_invalid(
    before: Seq<char>,
    behind: Seq<char>,
    character: char,
)
    requires
        character == ' ' || character == '~' || character == '^' || character == ':' || character
            == '?' || character == '*' || character == '[' || character == '\\' || character
            < '\u{20}' || character == '\u{7f}',
    ensures
        !config::is_branch_name(before + ".."@ + behind),
        !config::is_branch_name(before + "//"@ + behind),
        !config::is_branch_name(before + "@{"@ + behind),
        !config::is_branch_name(before + seq![character] + behind),
        !config::is_branch_name(seq!['-'] + behind),
        !config::is_branch_name(seq!['/'] + behind),
        !config::is_branch_name(seq!['.'] + behind),
        !config::is_branch_name(before + seq!['/']),
        !config::is_branch_name(before + seq!['.']),
        !config::is_branch_name(Seq::empty()),
        !config::is_branch_name("@"@),
        !config::is_branch_name("HEAD"@),
{
    lemma_holds(before, ".."@, behind);
    lemma_holds(before, "//"@, behind);
    lemma_holds(before, "@{"@, behind);
    let whole = before + seq![character] + behind;
    assert(whole[before.len() as int] == character);
    assert((seq!['-'] + behind)[0] == '-');
    assert((seq!['/'] + behind)[0] == '/');
    assert((seq!['.'] + behind)[0] == '.');
    assert((before + seq!['/']).last() == '/');
    assert((before + seq!['.']).last() == '.');
}

/// No part of a valid name starts with a dot or ends with `.lock`.
pub proof fn parts_that_git_refuses_are_invalid(
    before: Seq<Seq<char>>,
    part: Seq<char>,
    behind: Seq<char>,
)
    requires
        parts::free_of(before, '/'),
        !part.contains('/'),
        !behind.contains('/'),
        (part.len() > 0 && part[0] == '.') || text::has_suffix(part, ".lock"@),
    ensures
        !config::is_branch_name(parts::written(before.push(part), '/') + behind),
        !config::is_branch_name(parts::written(before, '/') + part),
{
    let longer = before.push(part);
    assert forall|i: int| 0 <= i < longer.len() implies !(#[trigger] longer[i]).contains('/') by {
        if i < before.len() {
            assert(longer[i] == before[i]);
        }
    }
    parts::split_parts_are_those_written(longer, behind, '/');
    parts::split_parts_are_those_written(before, part, '/');
    let one = text::pieces(parts::written(longer, '/') + behind, '/');
    let other = text::pieces(parts::written(before, '/') + part, '/');
    assert(one[before.len() as int] == part);
    assert(other[before.len() as int] == part);
    assert(!config::good_component(part));
}

/// A pattern is a valid name, or a valid name with `/*` behind it.
pub proof fn patterns_are_names_with_a_star(name: Seq<char>)
    requires
        is_plain_name(name),
    ensures
        config::is_branch_pattern(name + "/*"@),
        name != "HEAD"@ ==> config::is_branch_pattern(name),
        !config::is_branch_pattern(name + "*"@),
{
    reveal_strlit("/*");
    reveal_strlit("*");
    reveal_strlit("/branch");
    reveal_strlit("HEAD");
    let pattern = name + "/*"@;
    assert(pattern.skip(pattern.len() - 2) =~= "/*"@);
    assert(pattern.take(pattern.len() - 2) =~= name);
    let model = name + "/branch"@;
    assert forall|i: int| 0 <= i < model.len() implies is_plain(#[trigger] model[i]) by {
        if i < name.len() {
            assert(model[i] == name[i]);
        } else {
            assert(model[i] == "/branch"@[i - name.len()]);
        }
    }
    assert forall|i: int| #![trigger model[i]] 0 <= i < model.len() - 1 && model[i]
        == '/' implies model[i + 1] != '/' by {
        if i + 1 < name.len() {
            assert(model[i] == name[i] && model[i + 1] == name[i + 1]);
        } else if i + 1 == name.len() {
            assert(model[i] == name.last());
        } else {
            assert(model[i + 1] == "/branch"@[i + 1 - name.len()]);
        }
    }
    assert(model[0] == name[0]);
    assert(model.last() == 'h');
    assert(model.len() > 4);
    plain_names_are_valid(model);
    assert(name.last() != '*') by {
        assert(is_plain(name[name.len() - 1]));
    }
    if text::has_suffix(name, "/*"@) {
        assert(name.skip(name.len() - 2)[1] == name.last());
    }
    if name != "HEAD"@ {
        plain_names_are_valid(name);
    }
    let starred = name + "*"@;
    assert(starred.last() == '*');
    if text::has_suffix(starred, "/*"@) {
        assert(starred.skip(starred.len() - 2)[0] == starred[starred.len() - 2]);
        assert(starred[starred.len() - 2] == name.last());
    } else {
        assert(config::is_forbidden(starred[starred.len() - 1]));
    }
}

/// The settings for protected branches are accepted if and only if each of them is a pattern and none is repeated.
pub proof fn accepted_patterns_are_valid_and_distinct(patterns: Seq<Seq<char>>)
    ensures
        config::checked_patterns(patterns) is Ok <==> {
            &&& forall|i: int|
                0 <= i < patterns.len() ==> config::is_branch_pattern(#[trigger] patterns[i])
            &&& patterns.no_duplicates()
        },
    decreases patterns.len(),
{
    if patterns.len() > 0 {
        let rest = patterns.drop_last();
        let last = patterns.len() - 1;
        accepted_patterns_are_valid_and_distinct(rest);
        if config::checked_patterns(patterns) is Ok {
            assert forall|i: int| 0 <= i < patterns.len() implies config::is_branch_pattern(
                #[trigger] patterns[i],
            ) by {
                if i < last {
                    assert(rest[i] == patterns[i]);
                }
            }
            assert forall|i: int, j: int|
                0 <= i < patterns.len() && 0 <= j < patterns.len() && i != j implies patterns[i]
                != patterns[j] by {
                if i < last && j < last {
                    assert(rest[i] == patterns[i] && rest[j] == patterns[j]);
                } else if i < last {
                    assert(rest[i] == patterns[i]);
                    assert(rest.contains(rest[i]));
                } else {
                    assert(rest[j] == patterns[j]);
                    assert(rest.contains(rest[j]));
                }
            }
        }
        if (forall|i: int|
            0 <= i < patterns.len() ==> config::is_branch_pattern(#[trigger] patterns[i]))
            && patterns.no_duplicates() {
            assert forall|i: int| 0 <= i < rest.len() implies config::is_branch_pattern(
                #[trigger] rest[i],
            ) by {
                assert(rest[i] == patterns[i]);
            }
            assert forall|i: int, j: int|
                0 <= i < rest.len() && 0 <= j < rest.len() && i != j implies rest[i]
                != rest[j] by {
                assert(rest[i] == patterns[i] && rest[j] == patterns[j]);
            }
            assert(config::is_branch_pattern(patterns[last]));
            if rest.contains(patterns.last()) {
                let i = choose|i: int| 0 <= i < rest.len() && rest[i] == patterns.last();
                assert(patterns[i] == patterns[last]);
            }
        }
    }
}

/// The settings for confirmations are accepted if and only if medium risks are shown at least as a plan, and high risks
/// are confirmed explicitly at least.
pub proof fn accepted_confirmations_are_safe(confirmation: ConfirmationConfig)
    ensures
        config::checked_confirmation(confirmation) is Ok <==> {
            &&& confirmation.medium != ConfirmationSetting::NormalSelection
            &&& confirmation.high == ConfirmationSetting::ExplicitConfirmation || confirmation.high
                == ConfirmationSetting::Blocked
        },
{
}

/// Settings are accepted if and only if they are of the first version, their policy is accepted, and the base branch of
/// pull requests is a valid name where there is one.
pub proof fn accepted_settings_are_checked(settings: AppConfigView)
    ensures
        config::checked_config(settings) is Ok <==> {
            &&& settings.schema_version == 1
            &&& config::checked_policy(settings.policy) is Ok
            &&& match settings.pull_requests.default_base_branch {
                Some(branch) => config::is_branch_name(branch),
                None => true,
            }
        },
        config::checked_policy(settings.policy) is Ok <==> {
            &&& config::checked_patterns(settings.policy.additional_protected_branches) is Ok
            &&& settings.policy.disabled_operations.no_duplicates()
            &&& config::checked_confirmation(settings.policy.confirmation) is Ok
        },
{
}

/// What is set by default is accepted: it protects no further branch, disables nothing, weakens no confirmation, and
/// lets prompts be used.
pub proof fn default_settings_are_accepted()
    ensures
        config::checked_config(config::default_config()) is Ok,
        config::default_config().schema_version == 1,
        config::default_config().policy.additional_protected_branches.len() == 0,
        config::default_config().policy.disabled_operations.len() == 0,
        config::default_config().policy.confirmation.low == ConfirmationSetting::NormalSelection,
        config::default_config().policy.confirmation.medium == ConfirmationSetting::VisiblePlan,
        config::default_config().policy.confirmation.high
            == ConfirmationSetting::ExplicitConfirmation,
        config::default_config().pull_requests.default_base_branch is None,
        config::default_config().prompt.enabled,
{
    accepted_patterns_are_valid_and_distinct(Seq::empty());
}

/// Settings that were decoded are taken as they are where they are accepted, and no others are.
pub proof fn settings_are_taken_as_decoded(
    contents: Seq<char>,
    decoded: Result<AppConfigView, Option<usize>>,
)
    ensures
        config::parsed_config(contents, decoded) is Ok <==> decoded is Ok && config::checked_config(
            decoded->Ok_0,
        ) is Ok,
        config::parsed_config(contents, decoded) is Ok ==> config::parsed_config(
            contents,
            decoded,
        )->Ok_0 == decoded->Ok_0,
        decoded is Ok && config::checked_config(decoded->Ok_0) is Err ==> config::parsed_config(
            contents,
            decoded,
        ) == Err::<AppConfigView, ConfigErrorView>(
            config::checked_config(decoded->Ok_0)->Err_0,
        ),
{
}

/// As many characters stand before an offset as were encoded before it.
proof fn lemma_characters_within(before: Seq<char>, behind: Seq<char>)
    ensures
        config::characters_within(before + behind, utf8::encode_utf8(before).len() as int) == Some(
            before.len(),
        ),
    decreases before.len(),
{
    let whole = before + behind;
    if before.len() > 0 {
        let rest = before.drop_first();
        let first = utf8::encode_scalar(before[0] as u32);
        assert(whole[0] == before[0]);
        assert(whole.skip(1) =~= rest + behind);
        lemma_characters_within(rest, behind);
        assert(utf8::encode_utf8(before) =~= first + utf8::encode_utf8(rest));
        assert(first.len() > 0);
    }
}

/// A fault is told by its line and column, both counted from one: the line by the line feeds before it, and the column
/// by the characters since the last of them.
pub proof fn faults_are_told_by_line_and_column(
    lines: Seq<Seq<char>>,
    last: Seq<char>,
    behind: Seq<char>,
)
    requires
        parts::free_of(lines, '\n'),
        !last.contains('\n'),
    ensures
        ({
            let before = parts::written(lines, '\n') + last;
            config::place(before + behind, utf8::encode_utf8(before).len()) == Some(
                ((lines.len() + 1) as nat, (last.len() + 1) as nat),
            )
        }),
{
    let before = parts::written(lines, '\n') + last;
    lemma_characters_within(before, behind);
    assert((before + behind).take(before.len() as int) =~= before);
    parts::split_parts_are_those_written(lines, last, '\n');
}

/// `main`, `master`, `develop` and every branch below `release/` is protected, whatever is configured.
pub proof fn common_branches_are_always_protected(effective: EffectivePolicyView, name: Seq<char>)
    requires
        name.len() > 0,
    ensures
        policy::protects(effective, "main"@),
        policy::protects(effective, "master"@),
        policy::protects(effective, "develop"@),
        policy::protects(effective, "release/"@ + name),
{
    lemma_built_in();
    let built_in = policy::built_in_protected_branches();
    assert(built_in[0] == "main"@);
    assert(built_in[1] == "master"@);
    assert(built_in[2] == "develop"@);
    assert(built_in[3] == "release/*"@);
    let branch = "release/"@ + name;
    assert(branch.take("release/"@.len() as int) =~= "release/"@);
    assert(policy::pattern_meets(built_in[0], "main"@));
    assert(policy::pattern_meets(built_in[1], "master"@));
    assert(policy::pattern_meets(built_in[2], "develop"@));
    assert(policy::pattern_meets(built_in[3], branch));
}

/// Which branches the patterns that are always there meet.
proof fn lemma_built_in()
    ensures
        forall|branch: Seq<char>| #[trigger]
            policy::pattern_meets("main"@, branch) <==> branch == "main"@,
        forall|branch: Seq<char>| #[trigger]
            policy::pattern_meets("master"@, branch) <==> branch == "master"@,
        forall|branch: Seq<char>| #[trigger]
            policy::pattern_meets("develop"@, branch) <==> branch == "develop"@,
        forall|branch: Seq<char>| #[trigger]
            policy::pattern_meets("release/*"@, branch) <==> text::has_prefix(branch, "release/"@)
                && branch.len() > "release/"@.len(),
{
    reveal_strlit("main");
    reveal_strlit("master");
    reveal_strlit("develop");
    reveal_strlit("release/*");
    reveal_strlit("release/");
    reveal_strlit("release");
    reveal_strlit("HEAD");
    reveal_strlit("*");
    reveal_strlit("/*");
    assert("main"@[0] != "HEAD"@[0]);
    patterns_are_names_with_a_star("main"@);
    patterns_are_names_with_a_star("master"@);
    patterns_are_names_with_a_star("develop"@);
    patterns_are_names_with_a_star("release"@);
    assert("release"@ + "/*"@ =~= "release/*"@);
    assert("main"@.last() == 'n' && "master"@.last() == 'r' && "develop"@.last() == 'p');
    if text::has_suffix("main"@, "*"@) {
        assert("main"@.skip(3)[0] == 'n');
    }
    if text::has_suffix("master"@, "*"@) {
        assert("master"@.skip(5)[0] == 'r');
    }
    if text::has_suffix("develop"@, "*"@) {
        assert("develop"@.skip(6)[0] == 'p');
    }
    assert("release/*"@.skip(8) =~= "*"@);
    assert("release/*"@.take(8) =~= "release/"@);
}

/// Without further settings nothing else is protected.
pub proof fn other_branches_are_not_protected(effective: EffectivePolicyView, branch: Seq<char>)
    requires
        effective.additional_protected_branches.len() == 0,
        branch != "main"@,
        branch != "master"@,
        branch != "develop"@,
        !text::has_prefix(branch, "release/"@),
    ensures
        !policy::protects(effective, branch),
{
    lemma_built_in();
    let built_in = policy::built_in_protected_branches();
    if policy::any_meets(built_in, branch) {
        let i = choose|i: int|
            0 <= i < built_in.len() && policy::pattern_meets(#[trigger] built_in[i], branch);
        assert(built_in[i] == "main"@ || built_in[i] == "master"@ || built_in[i] == "develop"@
            || built_in[i] == "release/*"@);
    }
}

/// A name that is configured protects the branch of that name and no other; a name with `/*` behind it protects all
/// branches below it and no others.
pub proof fn configured_patterns_protect_what_they_name(
    effective: EffectivePolicyView,
    name: Seq<char>,
    branch: Seq<char>,
)
    requires
        is_plain_name(name),
    ensures
        name != "HEAD"@ ==> (policy::protects(
            EffectivePolicyView {
                additional_protected_branches: effective.additional_protected_branches.push(name),
                ..effective
            },
            branch,
        ) <==> policy::protects(effective, branch) || branch == name),
        policy::protects(
            EffectivePolicyView {
                additional_protected_branches: effective.additional_protected_branches.push(
                    name + "/*"@,
                ),
                ..effective
            },
            branch,
        ) <==> policy::protects(effective, branch) || (text::has_prefix(branch, name + seq!['/'])
            && branch.len() > name.len() + 1),
{
    reveal_strlit("*");
    reveal_strlit("/*");
    patterns_are_names_with_a_star(name);
    let list = effective.additional_protected_branches;
    assert(is_plain(name[name.len() - 1]));
    if text::has_suffix(name, "*"@) {
        assert(name.skip(name.len() - 1)[0] == name.last());
    }
    lemma_one_more(list, name, branch);
    let pattern = name + "/*"@;
    assert(pattern.skip(pattern.len() - 1) =~= "*"@);
    assert(pattern.take(pattern.len() - 1) =~= name + seq!['/']);
    lemma_one_more(list, pattern, branch);
}

/// One more pattern meets what it meets itself.
proof fn lemma_one_more(list: Seq<Seq<char>>, pattern: Seq<char>, branch: Seq<char>)
    ensures
        policy::any_meets(list.push(pattern), branch) <==> policy::any_meets(list, branch)
            || policy::pattern_meets(pattern, branch),
{
    let longer = list.push(pattern);
    if policy::any_meets(longer, branch) {
        let i = choose|i: int|
            0 <= i < longer.len() && policy::pattern_meets(#[trigger] longer[i], branch);
        if i < list.len() {
            assert(longer[i] == list[i]);
        }
    }
    if policy::any_meets(list, branch) {
        let i = choose|i: int|
            0 <= i < list.len() && policy::pattern_meets(#[trigger] list[i], branch);
        assert(longer[i] == list[i]);
    }
    assert(longer[list.len() as int] == pattern);
}

/// What has to be confirmed is what is set for a risk, and never less than the safe default; what is blocked by default
/// stays blocked.
pub proof fn confirmations_follow_the_settings(effective: EffectivePolicyView)
    ensures
        policy::required(effective, RiskLevel::BlockedByDefault)
            == ConfirmationRequirement::Blocked,
        policy::required(effective, RiskLevel::Low) == match effective.confirmation.low {
            ConfirmationSetting::NormalSelection => ConfirmationRequirement::NormalSelection,
            ConfirmationSetting::VisiblePlan => ConfirmationRequirement::VisiblePlan,
            ConfirmationSetting::ExplicitConfirmation =>
                ConfirmationRequirement::ExplicitConfirmation,
            ConfirmationSetting::Blocked => ConfirmationRequirement::Blocked,
        },
        policy::required(effective, RiskLevel::Medium) == match effective.confirmation.medium {
            ConfirmationSetting::NormalSelection => ConfirmationRequirement::VisiblePlan,
            ConfirmationSetting::VisiblePlan => ConfirmationRequirement::VisiblePlan,
            ConfirmationSetting::ExplicitConfirmation =>
                ConfirmationRequirement::ExplicitConfirmation,
            ConfirmationSetting::Blocked => ConfirmationRequirement::Blocked,
        },
        policy::required(effective, RiskLevel::High) == match effective.confirmation.high {
            ConfirmationSetting::NormalSelection => ConfirmationRequirement::ExplicitConfirmation,
            ConfirmationSetting::VisiblePlan => ConfirmationRequirement::ExplicitConfirmation,
            ConfirmationSetting::ExplicitConfirmation =>
                ConfirmationRequirement::ExplicitConfirmation,
            ConfirmationSetting::Blocked => ConfirmationRequirement::Blocked,
        },
{
}

/// Without settings, low risks are selected normally, medium ones are shown as a plan, high ones are confirmed
/// explicitly, and the rest is blocked.
pub proof fn risks_have_safe_defaults()
    ensures
        operation::default_requirement(RiskLevel::Low) == ConfirmationRequirement::NormalSelection,
        operation::default_requirement(RiskLevel::Medium) == ConfirmationRequirement::VisiblePlan,
        operation::default_requirement(RiskLevel::High)
            == ConfirmationRequirement::ExplicitConfirmation,
        operation::default_requirement(RiskLevel::BlockedByDefault)
            == ConfirmationRequirement::Blocked,
        operation::risk_rank(RiskLevel::Low) < operation::risk_rank(RiskLevel::Medium),
        operation::risk_rank(RiskLevel::Medium) < operation::risk_rank(RiskLevel::High),
        operation::risk_rank(RiskLevel::High) < operation::risk_rank(RiskLevel::BlockedByDefault),
{
}

/// Disabling a family of operations disables what belongs to it: both ways of staging, of taking out of the index, of
/// pushing and of pulling go together, and everything else stands for itself.
pub proof fn families_hold_their_operations(operation: OperationKind)
    ensures
        policy::family_of(operation) == OperationFamily::Stage <==> operation
            == OperationKind::StagePaths || operation == OperationKind::StageAll,
        policy::family_of(operation) == OperationFamily::Unstage <==> operation
            == OperationKind::UnstagePaths || operation == OperationKind::UnstageAll,
        policy::family_of(operation) == OperationFamily::Push <==> operation
            == OperationKind::PushCurrentBranch || operation == OperationKind::PushSetUpstream,
        policy::family_of(operation) == OperationFamily::Pull <==> operation
            == OperationKind::PullFastForward || operation == OperationKind::PullRebase,
        policy::family_of(operation) == OperationFamily::Commit <==> operation
            == OperationKind::Commit,
        policy::family_of(operation) == OperationFamily::Fetch <==> operation
            == OperationKind::Fetch,
        policy::family_of(operation) == OperationFamily::Checkout <==> operation
            == OperationKind::CheckoutBranch,
        policy::family_of(operation) == OperationFamily::CreateBranch <==> operation
            == OperationKind::CreateBranch,
        policy::family_of(operation) == OperationFamily::Merge <==> operation
            == OperationKind::MergeFastForward,
        policy::family_of(operation) == OperationFamily::Rebase <==> operation
            == OperationKind::Rebase,
        policy::family_of(operation) == OperationFamily::OpenPullRequest <==> operation
            == OperationKind::OpenPullRequest,
        policy::family_of(operation) == OperationFamily::Branches <==> operation
            == OperationKind::Branches,
        policy::family_of(operation) == OperationFamily::ViewDiff <==> operation
            == OperationKind::ViewDiff,
        policy::family_of(operation) == OperationFamily::RefreshStatus <==> operation
            == OperationKind::RefreshStatus,
{
}

/// A policy has its protected branches, its confirmations, its disabled operations and the use of prompts from the
/// settings, unchanged.
pub proof fn policy_is_that_of_the_settings(settings: AppConfigView)
    ensures
        policy::policy_of(settings).additional_protected_branches
            == settings.policy.additional_protected_branches,
        policy::policy_of(settings).confirmation == settings.policy.confirmation,
        policy::policy_of(settings).disabled_operations == settings.policy.disabled_operations,
        policy::policy_of(settings).prompt_enabled == settings.prompt.enabled,
{
}

}
