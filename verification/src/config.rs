//! The settings of the application, and which of them are refused.
use crate::number;
use crate::text;
use vstd::prelude::*;
use vstd::slice::slice_subrange;
use vstd::utf8;

verus! {

/// The version of the settings that is understood.
pub const CONFIG_SCHEMA_VERSION: u32 = 1;

/// What a user has to do before a step is carried out, as it is set.
#[derive(Debug, Clone, Copy, PartialEq, Eq, PartialOrd, Ord, Structural)]
pub enum ConfirmationSetting {
    NormalSelection,
    VisiblePlan,
    ExplicitConfirmation,
    Blocked,
}

/// The place of a setting among the others, the weakest first.
pub open spec fn setting_rank(setting: ConfirmationSetting) -> nat {
    match setting {
        ConfirmationSetting::NormalSelection => 0,
        ConfirmationSetting::VisiblePlan => 1,
        ConfirmationSetting::ExplicitConfirmation => 2,
        ConfirmationSetting::Blocked => 3,
    }
}

impl ConfirmationSetting {
    /// Whether this setting asks for less than another.
    pub fn is_weaker(self, other: ConfirmationSetting) -> (result: bool)
        ensures
            result == (setting_rank(self) < setting_rank(other)),
    {
        match (self, other) {
            (ConfirmationSetting::NormalSelection, ConfirmationSetting::NormalSelection) => false,
            (ConfirmationSetting::NormalSelection, _) => true,
            (ConfirmationSetting::VisiblePlan, ConfirmationSetting::ExplicitConfirmation) => true,
            (ConfirmationSetting::VisiblePlan, ConfirmationSetting::Blocked) => true,
            (ConfirmationSetting::ExplicitConfirmation, ConfirmationSetting::Blocked) => true,
            _ => false,
        }
    }
}

/// The operations that can be switched off.
#[derive(Debug, Clone, Copy, PartialEq, Eq, PartialOrd, Ord, Structural)]
pub enum OperationFamily {
    RefreshStatus,
    ViewDiff,
    Fetch,
    Stage,
    Unstage,
    Commit,
    Push,
    Pull,
    Branches,
    Checkout,
    CreateBranch,
    Merge,
    Rebase,
    OpenPullRequest,
}

impl DeepView for OperationFamily {
    type V = OperationFamily;

    open spec fn deep_view(&self) -> OperationFamily {
        *self
    }
}

/// What a user has to do before steps of each risk.
#[derive(Debug, Clone, Copy, PartialEq, Eq, Structural)]
pub struct ConfirmationConfig {
    pub low: ConfirmationSetting,
    pub medium: ConfirmationSetting,
    pub high: ConfirmationSetting,
}

impl DeepView for ConfirmationConfig {
    type V = ConfirmationConfig;

    open spec fn deep_view(&self) -> ConfirmationConfig {
        *self
    }
}

/// The weakest settings that are accepted.
pub open spec fn default_confirmation() -> ConfirmationConfig {
    ConfirmationConfig {
        low: ConfirmationSetting::NormalSelection,
        medium: ConfirmationSetting::VisiblePlan,
        high: ConfirmationSetting::ExplicitConfirmation,
    }
}

impl Default for ConfirmationConfig {
    fn default() -> (result: ConfirmationConfig)
        ensures
            result == default_confirmation(),
    {
        ConfirmationConfig {
            low: ConfirmationSetting::NormalSelection,
            medium: ConfirmationSetting::VisiblePlan,
            high: ConfirmationSetting::ExplicitConfirmation,
        }
    }
}

/// What is allowed.
#[derive(Debug, Clone, PartialEq, Eq)]
pub struct PolicyConfig {
    pub additional_protected_branches: Vec<String>,
    pub confirmation: ConfirmationConfig,
    pub disabled_operations: Vec<OperationFamily>,
}

/// The values of a [`PolicyConfig`].
#[verifier::ext_equal]
pub struct PolicyConfigView {
    pub additional_protected_branches: Seq<Seq<char>>,
    pub confirmation: ConfirmationConfig,
    pub disabled_operations: Seq<OperationFamily>,
}

impl DeepView for PolicyConfig {
    type V = PolicyConfigView;

    open spec fn deep_view(&self) -> PolicyConfigView {
        PolicyConfigView {
            additional_protected_branches: self.additional_protected_branches.deep_view(),
            confirmation: self.confirmation,
            disabled_operations: self.disabled_operations@,
        }
    }
}

/// What is allowed where nothing is set.
pub open spec fn default_policy() -> PolicyConfigView {
    PolicyConfigView {
        additional_protected_branches: Seq::empty(),
        confirmation: default_confirmation(),
        disabled_operations: Seq::empty(),
    }
}

impl Default for PolicyConfig {
    fn default() -> (result: PolicyConfig)
        ensures
            result.deep_view() == default_policy(),
    {
        let result = PolicyConfig {
            additional_protected_branches: Vec::new(),
            confirmation: ConfirmationConfig::default(),
            disabled_operations: Vec::new(),
        };
        assert(result.deep_view() =~= default_policy());
        result
    }
}

/// How pull requests are opened.
#[derive(Debug, Clone, PartialEq, Eq)]
pub struct PullRequestConfig {
    pub default_base_branch: Option<String>,
}

/// The values of a [`PullRequestConfig`].
#[verifier::ext_equal]
pub struct PullRequestConfigView {
    pub default_base_branch: Option<Seq<char>>,
}

impl DeepView for PullRequestConfig {
    type V = PullRequestConfigView;

    open spec fn deep_view(&self) -> PullRequestConfigView {
        PullRequestConfigView { default_base_branch: self.default_base_branch.deep_view() }
    }
}

impl Default for PullRequestConfig {
    fn default() -> (result: PullRequestConfig)
        ensures
            result.deep_view() == (PullRequestConfigView { default_base_branch: None }),
    {
        PullRequestConfig { default_base_branch: None }
    }
}

/// Whether prompts are read.
#[derive(Debug, Clone, Copy, PartialEq, Eq, Structural)]
pub struct PromptConfig {
    pub enabled: bool,
}

impl DeepView for PromptConfig {
    type V = PromptConfig;

    open spec fn deep_view(&self) -> PromptConfig {
        *self
    }
}

impl Default for PromptConfig {
    fn default() -> (result: PromptConfig)
        ensures
            result == (PromptConfig { enabled: true }),
    {
        PromptConfig { enabled: true }
    }
}

/// The settings of the application.
#[derive(Debug, Clone, PartialEq, Eq)]
pub struct AppConfig {
    pub schema_version: u32,
    pub policy: PolicyConfig,
    pub pull_requests: PullRequestConfig,
    pub prompt: PromptConfig,
}

/// The values of an [`AppConfig`].
#[verifier::ext_equal]
pub struct AppConfigView {
    pub schema_version: u32,
    pub policy: PolicyConfigView,
    pub pull_requests: PullRequestConfigView,
    pub prompt: PromptConfig,
}

impl DeepView for AppConfig {
    type V = AppConfigView;

    open spec fn deep_view(&self) -> AppConfigView {
        AppConfigView {
            schema_version: self.schema_version,
            policy: self.policy.deep_view(),
            pull_requests: self.pull_requests.deep_view(),
            prompt: self.prompt,
        }
    }
}

/// The settings where nothing is set.
pub open spec fn default_config() -> AppConfigView {
    AppConfigView {
        schema_version: CONFIG_SCHEMA_VERSION,
        policy: default_policy(),
        pull_requests: PullRequestConfigView { default_base_branch: None },
        prompt: PromptConfig { enabled: true },
    }
}

impl Default for AppConfig {
    fn default() -> (result: AppConfig)
        ensures
            result.deep_view() == default_config(),
    {
        AppConfig {
            schema_version: CONFIG_SCHEMA_VERSION,
            policy: PolicyConfig::default(),
            pull_requests: PullRequestConfig::default(),
            prompt: PromptConfig::default(),
        }
    }
}

/// Why settings are refused.
#[derive(Debug, Clone, PartialEq, Eq)]
pub enum ConfigError {
    /// They are not TOML, or not settings that are known; the place counts from one.
    InvalidSchema { line: Option<usize>, column: Option<usize> },
    /// A value is not acceptable.
    InvalidValue { field: &'static str, reason: &'static str },
}

/// The values of a [`ConfigError`].
#[verifier::ext_equal]
pub enum ConfigErrorView {
    InvalidSchema { line: Option<usize>, column: Option<usize> },
    InvalidValue { field: Seq<char>, reason: Seq<char> },
}

impl DeepView for ConfigError {
    type V = ConfigErrorView;

    open spec fn deep_view(&self) -> ConfigErrorView {
        match self {
            ConfigError::InvalidSchema { line, column } => ConfigErrorView::InvalidSchema {
                line: *line,
                column: *column,
            },
            ConfigError::InvalidValue { field, reason } => ConfigErrorView::InvalidValue {
                field: (*field)@,
                reason: (*reason)@,
            },
        }
    }
}

/// What is said of refused settings.
pub open spec fn config_message(error: ConfigErrorView) -> Seq<char> {
    match error {
        ConfigErrorView::InvalidSchema { line: Some(line), column: Some(column) } =>
            "invalid TOML syntax or configuration schema at line "@ + number::decimal(line as nat)
            + ", column "@ + number::decimal(column as nat),
        ConfigErrorView::InvalidSchema { line: _, column: _ } =>
            "invalid TOML syntax or configuration schema"@,
        ConfigErrorView::InvalidValue { field, reason } => "invalid value for "@ + field + ": "@
            + reason,
    }
}

impl ConfigError {
    /// What is said of this error.
    pub fn message(&self) -> (result: String)
        ensures
            result@ == config_message(self.deep_view()),
    {
        match self {
            ConfigError::InvalidSchema { line: Some(line), column: Some(column) } => {
                let shown_line = number::decimal_of(*line as u64);
                let shown_column = number::decimal_of(*column as u64);
                text::concat4(
                    "invalid TOML syntax or configuration schema at line ",
                    shown_line.as_str(),
                    ", column ",
                    shown_column.as_str(),
                )
            },
            ConfigError::InvalidSchema { line: _, column: _ } =>
                "invalid TOML syntax or configuration schema".to_owned(),
            ConfigError::InvalidValue { field, reason } => text::concat4(
                "invalid value for ",
                *field,
                ": ",
                *reason,
            ),
        }
    }
}

/// How many bytes a character takes.
pub open spec fn width(character: char) -> nat {
    utf8::encode_scalar(character as u32).len()
}

/// How many bytes a character takes.
fn width_of(character: char) -> (result: usize)
    ensures
        result == width(character),
        1 <= result <= 4,
{
    if character <= '\u{7f}' {
        1
    } else if character <= '\u{7ff}' {
        2
    } else if character <= '\u{ffff}' {
        3
    } else {
        4
    }
}

/// How many characters at the start of a text take a number of bytes; there may be no such number.
pub open spec fn characters_within(contents: Seq<char>, offset: int) -> Option<nat>
    decreases contents.len(),
{
    if offset == 0 {
        Some(0)
    } else if offset < 0 || contents.len() == 0 {
        None
    } else {
        match characters_within(contents.skip(1), offset - width(contents[0])) {
            Some(count) => Some(count + 1),
            None => None,
        }
    }
}

/// The line and the column of a place in a text, given as a number of bytes, both counted from one; there
/// are none where the place is within a character or behind the end.
pub open spec fn place(contents: Seq<char>, offset: nat) -> Option<(nat, nat)> {
    match characters_within(contents, offset as int) {
        None => None,
        Some(count) => {
            let lines = text::pieces(contents.take(count as int), '\n');
            Some((lines.len(), lines.last().len() + 1))
        },
    }
}

/// No piece of a sequence is longer than it.
proof fn lemma_pieces_are_short(value: Seq<char>, separator: char)
    ensures
        forall|i: int|
            0 <= i < text::pieces(value, separator).len() ==> (#[trigger] text::pieces(
                value,
                separator,
            )[i]).len() <= value.len(),
    decreases value.len(),
{
    let at = text::position_of(value, separator) as int;
    text::lemma_position(value, separator);
    if at < value.len() {
        let rest = text::pieces(value.skip(at + 1), separator);
        lemma_pieces_are_short(value.skip(at + 1), separator);
        assert forall|i: int| 0 <= i < text::pieces(value, separator).len() implies (
        #[trigger] text::pieces(value, separator)[i]).len() <= value.len() by {
            if i > 0 {
                assert(text::pieces(value, separator)[i] == rest[i - 1]);
            }
        }
    }
}

/// The line and the column of a place in a text, given as a number of bytes.
pub fn line_column(contents: &str, offset: usize) -> (result: Option<(usize, usize)>)
    requires
        contents@.len() < usize::MAX,
    ensures
        (match result {
            Some(found) => Some((found.0 as nat, found.1 as nat)),
            None => None,
        }) == place(contents@, offset as nat),
{
    let characters = text::chars_of(contents);
    let mut left: usize = offset;
    let mut index: usize = 0;
    assert(characters@.skip(0) =~= characters@);
    while left > 0
        invariant
            index <= characters@.len(),
            characters@ == contents@,
            characters_within(characters@, offset as int) == (match characters_within(
                characters@.skip(index as int),
                left as int,
            ) {
                Some(count) => Some(count + index as nat),
                None => None,
            }),
        decreases left,
    {
        if index >= characters.len() {
            return None;
        }
        let bytes: usize = width_of(characters[index]);
        assert(characters@.skip(index as int).skip(1) =~= characters@.skip(index + 1));
        assert(characters@.skip(index as int)[0] == characters@[index as int]);
        if bytes > left {
            assert(characters_within(characters@.skip(index + 1), left - bytes) is None);
            return None;
        }
        left = left - bytes;
        index += 1;
    }
    let before = slice_subrange(characters.as_slice(), 0, index);
    assert(before@ =~= contents@.take(index as int));
    let lines = text::split(before, '\n');
    proof {
        lemma_pieces_are_short(before@, '\n');
    }
    let ghost shown = text::pieces(before@, '\n');
    assert(shown.last() == lines@[lines@.len() - 1]@);
    let last = lines[lines.len() - 1];
    Some((lines.len(), last.len() + 1))
}

/// Whether a character may not stand in the name of a branch.
pub open spec fn is_forbidden(character: char) -> bool {
    ||| text::is_control_character(character)
    ||| character == ' '
    ||| character == '~'
    ||| character == '^'
    ||| character == ':'
    ||| character == '?'
    ||| character == '*'
    ||| character == '['
    ||| character == '\\'
}

/// Whether a part of a branch name between slashes is acceptable.
pub open spec fn good_component(component: Seq<char>) -> bool {
    &&& component.len() > 0
    &&& component[0] != '.'
    &&& !text::has_suffix(component, ".lock"@)
}

/// Whether a name can be that of a local branch.
pub open spec fn is_branch_name(branch: Seq<char>) -> bool {
    &&& branch.len() > 0
    &&& text::trimmed(branch) == branch
    &&& branch != "@"@
    &&& branch != "HEAD"@
    &&& branch[0] != '-'
    &&& branch[0] != '/'
    &&& branch[0] != '.'
    &&& branch.last() != '/'
    &&& branch.last() != '.'
    &&& !text::contains_text(branch, ".."@)
    &&& !text::contains_text(branch, "//"@)
    &&& !text::contains_text(branch, "@{"@)
    &&& forall|i: int| 0 <= i < branch.len() ==> !is_forbidden(#[trigger] branch[i])
    &&& forall|i: int|
        0 <= i < text::pieces(branch, '/').len() ==> good_component(
            #[trigger] text::pieces(branch, '/')[i],
        )
}

/// Whether a character may not stand in the name of a branch.
fn forbids(character: char) -> (result: bool)
    ensures
        result == is_forbidden(character),
{
    text::is_control(character) || character == ' ' || character == '~' || character == '^'
        || character == ':' || character == '?' || character == '*' || character == '[' || character
        == '\\'
}

/// Whether no character is one that may not stand in the name of a branch.
fn all_allowed(characters: &[char]) -> (result: bool)
    ensures
        result == (forall|i: int|
            0 <= i < characters@.len() ==> !is_forbidden(#[trigger] characters@[i])),
{
    let mut index: usize = 0;
    while index < characters.len()
        invariant
            index <= characters@.len(),
            forall|i: int| 0 <= i < index ==> !is_forbidden(#[trigger] characters@[i]),
        decreases characters@.len() - index,
    {
        if forbids(characters[index]) {
            return false;
        }
        index += 1;
    }
    true
}

/// Whether all parts of a branch name between slashes are acceptable.
fn all_good(components: &Vec<&[char]>) -> (result: bool)
    ensures
        result == (forall|i: int|
            0 <= i < components@.len() ==> good_component(
                #[trigger] text::slices(components@)[i],
            )),
{
    let ghost all = text::slices(components@);
    let mut index: usize = 0;
    while index < components.len()
        invariant
            index <= components@.len(),
            all == text::slices(components@),
            forall|i: int| 0 <= i < index ==> good_component(#[trigger] all[i]),
        decreases components@.len() - index,
    {
        let component = components[index];
        assert(all[index as int] == component@);
        if component.len() == 0 || component[0] == '.' || text::ends_with(component, ".lock") {
            return false;
        }
        index += 1;
    }
    true
}

/// Whether a name can be that of a local branch.
pub fn valid_branch_name(branch: &str) -> (result: bool)
    ensures
        result == is_branch_name(branch@),
{
    let characters = text::chars_of(branch);
    let count: usize = characters.len();
    if count == 0 {
        return false;
    }
    let first = characters[0];
    let last = characters[count - 1];
    let components = text::split(characters.as_slice(), '/');
    assert(text::slices(components@).len() == components@.len());
    let trimmed = text::trim(characters.as_slice());
    let fits = text::same_slice(trimmed, characters.as_slice());
    fits && !text::same_text(branch, "@") && !text::same_text(branch, "HEAD") && first != '-'
        && first != '/' && first != '.' && last != '/' && last != '.' && !text::holds_part(
        branch,
        "..",
    ) && !text::holds_part(branch, "//") && !text::holds_part(branch, "@{") && all_allowed(
        characters.as_slice(),
    ) && all_good(&components)
}

/// Whether a pattern is the name of a branch, or a prefix of names with a star in place of the rest.
pub open spec fn is_branch_pattern(pattern: Seq<char>) -> bool {
    if text::has_suffix(pattern, "/*"@) {
        is_branch_name(pattern.take(pattern.len() - "/*"@.len()) + "/branch"@)
    } else {
        is_branch_name(pattern)
    }
}

/// Whether a pattern is the name of a branch, or a prefix of names with a star in place of the rest.
pub fn valid_branch_pattern(pattern: &str) -> (result: bool)
    ensures
        result == is_branch_pattern(pattern@),
{
    let characters = text::chars_of(pattern);
    match text::strip_text_suffix(characters.as_slice(), "/*") {
        Some(prefix) => {
            let prefix = text::string_of(prefix);
            let name = text::concat2(prefix.as_str(), "/branch");
            valid_branch_name(name.as_str())
        },
        None => valid_branch_name(pattern),
    }
}

/// The error of a value that is not acceptable.
pub open spec fn value_refusal(field: Seq<char>, reason: Seq<char>) -> ConfigErrorView {
    ConfigErrorView::InvalidValue { field, reason }
}

/// Whether branch patterns are acceptable: each has the form of one, and none is repeated.
pub open spec fn checked_patterns(patterns: Seq<Seq<char>>) -> Result<(), ConfigErrorView>
    decreases patterns.len(),
{
    if patterns.len() == 0 {
        Ok(())
    } else {
        match checked_patterns(patterns.drop_last()) {
            Err(error) => Err(error),
            Ok(_) => if !is_branch_pattern(patterns.last()) {
                Err(
                    value_refusal(
                        "policy.additional-protected-branches"@,
                        "entries must be branch names or patterns ending in /*"@,
                    ),
                )
            } else if patterns.drop_last().contains(patterns.last()) {
                Err(
                    value_refusal(
                        "policy.additional-protected-branches"@,
                        "entries must not be repeated"@,
                    ),
                )
            } else {
                Ok(())
            },
        }
    }
}

/// The values of the outcome of a check.
pub open spec fn verdict(result: Result<(), ConfigError>) -> Result<(), ConfigErrorView> {
    match result {
        Ok(_) => Ok(()),
        Err(error) => Err(error.deep_view()),
    }
}

/// Where a check fails on a part of a list, it fails in the same way on the whole.
proof fn lemma_failed_patterns(patterns: Seq<Seq<char>>, count: int)
    requires
        0 <= count <= patterns.len(),
        checked_patterns(patterns.take(count)) is Err,
    ensures
        checked_patterns(patterns) == checked_patterns(patterns.take(count)),
    decreases patterns.len() - count,
{
    if count < patterns.len() {
        assert(patterns.take(count + 1).drop_last() =~= patterns.take(count));
        lemma_failed_patterns(patterns, count + 1);
    } else {
        assert(patterns.take(count) =~= patterns);
    }
}

/// Checks branch patterns.
fn check_patterns(patterns: &Vec<String>) -> (result: Result<(), ConfigError>)
    ensures
        verdict(result) == checked_patterns(patterns.deep_view()),
{
    let ghost all = patterns.deep_view();
    let mut known: Vec<String> = Vec::new();
    let mut index: usize = 0;
    assert(known.deep_view() =~= all.take(0));
    while index < patterns.len()
        invariant
            index <= patterns@.len(),
            all == patterns.deep_view(),
            known.deep_view() == all.take(index as int),
            checked_patterns(all.take(index as int)) is Ok,
        decreases patterns@.len() - index,
    {
        let pattern = patterns[index].as_str();
        let ghost longer = all.take(index + 1);
        assert(longer.drop_last() =~= all.take(index as int));
        assert(longer.last() == pattern@);
        if !valid_branch_pattern(pattern) {
            proof {
                lemma_failed_patterns(all, index + 1);
            }
            return Err(
                ConfigError::InvalidValue {
                    field: "policy.additional-protected-branches",
                    reason: "entries must be branch names or patterns ending in /*",
                },
            );
        }
        if text::holds_text(&known, pattern) {
            proof {
                lemma_failed_patterns(all, index + 1);
            }
            return Err(
                ConfigError::InvalidValue {
                    field: "policy.additional-protected-branches",
                    reason: "entries must not be repeated",
                },
            );
        }
        known.push(pattern.to_owned());
        index += 1;
        assert(known.deep_view() =~= all.take(index as int));
    }
    assert(all.take(index as int) =~= all);
    Ok(())
}

/// Whether no operation is repeated.
pub open spec fn checked_operations(operations: Seq<OperationFamily>) -> Result<(), ConfigErrorView> {
    if operations.no_duplicates() {
        Ok(())
    } else {
        Err(
            value_refusal("policy.disabled-operations"@, "entries must not be repeated"@),
        )
    }
}

/// Checks the operations that are switched off.
fn check_operations(operations: &Vec<OperationFamily>) -> (result: Result<(), ConfigError>)
    ensures
        verdict(result) == checked_operations(operations@),
{
    let mut index: usize = 0;
    while index < operations.len()
        invariant
            index <= operations@.len(),
            forall|i: int, j: int| 0 <= i < j < index ==> operations@[i] != operations@[j],
        decreases operations@.len() - index,
    {
        let mut earlier: usize = 0;
        while earlier < index
            invariant
                earlier <= index < operations@.len(),
                forall|i: int| 0 <= i < earlier ==> operations@[i] != operations@[index as int],
            decreases index - earlier,
        {
            if operations[earlier] == operations[index] {
                assert(operations@[earlier as int] == operations@[index as int]);
                return Err(
                    ConfigError::InvalidValue {
                        field: "policy.disabled-operations",
                        reason: "entries must not be repeated",
                    },
                );
            }
            earlier += 1;
        }
        index += 1;
    }
    Ok(())
}

/// Whether no setting asks for less than its default.
pub open spec fn checked_confirmation(confirmation: ConfirmationConfig) -> Result<
    (),
    ConfigErrorView,
> {
    let least = default_confirmation();
    let reason = "cannot weaken the safe default"@;
    if setting_rank(confirmation.low) < setting_rank(least.low) {
        Err(value_refusal("policy.confirmation.low"@, reason))
    } else if setting_rank(confirmation.medium) < setting_rank(least.medium) {
        Err(value_refusal("policy.confirmation.medium"@, reason))
    } else if setting_rank(confirmation.high) < setting_rank(least.high) {
        Err(value_refusal("policy.confirmation.high"@, reason))
    } else {
        Ok(())
    }
}

/// Settings that are accepted ask for no less than the defaults.
pub proof fn accepted_confirmation_is_not_weaker(confirmation: ConfirmationConfig)
    ensures
        checked_confirmation(confirmation) is Ok <==> {
            &&& setting_rank(confirmation.low) >= setting_rank(default_confirmation().low)
            &&& setting_rank(confirmation.medium) >= setting_rank(default_confirmation().medium)
            &&& setting_rank(confirmation.high) >= setting_rank(default_confirmation().high)
        },
{
}

impl ConfirmationConfig {
    /// Checks that no setting asks for less than its default.
    pub fn validate(&self) -> (result: Result<(), ConfigError>)
        ensures
            verdict(result) == checked_confirmation(*self),
    {
        let reason = "cannot weaken the safe default";
        if self.low.is_weaker(ConfirmationSetting::NormalSelection) {
            return Err(ConfigError::InvalidValue { field: "policy.confirmation.low", reason });
        }
        if self.medium.is_weaker(ConfirmationSetting::VisiblePlan) {
            return Err(ConfigError::InvalidValue { field: "policy.confirmation.medium", reason });
        }
        if self.high.is_weaker(ConfirmationSetting::ExplicitConfirmation) {
            return Err(ConfigError::InvalidValue { field: "policy.confirmation.high", reason });
        }
        Ok(())
    }
}

/// Whether what is allowed is set in an acceptable way.
pub open spec fn checked_policy(policy: PolicyConfigView) -> Result<(), ConfigErrorView> {
    match checked_patterns(policy.additional_protected_branches) {
        Err(error) => Err(error),
        Ok(_) => match checked_operations(policy.disabled_operations) {
            Err(error) => Err(error),
            Ok(_) => checked_confirmation(policy.confirmation),
        },
    }
}

impl PolicyConfig {
    /// Checks what is allowed.
    pub fn validate(&self) -> (result: Result<(), ConfigError>)
        ensures
            verdict(result) == checked_policy(self.deep_view()),
    {
        match check_patterns(&self.additional_protected_branches) {
            Ok(_) => {},
            Err(error) => {
                return Err(error);
            },
        }
        match check_operations(&self.disabled_operations) {
            Ok(_) => {},
            Err(error) => {
                return Err(error);
            },
        }
        self.confirmation.validate()
    }
}

/// Whether settings are acceptable.
pub open spec fn checked_config(config: AppConfigView) -> Result<(), ConfigErrorView> {
    if config.schema_version != CONFIG_SCHEMA_VERSION {
        Err(value_refusal("schema-version"@, "only schema version 1 is supported"@))
    } else {
        match checked_policy(config.policy) {
            Err(error) => Err(error),
            Ok(_) => match config.pull_requests.default_base_branch {
                Some(branch) => if is_branch_name(branch) {
                    Ok(())
                } else {
                    Err(
                        value_refusal(
                            "pull-requests.default-base-branch"@,
                            "must be a valid local branch name"@,
                        ),
                    )
                },
                None => Ok(()),
            },
        }
    }
}

/// The settings that were read from a text, or the error at the place where reading failed.
pub open spec fn parsed_config(
    contents: Seq<char>,
    decoded: Result<AppConfigView, Option<usize>>,
) -> Result<AppConfigView, ConfigErrorView> {
    match decoded {
        Err(offset) => {
            let found = match offset {
                Some(offset) => place(contents, offset as nat),
                None => None,
            };
            Err(
                match found {
                    Some((line, column)) => ConfigErrorView::InvalidSchema {
                        line: Some(line as usize),
                        column: Some(column as usize),
                    },
                    None => ConfigErrorView::InvalidSchema { line: None, column: None },
                },
            )
        },
        Ok(config) => match checked_config(config) {
            Err(error) => Err(error),
            Ok(_) => Ok(config),
        },
    }
}

impl AppConfig {
    /// The settings that `contents` holds. What was decoded from it comes in as `decoded`: the settings
    /// as they stand there, or the place of what is not TOML or not a setting, as a number of bytes.
    pub fn parse(contents: &str, decoded: Result<AppConfig, Option<usize>>) -> (result: Result<
        AppConfig,
        ConfigError,
    >)
        requires
            contents@.len() < usize::MAX,
        ensures
            (match result {
                Ok(config) => Ok(config.deep_view()),
                Err(error) => Err(error.deep_view()),
            }) == parsed_config(
                contents@,
                match decoded {
                    Ok(config) => Ok(config.deep_view()),
                    Err(offset) => Err(offset),
                },
            ),
    {
        match decoded {
            Err(offset) => {
                let found = match offset {
                    Some(offset) => line_column(contents, offset),
                    None => None,
                };
                match found {
                    Some((line, column)) => Err(
                        ConfigError::InvalidSchema { line: Some(line), column: Some(column) },
                    ),
                    None => Err(ConfigError::InvalidSchema { line: None, column: None }),
                }
            },
            Ok(config) => match config.validate() {
                Ok(_) => Ok(config),
                Err(error) => Err(error),
            },
        }
    }

    /// Checks these settings.
    pub fn validate(&self) -> (result: Result<(), ConfigError>)
        ensures
            verdict(result) == checked_config(self.deep_view()),
    {
        if self.schema_version != CONFIG_SCHEMA_VERSION {
            return Err(
                ConfigError::InvalidValue {
                    field: "schema-version",
                    reason: "only schema version 1 is supported",
                },
            );
        }
        match self.policy.validate() {
            Ok(_) => {},
            Err(error) => {
                return Err(error);
            },
        }
        match &self.pull_requests.default_base_branch {
            Some(branch) => {
                if !valid_branch_name(branch.as_str()) {
                    return Err(
                        ConfigError::InvalidValue {
                            field: "pull-requests.default-base-branch",
                            reason: "must be a valid local branch name",
                        },
                    );
                }
            },
            None => {},
        }
        Ok(())
    }
}

}
