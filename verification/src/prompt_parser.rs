//! Prompts: what a user types, read as requests. No part of a prompt is ever handed to a shell.
use crate::operation::{OperationRequest, OperationRequestView};
use crate::text;
use vstd::prelude::*;
use vstd::slice::slice_subrange;

verus! {

/// What can be typed.
pub const PROMPT_EXAMPLES: &'static str = "branches, checkout <branch>, branch <name>, branch <name> from <base>, merge <branch>, rebase <base>, open pr, commit -m \"message\", fetch, push, pull, or pull --rebase";

/// The answer to a prompt that is not known.
pub const UNSUPPORTED_PROMPT_MESSAGE: &'static str = "Unsupported prompt. Try: branches, checkout <branch>, branch <name>, branch <name> from <base>, merge <branch>, rebase <base>, open pr, commit -m \"message\", fetch, push, pull, or pull --rebase";

/// The answer to a prompt in the syntax of a shell.
pub const SHELL_SYNTAX_MESSAGE: &'static str = "Shell-style prompt syntax is not supported. Use one guarded prompt at a time.";

/// The answer to a Git command.
pub const RAW_GIT_MESSAGE: &'static str = "Raw Git commands are not supported. Try a guarded prompt such as `push` or `pull`.";

/// The answer to a commit prompt that is not known.
pub const COMMIT_USAGE: &'static str = "Unsupported prompt. Try: commit -m \"message\"";

/// The answer to a commit prompt without a message.
pub const COMMIT_MESSAGE_REQUIRED: &'static str = "Commit message required. Try: commit -m \"message\"";

/// The answer to a prompt with a quote that is not closed.
pub const UNCLOSED_QUOTE: &'static str = "Unclosed quote. Close the quoted string before submitting.";

/// How a pull request is opened.
pub const OPEN_USAGE: &'static str = "Expected: open pr or open pr to <base>";

/// How a branch is created.
pub const BRANCH_USAGE: &'static str = "Expected: branch <name> or branch <name> from <base>";

/// How a branch is created from another.
pub const BRANCH_FROM_USAGE: &'static str = "Expected: branch <name> from <base>";

/// What a prompt asks for: one thing, or several in turn.
#[derive(Debug, Clone, PartialEq, Eq)]
pub enum ParsedPrompt {
    Single(OperationRequest),
    Sequence(Vec<OperationRequest>),
}

/// The values of a [`ParsedPrompt`].
#[verifier::ext_equal]
pub enum ParsedPromptView {
    Single(OperationRequestView),
    Sequence(Seq<OperationRequestView>),
}

impl DeepView for ParsedPrompt {
    type V = ParsedPromptView;

    open spec fn deep_view(&self) -> ParsedPromptView {
        match self {
            ParsedPrompt::Single(request) => ParsedPromptView::Single(request.deep_view()),
            ParsedPrompt::Sequence(requests) => ParsedPromptView::Sequence(requests.deep_view()),
        }
    }
}

/// Why a prompt is refused.
#[derive(Debug, Clone, PartialEq, Eq)]
pub struct PromptParseError {
    message: String,
}

impl View for PromptParseError {
    type V = Seq<char>;

    closed spec fn view(&self) -> Seq<char> {
        self.message@
    }
}

impl PromptParseError {
    /// What is said of this error.
    pub fn message(&self) -> (result: &str)
        ensures
            result@ == self@,
    {
        self.message.as_str()
    }
}

/// A refusal.
fn parse_error(message: &str) -> (result: PromptParseError)
    ensures
        result@ == message@,
{
    PromptParseError { message: message.to_owned() }
}

/// Whether a character means something to a shell.
pub open spec fn is_shell_character(character: char) -> bool {
    ||| character == ';'
    ||| character == '|'
    ||| character == '&'
    ||| character == '<'
    ||| character == '>'
    ||| character == '`'
    ||| character == '$'
    ||| character == '\\'
}

/// Whether a character means something to a shell.
fn is_shell_metacharacter(character: char) -> (result: bool)
    ensures
        result == is_shell_character(character),
{
    character == ';' || character == '|' || character == '&' || character == '<' || character == '>'
        || character == '`' || character == '$' || character == '\\'
}

/// Whether a word stands at a place, in any case, with white space or the end on both sides.
pub open spec fn is_word_at(input: Seq<char>, at: int, word: Seq<char>) -> bool {
    let end = at + word.len();
    &&& end <= input.len()
    &&& text::lowered(input.subrange(at, end)) == text::lowered(word)
    &&& at == 0 || text::is_white(input[at - 1])
    &&& end == input.len() || text::is_white(input[end])
}

/// How many characters at a place connect two prompts; none where the count is zero.
pub open spec fn connector_at(input: Seq<char>, at: int) -> int {
    if at + 2 <= input.len() && input[at] == '&' && input[at + 1] == '&' {
        2
    } else if is_word_at(input, at, "and"@) {
        3
    } else if is_word_at(input, at, "then"@) {
        4
    } else {
        0
    }
}

/// Whether a word stands at a place.
fn word_at(input: &[char], at: usize, word: &str) -> (result: bool)
    requires
        at <= input@.len(),
    ensures
        result == is_word_at(input@, at as int, word@),
{
    let wanted = text::chars_of(word);
    if wanted.len() > input.len() - at {
        return false;
    }
    let end: usize = at + wanted.len();
    let candidate = slice_subrange(input, at, end);
    text::is_text_ignoring_case(candidate, word) && (at == 0 || text::is_whitespace(input[at - 1]))
        && (end == input.len() || text::is_whitespace(input[end]))
}

/// How many characters at a place connect two prompts.
fn connector_len_at(input: &[char], at: usize) -> (result: usize)
    requires
        at < input@.len(),
    ensures
        result == connector_at(input@, at as int),
        at + result <= input@.len(),
{
    proof {
        reveal_strlit("and");
        reveal_strlit("then");
    }
    if input.len() - at >= 2 && input[at] == '&' && input[at + 1] == '&' {
        2
    } else if word_at(input, at, "and") {
        3
    } else if word_at(input, at, "then") {
        4
    } else {
        0
    }
}

/// What stands between the connectors of a prompt, from a place on, without white space around it.
/// `start` is where the current part starts; within quotes nothing connects.
pub open spec fn segments_from(input: Seq<char>, at: int, start: int, quoted: bool) -> Result<
    Seq<Seq<char>>,
    Seq<char>,
>
    decreases
            if at <= input.len() {
                input.len() - at
            } else {
                0
            },
{
    if at >= input.len() {
        let last = text::trimmed(input.subrange(start, input.len() as int));
        if quoted {
            Err(UNCLOSED_QUOTE@)
        } else if last.len() == 0 {
            Err("Expected a prompt after the connector."@)
        } else {
            Ok(seq![last])
        }
    } else if input[at] == '"' {
        segments_from(input, at + 1, start, !quoted)
    } else if !quoted && connector_at(input, at) > 0 {
        let segment = text::trimmed(input.subrange(start, at));
        let next = at + connector_at(input, at);
        if segment.len() == 0 {
            Err("Expected a prompt before the connector."@)
        } else {
            match segments_from(input, next, next, false) {
                Ok(rest) => Ok(seq![segment] + rest),
                Err(message) => Err(message),
            }
        }
    } else if !quoted && is_shell_character(input[at]) {
        Err(SHELL_SYNTAX_MESSAGE@)
    } else {
        segments_from(input, at + 1, start, quoted)
    }
}

/// Parts in front of the parts that follow.
pub open spec fn led_by(
    segments: Seq<Seq<char>>,
    rest: Result<Seq<Seq<char>>, Seq<char>>,
) -> Result<Seq<Seq<char>>, Seq<char>> {
    match rest {
        Ok(rest) => Ok(segments + rest),
        Err(message) => Err(message),
    }
}

/// What stands between the connectors of a prompt.
fn split_prompt_sequence<'a>(
    input: &'a [char],
) -> (result: Result<Vec<&'a [char]>, PromptParseError>)
    ensures
        (match result {
            Ok(segments) => Ok(text::slices(segments@)),
            Err(error) => Err(error@),
        }) == segments_from(input@, 0, 0, false),
{
    let ghost goal = segments_from(input@, 0, 0, false);
    let mut segments: Vec<&'a [char]> = Vec::new();
    let mut start: usize = 0;
    let mut quoted = false;
    let mut index: usize = 0;
    assert(led_by(text::slices(segments@), goal) == goal) by {
        if goal is Ok {
            assert(text::slices(segments@) + goal->Ok_0 =~= goal->Ok_0);
        }
    }
    while index < input.len()
        invariant
            start <= index <= input@.len(),
            goal == segments_from(input@, 0, 0, false),
            goal == led_by(
                text::slices(segments@),
                segments_from(input@, index as int, start as int, quoted),
            ),
        decreases input@.len() - index,
    {
        let character = input[index];
        if character == '"' {
            quoted = !quoted;
            index += 1;
        } else if quoted {
            index += 1;
        } else {
            let connector: usize = connector_len_at(input, index);
            if connector > 0 {
                let segment = text::trim(slice_subrange(input, start, index));
                if segment.len() == 0 {
                    return Err(parse_error("Expected a prompt before the connector."));
                }
                let ghost before = text::slices(segments@);
                let ghost rest = segments_from(
                    input@,
                    index + connector,
                    index + connector,
                    false,
                );
                segments.push(segment);
                index += connector;
                start = index;
                assert(text::slices(segments@) =~= before.push(segment@));
                assert(rest is Ok ==> before + (seq![segment@] + rest->Ok_0) =~= before.push(
                    segment@,
                ) + rest->Ok_0);
            } else if is_shell_metacharacter(character) {
                return Err(parse_error(SHELL_SYNTAX_MESSAGE));
            } else {
                index += 1;
            }
        }
    }
    if quoted {
        return Err(parse_error(UNCLOSED_QUOTE));
    }
    let last = text::trim(slice_subrange(input, start, input.len()));
    if last.len() == 0 {
        return Err(parse_error("Expected a prompt after the connector."));
    }
    let ghost before = text::slices(segments@);
    segments.push(last);
    assert(text::slices(segments@) =~= before + seq![last@]);
    Ok(segments)
}

/// Whether a text can be handed to Git as the name of a branch: it is no option and one word.
pub open spec fn is_branch_argument(value: Seq<char>) -> bool {
    &&& value.len() > 0
    &&& value[0] != '-'
    &&& forall|i: int| 0 <= i < value.len() ==> !text::is_white(#[trigger] value[i])
    &&& forall|i: int| 0 <= i < value.len() ==> #[trigger] value[i] != '\0'
}

/// The name of a branch in a prompt, or how the prompt is used.
pub open spec fn branch_argument(value: Seq<char>, usage: Seq<char>) -> Result<Seq<char>, Seq<char>> {
    if is_branch_argument(value) {
        Ok(value)
    } else {
        Err(usage)
    }
}

/// The name of a branch in a prompt, or how the prompt is used.
fn parse_branch_arg(value: &[char], usage: &str) -> (result: Result<String, PromptParseError>)
    ensures
        (match result {
            Ok(branch) => Ok(branch@),
            Err(error) => Err(error@),
        }) == branch_argument(value@, usage@),
{
    if value.len() == 0 || value[0] == '-' {
        return Err(parse_error(usage));
    }
    let mut index: usize = 0;
    while index < value.len()
        invariant
            index <= value@.len(),
            value@.len() > 0,
            value@[0] != '-',
            forall|i: int| 0 <= i < index ==> !text::is_white(#[trigger] value@[i]),
            forall|i: int| 0 <= i < index ==> #[trigger] value@[i] != '\0',
        decreases value@.len() - index,
    {
        if text::is_whitespace(value[index]) || value[index] == '\0' {
            return Err(parse_error(usage));
        }
        index += 1;
    }
    Ok(text::string_of(value))
}

/// A prompt with one branch behind a command.
pub open spec fn one_argument(input: Seq<char>, command: Seq<char>) -> Result<Seq<char>, Seq<char>> {
    branch_argument(
        text::trimmed(input.skip(command.len() as int)),
        "Expected: "@ + command + " <branch>"@,
    )
}

/// A prompt with one branch behind a command.
fn parse_one_arg_prompt(input: &[char], command: &str) -> (result: Result<String, PromptParseError>)
    requires
        command@.len() <= input@.len(),
    ensures
        (match result {
            Ok(branch) => Ok(branch@),
            Err(error) => Err(error@),
        }) == one_argument(input@, command@),
{
    let word = text::chars_of(command);
    let rest = slice_subrange(input, word.len(), input.len());
    assert(rest@ =~= input@.skip(command@.len() as int));
    let usage = text::concat3("Expected: ", command, " <branch>");
    parse_branch_arg(text::trim(rest), usage.as_str())
}

/// A prompt that opens a pull request to a branch.
pub open spec fn open_request(input: Seq<char>, command: Seq<char>) -> Result<
    OperationRequestView,
    Seq<char>,
> {
    let rest = text::trimmed_start(input.skip(command.len() as int));
    if rest.len() > 2 && text::lowered(rest.take(2)) == text::lowered("to"@) && text::is_white(
        rest[2],
    ) {
        match branch_argument(text::trimmed(rest.skip(2)), OPEN_USAGE@) {
            Ok(base) => Ok(OperationRequestView::OpenPullRequest { base: Some(base) }),
            Err(message) => Err(message),
        }
    } else {
        Err(OPEN_USAGE@)
    }
}

/// A prompt that opens a pull request to a branch.
fn parse_open_pull_request_prompt(input: &[char], command: &str) -> (result: Result<
    OperationRequest,
    PromptParseError,
>)
    requires
        command@.len() <= input@.len(),
    ensures
        read(result) == open_request(input@, command@),
{
    let word = text::chars_of(command);
    let behind = slice_subrange(input, word.len(), input.len());
    assert(behind@ =~= input@.skip(command@.len() as int));
    let rest = text::trim_start(behind);
    if rest.len() <= 2 {
        return Err(parse_error(OPEN_USAGE));
    }
    let keyword = slice_subrange(rest, 0, 2);
    assert(keyword@ =~= rest@.take(2));
    if !text::is_text_ignoring_case(keyword, "to") || !text::is_whitespace(rest[2]) {
        return Err(parse_error(OPEN_USAGE));
    }
    let base = slice_subrange(rest, 2, rest.len());
    assert(base@ =~= rest@.skip(2));
    match parse_branch_arg(text::trim(base), OPEN_USAGE) {
        Ok(base) => Ok(OperationRequest::OpenPullRequest { base: Some(base) }),
        Err(error) => Err(error),
    }
}

/// The values of a request that was read, or why there is none.
pub open spec fn read(result: Result<OperationRequest, PromptParseError>) -> Result<
    OperationRequestView,
    Seq<char>,
> {
    match result {
        Ok(request) => Ok(request.deep_view()),
        Err(error) => Err(error@),
    }
}

/// A prompt that creates a branch.
pub open spec fn branch_request(parts: Seq<Seq<char>>) -> Result<OperationRequestView, Seq<char>> {
    if parts.len() == 1 && text::lowered(parts[0]) == text::lowered("list"@) {
        Err("Use `branches` to list branches."@)
    } else if parts.len() == 1 {
        match branch_argument(parts[0], "Expected: branch <name>"@) {
            Ok(branch) => Ok(OperationRequestView::CreateBranch { branch, base: None }),
            Err(message) => Err(message),
        }
    } else if parts.len() == 3 && text::lowered(parts[1]) == text::lowered("from"@) {
        match branch_argument(parts[0], BRANCH_FROM_USAGE@) {
            Err(message) => Err(message),
            Ok(branch) => match branch_argument(parts[2], BRANCH_FROM_USAGE@) {
                Ok(base) => Ok(OperationRequestView::CreateBranch { branch, base: Some(base) }),
                Err(message) => Err(message),
            },
        }
    } else {
        Err(BRANCH_USAGE@)
    }
}

/// A prompt that creates a branch.
fn parse_branch_prompt(rest: &[char]) -> (result: Result<OperationRequest, PromptParseError>)
    ensures
        read(result) == branch_request(text::words(rest@)),
{
    let parts = text::split_whitespace(rest);
    let ghost all = text::slices(parts@);
    assert(all.len() == parts@.len());
    if parts.len() == 1 {
        assert(all[0] == parts@[0]@);
        if text::is_text_ignoring_case(parts[0], "list") {
            return Err(parse_error("Use `branches` to list branches."));
        }
        match parse_branch_arg(parts[0], "Expected: branch <name>") {
            Ok(branch) => Ok(OperationRequest::CreateBranch { branch, base: None }),
            Err(error) => Err(error),
        }
    } else if parts.len() == 3 {
        assert(all[0] == parts@[0]@ && all[1] == parts@[1]@ && all[2] == parts@[2]@);
        if !text::is_text_ignoring_case(parts[1], "from") {
            return Err(parse_error(BRANCH_USAGE));
        }
        match parse_branch_arg(parts[0], BRANCH_FROM_USAGE) {
            Err(error) => Err(error),
            Ok(branch) => match parse_branch_arg(parts[2], BRANCH_FROM_USAGE) {
                Ok(base) => Ok(OperationRequest::CreateBranch { branch, base: Some(base) }),
                Err(error) => Err(error),
            },
        }
    } else {
        Err(parse_error(BRANCH_USAGE))
    }
}

/// The message of a commit: the text between two quotes with nothing behind them, or the text as it is.
pub open spec fn commit_message(input: Seq<char>) -> Result<Seq<char>, Seq<char>> {
    let trimmed = text::trimmed(input);
    let rest = trimmed.skip(1);
    let end = text::position_of(rest, '"') as int;
    if trimmed.len() == 0 {
        Err(COMMIT_MESSAGE_REQUIRED@)
    } else if trimmed[0] != '"' {
        Ok(trimmed)
    } else if end >= rest.len() {
        Err(UNCLOSED_QUOTE@)
    } else if text::trimmed(rest.skip(end + 1)).len() > 0 {
        Err("Unexpected text after commit message."@)
    } else if text::trimmed(rest.take(end)).len() == 0 {
        Err("Commit message cannot be empty."@)
    } else {
        Ok(rest.take(end))
    }
}

/// The message of a commit.
fn parse_commit_message(input: &[char]) -> (result: Result<String, PromptParseError>)
    ensures
        (match result {
            Ok(message) => Ok(message@),
            Err(error) => Err(error@),
        }) == commit_message(input@),
{
    let trimmed = text::trim(input);
    if trimmed.len() == 0 {
        return Err(parse_error(COMMIT_MESSAGE_REQUIRED));
    }
    if trimmed[0] != '"' {
        return Ok(text::string_of(trimmed));
    }
    let rest = slice_subrange(trimmed, 1, trimmed.len());
    assert(rest@ =~= trimmed@.skip(1));
    let end: usize = text::position(rest, '"');
    if end >= rest.len() {
        return Err(parse_error(UNCLOSED_QUOTE));
    }
    let after = slice_subrange(rest, end + 1, rest.len());
    assert(after@ =~= rest@.skip(end + 1));
    if text::trim(after).len() > 0 {
        return Err(parse_error("Unexpected text after commit message."));
    }
    let message = slice_subrange(rest, 0, end);
    assert(message@ =~= rest@.take(end as int));
    if text::trim(message).len() == 0 {
        return Err(parse_error("Commit message cannot be empty."));
    }
    Ok(text::string_of(message))
}

/// A prompt that commits; `rest` is what stands behind the command.
pub open spec fn commit_request(rest: Seq<char>) -> Result<OperationRequestView, Seq<char>> {
    let message = text::trimmed_start(rest);
    let said = if message.len() == 0 {
        Err(COMMIT_MESSAGE_REQUIRED@)
    } else if message == "-m"@ {
        commit_message(Seq::empty())
    } else if text::has_prefix(message, "-m "@) {
        commit_message(text::trimmed_start(message.skip("-m "@.len() as int)))
    } else if message[0] == '-' {
        Err(COMMIT_USAGE@)
    } else {
        commit_message(message)
    };
    match said {
        Ok(message) => Ok(OperationRequestView::Commit { message }),
        Err(error) => Err(error),
    }
}

/// A prompt that commits.
fn parse_commit_prompt(rest: &[char]) -> (result: Result<OperationRequest, PromptParseError>)
    ensures
        read(result) == commit_request(rest@),
{
    let message = text::trim_start(rest);
    if message.len() == 0 {
        return Err(parse_error(COMMIT_MESSAGE_REQUIRED));
    }
    let said = if text::is_text(message, "-m") {
        let none = slice_subrange(message, 0, 0);
        assert(none@ =~= Seq::<char>::empty());
        parse_commit_message(none)
    } else {
        match text::strip_text_prefix(message, "-m ") {
            Some(after) => parse_commit_message(text::trim_start(after)),
            None => {
                if message[0] == '-' {
                    Err(parse_error(COMMIT_USAGE))
                } else {
                    parse_commit_message(message)
                }
            },
        }
    };
    match said {
        Ok(message) => Ok(OperationRequest::Commit { message }),
        Err(error) => Err(error),
    }
}

/// A prompt with arguments; white space around it is gone.
pub open spec fn argument_request(trimmed: Seq<char>) -> Result<OperationRequestView, Seq<char>> {
    let lower = text::lowered(trimmed);
    if text::has_prefix(lower, "checkout "@) {
        match one_argument(trimmed, "checkout"@) {
            Ok(branch) => Ok(OperationRequestView::Checkout { branch }),
            Err(message) => Err(message),
        }
    } else if text::has_prefix(lower, "merge "@) {
        match one_argument(trimmed, "merge"@) {
            Ok(branch) => Ok(OperationRequestView::Merge { branch }),
            Err(message) => Err(message),
        }
    } else if text::has_prefix(lower, "rebase "@) {
        match one_argument(trimmed, "rebase"@) {
            Ok(base) => Ok(OperationRequestView::Rebase { base }),
            Err(message) => Err(message),
        }
    } else if text::has_prefix(lower, "open pr to "@) {
        open_request(trimmed, "open pr"@)
    } else if text::has_prefix(lower, "open pull request to "@) {
        open_request(trimmed, "open pull request"@)
    } else if text::has_prefix(lower, "branch "@) {
        branch_request(text::words(trimmed.skip("branch"@.len() as int)))
    } else if lower == "commit"@ || text::has_prefix(lower, "commit "@) {
        commit_request(trimmed.skip("commit"@.len() as int))
    } else {
        Err(UNSUPPORTED_PROMPT_MESSAGE@)
    }
}

/// A prompt without connectors.
pub open spec fn single_request(input: Seq<char>) -> Result<OperationRequestView, Seq<char>> {
    let trimmed = text::trimmed(input);
    let lower = text::lowered(trimmed);
    if lower == "git"@ || text::has_prefix(lower, "git "@) {
        Err(RAW_GIT_MESSAGE@)
    } else if lower == "branches"@ {
        Ok(OperationRequestView::Branches)
    } else if lower == "fetch"@ {
        Ok(OperationRequestView::Fetch)
    } else if lower == "push"@ {
        Ok(OperationRequestView::Push)
    } else if lower == "open pr"@ || lower == "open pull request"@ {
        Ok(OperationRequestView::OpenPullRequest { base: None })
    } else if lower == "pull"@ {
        Ok(OperationRequestView::Pull { rebase: false })
    } else if lower == "pull --rebase"@ || lower == "pull rebase"@ {
        Ok(OperationRequestView::Pull { rebase: true })
    } else {
        argument_request(trimmed)
    }
}

/// What stands behind a command of a prompt.
fn behind<'a>(input: &'a [char], command: &str) -> (result: &'a [char])
    requires
        command@.len() <= input@.len(),
    ensures
        result@ == input@.skip(command@.len() as int),
{
    let word = text::chars_of(command);
    let rest = slice_subrange(input, word.len(), input.len());
    assert(rest@ =~= input@.skip(command@.len() as int));
    rest
}

/// A prompt with arguments.
fn parse_argument_prompt(trimmed: &[char], lower: &[char]) -> (result: Result<
    OperationRequest,
    PromptParseError,
>)
    requires
        lower@ == text::lowered(trimmed@),
    ensures
        read(result) == argument_request(trimmed@),
{
    proof {
        reveal_strlit("checkout ");
        reveal_strlit("checkout");
        reveal_strlit("merge ");
        reveal_strlit("merge");
        reveal_strlit("rebase ");
        reveal_strlit("rebase");
        reveal_strlit("open pr to ");
        reveal_strlit("open pr");
        reveal_strlit("open pull request to ");
        reveal_strlit("open pull request");
        reveal_strlit("branch ");
        reveal_strlit("branch");
        reveal_strlit("commit ");
        reveal_strlit("commit");
    }
    if text::starts_with(lower, "checkout ") {
        match parse_one_arg_prompt(trimmed, "checkout") {
            Ok(branch) => Ok(OperationRequest::Checkout { branch }),
            Err(error) => Err(error),
        }
    } else if text::starts_with(lower, "merge ") {
        match parse_one_arg_prompt(trimmed, "merge") {
            Ok(branch) => Ok(OperationRequest::Merge { branch }),
            Err(error) => Err(error),
        }
    } else if text::starts_with(lower, "rebase ") {
        match parse_one_arg_prompt(trimmed, "rebase") {
            Ok(base) => Ok(OperationRequest::Rebase { base }),
            Err(error) => Err(error),
        }
    } else if text::starts_with(lower, "open pr to ") {
        parse_open_pull_request_prompt(trimmed, "open pr")
    } else if text::starts_with(lower, "open pull request to ") {
        parse_open_pull_request_prompt(trimmed, "open pull request")
    } else if text::starts_with(lower, "branch ") {
        parse_branch_prompt(behind(trimmed, "branch"))
    } else if text::is_text(lower, "commit") || text::starts_with(lower, "commit ") {
        parse_commit_prompt(behind(trimmed, "commit"))
    } else {
        Err(parse_error(UNSUPPORTED_PROMPT_MESSAGE))
    }
}

/// A prompt without connectors.
fn parse_single_prompt(input: &[char]) -> (result: Result<OperationRequest, PromptParseError>)
    ensures
        read(result) == single_request(input@),
{
    let trimmed = text::trim(input);
    let lower = text::to_lowercase(trimmed);
    let lower = lower.as_slice();
    if text::is_text(lower, "git") || text::starts_with(lower, "git ") {
        Err(parse_error(RAW_GIT_MESSAGE))
    } else if text::is_text(lower, "branches") {
        Ok(OperationRequest::Branches)
    } else if text::is_text(lower, "fetch") {
        Ok(OperationRequest::Fetch)
    } else if text::is_text(lower, "push") {
        Ok(OperationRequest::Push)
    } else if text::is_text(lower, "open pr") || text::is_text(lower, "open pull request") {
        Ok(OperationRequest::OpenPullRequest { base: None })
    } else if text::is_text(lower, "pull") {
        Ok(OperationRequest::Pull { rebase: false })
    } else if text::is_text(lower, "pull --rebase") || text::is_text(lower, "pull rebase") {
        Ok(OperationRequest::Pull { rebase: true })
    } else {
        parse_argument_prompt(trimmed, lower)
    }
}

/// What a prompt asks for, part by part; the first part that is refused decides.
pub open spec fn requests_of(segments: Seq<Seq<char>>) -> Result<
    Seq<OperationRequestView>,
    Seq<char>,
>
    decreases segments.len(),
{
    if segments.len() == 0 {
        Ok(Seq::empty())
    } else {
        match requests_of(segments.drop_last()) {
            Err(message) => Err(message),
            Ok(requests) => match single_request(segments.last()) {
                Err(message) => Err(message),
                Ok(request) => Ok(requests.push(request)),
            },
        }
    }
}

/// What a prompt asks for.
pub open spec fn prompt(input: Seq<char>) -> Result<ParsedPromptView, Seq<char>> {
    let trimmed = text::trimmed(input);
    if trimmed.len() == 0 {
        Err("Prompt required. Try: "@ + PROMPT_EXAMPLES@)
    } else {
        match segments_from(trimmed, 0, 0, false) {
            Err(message) => Err(message),
            Ok(segments) => match requests_of(segments) {
                Err(message) => Err(message),
                Ok(requests) => if requests.len() == 1 {
                    Ok(ParsedPromptView::Single(requests[0]))
                } else {
                    Ok(ParsedPromptView::Sequence(requests))
                },
            },
        }
    }
}

/// Where a part is refused, the whole is refused in the same way.
proof fn lemma_refused_part(segments: Seq<Seq<char>>, count: int)
    requires
        0 <= count <= segments.len(),
        requests_of(segments.take(count)) is Err,
    ensures
        requests_of(segments) == requests_of(segments.take(count)),
    decreases segments.len() - count,
{
    if count < segments.len() {
        assert(segments.take(count + 1).drop_last() =~= segments.take(count));
        lemma_refused_part(segments, count + 1);
    } else {
        assert(segments.take(count) =~= segments);
    }
}

/// What a prompt asks for, part by part.
fn parse_segments(segments: &Vec<&[char]>) -> (result: Result<
    Vec<OperationRequest>,
    PromptParseError,
>)
    ensures
        (match result {
            Ok(requests) => Ok(requests.deep_view()),
            Err(error) => Err(error@),
        }) == requests_of(text::slices(segments@)),
{
    let ghost all = text::slices(segments@);
    let mut requests: Vec<OperationRequest> = Vec::new();
    let mut index: usize = 0;
    assert(requests.deep_view() =~= Seq::<OperationRequestView>::empty());
    while index < segments.len()
        invariant
            index <= segments@.len(),
            all == text::slices(segments@),
            requests_of(all.take(index as int)) == Ok::<Seq<OperationRequestView>, Seq<char>>(
                requests.deep_view(),
            ),
        decreases segments@.len() - index,
    {
        let ghost longer = all.take(index + 1);
        assert(longer.drop_last() =~= all.take(index as int));
        assert(longer.last() == segments@[index as int]@);
        match parse_single_prompt(segments[index]) {
            Ok(request) => {
                let ghost before = requests.deep_view();
                requests.push(request);
                assert(requests.deep_view() =~= before.push(request.deep_view()));
            },
            Err(error) => {
                proof {
                    lemma_refused_part(all, index + 1);
                }
                return Err(error);
            },
        }
        index += 1;
    }
    assert(all.take(index as int) =~= all);
    Ok(requests)
}

/// Reads a prompt.
pub fn parse_prompt(input: &str) -> (result: Result<ParsedPrompt, PromptParseError>)
    ensures
        (match result {
            Ok(parsed) => Ok(parsed.deep_view()),
            Err(error) => Err(error@),
        }) == prompt(input@),
{
    let characters = text::chars_of(input);
    let trimmed = text::trim(characters.as_slice());
    if trimmed.len() == 0 {
        let message = text::concat2("Prompt required. Try: ", PROMPT_EXAMPLES);
        return Err(parse_error(message.as_str()));
    }
    let segments = match split_prompt_sequence(trimmed) {
        Ok(segments) => segments,
        Err(error) => {
            return Err(error);
        },
    };
    let mut requests = match parse_segments(&segments) {
        Ok(requests) => requests,
        Err(error) => {
            return Err(error);
        },
    };
    assert(requests.deep_view().len() == requests@.len());
    if requests.len() == 1 {
        assert(requests.deep_view()[0] == requests@[0].deep_view());
        Ok(ParsedPrompt::Single(requests.swap_remove(0)))
    } else {
        Ok(ParsedPrompt::Sequence(requests))
    }
}

/// Whether a place is between an opening quote and its closing quote.
pub open spec fn within_quotes(input: Seq<char>, at: int) -> bool
    decreases at,
{
    if at <= 0 {
        false
    } else if input[at - 1] == '"' {
        !within_quotes(input, at - 1)
    } else {
        within_quotes(input, at - 1)
    }
}

/// Whether a run of exactly two ampersands starts at a place.
pub open spec fn pair_at(input: Seq<char>, at: int) -> bool {
    &&& 0 <= at
    &&& at + 2 <= input.len()
    &&& input[at] == '&'
    &&& input[at + 1] == '&'
    &&& at == 0 || input[at - 1] != '&'
    &&& at + 2 == input.len() || input[at + 2] != '&'
}

/// Whether a place is one of the two characters of a connector: it is in a run of ampersands, and there
/// are exactly two of them.
pub open spec fn in_double_ampersand(input: Seq<char>, at: int) -> bool {
    pair_at(input, at) || pair_at(input, at - 1)
}

/// Where a part starts with an ampersand, the prompt is refused.
proof fn lemma_no_leading_ampersand(input: Seq<char>, at: int)
    requires
        0 <= at < input.len(),
        input[at] == '&',
    ensures
        segments_from(input, at, at, false) is Err,
{
    text::lemma_trimmed_end(Seq::<char>::empty());
    text::lemma_trimmed_start(Seq::<char>::empty());
    assert(input.subrange(at, at) =~= Seq::<char>::empty());
    assert(text::trimmed(Seq::<char>::empty()).len() == 0);
}

/// A word that connects prompts holds neither quotes nor characters that mean something to a shell.
proof fn lemma_connecting_word(input: Seq<char>, at: int, word: Seq<char>)
    requires
        0 <= at,
        word == "and"@ || word == "then"@,
        is_word_at(input, at, word),
    ensures
        forall|i: int|
            at <= i < at + word.len() ==> (#[trigger] input[i]) != '"' && !is_shell_character(
                input[i],
            ),
{
    reveal_strlit("and");
    reveal_strlit("then");
    let end = at + word.len();
    assert forall|i: int| at <= i < end implies (#[trigger] input[i]) != '"' && !is_shell_character(
        input[i],
    ) by {
        let here = text::lowered(input.subrange(at, end));
        assert(here[i - at] == text::lower(input[i]));
        assert(here[i - at] == text::lowered(word)[i - at]);
        assert(text::lowered(word)[i - at] == text::lower(word[i - at]));
    }
}

/// Passing over characters without quotes neither enters nor leaves quotes.
proof fn lemma_same_quotes(input: Seq<char>, from: int, to: int)
    requires
        0 <= from <= to,
        forall|i: int| from <= i < to ==> (#[trigger] input[i]) != '"',
    ensures
        forall|i: int| from <= i <= to ==> #[trigger] within_quotes(input, i) == within_quotes(
            input,
            from,
        ),
    decreases to - from,
{
    if from < to {
        lemma_same_quotes(input, from, to - 1);
        assert(input[to - 1] != '"');
        assert(within_quotes(input, to) == within_quotes(input, to - 1));
    }
}

/// A scan that succeeds has met nothing that means something to a shell.
proof fn lemma_no_shell_syntax(input: Seq<char>, at: int, start: int, quoted: bool)
    requires
        0 <= at <= input.len(),
        quoted == within_quotes(input, at),
        segments_from(input, at, start, quoted) is Ok,
        !quoted && at > 0 && input[at - 1] == '&' ==> start == at,
    ensures
        forall|i: int|
            at <= i < input.len() && is_shell_character(#[trigger] input[i]) && !within_quotes(
                input,
                i,
            ) ==> in_double_ampersand(input, i),
    decreases input.len() - at,
{
    if at < input.len() {
        if input[at] == '"' {
            lemma_no_shell_syntax(input, at + 1, start, !quoted);
        } else if !quoted && connector_at(input, at) > 0 {
            let next = at + connector_at(input, at);
            reveal_strlit("and");
            reveal_strlit("then");
            let ampersands = at + 2 <= input.len() && input[at] == '&' && input[at + 1] == '&';
            if !ampersands {
                lemma_connecting_word(
                    input,
                    at,
                    if is_word_at(input, at, "and"@) {
                        "and"@
                    } else {
                        "then"@
                    },
                );
            }
            assert forall|i: int| at <= i < next implies (#[trigger] input[i]) != '"' by {
                if ampersands {
                    assert(i == at || i == at + 1);
                }
            }
            lemma_same_quotes(input, at, next);
            assert(within_quotes(input, next) == within_quotes(input, at));
            lemma_no_shell_syntax(input, next, next, false);
            if ampersands {
                if at > 0 && input[at - 1] == '&' {
                    lemma_no_leading_ampersand(input, at);
                }
                if next < input.len() && input[next] == '&' {
                    lemma_no_leading_ampersand(input, next);
                }
                assert(pair_at(input, at));
            }
            assert forall|i: int|
                at <= i < input.len() && is_shell_character(#[trigger] input[i]) && !within_quotes(
                    input,
                    i,
                ) implies in_double_ampersand(input, i) by {
                if i < next && ampersands {
                    assert(i == at || i == at + 1);
                }
            }
        } else {
            lemma_no_shell_syntax(input, at + 1, start, quoted);
        }
    }
}

/// A prompt that is accepted holds no character that means something to a shell outside of quotes, but
/// for `&&` between two parts: ampersands outside of quotes stand in runs of exactly two.
pub proof fn accepted_prompts_hold_no_shell_syntax(input: Seq<char>)
    requires
        prompt(input) is Ok,
    ensures
        forall|i: int|
            0 <= i < text::trimmed(input).len() && is_shell_character(
                #[trigger] text::trimmed(input)[i],
            ) && !within_quotes(text::trimmed(input), i) ==> in_double_ampersand(
                text::trimmed(input),
                i,
            ),
{
    lemma_no_shell_syntax(text::trimmed(input), 0, 0, false);
}

/// The requests of a prompt, in order.
pub open spec fn all_requests(parsed: ParsedPromptView) -> Seq<OperationRequestView> {
    match parsed {
        ParsedPromptView::Single(request) => seq![request],
        ParsedPromptView::Sequence(requests) => requests,
    }
}

/// Whether a request is one that a prompt can make, with arguments that are no options and a message that
/// is not blank.
pub open spec fn is_guarded(request: OperationRequestView) -> bool {
    match request {
        OperationRequestView::Branches => true,
        OperationRequestView::Fetch => true,
        OperationRequestView::Push => true,
        OperationRequestView::Pull { rebase: _ } => true,
        OperationRequestView::Checkout { branch } => is_branch_argument(branch),
        OperationRequestView::Merge { branch } => is_branch_argument(branch),
        OperationRequestView::Rebase { base } => is_branch_argument(base),
        OperationRequestView::CreateBranch { branch, base } => {
            &&& is_branch_argument(branch)
            &&& base is Some ==> is_branch_argument(base->Some_0)
        },
        OperationRequestView::OpenPullRequest { base } => base is Some ==> is_branch_argument(
            base->Some_0,
        ),
        OperationRequestView::Commit { message } => !text::is_blank(message),
        _ => false,
    }
}

/// What is left after trimming, where anything is, is not blank, and neither is what was trimmed.
proof fn lemma_trimmed_is_not_blank(value: Seq<char>)
    requires
        text::trimmed(value).len() > 0,
    ensures
        !text::is_blank(value),
        !text::is_blank(text::trimmed(value)),
{
    let rest = text::trimmed_start(value);
    text::lemma_trimmed_start(value);
    text::lemma_trimmed_end(rest);
    assert(text::trimmed(value)[0] == rest[0]);
    assert(rest[0] == value[value.len() - rest.len()]);
}

/// A message that is accepted is not blank.
proof fn lemma_message_is_not_blank(input: Seq<char>)
    requires
        commit_message(input) is Ok,
    ensures
        !text::is_blank(commit_message(input)->Ok_0),
{
    let trimmed = text::trimmed(input);
    let rest = trimmed.skip(1);
    let end = text::position_of(rest, '"') as int;
    if trimmed[0] != '"' {
        lemma_trimmed_is_not_blank(input);
    } else {
        lemma_trimmed_is_not_blank(rest.take(end));
    }
}

/// A part that is accepted makes a guarded request.
proof fn lemma_single_request_is_guarded(input: Seq<char>)
    requires
        single_request(input) is Ok,
    ensures
        is_guarded(single_request(input)->Ok_0),
{
    let trimmed = text::trimmed(input);
    let rest = trimmed.skip("commit"@.len() as int);
    let message = text::trimmed_start(rest);
    if single_request(input)->Ok_0 is Commit {
        assert(commit_request(rest) is Ok);
        if message == "-m"@ {
            lemma_message_is_not_blank(Seq::empty());
        } else if text::has_prefix(message, "-m "@) {
            lemma_message_is_not_blank(text::trimmed_start(message.skip("-m "@.len() as int)));
        } else {
            lemma_message_is_not_blank(message);
        }
    }
}

/// Parts that are accepted make one request each, in order.
proof fn lemma_requests_of_parts(segments: Seq<Seq<char>>)
    requires
        requests_of(segments) is Ok,
    ensures
        requests_of(segments)->Ok_0.len() == segments.len(),
        forall|i: int|
            0 <= i < segments.len() ==> single_request(segments[i]) == Ok::<_, Seq<char>>(
                #[trigger] requests_of(segments)->Ok_0[i],
            ),
    decreases segments.len(),
{
    if segments.len() > 0 {
        let before = segments.drop_last();
        lemma_requests_of_parts(before);
        assert forall|i: int| 0 <= i < segments.len() implies single_request(segments[i]) == Ok::<
            _,
            Seq<char>,
        >(#[trigger] requests_of(segments)->Ok_0[i]) by {
            if i < before.len() {
                assert(before[i] == segments[i]);
                assert(requests_of(segments)->Ok_0[i] == requests_of(before)->Ok_0[i]);
            }
        }
    }
}

/// There is always at least one part.
proof fn lemma_some_segment(input: Seq<char>, at: int, start: int, quoted: bool)
    requires
        segments_from(input, at, start, quoted) is Ok,
    ensures
        segments_from(input, at, start, quoted)->Ok_0.len() > 0,
    decreases
            if at <= input.len() {
                input.len() - at
            } else {
                0
            },
{
    if at < input.len() {
        if input[at] == '"' {
            lemma_some_segment(input, at + 1, start, !quoted);
        } else if !quoted && connector_at(input, at) > 0 {
        } else {
            lemma_some_segment(input, at + 1, start, quoted);
        }
    }
}

/// A prompt that is accepted is read part by part: each part between connectors makes the request that it
/// makes alone, and a prompt without connectors makes a single request.
pub proof fn parts_are_read_alone(input: Seq<char>)
    requires
        prompt(input) is Ok,
    ensures
        ({
            let segments = segments_from(text::trimmed(input), 0, 0, false)->Ok_0;
            let requests = all_requests(prompt(input)->Ok_0);
            &&& requests.len() == segments.len() > 0
            &&& prompt(input)->Ok_0 is Single <==> segments.len() == 1
            &&& forall|i: int|
                0 <= i < segments.len() ==> single_request(#[trigger] segments[i]) == Ok::<
                    _,
                    Seq<char>,
                >(requests[i])
        }),
{
    let segments = segments_from(text::trimmed(input), 0, 0, false)->Ok_0;
    lemma_some_segment(text::trimmed(input), 0, 0, false);
    lemma_requests_of_parts(segments);
    let found = requests_of(segments)->Ok_0;
    assert(all_requests(prompt(input)->Ok_0) =~= found);
    assert forall|i: int| 0 <= i < segments.len() implies single_request(#[trigger] segments[i])
        == Ok::<_, Seq<char>>(all_requests(prompt(input)->Ok_0)[i]) by {
        assert(single_request(segments[i]) == Ok::<_, Seq<char>>(found[i]));
    }
}

/// Every request of a prompt that is accepted is guarded: no branch is an option or holds white space, and
/// no commit message is blank.
pub proof fn prompts_make_guarded_requests(input: Seq<char>)
    requires
        prompt(input) is Ok,
    ensures
        forall|i: int|
            0 <= i < all_requests(prompt(input)->Ok_0).len() ==> is_guarded(
                #[trigger] all_requests(prompt(input)->Ok_0)[i],
            ),
{
    parts_are_read_alone(input);
    let segments = segments_from(text::trimmed(input), 0, 0, false)->Ok_0;
    let requests = all_requests(prompt(input)->Ok_0);
    assert forall|i: int| 0 <= i < requests.len() implies is_guarded(#[trigger] requests[i]) by {
        assert(single_request(segments[i]) == Ok::<_, Seq<char>>(requests[i]));
        lemma_single_request_is_guarded(segments[i]);
    }
}

/// Whether a text connects two prompts: it is `&&` or, with white space on both sides, `and` or `then` in
/// any case.
pub open spec fn connects(connector: Seq<char>) -> bool {
    let word = text::trimmed(connector);
    ||| word == "&&"@
    ||| {
        &&& text::lowered(word) == "and"@ || text::lowered(word) == "then"@
        &&& text::is_white(connector[0])
        &&& text::is_white(connector.last())
    }
}

/// White space and ampersands are not in the words that connect prompts.
proof fn lemma_not_in_word(input: Seq<char>, at: int, word: Seq<char>, place: int)
    requires
        word == "and"@ || word == "then"@,
        0 <= at <= place < at + word.len(),
        place < input.len(),
        text::is_white(input[place]) || input[place] == '&',
    ensures
        !is_word_at(input, at, word),
{
    reveal_strlit("and");
    reveal_strlit("then");
    if is_word_at(input, at, word) {
        let here = text::lowered(input.subrange(at, at + word.len()));
        assert(here[place - at] == text::lower(input[place]));
        assert(here[place - at] == text::lowered(word)[place - at]);
        assert(text::lowered(word)[place - at] == text::lower(word[place - at]));
    }
}

/// White space connects nothing.
proof fn lemma_white_connects_nothing(input: Seq<char>, at: int)
    requires
        0 <= at < input.len(),
        text::is_white(input[at]),
    ensures
        connector_at(input, at) == 0,
{
    reveal_strlit("and");
    reveal_strlit("then");
    lemma_not_in_word(input, at, "and"@, at);
    lemma_not_in_word(input, at, "then"@, at);
}

/// White space outside of quotes is passed over.
proof fn lemma_pass_white(input: Seq<char>, at: int, start: int, count: int)
    requires
        0 <= at,
        0 <= count,
        at + count <= input.len(),
        forall|i: int| at <= i < at + count ==> text::is_white(#[trigger] input[i]),
    ensures
        segments_from(input, at, start, false) == segments_from(input, at + count, start, false),
    decreases count,
{
    if count > 0 {
        assert(text::is_white(input[at]));
        lemma_white_connects_nothing(input, at);
        lemma_pass_white(input, at + 1, start, count - 1);
    }
}

/// White space that a part starts with does not matter.
proof fn lemma_start_behind_white(input: Seq<char>, at: int, start: int, count: int, quoted: bool)
    requires
        0 <= start,
        0 <= count,
        start + count <= at <= input.len(),
        forall|i: int| start <= i < start + count ==> text::is_white(#[trigger] input[i]),
    ensures
        segments_from(input, at, start, quoted) == segments_from(input, at, start + count, quoted),
    decreases input.len() - at,
{
    let space = input.subrange(start, start + count);
    assert forall|i: int| 0 <= i < space.len() implies text::is_white(#[trigger] space[i]) by {
        assert(space[i] == input[start + i]);
    }
    if at >= input.len() {
        let end = input.len() as int;
        assert(input.subrange(start, end) =~= space + input.subrange(start + count, end));
        text::lemma_white_in_front(space, input.subrange(start + count, end));
    } else if input[at] == '"' {
        lemma_start_behind_white(input, at + 1, start, count, !quoted);
    } else if !quoted && connector_at(input, at) > 0 {
        assert(input.subrange(start, at) =~= space + input.subrange(start + count, at));
        text::lemma_white_in_front(space, input.subrange(start + count, at));
    } else if !quoted && is_shell_character(input[at]) {
    } else {
        lemma_start_behind_white(input, at + 1, start, count, quoted);
    }
}

/// A word stands at a place of the end of a text where it stands at this place of the end alone.
proof fn lemma_word_of_end(front: Seq<char>, end: Seq<char>, at: int, word: Seq<char>)
    requires
        0 < at <= end.len(),
    ensures
        is_word_at(front + end, front.len() + at, word) == is_word_at(end, at, word),
{
    let whole = front + end;
    let count = front.len() as int;
    assert(whole[count + at - 1] == end[at - 1]);
    if at + word.len() <= end.len() {
        assert(whole.subrange(count + at, count + at + word.len()) =~= end.subrange(
            at,
            at + word.len(),
        ));
        if at + word.len() < end.len() {
            assert(whole[count + at + word.len()] == end[at + word.len()]);
        }
    }
}

/// A word that stands where the end of a text starts stands at the start of the end alone.
proof fn lemma_word_at_end(front: Seq<char>, end: Seq<char>, word: Seq<char>)
    requires
        is_word_at(front + end, front.len() as int, word),
    ensures
        is_word_at(end, 0, word),
{
    let whole = front + end;
    let count = front.len() as int;
    assert(whole.subrange(count, count + word.len()) =~= end.subrange(0, word.len() as int));
    if word.len() < end.len() {
        assert(whole[count + word.len()] == end[word.len() as int]);
    }
}

/// The end of a prompt is read as it is alone, where it starts with no connecting word.
proof fn lemma_end_is_read_alone(
    front: Seq<char>,
    end: Seq<char>,
    at: int,
    start: int,
    quoted: bool,
)
    requires
        0 <= start <= at <= end.len(),
        !is_word_at(end, 0, "and"@),
        !is_word_at(end, 0, "then"@),
    ensures
        segments_from(front + end, front.len() + at, front.len() + start, quoted) == segments_from(
            end,
            at,
            start,
            quoted,
        ),
    decreases end.len() - at,
{
    reveal_strlit("and");
    reveal_strlit("then");
    let whole = front + end;
    let count = front.len() as int;
    if at >= end.len() {
        assert(whole.subrange(count + start, whole.len() as int) =~= end.subrange(
            start,
            end.len() as int,
        ));
    } else {
        assert(whole[count + at] == end[at]);
        assert(whole.subrange(count + start, count + at) =~= end.subrange(start, at));
        if at + 1 < end.len() {
            assert(whole[count + at + 1] == end[at + 1]);
        }
        if at > 0 {
            lemma_word_of_end(front, end, at, "and"@);
            lemma_word_of_end(front, end, at, "then"@);
        } else {
            if is_word_at(whole, count, "and"@) {
                lemma_word_at_end(front, end, "and"@);
            }
            if is_word_at(whole, count, "then"@) {
                lemma_word_at_end(front, end, "then"@);
            }
        }
        assert(connector_at(whole, count + at) == connector_at(end, at));
        let next = at + connector_at(end, at);
        if end[at] == '"' {
            lemma_end_is_read_alone(front, end, at + 1, start, !quoted);
        } else if !quoted && connector_at(end, at) > 0 {
            assert(next <= end.len());
            lemma_end_is_read_alone(front, end, next, next, false);
        } else if !quoted && is_shell_character(end[at]) {
        } else {
            lemma_end_is_read_alone(front, end, at + 1, start, quoted);
        }
    }
}

/// A prompt that is accepted does not start with a connecting word.
proof fn lemma_no_leading_word(input: Seq<char>, word: Seq<char>)
    requires
        word == "and"@ || word == "then"@,
        segments_from(input, 0, 0, false) is Ok,
    ensures
        !is_word_at(input, 0, word),
{
    reveal_strlit("and");
    reveal_strlit("then");
    if is_word_at(input, 0, word) {
        lemma_connecting_word(input, 0, word);
        assert(input[0] != '"' && !is_shell_character(input[0]));
        assert(input.subrange(0, 0) =~= Seq::<char>::empty());
        text::lemma_trimmed_start(Seq::<char>::empty());
        text::lemma_trimmed_end(Seq::<char>::empty());
        assert(text::trimmed(Seq::<char>::empty()).len() == 0);
    }
}

/// A connecting word stands in the start of a longer text where it stands in the start alone, if the start
/// is accepted alone and white space or an ampersand follows it.
proof fn lemma_word_of_start(
    front: Seq<char>,
    more: Seq<char>,
    at: int,
    start: int,
    word: Seq<char>,
)
    requires
        word == "and"@ || word == "then"@,
        0 <= at < front.len(),
        more.len() > 0,
        text::is_white(more[0]) || more[0] == '&',
        segments_from(front, at, start, false) is Ok,
        !(at + 2 <= front.len() && front[at] == '&' && front[at + 1] == '&'),
        word == "and"@ || !is_word_at(front, at, "and"@),
    ensures
        is_word_at(front + more, at, word) == is_word_at(front, at, word),
{
    reveal_strlit("and");
    reveal_strlit("then");
    let whole = front + more;
    let count = front.len() as int;
    let end = at + word.len();
    assert(whole[count] == more[0]);
    if at > 0 {
        assert(whole[at - 1] == front[at - 1]);
    }
    if end > count {
        lemma_not_in_word(whole, at, word, count);
    } else {
        assert(whole.subrange(at, end) =~= front.subrange(at, end));
        if end < count {
            assert(whole[end] == front[end]);
        } else if is_word_at(front, at, word) {
            lemma_connecting_word(front, at, word);
            assert(front[at] != '"');
            assert(connector_at(front, at) == word.len());
            assert(front.subrange(end, count) =~= Seq::<char>::empty());
            text::lemma_trimmed_start(Seq::<char>::empty());
            text::lemma_trimmed_end(Seq::<char>::empty());
            assert(segments_from(front, end, end, false) is Err);
        }
    }
}

/// The start of a prompt that is accepted alone, with a connector behind it, is read as it is alone, and
/// then what follows the connector is read.
#[verifier::rlimit(30)]
proof fn lemma_start_is_read_alone(
    front: Seq<char>,
    space: Seq<char>,
    word: Seq<char>,
    rest: Seq<char>,
    at: int,
    start: int,
    quoted: bool,
)
    requires
        0 <= start <= at <= front.len(),
        text::all_white(space),
        word.len() > 0,
        space.len() > 0 || word[0] == '&',
        connector_at(front + (space + (word + rest)), (front.len() + space.len()) as int)
            == word.len(),
        word[0] != '"',
        segments_from(front, at, start, quoted) is Ok,
    ensures
        ({
            let whole = front + (space + (word + rest));
            let next = front.len() + space.len() + word.len();
            segments_from(whole, at, start, quoted) == led_by(
                segments_from(front, at, start, quoted)->Ok_0,
                segments_from(whole, next as int, next as int, false),
            )
        }),
    decreases front.len() - at,
{
    let more = space + (word + rest);
    let whole = front + more;
    let count = front.len() as int;
    let place = count + space.len();
    let next = place + word.len();
    let followed = segments_from(whole, next, next, false);
    assert(more[0] == if space.len() > 0 {
        space[0]
    } else {
        word[0]
    });
    if at == count {
        assert forall|i: int| count <= i < place implies text::is_white(#[trigger] whole[i]) by {
            assert(whole[i] == space[i - count]);
        }
        lemma_pass_white(whole, count, start, space.len() as int);
        assert(whole[place] == word[0]);
        let last = front.subrange(start, count);
        assert(whole.subrange(start, place) =~= last + space);
        text::lemma_white_behind(last, space);
        assert(segments_from(front, at, start, quoted)->Ok_0 == seq![text::trimmed(last)]);
    } else {
        assert(whole[at] == front[at]);
        assert(whole.subrange(start, at) =~= front.subrange(start, at));
        if front[at] == '"' {
            lemma_start_is_read_alone(front, space, word, rest, at + 1, start, !quoted);
        } else if quoted {
            lemma_start_is_read_alone(front, space, word, rest, at + 1, start, quoted);
        } else {
            let pair = at + 2 <= count && front[at] == '&' && front[at + 1] == '&';
            reveal_strlit("and");
            reveal_strlit("then");
            if pair {
                assert(whole[at + 1] == front[at + 1]);
            } else {
                lemma_word_of_start(front, more, at, start, "and"@);
                if !is_word_at(front, at, "and"@) {
                    lemma_word_of_start(front, more, at, start, "then"@);
                }
                if front[at] == '&' {
                    lemma_not_in_word(front, at, "and"@, at);
                    lemma_not_in_word(front, at, "then"@, at);
                }
            }
            assert(connector_at(whole, at) == connector_at(front, at));
            let step = connector_at(front, at);
            if step > 0 {
                let segment = text::trimmed(front.subrange(start, at));
                let inner = segments_from(front, at + step, at + step, false);
                assert(at + step <= count);
                lemma_start_is_read_alone(
                    front,
                    space,
                    word,
                    rest,
                    at + step,
                    at + step,
                    false,
                );
                if followed is Ok {
                    assert(seq![segment] + (inner->Ok_0 + followed->Ok_0) =~= (seq![segment]
                        + inner->Ok_0) + followed->Ok_0);
                }
            } else {
                lemma_start_is_read_alone(front, space, word, rest, at + 1, start, quoted);
            }
        }
    }
}

/// What two lists of parts ask for, one after the other.
proof fn lemma_requests_of_both(first: Seq<Seq<char>>, second: Seq<Seq<char>>)
    requires
        requests_of(first) is Ok,
        requests_of(second) is Ok,
    ensures
        requests_of(first + second) == Ok::<_, Seq<char>>(
            requests_of(first)->Ok_0 + requests_of(second)->Ok_0,
        ),
    decreases second.len(),
{
    if second.len() == 0 {
        assert(first + second =~= first);
        assert(requests_of(first)->Ok_0 + requests_of(second)->Ok_0 =~= requests_of(first)->Ok_0);
    } else {
        let before = second.drop_last();
        lemma_requests_of_both(first, before);
        assert((first + second).drop_last() =~= first + before);
        assert((first + second).last() == second.last());
        assert(requests_of(first)->Ok_0 + requests_of(second)->Ok_0 =~= (requests_of(first)->Ok_0
            + requests_of(before)->Ok_0).push(single_request(second.last())->Ok_0));
    }
}

/// A connector between two texts connects them, whatever white space is around it.
proof fn lemma_connector_stands(
    front: Seq<char>,
    before: Seq<char>,
    word: Seq<char>,
    behind: Seq<char>,
    end: Seq<char>,
)
    requires
        text::all_white(before),
        text::all_white(behind),
        word == "&&"@ || ((text::lowered(word) == "and"@ || text::lowered(word) == "then"@)
            && before.len() > 0 && behind.len() > 0),
    ensures
        word.len() > 0,
        word[0] != '"',
        before.len() > 0 || word[0] == '&',
        connector_at(
            front + (before + (word + (behind + end))),
            (front.len() + before.len()) as int,
        ) == word.len(),
{
    reveal_strlit("and");
    reveal_strlit("then");
    reveal_strlit("&&");
    let rest = behind + end;
    let whole = front + (before + (word + rest));
    let place = (front.len() + before.len()) as int;
    let lower = text::lowered(word);
    assert(lower.len() == word.len());
    assert(lower[0] == text::lower(word[0]));
    assert(whole.subrange(place, place + word.len()) =~= word);
    assert(whole[place] == word[0]);
    if word != "&&"@ {
        assert(whole[place - 1] == before.last());
        assert(whole[place + word.len()] == behind[0]);
        assert(text::lowered("and"@) =~= "and"@);
        assert(text::lowered("then"@) =~= "then"@);
        assert(word[0] != '&');
        assert(is_word_at(whole, place, lower));
        if lower == "then"@ {
            assert(lower[0] != "and"@[0]);
            if is_word_at(whole, place, "and"@) {
                let here = text::lowered(whole.subrange(place, place + 3));
                assert(here[0] == text::lower(whole[place]));
                assert(here[0] == text::lowered("and"@)[0]);
            }
        }
    } else {
        assert(whole[place + 1] == word[1]);
    }
}

/// Two prompts that are accepted alone, with a connector between them, are accepted: they ask for what the
/// first asks for, and then for what the second asks for.
#[verifier::spinoff_prover]
#[verifier::rlimit(60)]
pub proof fn joined_prompts_make_a_sequence(
    first: Seq<char>,
    connector: Seq<char>,
    second: Seq<char>,
)
    requires
        prompt(first) is Ok,
        prompt(second) is Ok,
        connects(connector),
    ensures
        prompt(first + connector + second) == Ok::<_, Seq<char>>(
            ParsedPromptView::Sequence(
                all_requests(prompt(first)->Ok_0) + all_requests(prompt(second)->Ok_0),
            ),
        ),
{
    reveal_strlit("and");
    reveal_strlit("then");
    reveal_strlit("&&");
    let front = text::trimmed(first);
    let word = text::trimmed(connector);
    let end = text::trimmed(second);
    let around_first = text::lemma_around_trimmed(first);
    let around_word = text::lemma_around_trimmed(connector);
    let around_second = text::lemma_around_trimmed(second);
    let before = around_first.1 + around_word.0;
    let behind = around_word.1 + around_second.0;
    assert(text::lowered(word).len() == word.len());
    assert(word.len() > 0);
    assert(before.len() > 0 || word == "&&"@) by {
        if word != "&&"@ && around_word.0.len() == 0 {
            assert(connector[0] == word[0]);
        }
    }
    assert(behind.len() > 0 || word == "&&"@) by {
        if word != "&&"@ && around_word.1.len() == 0 {
            assert(connector.last() == word.last());
        }
    }
    assert forall|i: int| 0 <= i < before.len() implies text::is_white(#[trigger] before[i]) by {
        if i < around_first.1.len() {
            assert(before[i] == around_first.1[i]);
        } else {
            assert(before[i] == around_word.0[i - around_first.1.len()]);
        }
    }
    assert forall|i: int| 0 <= i < behind.len() implies text::is_white(#[trigger] behind[i]) by {
        if i < around_word.1.len() {
            assert(behind[i] == around_word.1[i]);
        } else {
            assert(behind[i] == around_second.0[i - around_word.1.len()]);
        }
    }
    let rest = behind + end;
    let whole = front + (before + (word + rest));
    assert(first + connector + second =~= around_first.0 + (whole + around_second.1));
    assert(whole[0] == front[0]);
    assert(whole.last() == end.last());
    text::lemma_nothing_to_trim(whole);
    text::lemma_white_behind(whole, around_second.1);
    text::lemma_white_in_front(around_first.0, whole + around_second.1);
    assert(text::trimmed(first + connector + second) == whole);

    lemma_connector_stands(front, before, word, behind, end);
    lemma_start_is_read_alone(front, before, word, rest, 0, 0, false);
    let next = (front.len() + before.len() + word.len()) as int;
    let lead = front + (before + (word + behind));
    assert(whole =~= lead + end);
    let edge = lead.len() as int;
    assert forall|i: int| next <= i < edge implies text::is_white(#[trigger] whole[i]) by {
        assert(whole[i] == behind[i - next]);
    }
    lemma_pass_white(whole, next, next, behind.len() as int);
    lemma_start_behind_white(whole, edge, next, behind.len() as int, false);
    lemma_no_leading_word(end, "and"@);
    lemma_no_leading_word(end, "then"@);
    lemma_end_is_read_alone(lead, end, 0, 0, false);
    let one = segments_from(front, 0, 0, false)->Ok_0;
    let other = segments_from(end, 0, 0, false)->Ok_0;
    assert(segments_from(whole, 0, 0, false) == Ok::<_, Seq<char>>(one + other));
    lemma_requests_of_both(one, other);
    parts_are_read_alone(first);
    parts_are_read_alone(second);
    lemma_requests_of_parts(one);
    lemma_requests_of_parts(other);
    assert(all_requests(prompt(first)->Ok_0) =~= requests_of(one)->Ok_0);
    assert(all_requests(prompt(second)->Ok_0) =~= requests_of(other)->Ok_0);
}

}
