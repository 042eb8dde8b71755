//! Reading a prompt gives back what was asked for, in any case and with any white space around it.
use crate::operation::OperationRequestView;
use crate::parts;
use crate::prompt_parser;
use crate::prompt_parser::ParsedPromptView;
use crate::text;
use vstd::prelude::*;

verus! {

/// What a prompt asks for, where it is read alone.
pub open spec fn asks_for(input: Seq<char>, request: OperationRequestView) -> bool {
    prompt_parser::single_request(input) == Ok::<OperationRequestView, Seq<char>>(request)
}

/// Whether a text is a word in any case.
pub open spec fn is_spelled(value: Seq<char>, word: Seq<char>) -> bool {
    text::lowered(value) == word
}

/// A character that becomes a letter in lower case is no white space.
proof fn lemma_lower(character: char)
    ensures
        text::is_white(text::lower(character)) == text::is_white(character),
{
}

/// A command in any case and its argument.
proof fn lemma_command(command: Seq<char>, word: Seq<char>, argument: Seq<char>)
    requires
        is_spelled(command, word),
        word.len() > 0,
        !text::is_white(word[0]),
        argument.len() > 0,
        !text::is_white(argument[0]),
        !text::is_white(argument.last()),
    ensures
        ({
            let input = command + seq![' '] + argument;
            &&& text::trimmed(input) == input
            &&& text::lowered(input) == word + seq![' '] + text::lowered(argument)
            &&& input.skip(word.len() as int) == seq![' '] + argument
            &&& text::trimmed(input.skip(word.len() as int)) == argument
            &&& text::trimmed_start(input.skip(word.len() as int)) == argument
        }),
{
    let input = command + seq![' '] + argument;
    assert(command.len() == word.len());
    assert(text::lower(command[0]) == word[0]);
    lemma_lower(command[0]);
    assert(input[0] == command[0]);
    assert(input.last() == argument.last());
    text::lemma_nothing_to_trim(input);
    assert(text::lowered(input) =~= word + seq![' '] + text::lowered(argument)) by {
        assert forall|i: int| 0 <= i < input.len() implies text::lowered(input)[i] == (word + seq![
            ' ',
        ] + text::lowered(argument))[i] by {
            if i < word.len() {
                assert(text::lowered(command)[i] == text::lower(command[i]));
            }
        }
    }
    assert(input.skip(word.len() as int) =~= seq![' '] + argument);
    let space = seq![' '];
    assert(text::all_white(space));
    text::lemma_white_in_front(space, argument);
    text::lemma_nothing_to_trim(argument);
}

/// Nothing that starts with a letter reads as a prompt that starts with another.
proof fn lemma_fixed_prompts()
    ensures
        "git"@.len() == 3 && "git"@[0] == 'g',
        "git "@.len() == 4 && "git "@[0] == 'g',
        "branches"@.len() == 8 && "branches"@[0] == 'b' && "branches"@[6] == 'e',
        "fetch"@.len() == 5 && "fetch"@[0] == 'f',
        "push"@.len() == 4 && "push"@[0] == 'p' && "push"@[2] == 's',
        "open pr"@.len() == 7 && "open pr"@[0] == 'o',
        "open pull request"@.len() == 17 && "open pull request"@[0] == 'o'
            && "open pull request"@[6] == 'u',
        "pull"@.len() == 4 && "pull"@[0] == 'p' && "pull"@[2] == 'l',
        "pull --rebase"@.len() == 13 && "pull --rebase"@[0] == 'p',
        "pull rebase"@.len() == 11 && "pull rebase"@[0] == 'p',
        "checkout"@.len() == 8 && "checkout"@[0] == 'c',
        "merge"@.len() == 5 && "merge"@[0] == 'm',
        "rebase"@.len() == 6 && "rebase"@[0] == 'r',
        "branch"@.len() == 6 && "branch"@[0] == 'b',
        "commit"@.len() == 6 && "commit"@[0] == 'c' && "commit"@[1] == 'o',
        "checkout "@ == "checkout"@ + seq![' '],
        "checkout "@[1] == 'h',
        "merge "@ == "merge"@ + seq![' '],
        "rebase "@ == "rebase"@ + seq![' '],
        "branch "@ == "branch"@ + seq![' '],
        "commit "@ == "commit"@ + seq![' '],
        "open pr to "@ == "open pr to"@ + seq![' '],
        "open pull request to "@ == "open pull request to"@ + seq![' '],
        "open pr to"@ == "open pr"@ + seq![' ', 't', 'o'],
        "open pull request to"@ == "open pull request"@ + seq![' ', 't', 'o'],
        "open pr to"@.len() == 10 && "open pr to"@[0] == 'o' && "open pr to"@[6] == 'r',
        "open pull request to"@.len() == 20 && "open pull request to"@[0] == 'o'
            && "open pull request to"@[6] == 'u',
{
    reveal_strlit("git");
    reveal_strlit("git ");
    reveal_strlit("branches");
    reveal_strlit("fetch");
    reveal_strlit("push");
    reveal_strlit("open pr");
    reveal_strlit("open pull request");
    reveal_strlit("pull");
    reveal_strlit("pull --rebase");
    reveal_strlit("pull rebase");
    reveal_strlit("checkout");
    reveal_strlit("merge");
    reveal_strlit("rebase");
    reveal_strlit("branch");
    reveal_strlit("commit");
    reveal_strlit("checkout ");
    reveal_strlit("merge ");
    reveal_strlit("rebase ");
    reveal_strlit("branch ");
    reveal_strlit("commit ");
    reveal_strlit("open pr to ");
    reveal_strlit("open pull request to ");
    reveal_strlit("open pr to");
    reveal_strlit("open pull request to");
    assert("checkout "@ =~= "checkout"@ + seq![' ']);
    assert("merge "@ =~= "merge"@ + seq![' ']);
    assert("rebase "@ =~= "rebase"@ + seq![' ']);
    assert("branch "@ =~= "branch"@ + seq![' ']);
    assert("commit "@ =~= "commit"@ + seq![' ']);
    assert("open pr to "@ =~= "open pr to"@ + seq![' ']);
    assert("open pull request to "@ =~= "open pull request to"@ + seq![' ']);
    assert("open pr to"@ =~= "open pr"@ + seq![' ', 't', 'o']);
    assert("open pull request to"@ =~= "open pull request"@ + seq![' ', 't', 'o']);
}

/// A text starts with what it was put together from, and with nothing that starts otherwise.
proof fn lemma_starts(lower: Seq<char>, lead: Seq<char>, rest: Seq<char>, other: Seq<char>)
    requires
        lower == lead + rest,
        lead.len() > 0,
        other.len() > 0,
    ensures
        text::has_prefix(lower, lead),
        other[0] != lead[0] ==> !text::has_prefix(lower, other) && lower != other,
{
    assert(lower.take(lead.len() as int) =~= lead);
    if other[0] != lead[0] {
        if text::has_prefix(lower, other) {
            assert(lower.take(other.len() as int)[0] == lower[0]);
        }
        assert(lower[0] == lead[0]);
    }
}

/// `checkout BRANCH` asks for that branch to be checked out, whatever branch it is.
pub proof fn checkout_names_its_branch(command: Seq<char>, branch: Seq<char>)
    requires
        is_spelled(command, "checkout"@),
        prompt_parser::is_branch_argument(branch),
    ensures
        asks_for(command + seq![' '] + branch, OperationRequestView::Checkout { branch }),
{
    lemma_fixed_prompts();
    assert(!text::is_white(branch[0]) && !text::is_white(branch[branch.len() - 1]));
    lemma_command(command, "checkout"@, branch);
    let lower = text::lowered(command + seq![' '] + branch);
    let rest = text::lowered(branch);
    lemma_starts(lower, "checkout "@, rest, "git"@);
    lemma_starts(lower, "checkout "@, rest, "git "@);
    lemma_starts(lower, "checkout "@, rest, "branches"@);
    lemma_starts(lower, "checkout "@, rest, "fetch"@);
    lemma_starts(lower, "checkout "@, rest, "push"@);
    lemma_starts(lower, "checkout "@, rest, "open pr"@);
    lemma_starts(lower, "checkout "@, rest, "open pull request"@);
    lemma_starts(lower, "checkout "@, rest, "pull"@);
    lemma_starts(lower, "checkout "@, rest, "pull --rebase"@);
    lemma_starts(lower, "checkout "@, rest, "pull rebase"@);
}

/// `merge BRANCH` asks for that branch to be merged, whatever branch it is.
pub proof fn merge_names_its_branch(command: Seq<char>, branch: Seq<char>)
    requires
        is_spelled(command, "merge"@),
        prompt_parser::is_branch_argument(branch),
    ensures
        asks_for(command + seq![' '] + branch, OperationRequestView::Merge { branch }),
{
    lemma_fixed_prompts();
    assert(!text::is_white(branch[0]) && !text::is_white(branch[branch.len() - 1]));
    lemma_command(command, "merge"@, branch);
    let lower = text::lowered(command + seq![' '] + branch);
    let rest = text::lowered(branch);
    lemma_starts(lower, "merge "@, rest, "git"@);
    lemma_starts(lower, "merge "@, rest, "git "@);
    lemma_starts(lower, "merge "@, rest, "branches"@);
    lemma_starts(lower, "merge "@, rest, "fetch"@);
    lemma_starts(lower, "merge "@, rest, "push"@);
    lemma_starts(lower, "merge "@, rest, "open pr"@);
    lemma_starts(lower, "merge "@, rest, "open pull request"@);
    lemma_starts(lower, "merge "@, rest, "pull"@);
    lemma_starts(lower, "merge "@, rest, "pull --rebase"@);
    lemma_starts(lower, "merge "@, rest, "pull rebase"@);
    lemma_starts(lower, "merge "@, rest, "checkout "@);
}

/// `rebase BRANCH` asks for a rebase onto that branch, whatever branch it is.
pub proof fn rebase_names_its_base(command: Seq<char>, base: Seq<char>)
    requires
        is_spelled(command, "rebase"@),
        prompt_parser::is_branch_argument(base),
    ensures
        asks_for(command + seq![' '] + base, OperationRequestView::Rebase { base }),
{
    lemma_fixed_prompts();
    assert(!text::is_white(base[0]) && !text::is_white(base[base.len() - 1]));
    lemma_command(command, "rebase"@, base);
    let lower = text::lowered(command + seq![' '] + base);
    let rest = text::lowered(base);
    lemma_starts(lower, "rebase "@, rest, "git"@);
    lemma_starts(lower, "rebase "@, rest, "git "@);
    lemma_starts(lower, "rebase "@, rest, "branches"@);
    lemma_starts(lower, "rebase "@, rest, "fetch"@);
    lemma_starts(lower, "rebase "@, rest, "push"@);
    lemma_starts(lower, "rebase "@, rest, "open pr"@);
    lemma_starts(lower, "rebase "@, rest, "open pull request"@);
    lemma_starts(lower, "rebase "@, rest, "pull"@);
    lemma_starts(lower, "rebase "@, rest, "pull --rebase"@);
    lemma_starts(lower, "rebase "@, rest, "pull rebase"@);
    lemma_starts(lower, "rebase "@, rest, "checkout "@);
    lemma_starts(lower, "rebase "@, rest, "merge "@);
}

/// What `branch ..` asks for is read from its words.
proof fn lemma_branch_prompt(command: Seq<char>, argument: Seq<char>)
    requires
        is_spelled(command, "branch"@),
        argument.len() > 0,
        !text::is_white(argument[0]),
        !text::is_white(argument.last()),
    ensures
        prompt_parser::single_request(command + seq![' '] + argument)
            == prompt_parser::branch_request(text::words(argument)),
{
    lemma_fixed_prompts();
    lemma_command(command, "branch"@, argument);
    let input = command + seq![' '] + argument;
    let lower = text::lowered(input);
    let rest = text::lowered(argument);
    lemma_starts(lower, "branch "@, rest, "git"@);
    lemma_starts(lower, "branch "@, rest, "git "@);
    lemma_starts(lower, "branch "@, rest, "fetch"@);
    lemma_starts(lower, "branch "@, rest, "push"@);
    lemma_starts(lower, "branch "@, rest, "open pr"@);
    lemma_starts(lower, "branch "@, rest, "open pull request"@);
    lemma_starts(lower, "branch "@, rest, "pull"@);
    lemma_starts(lower, "branch "@, rest, "pull --rebase"@);
    lemma_starts(lower, "branch "@, rest, "pull rebase"@);
    lemma_starts(lower, "branch "@, rest, "checkout "@);
    lemma_starts(lower, "branch "@, rest, "merge "@);
    lemma_starts(lower, "branch "@, rest, "rebase "@);
    lemma_starts(lower, "branch "@, rest, "open pr to "@);
    lemma_starts(lower, "branch "@, rest, "open pull request to "@);
    assert(lower[6] == ' ');
    let space = seq![' '];
    assert(text::all_white(space));
    parts::white_space_is_no_word(space, argument);
}

/// `branch NAME` asks for a new branch of that name without a base, unless the name is `list`.
pub proof fn branch_names_the_new_branch(command: Seq<char>, branch: Seq<char>)
    requires
        is_spelled(command, "branch"@),
        prompt_parser::is_branch_argument(branch),
    ensures
        !is_spelled(branch, "list"@) ==> asks_for(
            command + seq![' '] + branch,
            OperationRequestView::CreateBranch { branch, base: None },
        ),
        is_spelled(branch, "list"@) ==> prompt_parser::single_request(
            command + seq![' '] + branch,
        ) is Err,
{
    assert(!text::is_white(branch[0]) && !text::is_white(branch[branch.len() - 1]));
    lemma_branch_prompt(command, branch);
    parts::lemma_one_word(branch, Seq::empty());
    assert(branch + Seq::<char>::empty() =~= branch);
    assert(text::words(Seq::<char>::empty()) =~= Seq::<Seq<char>>::empty());
    assert(text::words(branch) =~= seq![branch]);
    lemma_plain_words();
}

/// Words in lower case stay as they are.
proof fn lemma_plain_words()
    ensures
        text::lowered("list"@) == "list"@,
        text::lowered("from"@) == "from"@,
        text::lowered("to"@) == "to"@,
        "to"@.len() == 2,
        "to"@ == seq!['t', 'o'],
        "from"@.len() == 4,
{
    reveal_strlit("list");
    reveal_strlit("from");
    reveal_strlit("to");
    assert(text::lowered("list"@) =~= "list"@);
    assert(text::lowered("from"@) =~= "from"@);
    assert(text::lowered("to"@) =~= "to"@);
    assert("to"@ =~= seq!['t', 'o']);
}

/// `branch NAME from BASE` asks for a new branch of that name on that base.
pub proof fn branch_names_its_base(
    command: Seq<char>,
    branch: Seq<char>,
    from: Seq<char>,
    base: Seq<char>,
)
    requires
        is_spelled(command, "branch"@),
        is_spelled(from, "from"@),
        prompt_parser::is_branch_argument(branch),
        prompt_parser::is_branch_argument(base),
    ensures
        asks_for(
            command + seq![' '] + (branch + (seq![' '] + (from + (seq![' '] + base)))),
            OperationRequestView::CreateBranch { branch, base: Some(base) },
        ),
{
    lemma_plain_words();
    let argument = branch + (seq![' '] + (from + (seq![' '] + base)));
    assert(!text::is_white(branch[0]) && !text::is_white(base[base.len() - 1]));
    assert(argument[0] == branch[0]);
    assert(argument.last() == base.last());
    lemma_branch_prompt(command, argument);
    let space = seq![' '];
    assert(text::all_white(space));
    assert(from.len() == 4);
    reveal_strlit("from");
    assert forall|i: int| 0 <= i < from.len() implies !text::is_white(#[trigger] from[i]) by {
        assert(text::lowered(from)[i] == text::lower(from[i]));
        assert("from"@[i] == 'f' || "from"@[i] == 'r' || "from"@[i] == 'o' || "from"@[i] == 'm');
        lemma_lower(from[i]);
    }
    let tail = from + (space + base);
    parts::lemma_one_word(base, Seq::empty());
    assert(base + Seq::<char>::empty() =~= base);
    assert(text::words(Seq::<char>::empty()) =~= Seq::<Seq<char>>::empty());
    parts::white_space_is_no_word(space, base);
    parts::lemma_one_word(from, space + base);
    parts::white_space_is_no_word(space, tail);
    parts::lemma_one_word(branch, space + tail);
    assert(text::words(argument) =~= seq![branch, from, base]);
}

/// `open pr to BASE` asks for a pull request into that base; so does `open pull request to BASE`.
pub proof fn pull_request_names_its_base(command: Seq<char>, base: Seq<char>)
    requires
        is_spelled(command, "open pr to"@) || is_spelled(command, "open pull request to"@),
        prompt_parser::is_branch_argument(base),
    ensures
        asks_for(
            command + seq![' '] + base,
            OperationRequestView::OpenPullRequest { base: Some(base) },
        ),
{
    lemma_fixed_prompts();
    lemma_plain_words();
    assert(!text::is_white(base[0]) && !text::is_white(base[base.len() - 1]));
    let word = text::lowered(command);
    let lead = if word == "open pr to"@ {
        "open pr"@
    } else {
        "open pull request"@
    };
    lemma_command(command, word, base);
    let input = command + seq![' '] + base;
    let lower = text::lowered(input);
    let rest = text::lowered(base);
    let whole = word + seq![' '];
    lemma_starts(lower, whole, rest, "git"@);
    lemma_starts(lower, whole, rest, "git "@);
    lemma_starts(lower, whole, rest, "branches"@);
    lemma_starts(lower, whole, rest, "fetch"@);
    lemma_starts(lower, whole, rest, "push"@);
    lemma_starts(lower, whole, rest, "pull"@);
    lemma_starts(lower, whole, rest, "pull --rebase"@);
    lemma_starts(lower, whole, rest, "pull rebase"@);
    lemma_starts(lower, whole, rest, "checkout "@);
    lemma_starts(lower, whole, rest, "merge "@);
    lemma_starts(lower, whole, rest, "rebase "@);
    assert(lower[6] == word[6]);
    assert(lower != "open pr"@);
    assert(lower != "open pull request"@);
    if word == "open pull request to"@ {
        if text::has_prefix(lower, "open pr to "@) {
            assert(lower.take("open pr to "@.len() as int)[6] == lower[6]);
            assert("open pr to "@[6] == 'r');
        }
    }
    let at = lead.len() as int;
    let tail = input.skip(at);
    let to = command.skip(at + 1);
    assert(tail =~= command.skip(at) + seq![' '] + base);
    assert(command[at] == ' ') by {
        assert(text::lower(command[at]) == word[at]);
        assert(word[at] == ' ');
    }
    assert(command.skip(at) =~= seq![' '] + to);
    assert(to.len() == 2);
    assert(text::lowered(to) =~= "to"@) by {
        assert(text::lower(command[at + 1]) == word[at + 1]);
        assert(text::lower(command[at + 2]) == word[at + 2]);
        assert(word[at + 1] == 't' && word[at + 2] == 'o');
    }
    let more = to + (seq![' '] + base);
    let space = seq![' '];
    assert(text::all_white(space));
    assert(tail =~= space + more);
    text::lemma_white_in_front(space, more);
    lemma_lower(to[0]);
    assert(text::lowered(to)[0] == 't');
    assert(more[0] == to[0]);
    assert(text::trimmed_start(more) == more);
    assert(more.take(2) =~= to);
    assert(more[2] == ' ');
    assert(more.skip(2) =~= space + base);
    text::lemma_white_in_front(space, base);
    text::lemma_nothing_to_trim(base);
}

/// What `commit ..` asks for is read from what stands behind it.
proof fn lemma_commit_prompt(command: Seq<char>, argument: Seq<char>)
    requires
        is_spelled(command, "commit"@),
        argument.len() > 0,
        !text::is_white(argument[0]),
        !text::is_white(argument.last()),
    ensures
        prompt_parser::single_request(command + seq![' '] + argument)
            == prompt_parser::commit_request(seq![' '] + argument),
        text::trimmed_start(seq![' '] + argument) == argument,
{
    lemma_fixed_prompts();
    lemma_command(command, "commit"@, argument);
    let input = command + seq![' '] + argument;
    let lower = text::lowered(input);
    let rest = text::lowered(argument);
    lemma_starts(lower, "commit "@, rest, "git"@);
    lemma_starts(lower, "commit "@, rest, "git "@);
    lemma_starts(lower, "commit "@, rest, "branches"@);
    lemma_starts(lower, "commit "@, rest, "fetch"@);
    lemma_starts(lower, "commit "@, rest, "push"@);
    lemma_starts(lower, "commit "@, rest, "open pr"@);
    lemma_starts(lower, "commit "@, rest, "open pull request"@);
    lemma_starts(lower, "commit "@, rest, "pull"@);
    lemma_starts(lower, "commit "@, rest, "pull --rebase"@);
    lemma_starts(lower, "commit "@, rest, "pull rebase"@);
    lemma_starts(lower, "commit "@, rest, "merge "@);
    lemma_starts(lower, "commit "@, rest, "rebase "@);
    lemma_starts(lower, "commit "@, rest, "open pr to "@);
    lemma_starts(lower, "commit "@, rest, "open pull request to "@);
    lemma_starts(lower, "commit "@, rest, "branch "@);
    assert(lower[1] == 'o') by {
        assert(("commit"@ + seq![' '] + rest)[1] == 'o');
    }
    if text::has_prefix(lower, "checkout "@) {
        assert(lower.take("checkout "@.len() as int)[1] == lower[1]);
    }
}

/// `commit -m "MESSAGE"` asks for a commit with exactly that message, white space and connecting words included.
pub proof fn quoted_message_is_kept(command: Seq<char>, message: Seq<char>)
    requires
        is_spelled(command, "commit"@),
        !message.contains('"'),
        !text::is_blank(message),
    ensures
        asks_for(
            command + seq![' '] + ("-m \""@ + message + "\""@),
            OperationRequestView::Commit { message },
        ),
        asks_for(
            command + seq![' '] + ("\""@ + message + "\""@),
            OperationRequestView::Commit { message },
        ),
{
    reveal_strlit("-m \"");
    reveal_strlit("-m ");
    reveal_strlit("-m");
    reveal_strlit("\"");
    let argument = "-m \""@ + message + "\""@;
    let quoted = "\""@ + message + "\""@;
    lemma_commit_prompt(command, argument);
    lemma_commit_prompt(command, quoted);
    assert(argument.take("-m "@.len() as int) =~= "-m "@);
    assert(argument.skip("-m "@.len() as int) =~= quoted);
    assert(argument.len() > 2);
    assert(quoted[0] == '"');
    assert(text::trimmed_start(quoted) == quoted);
    if text::has_prefix(quoted, "-m "@) {
        assert(quoted.take("-m "@.len() as int)[0] == '-');
    }
    assert(quoted != "-m"@);
    text::lemma_nothing_to_trim(quoted);
    let rest = quoted.skip(1);
    assert(rest =~= message + seq!['"']);
    assert forall|i: int| 0 <= i < message.len() implies rest[i] != '"' by {
        assert(rest[i] == message[i]);
        if message[i] == '"' {
            assert(message.contains('"'));
        }
    }
    text::lemma_position_unique(rest, '"', message.len() as int);
    assert(rest.take(message.len() as int) =~= message);
    assert(rest.skip(message.len() as int + 1) =~= Seq::<char>::empty());
    let around = text::lemma_around_trimmed(message);
    if text::trimmed(message).len() == 0 {
        assert(text::is_blank(message)) by {
            assert forall|i: int| 0 <= i < message.len() implies text::is_white(
                #[trigger] message[i],
            ) by {
                if i < around.0.len() {
                    assert(message[i] == around.0[i]);
                } else {
                    assert(message[i] == around.1[i - around.0.len()]);
                }
            }
        }
    }
    assert(prompt_parser::commit_message(quoted) == Ok::<Seq<char>, Seq<char>>(message));
}

/// The prompts without an argument ask for one thing each, in any case and with any white space around them.
pub proof fn plain_prompts_ask_for_one_thing(input: Seq<char>)
    ensures
        ({
            let word = text::lowered(text::trimmed(input));
            &&& word == "branches"@ ==> asks_for(input, OperationRequestView::Branches)
            &&& word == "fetch"@ ==> asks_for(input, OperationRequestView::Fetch)
            &&& word == "push"@ ==> asks_for(input, OperationRequestView::Push)
            &&& word == "pull"@ ==> asks_for(input, OperationRequestView::Pull { rebase: false })
            &&& word == "pull --rebase"@ || word == "pull rebase"@ ==> asks_for(
                input,
                OperationRequestView::Pull { rebase: true },
            )
            &&& word == "open pr"@ || word == "open pull request"@ ==> asks_for(
                input,
                OperationRequestView::OpenPullRequest { base: None },
            )
            &&& word == "git"@ || text::has_prefix(word, "git "@)
                ==> prompt_parser::single_request(input) is Err
        }),
{
    lemma_fixed_prompts();
    let word = text::lowered(text::trimmed(input));
    if text::has_prefix(word, "git "@) {
        assert(word.take("git "@.len() as int)[0] == word[0]);
    }
}

/// Whether nothing in a text is a quote, a shell character, or a connector.
pub open spec fn stands_alone(input: Seq<char>) -> bool {
    forall|i: int|
        #![trigger input[i]]
        0 <= i < input.len() ==> input[i] != '"' && !prompt_parser::is_shell_character(input[i])
            && prompt_parser::connector_at(input, i) == 0
}

/// A prompt that stands alone is one request, and it is the one that it asks for.
pub proof fn prompt_alone_is_one_request(input: Seq<char>, request: OperationRequestView)
    requires
        asks_for(text::trimmed(input), request),
        text::trimmed(input).len() > 0,
        stands_alone(text::trimmed(input)),
    ensures
        prompt_parser::prompt(input) == Ok::<ParsedPromptView, Seq<char>>(
            ParsedPromptView::Single(request),
        ),
{
    let trimmed = text::trimmed(input);
    let around = text::lemma_around_trimmed(input);
    text::lemma_nothing_to_trim(trimmed);
    lemma_alone(trimmed, 0);
    assert(trimmed.subrange(0, trimmed.len() as int) =~= trimmed);
    let segments = seq![trimmed];
    assert(segments.drop_last() =~= Seq::<Seq<char>>::empty());
    assert(prompt_parser::requests_of(Seq::<Seq<char>>::empty()) == Ok::<
        Seq<OperationRequestView>,
        Seq<char>,
    >(Seq::empty()));
    assert(prompt_parser::requests_of(segments) is Ok);
}

/// A text that stands alone is not divided.
proof fn lemma_alone(input: Seq<char>, at: int)
    requires
        stands_alone(input),
        0 <= at <= input.len(),
        text::trimmed(input) == input,
        input.len() > 0,
    ensures
        prompt_parser::segments_from(input, at, 0, false) == Ok::<Seq<Seq<char>>, Seq<char>>(
            seq![input],
        ),
    decreases input.len() - at,
{
    assert(input.subrange(0, input.len() as int) =~= input);
    if at < input.len() {
        assert(input[at] != '"');
        lemma_alone(input, at + 1);
    }
}

}
