//! What is asked of GitHub, word by word, and what is made of the answers.
use crate::git::launch;
use crate::git::types::{ExitStatusView, IoFailureView};
use crate::github;
use crate::github::{
    CreatePullRequestView, CreatedPullRequestView, GhErrorView, GhSetupStatus, GhStep,
    PullRequestView, RepositoryView,
};
use crate::session::{ActionView, HaltView, ReplyView};
use crate::text;
use vstd::prelude::*;
use vstd::utf8;

verus! {

/// Whether a part of an operation waits for a command of the GitHub tool.
pub open spec fn waits_for_gh<T>(step: GhStep<T>, words: Seq<Seq<char>>) -> bool {
    step.result == Err::<T, HaltView<GhErrorView>>(
        HaltView::Pending(ActionView::RunGh { args: words }),
    )
}

/// Whether a part of an operation failed.
pub open spec fn fails_with<T>(step: GhStep<T>, error: GhErrorView) -> bool {
    step.result == Err::<T, HaltView<GhErrorView>>(HaltView::Failed(error))
}

/// Whether an answer says that a command ended.
pub open spec fn ended(replies: Seq<ReplyView>, at: nat) -> bool {
    at < replies.len() && replies[at as int] is Output
}

/// The status that a command ended with.
pub open spec fn status_at(replies: Seq<ReplyView>, at: nat) -> ExitStatusView {
    replies[at as int]->Output_status
}

/// Whether an answer says that a command succeeded.
pub open spec fn went_well(replies: Seq<ReplyView>, at: nat) -> bool {
    ended(replies, at) && status_at(replies, at).code == Some(0i32)
}

/// Whether an answer says that a command succeeded and wrote some text.
pub open spec fn wrote_text(replies: Seq<ReplyView>, at: nat, output: Seq<char>) -> bool {
    went_well(replies, at) && replies[at as int]->Output_stdout == utf8::encode_utf8(output)
}

/// The words that ask who is logged in.
pub open spec fn asks_for_login() -> Seq<Seq<char>> {
    seq!["auth"@, "status"@, "--active"@, "--hostname"@, "github.com"@]
}

/// The tool is ready where `gh --version` and then `gh auth status` for `github.com` succeed. It is missing where it
/// cannot be found, and nobody is logged in where the second command fails.
pub proof fn tool_is_ready_where_it_runs_and_knows_the_user(
    replies: Seq<ReplyView>,
    at: nat,
    source: IoFailureView,
)
    ensures
        ({
            let step = github::setup_step(replies, at);
            let ready = github::ready_step(replies, at);
            &&& at >= replies.len() ==> waits_for_gh(step, seq!["--version"@])
            &&& went_well(replies, at) && at + 1 >= replies.len() ==> waits_for_gh(
                step,
                asks_for_login(),
            )
            &&& step.result == Ok::<GhSetupStatus, HaltView<GhErrorView>>(GhSetupStatus::Ready)
                <==> went_well(replies, at) && went_well(replies, at + 1)
            &&& went_well(replies, at) && ended(replies, at + 1) && !went_well(replies, at + 1)
                ==> step.result == Ok::<GhSetupStatus, HaltView<GhErrorView>>(
                GhSetupStatus::NotAuthenticated,
            ) && fails_with(ready, GhErrorView::NotAuthenticated)
            &&& at < replies.len() && replies[at as int] == ReplyView::Failed(source)
                && source.not_found ==> step.result == Ok::<GhSetupStatus, HaltView<GhErrorView>>(
                GhSetupStatus::MissingCli,
            ) && fails_with(ready, GhErrorView::MissingCli)
            &&& ready.result is Ok <==> went_well(replies, at) && went_well(replies, at + 1)
            &&& ready.result is Ok ==> ready.next == at + 2
        }),
{
    assert(github::login_words() =~= asks_for_login());
}

/// A pull request is created by `gh pr create` with its own title, body, base and head, and only where the tool is ready
/// and neither the title nor the base nor the head is blank.
pub proof fn pull_request_is_created_as_described(
    replies: Seq<ReplyView>,
    at: nat,
    request: CreatePullRequestView,
    url: Seq<char>,
)
    requires
        github::ready_step(replies, at).result is Ok,
    ensures
        ({
            let step = github::create_step(replies, at, request);
            let n = at + 2;
            let complete = !text::is_blank(request.title) && !text::is_blank(request.base)
                && !text::is_blank(request.head);
            &&& text::is_blank(request.title) ==> fails_with(
                step,
                GhErrorView::InvalidInput { name: "title"@ },
            )
            &&& !text::is_blank(request.title) && text::is_blank(request.base) ==> fails_with(
                step,
                GhErrorView::InvalidInput { name: "base branch"@ },
            )
            &&& !text::is_blank(request.title) && !text::is_blank(request.base) && text::is_blank(
                request.head,
            ) ==> fails_with(step, GhErrorView::InvalidInput { name: "head branch"@ })
            &&& complete && n >= replies.len() ==> waits_for_gh(
                step,
                seq![
                    "pr"@,
                    "create"@,
                    "--title"@,
                    request.title,
                    "--body"@,
                    request.body,
                    "--base"@,
                    request.base,
                    "--head"@,
                    request.head,
                ],
            )
            &&& complete && ended(replies, n) && !went_well(replies, n) ==> fails_with(
                step,
                GhErrorView::CommandFailed { status: status_at(replies, n) },
            )
            &&& complete && is_one_line(url) && wrote_text(replies, n, url.push('\n'))
                ==> step.result == Ok::<CreatedPullRequestView, HaltView<GhErrorView>>(
                CreatedPullRequestView { url },
            )
        }),
{
    tool_is_ready_where_it_runs_and_knows_the_user(
        replies,
        at,
        IoFailureView { not_found: false, code: None, message: Seq::empty() },
    );
    lemma_blank(request.title);
    lemma_blank(request.base);
    lemma_blank(request.head);
    let n = at + 2;
    if is_one_line(url) && wrote_text(replies, n, url.push('\n')) {
        let output = url.push('\n');
        utf8::encode_utf8_valid_utf8(output);
        utf8::encode_utf8_decode_utf8(output);
        assert forall|i: int| 0 <= i < url.len() implies output[i] != '\n' by {
            assert(output[i] == url[i]);
            assert(text::is_white('\n'));
        }
        text::lemma_position_unique(output, '\n', url.len() as int);
        assert(output.take(url.len() as int) =~= url);
        assert(output.skip(url.len() as int + 1) =~= Seq::<char>::empty());
        assert(!text::is_white(url[url.len() - 1]));
        assert(text::is_white('\r'));
        assert(!text::is_white(url[0]));
        text::lemma_nothing_to_trim(url);
        assert(text::text_lines(output)[0] == url);
    }
}

/// Whether a text is one word.
pub open spec fn is_one_line(value: Seq<char>) -> bool {
    value.len() > 0 && forall|i: int|
        0 <= i < value.len() ==> !text::is_white(#[trigger] value[i])
}

/// A text is blank if and only if nothing is left of it when it is trimmed.
proof fn lemma_blank(value: Seq<char>)
    ensures
        text::is_blank(value) <==> text::trimmed(value).len() == 0,
{
    let around = text::lemma_around_trimmed(value);
    let core = text::trimmed(value);
    if text::is_blank(value) && core.len() > 0 {
        assert(value[around.0.len() as int] == core[0]);
    }
    if core.len() == 0 {
        assert forall|i: int| 0 <= i < value.len() implies text::is_white(#[trigger] value[i]) by {
            if i < around.0.len() {
                assert(value[i] == around.0[i]);
            } else {
                assert(value[i] == around.1[i - around.0.len()]);
            }
        }
    }
}

/// The open pull requests of a branch are asked of `gh pr list`, all of them; what it writes is handed to be decoded, and
/// what was decoded is the result.
pub proof fn open_pull_requests_are_those_of_the_branch(
    replies: Seq<ReplyView>,
    at: nat,
    head: Seq<char>,
    output: Seq<char>,
    requests: Seq<PullRequestView>,
)
    requires
        github::ready_step(replies, at).result is Ok,
    ensures
        ({
            let step = github::existing_step(replies, at, head);
            let n = at + 2;
            &&& n >= replies.len() ==> waits_for_gh(
                step,
                seq![
                    "pr"@,
                    "list"@,
                    "--head"@,
                    head,
                    "--state"@,
                    "open"@,
                    "--limit"@,
                    "0"@,
                    "--json"@,
                    "number,url,title,baseRefName,headRefName,headRepository"@,
                ],
            )
            &&& wrote_text(replies, n, output) && n + 1 >= replies.len() ==> step.result == Err::<
                Seq<PullRequestView>,
                HaltView<GhErrorView>,
            >(HaltView::Pending(ActionView::DecodePullRequests { json: output }))
            &&& wrote_text(replies, n, output) && n + 1 < replies.len() && replies[n as int + 1]
                == ReplyView::PullRequests(requests) ==> step.result == Ok::<
                Seq<PullRequestView>,
                HaltView<GhErrorView>,
            >(requests)
        }),
{
    tool_is_ready_where_it_runs_and_knows_the_user(
        replies,
        at,
        IoFailureView { not_found: false, code: None, message: Seq::empty() },
    );
    utf8::encode_utf8_valid_utf8(output);
    utf8::encode_utf8_decode_utf8(output);
}

/// The repository is asked of `gh repo view`; it has the name and the default branch that were decoded, and a default
/// branch it has to have.
pub proof fn repository_is_what_the_tool_says(
    replies: Seq<ReplyView>,
    at: nat,
    output: Seq<char>,
    name: Seq<char>,
    branch: Option<Seq<char>>,
)
    requires
        github::ready_step(replies, at).result is Ok,
    ensures
        ({
            let step = github::repository_step(replies, at);
            let n = at + 2;
            &&& n >= replies.len() ==> waits_for_gh(
                step,
                seq!["repo"@, "view"@, "--json"@, "nameWithOwner,defaultBranchRef"@],
            )
            &&& wrote_text(replies, n, output) && n + 1 >= replies.len() ==> step.result == Err::<
                RepositoryView,
                HaltView<GhErrorView>,
            >(HaltView::Pending(ActionView::DecodeRepository { json: output }))
            &&& wrote_text(replies, n, output) && n + 1 < replies.len() && replies[n as int + 1] == (
            ReplyView::Repository { name_with_owner: name, default_branch: branch }) ==> {
                &&& branch is Some && branch->Some_0.len() > 0 ==> step.result == Ok::<
                    RepositoryView,
                    HaltView<GhErrorView>,
                >(RepositoryView { name_with_owner: name, default_branch: branch->Some_0 })
                &&& branch is None || branch->Some_0.len() == 0 ==> step.result is Err
                    && step.result->Err_0 is Failed
            }
        }),
{
    tool_is_ready_where_it_runs_and_knows_the_user(
        replies,
        at,
        IoFailureView { not_found: false, code: None, message: Seq::empty() },
    );
    utf8::encode_utf8_valid_utf8(output);
    utf8::encode_utf8_decode_utf8(output);
}

/// The tool is started with the words of the command, in their order, and told not to prompt.
pub proof fn tool_is_started_without_prompts(args: Seq<Seq<char>>)
    ensures
        ({
            let started = github::gh_launched(ActionView::RunGh { args });
            &&& started is Some
            &&& started->Some_0.args.len() == args.len()
            &&& forall|i: int|
                0 <= i < args.len() ==> #[trigger] started->Some_0.args[i] == utf8::encode_utf8(
                    args[i],
                )
            &&& started->Some_0.environment == seq![
                ("GH_PROMPT_DISABLED"@, utf8::encode_utf8("1"@)),
            ]
        }),
{
    assert(github::gh_launched(ActionView::RunGh { args })->Some_0.environment =~= seq![
        launch::variable("GH_PROMPT_DISABLED"@, "1"@),
    ]);
}

}
