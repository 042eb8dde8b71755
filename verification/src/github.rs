//! The GitHub command-line tool: readiness, queries and pull requests.
use crate::bytes;
use crate::git::commands;
use crate::git::launch;
use crate::git::launch::{Launch, LaunchView};
use crate::git::types::{ExitStatus, ExitStatusView, IoFailure, IoFailureView};
use crate::session;
use crate::session::{Action, ActionView, Halt, HaltView, Reply, ReplyView, Session, Step};
use crate::text;
use crate::words;
use vstd::prelude::*;
use vstd::utf8;

verus! {

broadcast use crate::bytes::bytes_are_their_view;

/// What is said where the GitHub command-line tool is missing.
pub const INSTALL_GH_GUIDANCE: &'static str = "GitHub CLI (gh) is not installed. Install it from https://cli.github.com/.";

/// What is said where nobody is logged in.
pub const AUTHENTICATE_GH_GUIDANCE: &'static str = "GitHub CLI is not authenticated. Run `gh auth login` and try again.";

/// The result of an operation on GitHub, or why there is none yet.
pub type GhResult<T> = Result<T, Halt<GhError>>;

/// A part of an operation on GitHub.
pub type GhStep<T> = Step<T, GhErrorView>;

/// A repository that a pull request comes from.
#[derive(Debug, Clone, PartialEq, Eq)]
pub struct PullRequestRepository {
    pub name_with_owner: String,
}

/// The values of a [`PullRequestRepository`].
#[verifier::ext_equal]
pub struct PullRequestRepositoryView {
    pub name_with_owner: Seq<char>,
}

impl DeepView for PullRequestRepository {
    type V = PullRequestRepositoryView;

    open spec fn deep_view(&self) -> PullRequestRepositoryView {
        PullRequestRepositoryView { name_with_owner: self.name_with_owner.deep_view() }
    }
}

/// A pull request.
#[derive(Debug, Clone, PartialEq, Eq)]
pub struct PullRequest {
    pub number: u64,
    pub url: String,
    pub title: String,
    pub base_ref_name: String,
    pub head_ref_name: String,
    pub head_repository: Option<PullRequestRepository>,
}

/// The values of a [`PullRequest`].
#[verifier::ext_equal]
pub struct PullRequestView {
    pub number: u64,
    pub url: Seq<char>,
    pub title: Seq<char>,
    pub base_ref_name: Seq<char>,
    pub head_ref_name: Seq<char>,
    pub head_repository: Option<PullRequestRepositoryView>,
}

impl DeepView for PullRequest {
    type V = PullRequestView;

    open spec fn deep_view(&self) -> PullRequestView {
        PullRequestView {
            number: self.number,
            url: self.url.deep_view(),
            title: self.title.deep_view(),
            base_ref_name: self.base_ref_name.deep_view(),
            head_ref_name: self.head_ref_name.deep_view(),
            head_repository: self.head_repository.deep_view(),
        }
    }
}

impl PullRequest {
    /// A copy of a pull request.
    pub fn copied(&self) -> (result: PullRequest)
        ensures
            result.deep_view() == self.deep_view(),
    {
        PullRequest {
            number: self.number,
            url: self.url.as_str().to_owned(),
            title: self.title.as_str().to_owned(),
            base_ref_name: self.base_ref_name.as_str().to_owned(),
            head_ref_name: self.head_ref_name.as_str().to_owned(),
            head_repository: match &self.head_repository {
                Some(repository) => Some(
                    PullRequestRepository {
                        name_with_owner: repository.name_with_owner.as_str().to_owned(),
                    },
                ),
                None => None,
            },
        }
    }
}

/// A repository on GitHub.
#[derive(Debug, Clone, PartialEq, Eq)]
pub struct Repository {
    pub name_with_owner: String,
    pub default_branch: String,
}

/// The values of a [`Repository`].
#[verifier::ext_equal]
pub struct RepositoryView {
    pub name_with_owner: Seq<char>,
    pub default_branch: Seq<char>,
}

impl DeepView for Repository {
    type V = RepositoryView;

    open spec fn deep_view(&self) -> RepositoryView {
        RepositoryView {
            name_with_owner: self.name_with_owner@,
            default_branch: self.default_branch@,
        }
    }
}

/// A pull request that is to be opened.
#[derive(Debug, Clone, PartialEq, Eq)]
pub struct CreatePullRequest {
    pub title: String,
    pub body: String,
    pub base: String,
    pub head: String,
}

/// The values of a [`CreatePullRequest`].
#[verifier::ext_equal]
pub struct CreatePullRequestView {
    pub title: Seq<char>,
    pub body: Seq<char>,
    pub base: Seq<char>,
    pub head: Seq<char>,
}

impl DeepView for CreatePullRequest {
    type V = CreatePullRequestView;

    open spec fn deep_view(&self) -> CreatePullRequestView {
        CreatePullRequestView {
            title: self.title@,
            body: self.body@,
            base: self.base@,
            head: self.head@,
        }
    }
}

/// A pull request that was opened.
#[derive(Debug, Clone, PartialEq, Eq)]
pub struct CreatedPullRequest {
    pub url: String,
}

/// The values of a [`CreatedPullRequest`].
#[verifier::ext_equal]
pub struct CreatedPullRequestView {
    pub url: Seq<char>,
}

impl DeepView for CreatedPullRequest {
    type V = CreatedPullRequestView;

    open spec fn deep_view(&self) -> CreatedPullRequestView {
        CreatedPullRequestView { url: self.url@ }
    }
}

/// Why an operation on GitHub failed.
#[derive(Debug)]
pub enum GhError {
    MissingCli,
    NotAuthenticated,
    /// The tool could not be run.
    Io { source: IoFailure },
    /// The tool ended without success.
    CommandFailed { status: ExitStatus },
    /// Something that is needed is blank.
    InvalidInput { name: &'static str },
    /// What the tool wrote has an unknown form.
    InvalidOutput { operation: &'static str },
}

/// The values of a [`GhError`].
#[verifier::ext_equal]
pub enum GhErrorView {
    MissingCli,
    NotAuthenticated,
    Io { source: IoFailureView },
    CommandFailed { status: ExitStatusView },
    InvalidInput { name: Seq<char> },
    InvalidOutput { operation: Seq<char> },
}

impl DeepView for GhError {
    type V = GhErrorView;

    open spec fn deep_view(&self) -> GhErrorView {
        match self {
            GhError::MissingCli => GhErrorView::MissingCli,
            GhError::NotAuthenticated => GhErrorView::NotAuthenticated,
            GhError::Io { source } => GhErrorView::Io { source: source.deep_view() },
            GhError::CommandFailed { status } => GhErrorView::CommandFailed {
                status: status.deep_view(),
            },
            GhError::InvalidInput { name } => GhErrorView::InvalidInput { name: (*name)@ },
            GhError::InvalidOutput { operation } => GhErrorView::InvalidOutput {
                operation: (*operation)@,
            },
        }
    }
}

/// What is said of an operation on GitHub that failed.
pub open spec fn gh_message(error: GhErrorView) -> Seq<char> {
    match error {
        GhErrorView::MissingCli => INSTALL_GH_GUIDANCE@,
        GhErrorView::NotAuthenticated => AUTHENTICATE_GH_GUIDANCE@,
        GhErrorView::Io { source } => "failed to run GitHub CLI: "@ + source.message,
        GhErrorView::CommandFailed { status } => "GitHub CLI failed with status "@
            + status.description,
        GhErrorView::InvalidInput { name } => "pull request "@ + name + " must not be empty"@,
        GhErrorView::InvalidOutput { operation } =>
            "GitHub CLI returned invalid output for "@ + operation,
    }
}

impl GhError {
    /// What is said of this error.
    pub fn message(&self) -> (result: String)
        ensures
            result@ == gh_message(self.deep_view()),
    {
        match self {
            GhError::MissingCli => INSTALL_GH_GUIDANCE.to_owned(),
            GhError::NotAuthenticated => AUTHENTICATE_GH_GUIDANCE.to_owned(),
            GhError::Io { source } => text::concat2(
                "failed to run GitHub CLI: ",
                source.message.as_str(),
            ),
            GhError::CommandFailed { status } => text::concat2(
                "GitHub CLI failed with status ",
                status.description.as_str(),
            ),
            GhError::InvalidInput { name } => text::concat3(
                "pull request ",
                *name,
                " must not be empty",
            ),
            GhError::InvalidOutput { operation } => text::concat2(
                "GitHub CLI returned invalid output for ",
                *operation,
            ),
        }
    }
}

/// Whether the GitHub command-line tool can be used.
#[derive(Debug, Clone, Copy, PartialEq, Eq, Structural)]
pub enum GhSetupStatus {
    Ready,
    MissingCli,
    NotAuthenticated,
}

impl DeepView for GhSetupStatus {
    type V = GhSetupStatus;

    open spec fn deep_view(&self) -> GhSetupStatus {
        *self
    }
}

/// What a user can do so that the tool can be used.
pub open spec fn setup_guidance(status: GhSetupStatus) -> Option<Seq<char>> {
    match status {
        GhSetupStatus::Ready => None,
        GhSetupStatus::MissingCli => Some(INSTALL_GH_GUIDANCE@),
        GhSetupStatus::NotAuthenticated => Some(AUTHENTICATE_GH_GUIDANCE@),
    }
}

impl GhSetupStatus {
    /// What a user can do so that the tool can be used.
    pub fn guidance(self) -> (result: Option<&'static str>)
        ensures
            result.deep_view() == setup_guidance(self),
    {
        match self {
            GhSetupStatus::Ready => None,
            GhSetupStatus::MissingCli => Some(INSTALL_GH_GUIDANCE),
            GhSetupStatus::NotAuthenticated => Some(AUTHENTICATE_GH_GUIDANCE),
        }
    }
}

/// The GitHub command-line tool in a directory.
#[derive(Debug, Clone)]
pub struct GitHub {
    pub cwd: Vec<u8>,
    pub executable: Vec<u8>,
}

/// The error where the tool could not be run.
pub open spec fn not_run(source: IoFailureView) -> GhErrorView {
    if source.not_found {
        GhErrorView::MissingCli
    } else {
        GhErrorView::Io { source }
    }
}

/// Runs the tool; it has to end with success.
pub open spec fn run_step(replies: Seq<ReplyView>, at: nat, args: Seq<Seq<char>>) -> GhStep<Seq<u8>> {
    session::followed(
        session::asked(replies, at, ActionView::RunGh { args }),
        |reply: ReplyView, n: nat|
            match reply {
                ReplyView::Output { status, stdout, stderr: _ } => if commands::succeeded(status) {
                    session::given(stdout, n)
                } else {
                    session::failed(GhErrorView::CommandFailed { status }, n)
                },
                ReplyView::Failed(source) => session::failed(not_run(source), n),
                _ => session::pending(ActionView::RunGh { args }, n),
            },
    )
}

/// Runs the tool; it has to end with success.
fn run_status(session: &mut Session, args: Vec<String>) -> (result: GhResult<Vec<u8>>)
    ensures
        session::stepped(
            old(session),
            final(session),
            result,
            run_step(old(session).replies(), old(session).at(), args.deep_view()),
        ),
{
    match session.ask(Action::RunGh { args: text::clone_texts(&args) })? {
        Reply::Output { status, stdout, stderr: _ } => {
            if status.success() {
                Ok(bytes::copy_bytes(stdout.as_slice()))
            } else {
                Err(Halt::Failed(GhError::CommandFailed { status: status.copied() }))
            }
        },
        Reply::Failed(source) => {
            if source.not_found {
                Err(Halt::Failed(GhError::MissingCli))
            } else {
                Err(Halt::Failed(GhError::Io { source: source.copied() }))
            }
        },
        _ => Err(Halt::Pending(Action::RunGh { args })),
    }
}

/// What the tool writes, as text.
pub open spec fn output_step(replies: Seq<ReplyView>, at: nat, args: Seq<Seq<char>>) -> GhStep<
    Seq<char>,
> {
    session::followed(
        run_step(replies, at, args),
        |stdout: Seq<u8>, n: nat|
            if utf8::valid_utf8(stdout) {
                session::given(utf8::decode_utf8(stdout), n)
            } else {
                session::failed(
                    GhErrorView::InvalidOutput { operation: "GitHub CLI command"@ },
                    n,
                )
            },
    )
}

/// What the tool writes, as text.
fn run_output(session: &mut Session, args: Vec<String>) -> (result: GhResult<String>)
    ensures
        session::stepped(
            old(session),
            final(session),
            result,
            output_step(old(session).replies(), old(session).at(), args.deep_view()),
        ),
{
    let stdout = run_status(session, args)?;
    match bytes::utf8_text(stdout.as_slice()) {
        Ok(output) => Ok(output),
        Err(_) => Err(
            Halt::Failed(GhError::InvalidOutput { operation: "GitHub CLI command" }),
        ),
    }
}

/// The arguments that show who is logged in.
pub open spec fn login_words() -> Seq<Seq<char>> {
    seq!["auth"@, "status"@, "--active"@, "--hostname"@, "github.com"@]
}

/// Whether the tool can be used: it is there, and somebody is logged in.
pub open spec fn setup_step(replies: Seq<ReplyView>, at: nat) -> GhStep<GhSetupStatus> {
    let version = run_step(replies, at, seq!["--version"@]);
    let login = run_step(replies, version.next, login_words());
    match version.result {
        Err(HaltView::Failed(GhErrorView::MissingCli)) => session::given(
            GhSetupStatus::MissingCli,
            version.next,
        ),
        Err(_) => session::halted(version),
        Ok(_) => match login.result {
            Ok(_) => session::given(GhSetupStatus::Ready, login.next),
            Err(HaltView::Failed(GhErrorView::CommandFailed { status: _ })) => session::given(
                GhSetupStatus::NotAuthenticated,
                login.next,
            ),
            Err(_) => session::halted(login),
        },
    }
}

/// Whether the tool can be used.
fn check_setup(session: &mut Session) -> (result: GhResult<GhSetupStatus>)
    ensures
        session::stepped(
            old(session),
            final(session),
            result,
            setup_step(old(session).replies(), old(session).at()),
        ),
{
    match run_status(session, words::words1("--version")) {
        Ok(_) => {},
        Err(Halt::Failed(GhError::MissingCli)) => {
            return Ok(GhSetupStatus::MissingCli);
        },
        Err(halt) => {
            return Err(halt);
        },
    }
    let args = words::words5("auth", "status", "--active", "--hostname", "github.com");
    match run_status(session, args) {
        Ok(_) => Ok(GhSetupStatus::Ready),
        Err(Halt::Failed(GhError::CommandFailed { status: _ })) => Ok(
            GhSetupStatus::NotAuthenticated,
        ),
        Err(halt) => Err(halt),
    }
}

/// Fails where the tool cannot be used.
pub open spec fn ready_step(replies: Seq<ReplyView>, at: nat) -> GhStep<()> {
    session::followed(
        setup_step(replies, at),
        |status: GhSetupStatus, n: nat|
            match status {
                GhSetupStatus::Ready => session::given((), n),
                GhSetupStatus::MissingCli => session::failed(GhErrorView::MissingCli, n),
                GhSetupStatus::NotAuthenticated => session::failed(
                    GhErrorView::NotAuthenticated,
                    n,
                ),
            },
    )
}

/// Fails where the tool cannot be used.
fn ensure_ready(session: &mut Session) -> (result: GhResult<()>)
    ensures
        session::stepped(
            old(session),
            final(session),
            result,
            ready_step(old(session).replies(), old(session).at()),
        ),
{
    match check_setup(session)? {
        GhSetupStatus::Ready => Ok(()),
        GhSetupStatus::MissingCli => Err(Halt::Failed(GhError::MissingCli)),
        GhSetupStatus::NotAuthenticated => Err(Halt::Failed(GhError::NotAuthenticated)),
    }
}

/// The repository that a description gives.
pub open spec fn described_step(replies: Seq<ReplyView>, at: nat, json: Seq<char>) -> GhStep<
    RepositoryView,
> {
    session::followed(
        session::asked(replies, at, ActionView::DecodeRepository { json }),
        |reply: ReplyView, n: nat|
            match reply {
                ReplyView::Repository { name_with_owner, default_branch } => match default_branch {
                    Some(default_branch) => if default_branch.len() > 0 {
                        session::given(RepositoryView { name_with_owner, default_branch }, n)
                    } else {
                        session::failed(
                            GhErrorView::InvalidOutput { operation: "repository query"@ },
                            n,
                        )
                    },
                    None => session::failed(
                        GhErrorView::InvalidOutput { operation: "repository query"@ },
                        n,
                    ),
                },
                _ => session::failed(
                    GhErrorView::InvalidOutput { operation: "repository"@ },
                    n,
                ),
            },
    )
}

/// The repository that a description gives.
fn decode_repository(session: &mut Session, json: String) -> (result: GhResult<Repository>)
    ensures
        session::stepped(
            old(session),
            final(session),
            result,
            described_step(old(session).replies(), old(session).at(), json@),
        ),
{
    proof {
        reveal_strlit("");
        assert(""@ =~= Seq::<char>::empty());
    }
    match session.ask(Action::DecodeRepository { json })? {
        Reply::Repository { name_with_owner, default_branch } => {
            match default_branch {
                Some(branch) => {
                    assert(branch@.len() == 0 ==> branch@ =~= Seq::<char>::empty());
                    if !text::same_text(branch.as_str(), "") {
                        return Ok(
                            Repository {
                                name_with_owner: name_with_owner.as_str().to_owned(),
                                default_branch: branch.as_str().to_owned(),
                            },
                        );
                    }
                },
                None => {},
            }
            Err(Halt::Failed(GhError::InvalidOutput { operation: "repository query" }))
        },
        _ => Err(Halt::Failed(GhError::InvalidOutput { operation: "repository" })),
    }
}

/// The repository that the directory belongs to.
pub open spec fn repository_step(replies: Seq<ReplyView>, at: nat) -> GhStep<RepositoryView> {
    session::followed(
        ready_step(replies, at),
        |_ready: (), n: nat|
            session::followed(
                output_step(
                    replies,
                    n,
                    seq!["repo"@, "view"@, "--json"@, "nameWithOwner,defaultBranchRef"@],
                ),
                |output: Seq<char>, n: nat| described_step(replies, n, output),
            ),
    )
}

/// The pull requests that a list gives.
pub open spec fn listed_step(replies: Seq<ReplyView>, at: nat, json: Seq<char>) -> GhStep<
    Seq<PullRequestView>,
> {
    session::followed(
        session::asked(replies, at, ActionView::DecodePullRequests { json }),
        |reply: ReplyView, n: nat|
            match reply {
                ReplyView::PullRequests(requests) => session::given(requests, n),
                _ => session::failed(
                    GhErrorView::InvalidOutput { operation: "pull request query"@ },
                    n,
                ),
            },
    )
}

/// The pull requests that a list gives.
fn decode_pull_requests(session: &mut Session, json: String) -> (result: GhResult<Vec<PullRequest>>)
    ensures
        session::stepped(
            old(session),
            final(session),
            result,
            listed_step(old(session).replies(), old(session).at(), json@),
        ),
{
    match session.ask(Action::DecodePullRequests { json })? {
        Reply::PullRequests(requests) => {
            let mut copies: Vec<PullRequest> = Vec::new();
            let mut index: usize = 0;
            while index < requests.len()
                invariant
                    index <= requests@.len(),
                    copies@.len() == index,
                    forall|i: int|
                        0 <= i < index ==> (#[trigger] copies@[i]).deep_view()
                            == requests@[i].deep_view(),
                decreases requests@.len() - index,
            {
                let copy = requests[index].copied();
                copies.push(copy);
                index += 1;
            }
            assert(copies.deep_view() =~= requests.deep_view());
            Ok(copies)
        },
        _ => Err(Halt::Failed(GhError::InvalidOutput { operation: "pull request query" })),
    }
}

/// The arguments that list the open pull requests from a branch.
pub open spec fn list_words(head: Seq<char>) -> Seq<Seq<char>> {
    seq![
        "pr"@,
        "list"@,
        "--head"@,
        head,
        "--state"@,
        "open"@,
        "--limit"@,
        "0"@,
        "--json"@,
        "number,url,title,baseRefName,headRefName,headRepository"@,
    ]
}

/// The open pull requests from a branch.
pub open spec fn existing_step(replies: Seq<ReplyView>, at: nat, head: Seq<char>) -> GhStep<
    Seq<PullRequestView>,
> {
    session::followed(
        ready_step(replies, at),
        |_ready: (), n: nat|
            session::followed(
                output_step(replies, n, list_words(head)),
                |output: Seq<char>, n: nat| listed_step(replies, n, output),
            ),
    )
}

/// What a pull request lacks: its title and its two branches may not be blank.
pub open spec fn lacking(request: CreatePullRequestView) -> Option<Seq<char>> {
    if text::trimmed(request.title).len() == 0 {
        Some("title"@)
    } else if text::trimmed(request.base).len() == 0 {
        Some("base branch"@)
    } else if text::trimmed(request.head).len() == 0 {
        Some("head branch"@)
    } else {
        None
    }
}

/// Whether a text is blank.
fn is_blank(value: &str) -> (result: bool)
    ensures
        result == (text::trimmed(value@).len() == 0),
{
    let characters = text::chars_of(value);
    text::trim(characters.as_slice()).len() == 0
}

impl CreatePullRequest {
    /// Refuses a pull request that lacks something.
    pub fn validate(&self) -> (result: Result<(), GhError>)
        ensures
            (match result {
                Ok(_) => None,
                Err(error) => Some(error.deep_view()),
            }) == (match lacking(self.deep_view()) {
                Some(name) => Some(GhErrorView::InvalidInput { name }),
                None => None,
            }),
    {
        if is_blank(self.title.as_str()) {
            return Err(GhError::InvalidInput { name: "title" });
        }
        if is_blank(self.base.as_str()) {
            return Err(GhError::InvalidInput { name: "base branch" });
        }
        if is_blank(self.head.as_str()) {
            return Err(GhError::InvalidInput { name: "head branch" });
        }
        Ok(())
    }
}

/// The first line that is not blank, without white space around it.
pub open spec fn first_filled_line(lines: Seq<Seq<char>>) -> Option<Seq<char>>
    decreases lines.len(),
{
    if lines.len() == 0 {
        None
    } else if text::trimmed(lines[0]).len() > 0 {
        Some(text::trimmed(lines[0]))
    } else {
        first_filled_line(lines.skip(1))
    }
}

/// The first line that is not blank.
fn find_filled_line(output: &str) -> (result: Option<String>)
    ensures
        result.deep_view() == first_filled_line(text::text_lines(output@)),
{
    let characters = text::chars_of(output);
    let lines = text::lines(characters.as_slice());
    let ghost all = text::slices(lines@);
    let mut index: usize = 0;
    assert(all.skip(0) =~= all);
    while index < lines.len()
        invariant
            index <= lines@.len(),
            all == text::slices(lines@),
            all == text::text_lines(output@),
            first_filled_line(all) == first_filled_line(all.skip(index as int)),
        decreases lines@.len() - index,
    {
        let ghost rest = all.skip(index as int);
        assert(rest[0] == lines@[index as int]@);
        assert(rest.skip(1) =~= all.skip(index + 1));
        let line = text::trim(lines[index]);
        if line.len() > 0 {
            return Some(text::string_of(line));
        }
        index += 1;
    }
    None
}

/// The arguments that open a pull request.
pub open spec fn create_words(request: CreatePullRequestView) -> Seq<Seq<char>> {
    seq![
        "pr"@,
        "create"@,
        "--title"@,
        request.title,
        "--body"@,
        request.body,
        "--base"@,
        request.base,
        "--head"@,
        request.head,
    ]
}

/// Opens a pull request.
pub open spec fn create_step(
    replies: Seq<ReplyView>,
    at: nat,
    request: CreatePullRequestView,
) -> GhStep<
    CreatedPullRequestView,
> {
    session::followed(
        ready_step(replies, at),
        |_ready: (), n: nat|
            match lacking(request) {
                Some(name) => session::failed(GhErrorView::InvalidInput { name }, n),
                None => session::followed(
                    output_step(replies, n, create_words(request)),
                    |output: Seq<char>, n: nat|
                        match first_filled_line(text::text_lines(output)) {
                            Some(url) => session::given(CreatedPullRequestView { url }, n),
                            None => session::failed(
                                GhErrorView::InvalidOutput {
                                    operation: "pull request creation"@,
                                },
                                n,
                            ),
                        },
                ),
            },
    )
}

/// A pull request is opened only where the tool can be used and the request lacks nothing; what the user
/// wrote reaches the tool as arguments of its own.
pub proof fn pull_request_is_opened_only_when_ready(
    replies: Seq<ReplyView>,
    at: nat,
    request: CreatePullRequestView,
)
    requires
        create_step(replies, at, request).result == Err::<CreatedPullRequestView, HaltView<GhErrorView>>(
            HaltView::Pending(ActionView::RunGh { args: create_words(request) }),
        ),
    ensures
        setup_step(replies, at).result == Ok::<_, HaltView<GhErrorView>>(GhSetupStatus::Ready),
        lacking(request) is None,
{
    reveal_strlit("pr");
    reveal_strlit("--version");
    reveal_strlit("auth");
    let words = create_words(request);
    assert(words[0] == "pr"@);
    assert(login_words()[0] == "auth"@);
    assert("auth"@[0] != "pr"@[0]);
    assert(seq!["--version"@][0] == "--version"@);
    assert("--version"@[0] != "pr"@[0]);
}

/// How the tool is started.
pub open spec fn gh_launched(action: ActionView) -> Option<LaunchView> {
    match action {
        ActionView::RunGh { args } => Some(
            LaunchView {
                args: launch::encoded(args),
                environment: seq![launch::variable("GH_PROMPT_DISABLED"@, "1"@)],
            },
        ),
        _ => None,
    }
}

impl GitHub {
    /// The tool of the system in a directory.
    pub fn new(cwd: Vec<u8>) -> (result: GitHub)
        ensures
            result.cwd@ == cwd@,
            result.executable@ == utf8::encode_utf8("gh"@),
    {
        GitHub::with_executable(cwd, bytes::bytes_of("gh"))
    }

    /// A given tool in a directory.
    pub fn with_executable(cwd: Vec<u8>, executable: Vec<u8>) -> (result: GitHub)
        ensures
            result.cwd@ == cwd@,
            result.executable@ == executable@,
    {
        GitHub { cwd, executable }
    }

    /// How the tool is started for an action, where the action starts it.
    pub fn launch(&self, action: &Action) -> (result: Option<Launch>)
        ensures
            result.deep_view() == gh_launched(action.deep_view()),
    {
        match action {
            Action::RunGh { args } => {
                let encoded = launch::encode_all(args);
                let mut environment: Vec<(String, Vec<u8>)> = Vec::new();
                launch::push_variable(&mut environment, "GH_PROMPT_DISABLED", "1");
                assert(environment.deep_view() =~= seq![
                    launch::variable("GH_PROMPT_DISABLED"@, "1"@),
                ]);
                Some(Launch { args: encoded, environment })
            },
            _ => None,
        }
    }

    /// Whether the tool can be used.
    pub fn setup_status(&self, replies: &[Reply]) -> (result: GhResult<GhSetupStatus>)
        ensures
            session::outcome(result) == setup_step(replies.deep_view(), 0).result,
    {
        let mut session = Session::new(replies);
        check_setup(&mut session)
    }

    /// The repository that the directory belongs to.
    pub fn repository(&self, replies: &[Reply]) -> (result: GhResult<Repository>)
        ensures
            session::outcome(result) == repository_step(replies.deep_view(), 0).result,
    {
        let mut session = Session::new(replies);
        ensure_ready(&mut session)?;
        let args = words::words4("repo", "view", "--json", "nameWithOwner,defaultBranchRef");
        let output = run_output(&mut session, args)?;
        decode_repository(&mut session, output)
    }

    /// The open pull requests from a branch.
    pub fn existing_pull_requests(&self, head: &str, replies: &[Reply]) -> (result: GhResult<
        Vec<PullRequest>,
    >)
        ensures
            session::outcome(result) == existing_step(replies.deep_view(), 0, head@).result,
    {
        let mut session = Session::new(replies);
        ensure_ready(&mut session)?;
        let args = words::words10(
            "pr",
            "list",
            "--head",
            head,
            "--state",
            "open",
            "--limit",
            "0",
            "--json",
            "number,url,title,baseRefName,headRefName,headRepository",
        );
        let output = run_output(&mut session, args)?;
        decode_pull_requests(&mut session, output)
    }

    /// Opens a pull request.
    pub fn create_pull_request(&self, request: &CreatePullRequest, replies: &[Reply]) -> (result:
        GhResult<CreatedPullRequest>)
        ensures
            session::outcome(result) == create_step(
                replies.deep_view(),
                0,
                request.deep_view(),
            ).result,
    {
        let mut session = Session::new(replies);
        ensure_ready(&mut session)?;
        match request.validate() {
            Ok(_) => {},
            Err(error) => {
                return Err(Halt::Failed(error));
            },
        }
        let args = words::words10(
            "pr",
            "create",
            "--title",
            request.title.as_str(),
            "--body",
            request.body.as_str(),
            "--base",
            request.base.as_str(),
            "--head",
            request.head.as_str(),
        );
        let output = run_output(&mut session, args)?;
        match find_filled_line(output.as_str()) {
            Some(url) => Ok(CreatedPullRequest { url }),
            None => Err(
                Halt::Failed(GhError::InvalidOutput { operation: "pull request creation" }),
            ),
        }
    }
}

}
