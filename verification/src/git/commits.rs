//! Staging, comparing and committing.
use crate::bytes;
use crate::git::commands;
use crate::git::commands::{Git, GitResult, GitStep};
use crate::git::inspect;
use crate::git::refs;
use crate::git::remotes;
use crate::git::status;
use crate::git::types::{
    BranchStateView, ExitStatus, ExitStatusView, GitError, GitErrorView, GitOutput, GitOutputView,
    HeadTarget, HeadTargetView,
};
use crate::session;
use crate::session::{Action, ActionView, Halt, Reply, ReplyView, Session};
use crate::text;
use crate::words;
use vstd::prelude::*;
use vstd::utf8;

verus! {

broadcast use crate::bytes::bytes_are_their_view;

/// The object name of the empty tree.
pub const EMPTY_TREE_OID: &'static str = "4b825dc642cb6eb9a060e54bf8d69288fbee4904";

/// What a command with paths among its arguments wrote.
pub struct OsOutput {
    pub args: Vec<String>,
    pub status: ExitStatus,
    pub stdout: Vec<u8>,
    pub stderr: Vec<u8>,
}

/// The values of an [`OsOutput`].
#[verifier::ext_equal]
pub struct OsOutputView {
    pub args: Seq<Seq<char>>,
    pub status: ExitStatusView,
    pub stdout: Seq<u8>,
    pub stderr: Seq<u8>,
}

impl DeepView for OsOutput {
    type V = OsOutputView;

    open spec fn deep_view(&self) -> OsOutputView {
        OsOutputView {
            args: self.args.deep_view(),
            status: self.status.deep_view(),
            stdout: self.stdout.deep_view(),
            stderr: self.stderr.deep_view(),
        }
    }
}

/// Arguments as they are shown.
pub open spec fn shown(args: Seq<Seq<u8>>) -> Seq<Seq<char>> {
    Seq::new(args.len(), |i: int| bytes::lossy_text(args[i]))
}

/// Arguments as they are shown.
fn show(args: &Vec<Vec<u8>>) -> (result: Vec<String>)
    ensures
        result.deep_view() == shown(args.deep_view()),
{
    let mut result: Vec<String> = Vec::new();
    let mut index: usize = 0;
    while index < args.len()
        invariant
            index <= args@.len(),
            result.deep_view() == shown(args.deep_view()).take(index as int),
        decreases args@.len() - index,
    {
        let ghost before = result.deep_view();
        result.push(bytes::lossy(args[index].as_slice()));
        index += 1;
        assert(result.deep_view() =~= before.push(bytes::lossy_text(args@[index - 1]@)));
        assert(args.deep_view()[index - 1] == args@[index - 1]@);
        assert(shown(args.deep_view()).take(index as int) =~= shown(args.deep_view()).take(
            index - 1,
        ).push(bytes::lossy_text(args@[index - 1]@)));
    }
    assert(shown(args.deep_view()).take(index as int) =~= shown(args.deep_view()));
    result
}

/// Words as bytes, and the mark behind which only paths stand.
pub open spec fn path_words(words: Seq<Seq<char>>) -> Seq<Seq<u8>> {
    Seq::new(words.len(), |i: int| utf8::encode_utf8(words[i])).push(utf8::encode_utf8("--"@))
}

/// Words as bytes, and the mark behind which only paths stand.
fn path_args(list: Vec<String>) -> (result: Vec<Vec<u8>>)
    ensures
        result.deep_view() == path_words(list.deep_view()),
{
    let mut result: Vec<Vec<u8>> = Vec::new();
    let mut index: usize = 0;
    while index < list.len()
        invariant
            index <= list@.len(),
            result.deep_view() == path_words(list.deep_view()).take(index as int),
        decreases list@.len() - index,
    {
        let ghost before = result.deep_view();
        let word = bytes::bytes_of(list[index].as_str());
        result.push(word);
        index += 1;
        assert(result.deep_view() =~= before.push(word@));
        assert(path_words(list.deep_view()).take(index as int) =~= path_words(
            list.deep_view(),
        ).take(index - 1).push(word@));
    }
    let ghost before = result.deep_view();
    let mark = bytes::bytes_of("--");
    result.push(mark);
    assert(result.deep_view() =~= before.push(mark@));
    assert(result.deep_view() =~= path_words(list.deep_view()));
    result
}

/// A list of one path.
fn one_path(path: &[u8]) -> (result: Vec<Vec<u8>>)
    ensures
        result.deep_view() == seq![path@],
{
    let mut result: Vec<Vec<u8>> = Vec::new();
    result.push(bytes::copy_bytes(path));
    assert(result.deep_view() =~= seq![path@]);
    result
}

/// Arguments and paths behind them.
pub(crate) fn with_paths(args: Vec<Vec<u8>>, paths: &Vec<Vec<u8>>) -> (result: Vec<Vec<u8>>)
    ensures
        result.deep_view() == args.deep_view() + paths.deep_view(),
{
    let ghost start = args.deep_view();
    let mut result = args;
    let mut index: usize = 0;
    assert(start + paths.deep_view().take(0) =~= start);
    while index < paths.len()
        invariant
            index <= paths@.len(),
            result.deep_view() == start + paths.deep_view().take(index as int),
        decreases paths@.len() - index,
    {
        let ghost before = result.deep_view();
        result.push(bytes::copy_bytes(paths[index].as_slice()));
        index += 1;
        assert(result.deep_view() =~= before.push(paths@[index - 1]@));
        assert(start + paths.deep_view().take(index as int) =~= (start + paths.deep_view().take(
            index - 1,
        )).push(paths@[index - 1]@));
    }
    assert(paths.deep_view().take(index as int) =~= paths.deep_view());
    result
}

/// Runs Git with paths among its arguments.
pub open spec fn run_os_step(replies: Seq<ReplyView>, at: nat, args: Seq<Seq<u8>>) -> GitStep<
    OsOutputView,
> {
    session::followed(
        session::asked(replies, at, ActionView::RunPaths { args }),
        |reply: ReplyView, n: nat|
            match reply {
                ReplyView::Output { status, stdout, stderr } => if commands::succeeded(status) {
                    session::given(OsOutputView { args: shown(args), status, stdout, stderr }, n)
                } else {
                    session::failed(
                        GitErrorView::GitFailed {
                            args: shown(args),
                            status,
                            stdout: bytes::lossy_text(stdout),
                            stderr: bytes::lossy_text(stderr),
                        },
                        n,
                    )
                },
                ReplyView::Failed(source) => session::failed(
                    GitErrorView::Io { args: shown(args), source },
                    n,
                ),
                _ => session::pending(ActionView::RunPaths { args }, n),
            },
    )
}

/// Runs Git with paths among its arguments.
fn run_os(session: &mut Session, args: Vec<Vec<u8>>) -> (result: GitResult<OsOutput>)
    ensures
        session::stepped(
            old(session),
            final(session),
            result,
            run_os_step(old(session).replies(), old(session).at(), args.deep_view()),
        ),
{
    match session.ask(Action::RunPaths { args: commands::copy_list(&args) })? {
        Reply::Output { status, stdout, stderr } => {
            if status.success() {
                Ok(
                    OsOutput {
                        args: show(&args),
                        status: status.copied(),
                        stdout: bytes::copy_bytes(stdout.as_slice()),
                        stderr: bytes::copy_bytes(stderr.as_slice()),
                    },
                )
            } else {
                Err(
                    Halt::Failed(
                        GitError::GitFailed {
                            args: show(&args),
                            status: status.copied(),
                            stdout: bytes::lossy(stdout.as_slice()),
                            stderr: bytes::lossy(stderr.as_slice()),
                        },
                    ),
                )
            }
        },
        Reply::Failed(source) => Err(
            Halt::Failed(GitError::Io { args: show(&args), source: source.copied() }),
        ),
        _ => Err(Halt::Pending(Action::RunPaths { args })),
    }
}

/// Runs Git for text, with paths behind its other arguments.
pub open spec fn run_paths_step(
    replies: Seq<ReplyView>,
    at: nat,
    args: Seq<Seq<u8>>,
    paths: Seq<Seq<u8>>,
) -> GitStep<GitOutputView> {
    session::followed(
        run_os_step(replies, at, args + paths),
        |output: OsOutputView, n: nat|
            commands::settled(
                commands::text_output(output.args, output.status, output.stdout, output.stderr),
                n,
            ),
    )
}

/// Runs Git for text, with paths behind its other arguments.
fn run_paths(session: &mut Session, args: Vec<Vec<u8>>, paths: &Vec<Vec<u8>>) -> (result: GitResult<
    GitOutput,
>)
    ensures
        session::stepped(
            old(session),
            final(session),
            result,
            run_paths_step(
                old(session).replies(),
                old(session).at(),
                args.deep_view(),
                paths.deep_view(),
            ),
        ),
{
    let output = run_os(session, with_paths(args, paths))?;
    commands::settle(
        commands::decode_output(output.args, &output.status, &output.stdout, &output.stderr),
    )
}

/// Whether the value of a setting means that it is on.
pub open spec fn is_on(value: Option<Seq<char>>) -> bool {
    value is Some && (value->Some_0 == "true"@ || value->Some_0 == "yes"@ || value->Some_0 == "on"@
        || value->Some_0 == "1"@)
}

/// The hooks that a commit would run.
pub open spec fn commit_hooks() -> Seq<Seq<char>> {
    seq!["pre-commit"@, "prepare-commit-msg"@, "commit-msg"@, "post-commit"@]
}

/// The hooks of a list that Git would run.
pub open spec fn enabled_hooks_step(
    replies: Seq<ReplyView>,
    at: nat,
    cwd: Seq<u8>,
    hooks: Seq<Seq<char>>,
) -> GitStep<Seq<Seq<char>>>
    decreases hooks.len(),
{
    if hooks.len() == 0 {
        session::given(Seq::empty(), at)
    } else {
        session::followed(
            enabled_hooks_step(replies, at, cwd, hooks.drop_last()),
            |before: Seq<Seq<char>>, n: nat|
                session::followed(
                    hook_path_step(replies, n, cwd, hooks.last()),
                    |path: Seq<u8>, n: nat|
                        session::followed(
                            commands::hook_enabled_step(replies, n, path),
                            |enabled: bool, n: nat|
                                session::given(
                                    if enabled {
                                        before.push(hooks.last())
                                    } else {
                                        before
                                    },
                                    n,
                                ),
                        ),
                ),
        )
    }
}

/// A list whose start halts an operation halts it in the same way.
proof fn lemma_enabled_hooks_halt(
    replies: Seq<ReplyView>,
    at: nat,
    cwd: Seq<u8>,
    hooks: Seq<Seq<char>>,
    count: int,
)
    requires
        0 <= count <= hooks.len(),
        enabled_hooks_step(replies, at, cwd, hooks.take(count)).result is Err,
    ensures
        enabled_hooks_step(replies, at, cwd, hooks) == enabled_hooks_step(
            replies,
            at,
            cwd,
            hooks.take(count),
        ),
    decreases hooks.len() - count,
{
    if count < hooks.len() {
        assert(hooks.take(count + 1).drop_last() =~= hooks.take(count));
        lemma_enabled_hooks_halt(replies, at, cwd, hooks, count + 1);
    } else {
        assert(hooks.take(count) =~= hooks);
    }
}

/// The arguments that write a commit object.
pub open spec fn commit_words(
    message: Seq<char>,
    tree: Seq<char>,
    parent: Option<Seq<char>>,
) -> Seq<
    Seq<char>,
> {
    match parent {
        Some(parent) => seq!["commit-tree"@, tree, "-p"@, parent, "-m"@, message],
        None => seq!["commit-tree"@, tree, "-m"@, message],
    }
}

/// The arguments that write a commit object.
fn commit_args(message: &str, tree: &str, parent: Option<&str>) -> (result: Vec<String>)
    ensures
        result.deep_view() == commit_words(message@, tree@, parent.deep_view()),
{
    match parent {
        Some(parent) => words::words6("commit-tree", tree, "-p", parent, "-m", message),
        None => words::words4("commit-tree", tree, "-m", message),
    }
}

/// The arguments that move the ref of a target to a commit, from where it stood.
pub open spec fn update_words(oid: Seq<char>, target: HeadTargetView) -> Seq<Seq<char>> {
    seq![
        "update-ref"@,
        "-m"@,
        "bitbygit commit"@,
        match target.reference {
            Some(reference) => reference,
            None => "HEAD"@,
        },
        oid,
        remotes::oid_or_zero(target.oid),
    ]
}

/// The arguments that move the ref of a target to a commit, from where it stood.
fn update_args(oid: &str, target: &HeadTarget) -> (result: Vec<String>)
    ensures
        result.deep_view() == update_words(oid@, target.deep_view()),
{
    let reference = match &target.reference {
        Some(reference) => reference.as_str(),
        None => "HEAD",
    };
    let old_oid = match &target.oid {
        Some(oid) => oid.as_str(),
        None => remotes::ZERO_OID,
    };
    words::words6("update-ref", "-m", "bitbygit commit", reference, oid, old_oid)
}

/// What is shown of a commit: the start of its name and its message.
pub open spec fn commit_output(
    message: Seq<char>,
    oid: Seq<char>,
    commit: GitOutputView,
    update: GitOutputView,
) -> GitOutputView {
    let short = oid.take(
        if oid.len() < 12 {
            oid.len() as int
        } else {
            12
        },
    );
    GitOutputView {
        status: update.status,
        stdout: "["@ + short + "] "@ + message + "\n"@,
        stderr: refs::combined_text(commit.stderr, update.stderr),
    }
}

/// What is shown of a commit.
fn describe_commit(message: &str, oid: &str, commit: GitOutput, update: GitOutput) -> (result:
    GitOutput)
    ensures
        result.deep_view() == commit_output(message@, oid@, commit.deep_view(), update.deep_view()),
{
    let characters = text::chars_of(oid);
    let length: usize = if characters.len() < 12 {
        characters.len()
    } else {
        12
    };
    let start = vstd::slice::slice_subrange(characters.as_slice(), 0, length);
    assert(start@ =~= oid@.take(length as int));
    let short = text::string_of(start);
    let stderr = refs::combine_text(commit.stderr.as_str(), update.stderr.as_str());
    GitOutput {
        status: update.status,
        stdout: text::concat5("[", short.as_str(), "] ", message, "\n"),
        stderr,
    }
}

/// Stages paths, taken literally.
pub open spec fn stage_paths_step(
    replies: Seq<ReplyView>,
    at: nat,
    paths: Seq<Seq<u8>>,
) -> GitStep<GitOutputView> {
    run_paths_step(replies, at, path_words(seq!["add"@]), paths)
}

/// Stages a path, taken literally.
pub open spec fn stage_path_step(
    replies: Seq<ReplyView>,
    at: nat,
    path: Seq<u8>,
) -> GitStep<GitOutputView> {
    run_paths_step(replies, at, path_words(seq!["add"@]), seq![path])
}

/// Takes paths out of the index, taken literally.
pub open spec fn unstage_paths_step(
    replies: Seq<ReplyView>,
    at: nat,
    cwd: Seq<u8>,
    paths: Seq<Seq<u8>>,
) -> GitStep<GitOutputView> {
    session::followed(
        inspect::branch_state_step(replies, at, cwd),
        |branch: BranchStateView, n: nat|
            run_paths_step(
                replies,
                n,
                path_words(
                    if branch.unborn {
                        seq!["rm"@, "--cached"@, "--ignore-unmatch"@, "-r"@]
                    } else {
                        seq!["restore"@, "--staged"@]
                    },
                ),
                paths,
            )
    )
}

/// Takes a path out of the index, taken literally.
pub open spec fn unstage_path_step(
    replies: Seq<ReplyView>,
    at: nat,
    cwd: Seq<u8>,
    path: Seq<u8>,
) -> GitStep<GitOutputView> {
    unstage_paths_step(replies, at, cwd, seq![path])
}

/// Stages all changes.
pub open spec fn stage_all_step(
    replies: Seq<ReplyView>,
    at: nat,
) -> GitStep<GitOutputView> {
    commands::run_step(replies, at, seq!["add"@, "--all"@])
}

/// Takes all changes out of the index.
pub open spec fn unstage_all_step(
    replies: Seq<ReplyView>,
    at: nat,
    cwd: Seq<u8>,
) -> GitStep<GitOutputView> {
    session::followed(
        inspect::branch_state_step(replies, at, cwd),
        |branch: BranchStateView, n: nat|
            if branch.unborn {
                commands::run_step(
                    replies,
                    n,
                    seq!["rm"@, "--cached"@, "--ignore-unmatch"@, "-r"@, ":/"@],
                )
            } else {
                commands::run_step(replies, n, seq!["restore"@, "--staged"@, ":/"@])
            }
    )
}

/// The changes of some paths, taken literally, in the index or in the working tree.
pub open spec fn diff_paths_step(
    replies: Seq<ReplyView>,
    at: nat,
    paths: Seq<Seq<u8>>,
    staged: bool,
) -> GitStep<Seq<char>> {
    session::followed(
        run_os_step(
            replies,
            at,
            path_words(
                if staged {
                    seq!["diff"@, "--cached"@]
                } else {
                    seq!["diff"@]
                },
            ) + paths,
        ),
        |output: OsOutputView, n: nat|
            session::given(bytes::lossy_text(output.stdout), n)
    )
}

/// The changes of one path, taken literally, in the index or in the working tree.
pub open spec fn diff_path_step(
    replies: Seq<ReplyView>,
    at: nat,
    path: Seq<u8>,
    staged: bool,
) -> GitStep<Seq<char>> {
    diff_paths_step(replies, at, seq![path], staged)
}

/// The tree of the index, written as an object.
pub open spec fn staged_tree_step(
    replies: Seq<ReplyView>,
    at: nat,
) -> GitStep<Seq<char>> {
    session::followed(
        commands::run_step(replies, at, seq!["write-tree"@]),
        |output: GitOutputView, n: nat|
            session::given(text::trimmed(output.stdout), n)
    )
}

/// Whether a setting is on.
pub open spec fn config_bool_step(
    replies: Seq<ReplyView>,
    at: nat,
    key: Seq<char>,
) -> GitStep<bool> {
    session::followed(
        commands::config_value_step(replies, at, "--bool"@, key),
        |value: Option<Seq<char>>, n: nat|
            session::given(is_on(value), n)
    )
}

/// The path of a hook.
pub open spec fn hook_path_step(
    replies: Seq<ReplyView>,
    at: nat,
    cwd: Seq<u8>,
    hook: Seq<char>,
) -> GitStep<Seq<u8>> {
    session::followed(
        commands::config_value_step(replies, at, "--path"@, "core.hooksPath"@),
        |setting: Option<Seq<char>>, n: nat|
            if setting is Some {
                let directory = utf8::encode_utf8(setting->Some_0);
                if bytes::absolute(directory) {
                    session::given(bytes::joined_path(directory, utf8::encode_utf8(hook)), n)
                } else {
                    session::followed(
                        inspect::repo_root_step(replies, n),
                        |root: Seq<u8>, n: nat|
                            session::given(
                                bytes::joined_path(
                                    bytes::joined_path(root, directory),
                                    utf8::encode_utf8(hook),
                                ),
                                n,
                            )
                    )
                }
            } else {
                inspect::git_path_step(replies, n, cwd, "hooks/"@ + hook)
            }
    )
}

/// Refuses a commit without changes.
pub open spec fn ensure_staged_tree_is_not_empty_commit_step(
    replies: Seq<ReplyView>,
    at: nat,
    tree: Seq<char>,
    target: HeadTargetView,
) -> GitStep<()> {
    session::followed(
        match target.oid {
            Some(parent) => session::followed(
                commands::run_step(replies, at, seq!["rev-parse"@, parent + "^{tree}"@]),
                |output: GitOutputView, n: nat| session::given(text::trimmed(output.stdout), n),
            ),
            None => session::given(EMPTY_TREE_OID@, at),
        },
        |parent_tree: Seq<char>, n: nat|
            if parent_tree == tree {
                session::failed(
                    commands::refusal(
                        "guarded commit is blocked because there are no staged changes"@,
                    ),
                    n,
                )
            } else {
                session::given((), n)
            }
    )
}

/// Refuses a commit where Git would sign it or run a hook.
pub open spec fn ensure_guarded_commit_supported_step(
    replies: Seq<ReplyView>,
    at: nat,
    cwd: Seq<u8>,
) -> GitStep<()> {
    session::followed(
        config_bool_step(replies, at, "commit.gpgsign"@),
        |signs: bool, n: nat|
            if signs {
                session::failed(
                    commands::refusal(
                        "guarded commit is blocked because commit.gpgsign is enabled"@,
                    ),
                    n,
                )
            } else {
                session::followed(
                    enabled_hooks_step(replies, n, cwd, commit_hooks()),
                    |hooks: Seq<Seq<char>>, n: nat|
                        if hooks.len() > 0 {
                            session::failed(
                                commands::refusal(
                                    "guarded commit is blocked because commit hook(s) are configured: "@
                                        + text::joined(hooks, ", "@),
                                ),
                                n,
                            )
                        } else {
                            session::given((), n)
                        }
                )
            }
    )
}

/// Commits a tree on top of a target that has not moved, and moves the target's ref.
pub open spec fn commit_staged_tree_step(
    replies: Seq<ReplyView>,
    at: nat,
    cwd: Seq<u8>,
    message: Seq<char>,
    tree: Seq<char>,
    target: HeadTargetView,
) -> GitStep<GitOutputView> {
    session::followed(
        inspect::head_target_step(replies, at, cwd),
        |head: HeadTargetView, n: nat|
            if head != target {
                session::failed(
                    commands::refusal("guarded commit is blocked because the target ref changed"@),
                    n,
                )
            } else {
                session::followed(
                    ensure_staged_tree_is_not_empty_commit_step(replies, n, tree, target),
                    |_changes: (), n: nat|
                        session::followed(
                            ensure_guarded_commit_supported_step(replies, n, cwd),
                            |_plain: (), n: nat|
                                session::followed(
                                    commands::run_step(
                                        replies,
                                        n,
                                        commit_words(message, tree, target.oid),
                                    ),
                                    |commit: GitOutputView, n: nat|
                                        {
                                            let oid = text::trimmed(commit.stdout);
                                            if oid.len() == 0 {
                                                session::failed(
                                                    status::unreadable(
                                                        "git commit-tree did not return a commit id"@,
                                                    ),
                                                    n,
                                                )
                                            } else {
                                                session::followed(
                                                    commands::run_step(
                                                        replies,
                                                        n,
                                                        update_words(oid, target),
                                                    ),
                                                    |update: GitOutputView, n: nat|
                                                        session::given(
                                                            commit_output(
                                                                message,
                                                                oid,
                                                                commit,
                                                                update,
                                                            ),
                                                            n,
                                                        )
                                                )
                                            }
                                        }
                                )
                        )
                )
            }
    )
}

/// Commits the index on top of `HEAD`.
pub open spec fn commit_step(
    replies: Seq<ReplyView>,
    at: nat,
    cwd: Seq<u8>,
    message: Seq<char>,
) -> GitStep<GitOutputView> {
    session::followed(
        staged_tree_step(replies, at),
        |tree: Seq<char>, n: nat|
            session::followed(
                inspect::head_target_step(replies, n, cwd),
                |target: HeadTargetView, n: nat|
                    commit_staged_tree_step(replies, n, cwd, message, tree, target)
            )
    )
}

impl Git {
    /// Stages paths, taken literally.
    pub(crate) fn stage_paths_in(
        &self,
        session: &mut Session,
        paths: &Vec<Vec<u8>>,
    ) -> (result: GitResult<GitOutput>)
        ensures
            session::stepped(
                old(session),
                final(session),
                result,
                stage_paths_step(old(session).replies(), old(session).at(), paths.deep_view()),
            ),
    {
        run_paths(session, path_args(words::words1("add")), paths)
    }

    /// Stages a path, taken literally.
    pub(crate) fn stage_path_in(
        &self,
        session: &mut Session,
        path: &[u8],
    ) -> (result: GitResult<GitOutput>)
        ensures
            session::stepped(
                old(session),
                final(session),
                result,
                stage_path_step(old(session).replies(), old(session).at(), path@),
            ),
    {
        let paths = one_path(path);
        run_paths(session, path_args(words::words1("add")), &paths)
    }

    /// Takes paths out of the index, taken literally.
    pub(crate) fn unstage_paths_in(
        &self,
        session: &mut Session,
        paths: &Vec<Vec<u8>>,
    ) -> (result: GitResult<GitOutput>)
        ensures
            session::stepped(
                old(session),
                final(session),
                result,
                unstage_paths_step(
                    old(session).replies(),
                    old(session).at(),
                    self.cwd@,
                    paths.deep_view(),
                ),
            ),
    {
        let branch = self.branch_state_in(session)?;
        let args = if branch.unborn {
            words::words4("rm", "--cached", "--ignore-unmatch", "-r")
        } else {
            words::words2("restore", "--staged")
        };
        run_paths(session, path_args(args), paths)
    }

    /// Takes a path out of the index, taken literally.
    pub(crate) fn unstage_path_in(
        &self,
        session: &mut Session,
        path: &[u8],
    ) -> (result: GitResult<GitOutput>)
        ensures
            session::stepped(
                old(session),
                final(session),
                result,
                unstage_path_step(old(session).replies(), old(session).at(), self.cwd@, path@),
            ),
    {
        let paths = one_path(path);
        self.unstage_paths_in(session, &paths)
    }

    /// Stages all changes.
    pub(crate) fn stage_all_in(&self, session: &mut Session) -> (result: GitResult<GitOutput>)
        ensures
            session::stepped(
                old(session),
                final(session),
                result,
                stage_all_step(old(session).replies(), old(session).at()),
            ),
    {
        commands::run(session, words::words2("add", "--all"))
    }

    /// Takes all changes out of the index.
    pub(crate) fn unstage_all_in(&self, session: &mut Session) -> (result: GitResult<GitOutput>)
        ensures
            session::stepped(
                old(session),
                final(session),
                result,
                unstage_all_step(old(session).replies(), old(session).at(), self.cwd@),
            ),
    {
        let branch = self.branch_state_in(session)?;
        if branch.unborn {
            return commands::run(
                session,
                words::words5("rm", "--cached", "--ignore-unmatch", "-r", ":/"),
            );
        }
        commands::run(session, words::words3("restore", "--staged", ":/"))
    }

    /// The changes of some paths, taken literally, in the index or in the working tree.
    pub(crate) fn diff_paths_in(
        &self,
        session: &mut Session,
        paths: &Vec<Vec<u8>>,
        staged: bool,
    ) -> (result: GitResult<String>)
        ensures
            session::stepped(
                old(session),
                final(session),
                result,
                diff_paths_step(
                    old(session).replies(),
                    old(session).at(),
                    paths.deep_view(),
                    staged,
                ),
            ),
    {
        let args = if staged {
            words::words2("diff", "--cached")
        } else {
            words::words1("diff")
        };
        let output = run_os(session, with_paths(path_args(args), paths))?;
        Ok(bytes::lossy(output.stdout.as_slice()))
    }

    /// The changes of one path, taken literally, in the index or in the working tree.
    pub(crate) fn diff_path_in(
        &self,
        session: &mut Session,
        path: &[u8],
        staged: bool,
    ) -> (result: GitResult<String>)
        ensures
            session::stepped(
                old(session),
                final(session),
                result,
                diff_path_step(old(session).replies(), old(session).at(), path@, staged),
            ),
    {
        let paths = one_path(path);
        self.diff_paths_in(session, &paths, staged)
    }

    /// The tree of the index, written as an object.
    pub(crate) fn staged_tree_in(&self, session: &mut Session) -> (result: GitResult<String>)
        ensures
            session::stepped(
                old(session),
                final(session),
                result,
                staged_tree_step(old(session).replies(), old(session).at()),
            ),
    {
        let output = commands::run(session, words::words1("write-tree"))?;
        Ok(text::trimmed_text(output.stdout.as_str()))
    }

    /// Whether a setting is on.
    pub(crate) fn config_bool_in(
        &self,
        session: &mut Session,
        key: &str,
    ) -> (result: GitResult<bool>)
        ensures
            session::stepped(
                old(session),
                final(session),
                result,
                config_bool_step(old(session).replies(), old(session).at(), key@),
            ),
    {
        proof {
            reveal_strlit("--bool");
        }
        let value = self.config_value_in(session, "--bool", key)?;
        match value {
            Some(value) => Ok(
                text::same_text(value.as_str(), "true") || text::same_text(value.as_str(), "yes")
                    || text::same_text(
                        value.as_str(),
                        "on",
                    ) || text::same_text(value.as_str(), "1"),
            ),
            None => Ok(false),
        }
    }

    /// The path of a hook.
    pub(crate) fn hook_path_in(
        &self,
        session: &mut Session,
        hook: &str,
    ) -> (result: GitResult<Vec<u8>>)
        ensures
            session::stepped(
                old(session),
                final(session),
                result,
                hook_path_step(old(session).replies(), old(session).at(), self.cwd@, hook@),
            ),
    {
        proof {
            reveal_strlit("--path");
        }
        if let Some(setting) = self.config_value_in(session, "--path", "core.hooksPath")? {
            let directory = bytes::bytes_of(setting.as_str());
            if bytes::is_absolute(directory.as_slice()) {
                return Ok(bytes::join_name(directory.as_slice(), hook));
            }
            let root = self.repo_root_in(session)?;
            let directory = bytes::join_path(root.as_slice(), directory.as_slice());
            return Ok(bytes::join_name(directory.as_slice(), hook));
        }
        let relative = text::concat2("hooks/", hook);
        self.git_path_in(session, relative.as_str())
    }

    /// Refuses a commit without changes.
    pub(crate) fn ensure_staged_tree_is_not_empty_commit_in(
        &self,
        session: &mut Session,
        tree: &str,
        target: &HeadTarget,
    ) -> (result: GitResult<()>)
        ensures
            session::stepped(
                old(session),
                final(session),
                result,
                ensure_staged_tree_is_not_empty_commit_step(
                    old(session).replies(),
                    old(session).at(),
                    tree@,
                    target.deep_view(),
                ),
            ),
    {
        let parent_tree = match &target.oid {
            Some(parent) => {
                let revision = text::concat2(parent.as_str(), "^{tree}");
                let output = commands::run(session, words::words2("rev-parse", revision.as_str()))?;
                text::trimmed_text(output.stdout.as_str())
            },
            None => EMPTY_TREE_OID.to_owned(),
        };
        if text::same_text(parent_tree.as_str(), tree) {
            return Err(
                Halt::Failed(
                    commands::blocked(
                        "guarded commit is blocked because there are no staged changes",
                    ),
                ),
            );
        }
        Ok(())
    }

    /// Refuses a commit where Git would sign it or run a hook.
    pub(crate) fn ensure_guarded_commit_supported_in(
        &self,
        session: &mut Session,
    ) -> (result: GitResult<()>)
        ensures
            session::stepped(
                old(session),
                final(session),
                result,
                ensure_guarded_commit_supported_step(
                    old(session).replies(),
                    old(session).at(),
                    self.cwd@,
                ),
            ),
    {
        if self.config_bool_in(session, "commit.gpgsign")? {
            return Err(
                Halt::Failed(
                    commands::blocked(
                        "guarded commit is blocked because commit.gpgsign is enabled",
                    ),
                ),
            );
        }
        let names = words::words4("pre-commit", "prepare-commit-msg", "commit-msg", "post-commit");
        let hooks = self.enabled_hooks_in(session, &names)?;
        assert(hooks@.len() == hooks.deep_view().len());
        if hooks.len() > 0 {
            let list = text::join(&hooks, ", ");
            let message = text::concat2(
                "guarded commit is blocked because commit hook(s) are configured: ",
                list.as_str(),
            );
            return Err(Halt::Failed(commands::blocked(message.as_str())));
        }
        Ok(())
    }

    /// Commits a tree on top of a target that has not moved, and moves the target's ref.
    pub(crate) fn commit_staged_tree_in(
        &self,
        session: &mut Session,
        message: &str,
        tree: &str,
        target: &HeadTarget,
    ) -> (result: GitResult<GitOutput>)
        ensures
            session::stepped(
                old(session),
                final(session),
                result,
                commit_staged_tree_step(
                    old(session).replies(),
                    old(session).at(),
                    self.cwd@,
                    message@,
                    tree@,
                    target.deep_view(),
                ),
            ),
    {
        let head = self.head_target_in(session)?;
        if !head.same(target) {
            return Err(
                Halt::Failed(
                    commands::blocked("guarded commit is blocked because the target ref changed"),
                ),
            );
        }
        self.ensure_staged_tree_is_not_empty_commit_in(session, tree, target)?;
        self.ensure_guarded_commit_supported_in(session)?;
        let commit = commands::run(
            session,
            commit_args(message, tree, text::borrowed(&target.oid)),
        )?;
        let oid = text::trimmed_text(commit.stdout.as_str());
        if oid.as_str().is_empty() {
            return Err(
                Halt::Failed(status::parse_error("git commit-tree did not return a commit id")),
            );
        }
        let update = commands::run(session, update_args(oid.as_str(), target))?;
        Ok(describe_commit(message, oid.as_str(), commit, update))
    }

    /// Commits the index on top of `HEAD`.
    pub(crate) fn commit_in(
        &self,
        session: &mut Session,
        message: &str,
    ) -> (result: GitResult<GitOutput>)
        ensures
            session::stepped(
                old(session),
                final(session),
                result,
                commit_step(old(session).replies(), old(session).at(), self.cwd@, message@),
            ),
    {
        let tree = self.staged_tree_in(session)?;
        let target = self.head_target_in(session)?;
        self.commit_staged_tree_in(session, message, tree.as_str(), &target)
    }

    /// The hooks of a list that Git would run.
    pub(crate) fn enabled_hooks_in(&self, session: &mut Session, hooks: &Vec<String>) -> (result:
        GitResult<Vec<String>>)
        ensures
            session::stepped(
                old(session),
                final(session),
                result,
                enabled_hooks_step(
                    old(session).replies(),
                    old(session).at(),
                    self.cwd@,
                    hooks.deep_view(),
                ),
            ),
    {
        let ghost all = hooks.deep_view();
        let ghost start = session.at();
        let ghost replies = session.replies();
        let mut enabled: Vec<String> = Vec::new();
        assert(enabled.deep_view() =~= Seq::<Seq<char>>::empty());
        assert(all.take(0) =~= Seq::<Seq<char>>::empty());
        let mut index: usize = 0;
        while index < hooks.len()
            invariant
                index <= hooks@.len(),
                all == hooks.deep_view(),
                session.replies() == replies,
                start == old(session).at(),
                replies == old(session).replies(),
                enabled_hooks_step(replies, start, self.cwd@, all.take(index as int))
                    == session::given::<_, GitErrorView>(enabled.deep_view(), session.at()),
            decreases hooks@.len() - index,
        {
            let hook = hooks[index].as_str();
            let ghost longer = all.take(index + 1);
            assert(longer.drop_last() =~= all.take(index as int));
            assert(longer.last() == hook@);
            let path = match self.hook_path_in(session, hook) {
                Ok(path) => path,
                Err(halt) => {
                    proof {
                        lemma_enabled_hooks_halt(replies, start, self.cwd@, all, index + 1);
                    }
                    return Err(halt);
                },
            };
            let found = match commands::hook_is_enabled(session, path) {
                Ok(found) => found,
                Err(halt) => {
                    proof {
                        lemma_enabled_hooks_halt(replies, start, self.cwd@, all, index + 1);
                    }
                    return Err(halt);
                },
            };
            if found {
                words::push_word(&mut enabled, hook);
            }
            index += 1;
        }
        assert(all.take(index as int) =~= all);
        Ok(enabled)
    }

    /// Stages paths, taken literally.
    pub fn stage_paths(
        &self,
        paths: &Vec<Vec<u8>>,
        replies: &[Reply],
    ) -> (result: GitResult<GitOutput>)
        ensures
            session::outcome(result) == stage_paths_step(
                replies.deep_view(),
                0,
                paths.deep_view(),
            ).result,
    {
        let mut session = Session::new(replies);
        self.stage_paths_in(&mut session, paths)
    }

    /// Stages a path, taken literally.
    pub fn stage_path(&self, path: &[u8], replies: &[Reply]) -> (result: GitResult<GitOutput>)
        ensures
            session::outcome(result) == stage_path_step(replies.deep_view(), 0, path@).result,
    {
        let mut session = Session::new(replies);
        self.stage_path_in(&mut session, path)
    }

    /// Takes paths out of the index, taken literally.
    pub fn unstage_paths(
        &self,
        paths: &Vec<Vec<u8>>,
        replies: &[Reply],
    ) -> (result: GitResult<GitOutput>)
        ensures
            session::outcome(result) == unstage_paths_step(
                replies.deep_view(),
                0,
                self.cwd@,
                paths.deep_view(),
            ).result,
    {
        let mut session = Session::new(replies);
        self.unstage_paths_in(&mut session, paths)
    }

    /// Takes a path out of the index, taken literally.
    pub fn unstage_path(&self, path: &[u8], replies: &[Reply]) -> (result: GitResult<GitOutput>)
        ensures
            session::outcome(result) == unstage_path_step(
                replies.deep_view(),
                0,
                self.cwd@,
                path@,
            ).result,
    {
        let mut session = Session::new(replies);
        self.unstage_path_in(&mut session, path)
    }

    /// Stages all changes.
    pub fn stage_all(&self, replies: &[Reply]) -> (result: GitResult<GitOutput>)
        ensures
            session::outcome(result) == stage_all_step(replies.deep_view(), 0).result,
    {
        let mut session = Session::new(replies);
        self.stage_all_in(&mut session)
    }

    /// Takes all changes out of the index.
    pub fn unstage_all(&self, replies: &[Reply]) -> (result: GitResult<GitOutput>)
        ensures
            session::outcome(result) == unstage_all_step(replies.deep_view(), 0, self.cwd@).result,
    {
        let mut session = Session::new(replies);
        self.unstage_all_in(&mut session)
    }

    /// The changes of some paths, taken literally, in the index or in the working tree.
    pub fn diff_paths(
        &self,
        paths: &Vec<Vec<u8>>,
        staged: bool,
        replies: &[Reply],
    ) -> (result: GitResult<String>)
        ensures
            session::outcome(result) == diff_paths_step(
                replies.deep_view(),
                0,
                paths.deep_view(),
                staged,
            ).result,
    {
        let mut session = Session::new(replies);
        self.diff_paths_in(&mut session, paths, staged)
    }

    /// The changes of one path, taken literally, in the index or in the working tree.
    pub fn diff_path(
        &self,
        path: &[u8],
        staged: bool,
        replies: &[Reply],
    ) -> (result: GitResult<String>)
        ensures
            session::outcome(result) == diff_path_step(
                replies.deep_view(),
                0,
                path@,
                staged,
            ).result,
    {
        let mut session = Session::new(replies);
        self.diff_path_in(&mut session, path, staged)
    }

    /// The tree of the index, written as an object.
    pub fn staged_tree(&self, replies: &[Reply]) -> (result: GitResult<String>)
        ensures
            session::outcome(result) == staged_tree_step(replies.deep_view(), 0).result,
    {
        let mut session = Session::new(replies);
        self.staged_tree_in(&mut session)
    }

    /// Commits a tree on top of a target that has not moved, and moves the target's ref.
    pub fn commit_staged_tree(
        &self,
        message: &str,
        tree: &str,
        target: &HeadTarget,
        replies: &[Reply],
    ) -> (result: GitResult<GitOutput>)
        ensures
            session::outcome(result) == commit_staged_tree_step(
                replies.deep_view(),
                0,
                self.cwd@,
                message@,
                tree@,
                target.deep_view(),
            ).result,
    {
        let mut session = Session::new(replies);
        self.commit_staged_tree_in(&mut session, message, tree, target)
    }

    /// Commits the index on top of `HEAD`.
    pub fn commit(&self, message: &str, replies: &[Reply]) -> (result: GitResult<GitOutput>)
        ensures
            session::outcome(result) == commit_step(
                replies.deep_view(),
                0,
                self.cwd@,
                message@,
            ).result,
    {
        let mut session = Session::new(replies);
        self.commit_in(&mut session, message)
    }
}

}
