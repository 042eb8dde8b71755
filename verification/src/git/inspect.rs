//! Looking at a repository: its status, its branches and where `HEAD` stands, and the guards that rest on
//! them.
use crate::bytes;
use crate::git::commands;
use crate::git::commands::{Git, GitResult, GitStep};
use crate::git::refs;
use crate::git::status;
use crate::git::types::{
    BranchInfo, BranchInfoView, BranchState, BranchStateView, BranchTarget, BranchTargetView,
    ChangeKind, GitError, GitErrorView, GitOutputView, Head, HeadTarget, HeadTargetView, Remote,
    RemoteView, Repository, RepositoryOperation, RepositoryView, StatusEntry, StatusEntryType,
    StatusEntryView, WorktreeStatus, WorktreeStatusView,
};
use crate::session;
use crate::session::{Halt, Reply, ReplyView, Session};
use crate::text;
use crate::words;
use vstd::prelude::*;
use vstd::utf8;

verus! {

broadcast use crate::bytes::bytes_are_their_view;

impl HeadTarget {
    /// Whether two targets are the same.
    pub fn same(&self, other: &HeadTarget) -> (result: bool)
        ensures
            result == (self.deep_view() == other.deep_view()),
    {
        text::same_optional_text(text::borrowed(&self.oid), text::borrowed(&other.oid))
            && text::same_optional_text(
            text::borrowed(&self.reference),
            text::borrowed(&other.reference),
        )
    }
}

impl BranchTarget {
    /// Whether two branches are the same and stand at the same commit.
    pub fn same(&self, other: &BranchTarget) -> (result: bool)
        ensures
            result == (self.deep_view() == other.deep_view()),
    {
        text::same_text(self.name.as_str(), other.name.as_str()) && text::same_text(
            self.reference.as_str(),
            other.reference.as_str(),
        ) && text::same_text(self.oid.as_str(), other.oid.as_str()) && self.kind == other.kind
    }
}

/// A branch of the branch list, as a target.
pub open spec fn target_of(branch: BranchInfoView) -> BranchTargetView {
    BranchTargetView {
        name: branch.name,
        reference: branch.reference,
        oid: branch.oid,
        kind: branch.kind,
    }
}

/// The branches of a list that have a name.
pub open spec fn named(list: Seq<BranchInfoView>, name: Seq<char>) -> Seq<BranchInfoView>
    decreases list.len(),
{
    if list.len() == 0 {
        Seq::empty()
    } else if list.last().name == name {
        named(list.drop_last(), name).push(list.last())
    } else {
        named(list.drop_last(), name)
    }
}

/// The one branch of a list that has a name, where there is one.
pub open spec fn target_named(list: Seq<BranchInfoView>, name: Seq<char>) -> Result<
    Option<BranchTargetView>,
    GitErrorView,
> {
    let matches = named(list, name);
    if matches.len() > 1 {
        Err(
            commands::refusal(
                "branch name "@ + name + " is ambiguous between local and remote refs"@,
            ),
        )
    } else if matches.len() == 1 {
        Ok(Some(target_of(matches[0])))
    } else {
        Ok(None)
    }
}

/// Finds the one branch of a list that has a name.
fn find_target(list: &Vec<BranchInfo>, name: &str) -> (result: Result<
    Option<BranchTarget>,
    GitError,
>)
    ensures
        (match result {
            Ok(target) => Ok(target.deep_view()),
            Err(error) => Err(error.deep_view()),
        }) == target_named(list.deep_view(), name@),
{
    let mut found: usize = 0;
    let mut place: usize = 0;
    let mut index: usize = 0;
    let ghost all = list.deep_view();
    assert(all.take(0) =~= Seq::<BranchInfoView>::empty());
    while index < list.len()
        invariant
            index <= list@.len(),
            all == list.deep_view(),
            found == named(all.take(index as int), name@).len(),
            found <= index,
            found == 1 ==> place < list@.len() && named(all.take(index as int), name@)[0]
                == all[place as int],
        decreases list@.len() - index,
    {
        assert(all.take(index + 1).drop_last() =~= all.take(index as int));
        assert(all.take(index + 1).last() == all[index as int]);
        if text::same_text(list[index].name.as_str(), name) {
            if found == 0 {
                place = index;
            }
            found += 1;
        }
        index += 1;
    }
    assert(all.take(index as int) =~= all);
    if found > 1 {
        let message = text::concat3(
            "branch name ",
            name,
            " is ambiguous between local and remote refs",
        );
        return Err(commands::blocked(message.as_str()));
    }
    if found == 0 {
        return Ok(None);
    }
    let branch = &list[place];
    Ok(
        Some(
            BranchTarget {
                name: branch.name.clone(),
                reference: branch.reference.clone(),
                oid: branch.oid.clone(),
                kind: branch.kind,
            },
        ),
    )
}

/// The families of a status report that a method of [`WorktreeStatus`] picks.
pub enum Pick {
    Staged,
    Unstaged,
    Untracked,
    Conflicted,
}

/// Whether an entry is a change to a path that Git tracks.
pub open spec fn is_known(entry: StatusEntryView) -> bool {
    entry.entry_type == StatusEntryType::Ordinary || entry.entry_type == StatusEntryType::Renamed
        || entry.entry_type == StatusEntryType::Copied
}

/// Whether an entry belongs to a family.
pub open spec fn picks(pick: Pick, entry: StatusEntryView) -> bool {
    match pick {
        Pick::Staged => is_known(entry) && entry.index != ChangeKind::Unmodified,
        Pick::Unstaged => is_known(entry) && entry.worktree != ChangeKind::Unmodified,
        Pick::Untracked => entry.entry_type == StatusEntryType::Untracked,
        Pick::Conflicted => entry.entry_type == StatusEntryType::Conflict,
    }
}

/// The entries of a report that belong to a family, in their order.
pub open spec fn picked(pick: Pick, entries: Seq<StatusEntryView>) -> Seq<StatusEntryView>
    decreases entries.len(),
{
    if entries.len() == 0 {
        Seq::empty()
    } else if picks(pick, entries.last()) {
        picked(pick, entries.drop_last()).push(entries.last())
    } else {
        picked(pick, entries.drop_last())
    }
}

impl StatusEntry {
    /// Whether an entry belongs to a family.
    fn is_picked(&self, pick: &Pick) -> (result: bool)
        ensures
            result == picks(*pick, self.deep_view()),
    {
        let known = self.entry_type == StatusEntryType::Ordinary || self.entry_type
            == StatusEntryType::Renamed || self.entry_type == StatusEntryType::Copied;
        match pick {
            Pick::Staged => known && self.index != ChangeKind::Unmodified,
            Pick::Unstaged => known && self.worktree != ChangeKind::Unmodified,
            Pick::Untracked => self.entry_type == StatusEntryType::Untracked,
            Pick::Conflicted => self.entry_type == StatusEntryType::Conflict,
        }
    }
}

impl WorktreeStatus {
    /// Whether a report lists no change.
    pub fn is_clean(&self) -> (result: bool)
        ensures
            result == (self.deep_view().entries.len() == 0),
    {
        self.entries.len() == 0
    }

    /// The entries that belong to a family.
    fn pick(&self, pick: Pick) -> (result: Vec<&StatusEntry>)
        ensures
            result.deep_view() == picked(pick, self.deep_view().entries),
    {
        let mut result: Vec<&StatusEntry> = Vec::new();
        assert(result.deep_view() =~= Seq::<StatusEntryView>::empty());
        let ghost all = self.entries.deep_view();
        let mut index: usize = 0;
        assert(all.take(0) =~= Seq::<StatusEntryView>::empty());
        while index < self.entries.len()
            invariant
                index <= self.entries@.len(),
                all == self.entries.deep_view(),
                result.deep_view() == picked(pick, all.take(index as int)),
            decreases self.entries@.len() - index,
        {
            assert(all.take(index + 1).drop_last() =~= all.take(index as int));
            assert(all.take(index + 1).last() == all[index as int]);
            if self.entries[index].is_picked(&pick) {
                let ghost before = result.deep_view();
                result.push(&self.entries[index]);
                assert(result.deep_view() =~= before.push(all[index as int]));
            }
            index += 1;
        }
        assert(all.take(index as int) =~= all);
        result
    }

    /// The changes that the next commit would hold.
    pub fn staged_files(&self) -> (result: Vec<&StatusEntry>)
        ensures
            result.deep_view() == picked(Pick::Staged, self.deep_view().entries),
    {
        self.pick(Pick::Staged)
    }

    /// The changes of tracked paths that the next commit would not hold.
    pub fn unstaged_files(&self) -> (result: Vec<&StatusEntry>)
        ensures
            result.deep_view() == picked(Pick::Unstaged, self.deep_view().entries),
    {
        self.pick(Pick::Unstaged)
    }

    /// The paths that Git does not track.
    pub fn untracked_files(&self) -> (result: Vec<&StatusEntry>)
        ensures
            result.deep_view() == picked(Pick::Untracked, self.deep_view().entries),
    {
        self.pick(Pick::Untracked)
    }

    /// The paths with conflicts.
    pub fn conflicted_files(&self) -> (result: Vec<&StatusEntry>)
        ensures
            result.deep_view() == picked(Pick::Conflicted, self.deep_view().entries),
    {
        self.pick(Pick::Conflicted)
    }
}

impl Head {
    /// A copy of what is checked out.
    pub fn copied(&self) -> (result: Head)
        ensures
            result.deep_view() == self.deep_view(),
    {
        match self {
            Head::Branch(name) => Head::Branch(name.clone()),
            Head::Detached(oid) => Head::Detached(oid.clone()),
            Head::Unborn => Head::Unborn,
        }
    }
}

impl BranchState {
    /// A copy of the branch part of a report.
    pub fn copied(&self) -> (result: BranchState)
        ensures
            result.deep_view() == self.deep_view(),
    {
        BranchState {
            head: self.head.copied(),
            upstream: text::clone_optional(&self.upstream),
            ahead: self.ahead,
            behind: self.behind,
            unborn: self.unborn,
        }
    }
}

/// The path of a file of the repository's own.
pub open spec fn git_path_step(
    replies: Seq<ReplyView>,
    at: nat,
    cwd: Seq<u8>,
    path: Seq<char>,
) -> GitStep<Seq<u8>> {
    session::followed(
        commands::run_step(replies, at, seq!["rev-parse"@, "--git-path"@, path]),
        |output: GitOutputView, n: nat|
            session::given(commands::path_in(cwd, output.stdout), n)
    )
}

/// Whether a merge is in progress.
pub open spec fn merge_operation_step(
    replies: Seq<ReplyView>,
    at: nat,
    cwd: Seq<u8>,
) -> GitStep<Option<RepositoryOperation>> {
    session::followed(
        git_path_step(replies, at, cwd, "MERGE_HEAD"@),
        |path: Seq<u8>, n: nat|
            session::followed(
                commands::exists_step(replies, n, path),
                |merging: bool, n: nat|
                    session::given(
                        if merging {
                            Some(RepositoryOperation::Merge)
                        } else {
                            None
                        },
                        n,
                    )
            )
    )
}

/// The merge or rebase that is in progress.
pub open spec fn repository_operation_step(
    replies: Seq<ReplyView>,
    at: nat,
    cwd: Seq<u8>,
) -> GitStep<Option<RepositoryOperation>> {
    session::followed(
        git_path_step(replies, at, cwd, "rebase-apply"@),
        |apply: Seq<u8>, n: nat|
            session::followed(
                git_path_step(replies, n, cwd, "rebase-merge"@),
                |merge: Seq<u8>, n: nat|
                    session::followed(
                        commands::exists_step(replies, n, merge),
                        |merging: bool, n: nat|
                            if merging {
                                session::given(Some(RepositoryOperation::Rebase), n)
                            } else {
                                session::followed(
                                    commands::exists_step(replies, n, apply),
                                    |applying: bool, n: nat|
                                        if !applying {
                                            merge_operation_step(replies, n, cwd)
                                        } else {
                                            session::followed(
                                                commands::exists_step(
                                                    replies,
                                                    n,
                                                    bytes::joined_path(
                                                        apply,
                                                        utf8::encode_utf8("applying"@),
                                                    ),
                                                ),
                                                |mail: bool, n: nat|
                                                    if !mail {
                                                        session::given(
                                                            Some(RepositoryOperation::Rebase),
                                                            n,
                                                        )
                                                    } else {
                                                        merge_operation_step(replies, n, cwd)
                                                    }
                                            )
                                        }
                                )
                            }
                    )
            )
    )
}

/// The status of the working tree.
pub open spec fn status_step(
    replies: Seq<ReplyView>,
    at: nat,
    cwd: Seq<u8>,
) -> GitStep<WorktreeStatusView> {
    session::followed(
        commands::run_raw_step(
            replies,
            at,
            seq!["status"@, "--porcelain=v2"@, "--branch"@, "-z"@],
        ),
        |output: Seq<u8>, n: nat|
            session::followed(
                commands::settled(status::status_of(output), n),
                |report: WorktreeStatusView, n: nat|
                    session::followed(
                        repository_operation_step(replies, n, cwd),
                        |operation: Option<RepositoryOperation>, n: nat|
                            session::given(WorktreeStatusView { operation, ..report }, n)
                    )
            )
    )
}

/// The top directory of the repository.
pub open spec fn repo_root_step(
    replies: Seq<ReplyView>,
    at: nat,
) -> GitStep<Seq<u8>> {
    session::followed(
        commands::run_raw_step(replies, at, seq!["rev-parse"@, "--show-toplevel"@]),
        |output: Seq<u8>, n: nat|
            session::given(bytes::without_line_ending(output), n)
    )
}

/// The remotes of the repository.
pub open spec fn remotes_step(
    replies: Seq<ReplyView>,
    at: nat,
) -> GitStep<Seq<RemoteView>> {
    session::followed(
        commands::run_step(replies, at, seq!["remote"@, "-v"@]),
        |output: GitOutputView, n: nat|
            session::given(refs::remotes_of(text::text_lines(output.stdout)), n)
    )
}

/// The repository with its remotes and its status.
pub open spec fn repository_step(
    replies: Seq<ReplyView>,
    at: nat,
    cwd: Seq<u8>,
) -> GitStep<RepositoryView> {
    session::followed(
        repo_root_step(replies, at),
        |root: Seq<u8>, n: nat|
            session::followed(
                remotes_step(replies, n),
                |remotes: Seq<RemoteView>, n: nat|
                    session::followed(
                        status_step(replies, n, cwd),
                        |status: WorktreeStatusView, n: nat|
                            session::given(
                                RepositoryView { root, branch: status.branch, remotes, status },
                                n,
                            )
                    )
            )
    )
}

/// The branch part of the status.
pub open spec fn branch_state_step(
    replies: Seq<ReplyView>,
    at: nat,
    cwd: Seq<u8>,
) -> GitStep<BranchStateView> {
    session::followed(
        status_step(replies, at, cwd),
        |status: WorktreeStatusView, n: nat|
            session::given(status.branch, n)
    )
}

/// The upstream of the branch that is checked out.
pub open spec fn upstream_step(
    replies: Seq<ReplyView>,
    at: nat,
    cwd: Seq<u8>,
) -> GitStep<Option<Seq<char>>> {
    session::followed(
        status_step(replies, at, cwd),
        |status: WorktreeStatusView, n: nat|
            session::given(status.branch.upstream, n)
    )
}

/// The local and remote branches.
pub open spec fn branches_step(
    replies: Seq<ReplyView>,
    at: nat,
) -> GitStep<Seq<BranchInfoView>> {
    session::followed(
        commands::run_step(
            replies,
            at,
            seq![
                "for-each-ref"@,
                "--format=%(refname)%00%(objectname)%00%(upstream:short)%00%(HEAD)"@,
                "refs/heads"@,
                "refs/remotes"@,
            ],
        ),
        |output: GitOutputView, n: nat|
            commands::settled(refs::branches_of(output.stdout), n)
    )
}

/// The one branch that has a name.
pub open spec fn branch_target_step(
    replies: Seq<ReplyView>,
    at: nat,
    name: Seq<char>,
) -> GitStep<Option<BranchTargetView>> {
    session::followed(
        branches_step(replies, at),
        |branches: Seq<BranchInfoView>, n: nat|
            commands::settled(target_named(branches, name), n)
    )
}

/// The commit that `HEAD` stands at, where there is one.
pub open spec fn head_commit_step(
    replies: Seq<ReplyView>,
    at: nat,
    cwd: Seq<u8>,
) -> GitStep<Option<Seq<char>>> {
    session::followed(
        branch_state_step(replies, at, cwd),
        |branch: BranchStateView, n: nat|
            if branch.unborn {
                session::given(None, n)
            } else {
                session::followed(
                    commands::run_step(replies, n, seq!["rev-parse"@, "--verify"@, "HEAD"@]),
                    |output: GitOutputView, n: nat|
                        session::given(Some(text::trimmed(output.stdout)), n)
                )
            }
    )
}

/// The ref that `HEAD` names, where it names one.
pub open spec fn symbolic_head_step(
    replies: Seq<ReplyView>,
    at: nat,
) -> GitStep<Option<Seq<char>>> {
    session::followed(
        commands::tolerated(
            commands::run_step(replies, at, seq!["symbolic-ref"@, "--quiet"@, "HEAD"@]),
        ),
        |output: Option<GitOutputView>, n: nat|
            session::given(commands::trimmed_stdout(output), n)
    )
}

/// The commit and the ref that `HEAD` stands at.
pub open spec fn head_target_step(
    replies: Seq<ReplyView>,
    at: nat,
    cwd: Seq<u8>,
) -> GitStep<HeadTargetView> {
    session::followed(
        head_commit_step(replies, at, cwd),
        |oid: Option<Seq<char>>, n: nat|
            session::followed(
                symbolic_head_step(replies, n),
                |reference: Option<Seq<char>>, n: nat|
                    session::given(HeadTargetView { oid, reference }, n)
            )
    )
}

/// The first of some operations whose marker file is there.
pub open spec fn in_progress_marker_step(
    replies: Seq<ReplyView>,
    at: nat,
    cwd: Seq<u8>,
    operation: Seq<char>,
    marker: Seq<char>,
) -> GitStep<Option<Seq<char>>> {
    session::followed(
        git_path_step(replies, at, cwd, marker),
        |path: Seq<u8>, n: nat|
            session::followed(
                commands::exists_step(replies, n, path),
                |there: bool, n: nat|
                    session::given(
                        if there {
                            Some(operation)
                        } else {
                            None
                        },
                        n,
                    )
            )
    )
}

/// The name of the operation that is in progress.
pub open spec fn in_progress_operation_step(
    replies: Seq<ReplyView>,
    at: nat,
    cwd: Seq<u8>,
) -> GitStep<Option<Seq<char>>> {
    session::followed(
        repository_operation_step(replies, at, cwd),
        |operation: Option<RepositoryOperation>, n: nat|
            if operation is Some {
                session::given(Some(commands::operation_label(operation->Some_0)), n)
            } else {
                session::followed(
                    in_progress_marker_step(replies, n, cwd, "am"@, "rebase-apply/applying"@),
                    |mail: Option<Seq<char>>, n: nat|
                        if mail is Some {
                            session::given(mail, n)
                        } else {
                            session::followed(
                                in_progress_marker_step(
                                    replies,
                                    n,
                                    cwd,
                                    "cherry-pick"@,
                                    "CHERRY_PICK_HEAD"@,
                                ),
                                |pick: Option<Seq<char>>, n: nat|
                                    if pick is Some {
                                        session::given(pick, n)
                                    } else {
                                        in_progress_marker_step(
                                            replies,
                                            n,
                                            cwd,
                                            "revert"@,
                                            "REVERT_HEAD"@,
                                        )
                                    }
                            )
                        }
                )
            }
    )
}

/// Refuses an operation while another one is in progress, or where the working tree is not clean.
pub open spec fn ensure_clean_worktree_step(
    replies: Seq<ReplyView>,
    at: nat,
    cwd: Seq<u8>,
    operation: Seq<char>,
) -> GitStep<()> {
    session::followed(
        in_progress_operation_step(replies, at, cwd),
        |other: Option<Seq<char>>, n: nat|
            if other is Some {
                session::failed(
                    commands::refusal(
                        operation + " is blocked because a "@ + other->Some_0
                            + " operation is in progress"@,
                    ),
                    n,
                )
            } else {
                session::followed(
                    status_step(replies, n, cwd),
                    |status: WorktreeStatusView, n: nat|
                        if picked(Pick::Conflicted, status.entries).len() > 0 {
                            session::failed(
                                commands::refusal(
                                    operation + " is blocked while conflicts are present"@,
                                ),
                                n,
                            )
                        } else if status.entries.len() > 0 {
                            session::failed(
                                commands::refusal(
                                    operation + " is blocked because the working tree is not clean"@,
                                ),
                                n,
                            )
                        } else {
                            session::given((), n)
                        }
                )
            }
    )
}

/// Refuses an operation where `HEAD` has moved since it was planned.
pub open spec fn ensure_head_target_unchanged_step(
    replies: Seq<ReplyView>,
    at: nat,
    cwd: Seq<u8>,
    expected: HeadTargetView,
    operation: Seq<char>,
) -> GitStep<()> {
    session::followed(
        head_target_step(replies, at, cwd),
        |target: HeadTargetView, n: nat|
            if target == expected {
                session::given((), n)
            } else {
                session::failed(
                    commands::refusal(
                        operation
                            + " is blocked because the branch target changed since the plan was shown"@,
                    ),
                    n,
                )
            }
    )
}

/// Refuses an operation where a branch has moved since it was planned.
pub open spec fn ensure_branch_target_unchanged_step(
    replies: Seq<ReplyView>,
    at: nat,
    expected: BranchTargetView,
    operation: Seq<char>,
) -> GitStep<()> {
    session::followed(
        branch_target_step(replies, at, expected.name),
        |branch: Option<BranchTargetView>, n: nat|
            if branch is None {
                session::failed(
                    commands::refusal(
                        operation + " is blocked because "@ + expected.name + " no longer exists"@,
                    ),
                    n,
                )
            } else if branch->Some_0 == expected {
                session::given((), n)
            } else {
                session::failed(
                    commands::refusal(
                        operation + " is blocked because "@ + expected.name
                            + " changed since the plan was shown"@,
                    ),
                    n,
                )
            }
    )
}

impl Git {
    /// The path of a file of the repository's own.
    pub(crate) fn git_path_in(
        &self,
        session: &mut Session,
        path: &str,
    ) -> (result: GitResult<Vec<u8>>)
        ensures
            session::stepped(
                old(session),
                final(session),
                result,
                git_path_step(old(session).replies(), old(session).at(), self.cwd@, path@),
            ),
    {
        let output = commands::run(session, words::words3("rev-parse", "--git-path", path))?;
        Ok(commands::path_from(self.cwd.as_slice(), output.stdout.as_str()))
    }

    /// Whether a merge is in progress.
    pub(crate) fn merge_operation_in(
        &self,
        session: &mut Session,
    ) -> (result: GitResult<Option<RepositoryOperation>>)
        ensures
            session::stepped(
                old(session),
                final(session),
                result,
                merge_operation_step(old(session).replies(), old(session).at(), self.cwd@),
            ),
    {
        let path = self.git_path_in(session, "MERGE_HEAD")?;
        if commands::path_exists(session, path)? {
            Ok(Some(RepositoryOperation::Merge))
        } else {
            Ok(None)
        }
    }

    /// The merge or rebase that is in progress.
    pub(crate) fn repository_operation_in(
        &self,
        session: &mut Session,
    ) -> (result: GitResult<Option<RepositoryOperation>>)
        ensures
            session::stepped(
                old(session),
                final(session),
                result,
                repository_operation_step(old(session).replies(), old(session).at(), self.cwd@),
            ),
    {
        let rebase_apply = self.git_path_in(session, "rebase-apply")?;
        let rebase_merge = self.git_path_in(session, "rebase-merge")?;
        let applying = bytes::join_name(rebase_apply.as_slice(), "applying");
        if commands::path_exists(session, rebase_merge)? {
            return Ok(Some(RepositoryOperation::Rebase));
        }
        if commands::path_exists(session, rebase_apply)? && !commands::path_exists(session, applying)? {
            return Ok(Some(RepositoryOperation::Rebase));
        }
        self.merge_operation_in(session)
    }

    /// The status of the working tree.
    pub(crate) fn status_in(&self, session: &mut Session) -> (result: GitResult<WorktreeStatus>)
        ensures
            session::stepped(
                old(session),
                final(session),
                result,
                status_step(old(session).replies(), old(session).at(), self.cwd@),
            ),
    {
        let output = commands::run_raw(
            session,
            words::words4("status", "--porcelain=v2", "--branch", "-z"),
        )?;
        let report = commands::settle(status::parse_status_bytes(output.as_slice()))?;
        let operation = self.repository_operation_in(session)?;
        Ok(WorktreeStatus { branch: report.branch, entries: report.entries, operation })
    }

    /// The top directory of the repository.
    pub(crate) fn repo_root_in(&self, session: &mut Session) -> (result: GitResult<Vec<u8>>)
        ensures
            session::stepped(
                old(session),
                final(session),
                result,
                repo_root_step(old(session).replies(), old(session).at()),
            ),
    {
        let output = commands::run_raw(session, words::words2("rev-parse", "--show-toplevel"))?;
        Ok(bytes::copy_bytes(bytes::strip_byte_line_ending(output.as_slice())))
    }

    /// The remotes of the repository.
    pub(crate) fn remotes_in(&self, session: &mut Session) -> (result: GitResult<Vec<Remote>>)
        ensures
            session::stepped(
                old(session),
                final(session),
                result,
                remotes_step(old(session).replies(), old(session).at()),
            ),
    {
        let output = commands::run(session, words::words2("remote", "-v"))?;
        Ok(refs::parse_remotes(output.stdout.as_str()))
    }

    /// The repository with its remotes and its status.
    pub(crate) fn repository_in(&self, session: &mut Session) -> (result: GitResult<Repository>)
        ensures
            session::stepped(
                old(session),
                final(session),
                result,
                repository_step(old(session).replies(), old(session).at(), self.cwd@),
            ),
    {
        let root = self.repo_root_in(session)?;
        let remotes = self.remotes_in(session)?;
        let status = self.status_in(session)?;
        let branch = status.branch.copied();
        Ok(Repository { root, branch, remotes, status })
    }

    /// The branch part of the status.
    pub(crate) fn branch_state_in(&self, session: &mut Session) -> (result: GitResult<BranchState>)
        ensures
            session::stepped(
                old(session),
                final(session),
                result,
                branch_state_step(old(session).replies(), old(session).at(), self.cwd@),
            ),
    {
        let status = self.status_in(session)?;
        Ok(status.branch)
    }

    /// The upstream of the branch that is checked out.
    pub(crate) fn upstream_in(&self, session: &mut Session) -> (result: GitResult<Option<String>>)
        ensures
            session::stepped(
                old(session),
                final(session),
                result,
                upstream_step(old(session).replies(), old(session).at(), self.cwd@),
            ),
    {
        let status = self.status_in(session)?;
        Ok(status.branch.upstream)
    }

    /// The local and remote branches.
    pub(crate) fn branches_in(&self, session: &mut Session) -> (result: GitResult<Vec<BranchInfo>>)
        ensures
            session::stepped(
                old(session),
                final(session),
                result,
                branches_step(old(session).replies(), old(session).at()),
            ),
    {
        let output = commands::run(
            session,
            words::words4(
                "for-each-ref",
                "--format=%(refname)%00%(objectname)%00%(upstream:short)%00%(HEAD)",
                "refs/heads",
                "refs/remotes",
            ),
        )?;
        commands::settle(refs::parse_branches(output.stdout.as_str()))
    }

    /// The one branch that has a name.
    pub(crate) fn branch_target_in(
        &self,
        session: &mut Session,
        name: &str,
    ) -> (result: GitResult<Option<BranchTarget>>)
        ensures
            session::stepped(
                old(session),
                final(session),
                result,
                branch_target_step(old(session).replies(), old(session).at(), name@),
            ),
    {
        let branches = self.branches_in(session)?;
        commands::settle(find_target(&branches, name))
    }

    /// The commit that `HEAD` stands at, where there is one.
    pub(crate) fn head_commit_in(
        &self,
        session: &mut Session,
    ) -> (result: GitResult<Option<String>>)
        ensures
            session::stepped(
                old(session),
                final(session),
                result,
                head_commit_step(old(session).replies(), old(session).at(), self.cwd@),
            ),
    {
        let branch = self.branch_state_in(session)?;
        if branch.unborn {
            return Ok(None);
        }
        let output = commands::run(session, words::words3("rev-parse", "--verify", "HEAD"))?;
        Ok(Some(text::trimmed_text(output.stdout.as_str())))
    }

    /// The ref that `HEAD` names, where it names one.
    pub(crate) fn symbolic_head_in(
        &self,
        session: &mut Session,
    ) -> (result: GitResult<Option<String>>)
        ensures
            session::stepped(
                old(session),
                final(session),
                result,
                symbolic_head_step(old(session).replies(), old(session).at()),
            ),
    {
        let output = commands::run_tolerant(
            session,
            words::words3("symbolic-ref", "--quiet", "HEAD"),
        )?;
        Ok(commands::stdout_of(output))
    }

    /// The commit and the ref that `HEAD` stands at.
    pub(crate) fn head_target_in(&self, session: &mut Session) -> (result: GitResult<HeadTarget>)
        ensures
            session::stepped(
                old(session),
                final(session),
                result,
                head_target_step(old(session).replies(), old(session).at(), self.cwd@),
            ),
    {
        let oid = self.head_commit_in(session)?;
        let reference = self.symbolic_head_in(session)?;
        Ok(HeadTarget { oid, reference })
    }

    /// The first of some operations whose marker file is there.
    pub(crate) fn in_progress_marker_in(
        &self,
        session: &mut Session,
        operation: &str,
        marker: &str,
    ) -> (result: GitResult<Option<String>>)
        ensures
            session::stepped(
                old(session),
                final(session),
                result,
                in_progress_marker_step(
                    old(session).replies(),
                    old(session).at(),
                    self.cwd@,
                    operation@,
                    marker@,
                ),
            ),
    {
        let path = self.git_path_in(session, marker)?;
        if commands::path_exists(session, path)? {
            Ok(Some(operation.to_owned()))
        } else {
            Ok(None)
        }
    }

    /// The name of the operation that is in progress.
    pub(crate) fn in_progress_operation_in(
        &self,
        session: &mut Session,
    ) -> (result: GitResult<Option<String>>)
        ensures
            session::stepped(
                old(session),
                final(session),
                result,
                in_progress_operation_step(old(session).replies(), old(session).at(), self.cwd@),
            ),
    {
        if let Some(operation) = self.repository_operation_in(session)? {
            return Ok(Some(operation.label().to_owned()));
        }
        let mail = self.in_progress_marker_in(session, "am", "rebase-apply/applying")?;
        if mail.is_some() {
            return Ok(mail);
        }
        let pick = self.in_progress_marker_in(session, "cherry-pick", "CHERRY_PICK_HEAD")?;
        if pick.is_some() {
            return Ok(pick);
        }
        self.in_progress_marker_in(session, "revert", "REVERT_HEAD")
    }

    /// Refuses an operation while another one is in progress, or where the working tree is not clean.
    pub(crate) fn ensure_clean_worktree_in(
        &self,
        session: &mut Session,
        operation: &str,
    ) -> (result: GitResult<()>)
        ensures
            session::stepped(
                old(session),
                final(session),
                result,
                ensure_clean_worktree_step(
                    old(session).replies(),
                    old(session).at(),
                    self.cwd@,
                    operation@,
                ),
            ),
    {
        if let Some(other) = self.in_progress_operation_in(session)? {
            let message = text::concat4(
                operation,
                " is blocked because a ",
                other.as_str(),
                " operation is in progress",
            );
            return Err(Halt::Failed(commands::blocked(message.as_str())));
        }
        let status = self.status_in(session)?;
        let conflicted = status.conflicted_files();
        assert(conflicted@.len() == conflicted.deep_view().len());
        if conflicted.len() > 0 {
            let message = text::concat2(operation, " is blocked while conflicts are present");
            return Err(Halt::Failed(commands::blocked(message.as_str())));
        }
        if !status.is_clean() {
            let message = text::concat2(
                operation,
                " is blocked because the working tree is not clean",
            );
            return Err(Halt::Failed(commands::blocked(message.as_str())));
        }
        Ok(())
    }

    /// Refuses an operation where `HEAD` has moved since it was planned.
    pub(crate) fn ensure_head_target_unchanged_in(
        &self,
        session: &mut Session,
        expected: &HeadTarget,
        operation: &str,
    ) -> (result: GitResult<()>)
        ensures
            session::stepped(
                old(session),
                final(session),
                result,
                ensure_head_target_unchanged_step(
                    old(session).replies(),
                    old(session).at(),
                    self.cwd@,
                    expected.deep_view(),
                    operation@,
                ),
            ),
    {
        let target = self.head_target_in(session)?;
        if !target.same(expected) {
            let message = text::concat2(
                operation,
                " is blocked because the branch target changed since the plan was shown",
            );
            return Err(Halt::Failed(commands::blocked(message.as_str())));
        }
        Ok(())
    }

    /// Refuses an operation where a branch has moved since it was planned.
    pub(crate) fn ensure_branch_target_unchanged_in(
        &self,
        session: &mut Session,
        expected: &BranchTarget,
        operation: &str,
    ) -> (result: GitResult<()>)
        ensures
            session::stepped(
                old(session),
                final(session),
                result,
                ensure_branch_target_unchanged_step(
                    old(session).replies(),
                    old(session).at(),
                    expected.deep_view(),
                    operation@,
                ),
            ),
    {
        match self.branch_target_in(session, expected.name.as_str())? {
            Some(branch) => {
                if branch.same(expected) {
                    Ok(())
                } else {
                    let message = text::concat4(
                        operation,
                        " is blocked because ",
                        expected.name.as_str(),
                        " changed since the plan was shown",
                    );
                    Err(Halt::Failed(commands::blocked(message.as_str())))
                }
            },
            None => {
                let message = text::concat4(
                    operation,
                    " is blocked because ",
                    expected.name.as_str(),
                    " no longer exists",
                );
                Err(Halt::Failed(commands::blocked(message.as_str())))
            },
        }
    }

    /// The status of the working tree.
    pub fn status(&self, replies: &[Reply]) -> (result: GitResult<WorktreeStatus>)
        ensures
            session::outcome(result) == status_step(replies.deep_view(), 0, self.cwd@).result,
    {
        let mut session = Session::new(replies);
        self.status_in(&mut session)
    }

    /// The top directory of the repository.
    pub fn repo_root(&self, replies: &[Reply]) -> (result: GitResult<Vec<u8>>)
        ensures
            session::outcome(result) == repo_root_step(replies.deep_view(), 0).result,
    {
        let mut session = Session::new(replies);
        self.repo_root_in(&mut session)
    }

    /// The remotes of the repository.
    pub fn remotes(&self, replies: &[Reply]) -> (result: GitResult<Vec<Remote>>)
        ensures
            session::outcome(result) == remotes_step(replies.deep_view(), 0).result,
    {
        let mut session = Session::new(replies);
        self.remotes_in(&mut session)
    }

    /// The repository with its remotes and its status.
    pub fn repository(&self, replies: &[Reply]) -> (result: GitResult<Repository>)
        ensures
            session::outcome(result) == repository_step(replies.deep_view(), 0, self.cwd@).result,
    {
        let mut session = Session::new(replies);
        self.repository_in(&mut session)
    }

    /// The branch part of the status.
    pub fn branch_state(&self, replies: &[Reply]) -> (result: GitResult<BranchState>)
        ensures
            session::outcome(result) == branch_state_step(replies.deep_view(), 0, self.cwd@).result,
    {
        let mut session = Session::new(replies);
        self.branch_state_in(&mut session)
    }

    /// The upstream of the branch that is checked out.
    pub fn upstream(&self, replies: &[Reply]) -> (result: GitResult<Option<String>>)
        ensures
            session::outcome(result) == upstream_step(replies.deep_view(), 0, self.cwd@).result,
    {
        let mut session = Session::new(replies);
        self.upstream_in(&mut session)
    }

    /// The local and remote branches.
    pub fn branches(&self, replies: &[Reply]) -> (result: GitResult<Vec<BranchInfo>>)
        ensures
            session::outcome(result) == branches_step(replies.deep_view(), 0).result,
    {
        let mut session = Session::new(replies);
        self.branches_in(&mut session)
    }

    /// The one branch that has a name.
    pub fn branch_target(
        &self,
        name: &str,
        replies: &[Reply],
    ) -> (result: GitResult<Option<BranchTarget>>)
        ensures
            session::outcome(result) == branch_target_step(replies.deep_view(), 0, name@).result,
    {
        let mut session = Session::new(replies);
        self.branch_target_in(&mut session, name)
    }

    /// The commit that `HEAD` stands at, where there is one.
    pub fn head_commit(&self, replies: &[Reply]) -> (result: GitResult<Option<String>>)
        ensures
            session::outcome(result) == head_commit_step(replies.deep_view(), 0, self.cwd@).result,
    {
        let mut session = Session::new(replies);
        self.head_commit_in(&mut session)
    }

    /// The commit and the ref that `HEAD` stands at.
    pub fn head_target(&self, replies: &[Reply]) -> (result: GitResult<HeadTarget>)
        ensures
            session::outcome(result) == head_target_step(replies.deep_view(), 0, self.cwd@).result,
    {
        let mut session = Session::new(replies);
        self.head_target_in(&mut session)
    }

    /// Refuses an operation while another one is in progress, or where the working tree is not clean.
    pub fn ensure_clean_worktree(
        &self,
        operation: &str,
        replies: &[Reply],
    ) -> (result: GitResult<()>)
        ensures
            session::outcome(result) == ensure_clean_worktree_step(
                replies.deep_view(),
                0,
                self.cwd@,
                operation@,
            ).result,
    {
        let mut session = Session::new(replies);
        self.ensure_clean_worktree_in(&mut session, operation)
    }
}

}
