//! Checking out, creating, merging and rebasing branches.
use crate::git::commands;
use crate::git::commands::{Git, GitResult, GitStep};
use crate::git::inspect;
use crate::git::refs;
use crate::git::types::{
    BranchKind, BranchTarget, BranchTargetView, GitOutput, GitOutputView, HeadTarget,
    HeadTargetView, Remote,
};
use crate::session;
use crate::session::{Halt, Reply, ReplyView, Session};
use crate::text;
use crate::words;
use vstd::prelude::*;

verus! {

broadcast use crate::bytes::bytes_are_their_view;

/// Creates a branch at a commit and checks it out.
pub open spec fn switch_to_new_step(
    replies: Seq<ReplyView>,
    at: nat,
    branch: Seq<char>,
    start: Seq<char>,
) -> GitStep<GitOutputView> {
    commands::run_step(replies, at, seq!["switch"@, "-c"@, branch, "--"@, start])
}

/// Refuses to check out a remote branch whose local name is taken.
pub open spec fn ensure_remote_checkout_target_available_step(
    replies: Seq<ReplyView>,
    at: nat,
    branch: BranchTargetView,
) -> GitStep<()> {
    if branch.kind != BranchKind::Remote {
        session::given((), at)
    } else {
        match refs::local_name(branch.name) {
            None => session::failed(
                commands::refusal(
                    "checkout is blocked because remote branch "@ + branch.name
                        + " has no local branch name"@,
                ),
                at,
            ),
            Some(local) => session::followed(
                inspect::branch_target_step(replies, at, local),
                |existing: Option<BranchTargetView>, n: nat|
                    if existing is Some && existing->Some_0.kind == BranchKind::Local {
                        session::failed(
                            commands::refusal(
                                "checkout is blocked because local branch "@ + local
                                    + " already exists; checkout "@ + local + " instead"@,
                            ),
                            n,
                        )
                    } else {
                        session::given((), n)
                    },
            ),
        }
    }
}

/// Checks out a branch: the working tree is clean, and neither `HEAD` nor the branch has moved.
pub open spec fn checkout_branch_step(
    replies: Seq<ReplyView>,
    at: nat,
    cwd: Seq<u8>,
    branch: BranchTargetView,
    expected: HeadTargetView,
) -> GitStep<GitOutputView> {
    session::followed(
        inspect::ensure_clean_worktree_step(replies, at, cwd, "checkout"@),
        |_clean: (), n: nat|
            session::followed(
                inspect::ensure_head_target_unchanged_step(replies, n, cwd, expected, "checkout"@),
                |_head: (), n: nat|
                    session::followed(
                        inspect::ensure_branch_target_unchanged_step(
                            replies,
                            n,
                            branch,
                            "checkout"@,
                        ),
                        |_branch: (), n: nat|
                            match branch.kind {
                                BranchKind::Local => commands::run_step(
                                    replies,
                                    n,
                                    seq!["switch"@, "--"@, branch.name],
                                ),
                                BranchKind::Remote => session::followed(
                                    ensure_remote_checkout_target_available_step(
                                        replies,
                                        n,
                                        branch,
                                    ),
                                    |_free: (), n: nat|
                                        commands::run_step(
                                            replies,
                                            n,
                                            seq!["switch"@, "--track"@, "--"@, branch.name],
                                        ),
                                ),
                            }
                    )
            )
    )
}

/// Refuses a name that Git does not take for a branch.
pub open spec fn ensure_valid_new_branch_name_step(
    replies: Seq<ReplyView>,
    at: nat,
    branch: Seq<char>,
) -> GitStep<()> {
    if branch.len() == 0 || branch[0] == '-' || text::trimmed(branch) != branch {
        session::failed(
            commands::refusal("create branch is blocked because the branch name is invalid"@),
            at,
        )
    } else {
        session::followed(
            commands::tolerated(
                commands::run_step(replies, at, seq!["check-ref-format"@, "--branch"@, branch]),
            ),
            |output: Option<GitOutputView>, n: nat|
                if output is Some {
                    session::given((), n)
                } else {
                    session::failed(
                        commands::refusal(
                            "create branch is blocked because the branch name is invalid"@,
                        ),
                        n,
                    )
                },
        )
    }
}

/// Creates a branch whose name is free at a base that has not moved, or where `HEAD` stands.
pub open spec fn start_new_branch_step(
    replies: Seq<ReplyView>,
    at: nat,
    branch: Seq<char>,
    base: Option<BranchTargetView>,
    expected: HeadTargetView,
) -> GitStep<GitOutputView> {
    if base is None && expected.oid is None {
        session::failed(
            commands::refusal("create branch is blocked because the current branch has no commit"@),
            at,
        )
    } else {
        session::followed(
            inspect::branch_target_step(replies, at, branch),
            |taken: Option<BranchTargetView>, n: nat|
                if taken is Some {
                    session::failed(
                        commands::refusal(
                            "create branch is blocked because "@ + branch + " already exists"@,
                        ),
                        n,
                    )
                } else if base is Some {
                    session::followed(
                        inspect::ensure_branch_target_unchanged_step(
                            replies,
                            n,
                            base->Some_0,
                            "create branch"@,
                        ),
                        |_base: (), n: nat|
                            switch_to_new_step(replies, n, branch, base->Some_0.oid),
                    )
                } else {
                    switch_to_new_step(replies, n, branch, expected.oid->Some_0)
                }
        )
    }
}

/// Creates a branch at a base, or where `HEAD` stands, and checks it out.
pub open spec fn create_branch_step(
    replies: Seq<ReplyView>,
    at: nat,
    cwd: Seq<u8>,
    branch: Seq<char>,
    base: Option<BranchTargetView>,
    expected: HeadTargetView,
) -> GitStep<GitOutputView> {
    session::followed(
        ensure_valid_new_branch_name_step(replies, at, branch),
        |_name: (), n: nat|
            session::followed(
                inspect::ensure_clean_worktree_step(replies, n, cwd, "create branch"@),
                |_clean: (), n: nat|
                    session::followed(
                        inspect::ensure_head_target_unchanged_step(
                            replies,
                            n,
                            cwd,
                            expected,
                            "create branch"@,
                        ),
                        |_head: (), n: nat|
                            start_new_branch_step(replies, n, branch, base, expected)
                    )
            )
    )
}

/// Refuses an operation where one commit does not come after another.
pub open spec fn ensure_ancestor_step(
    replies: Seq<ReplyView>,
    at: nat,
    ancestor: Seq<char>,
    descendant: Seq<char>,
    message: Seq<char>,
) -> GitStep<()> {
    session::followed(
        commands::tolerated(
            commands::run_step(
                replies,
                at,
                seq!["merge-base"@, "--is-ancestor"@, ancestor, descendant],
            ),
        ),
        |output: Option<GitOutputView>, n: nat|
            if output is Some {
                session::given((), n)
            } else {
                session::failed(commands::refusal(message), n)
            }
    )
}

/// Moves the current branch forward to a branch that comes after it.
pub open spec fn merge_ff_only_step(
    replies: Seq<ReplyView>,
    at: nat,
    cwd: Seq<u8>,
    branch: BranchTargetView,
    expected: HeadTargetView,
) -> GitStep<GitOutputView> {
    session::followed(
        inspect::ensure_clean_worktree_step(replies, at, cwd, "merge"@),
        |_clean: (), n: nat|
            session::followed(
                inspect::ensure_head_target_unchanged_step(replies, n, cwd, expected, "merge"@),
                |_head: (), n: nat|
                    session::followed(
                        inspect::ensure_branch_target_unchanged_step(replies, n, branch, "merge"@),
                        |_branch: (), n: nat|
                            if expected.oid is None {
                                session::failed(
                                    commands::refusal(
                                        "merge is blocked because the current branch has no commit"@,
                                    ),
                                    n,
                                )
                            } else {
                                session::followed(
                                    ensure_ancestor_step(
                                        replies,
                                        n,
                                        expected.oid->Some_0,
                                        branch.oid,
                                        "merge is blocked because it cannot fast-forward cleanly"@,
                                    ),
                                    |_forward: (), n: nat|
                                        commands::run_step(
                                            replies,
                                            n,
                                            seq!["merge"@, "--ff-only"@, branch.oid],
                                        ),
                                )
                            }
                    )
            )
    )
}

/// Rebases the current branch onto a branch.
pub open spec fn rebase_onto_step(
    replies: Seq<ReplyView>,
    at: nat,
    cwd: Seq<u8>,
    base: BranchTargetView,
    expected: HeadTargetView,
) -> GitStep<GitOutputView> {
    session::followed(
        inspect::ensure_clean_worktree_step(replies, at, cwd, "rebase"@),
        |_clean: (), n: nat|
            session::followed(
                inspect::ensure_head_target_unchanged_step(replies, n, cwd, expected, "rebase"@),
                |_head: (), n: nat|
                    session::followed(
                        inspect::ensure_branch_target_unchanged_step(replies, n, base, "rebase"@),
                        |_base: (), n: nat|
                            commands::run_step(replies, n, seq!["rebase"@, base.oid])
                    )
            )
    )
}

impl Git {
    /// Refuses to check out a remote branch whose local name is taken.
    pub(crate) fn ensure_remote_checkout_target_available_in(
        &self,
        session: &mut Session,
        branch: &BranchTarget,
    ) -> (result: GitResult<()>)
        ensures
            session::stepped(
                old(session),
                final(session),
                result,
                ensure_remote_checkout_target_available_step(
                    old(session).replies(),
                    old(session).at(),
                    branch.deep_view(),
                ),
            ),
    {
        if branch.kind != BranchKind::Remote {
            return Ok(());
        }
        let local = match refs::local_name_for_remote_branch(branch.name.as_str()) {
            Some(local) => local,
            None => {
                let message = text::concat3(
                    "checkout is blocked because remote branch ",
                    branch.name.as_str(),
                    " has no local branch name",
                );
                return Err(Halt::Failed(commands::blocked(message.as_str())));
            },
        };
        if let Some(existing) = self.branch_target_in(session, local.as_str())? {
            if existing.kind == BranchKind::Local {
                let message = text::concat5(
                    "checkout is blocked because local branch ",
                    local.as_str(),
                    " already exists; checkout ",
                    local.as_str(),
                    " instead",
                );
                return Err(Halt::Failed(commands::blocked(message.as_str())));
            }
        }
        Ok(())
    }

    /// Checks out a branch: the working tree is clean, and neither `HEAD` nor the branch has moved.
    pub(crate) fn checkout_branch_in(
        &self,
        session: &mut Session,
        branch: &BranchTarget,
        expected: &HeadTarget,
    ) -> (result: GitResult<GitOutput>)
        ensures
            session::stepped(
                old(session),
                final(session),
                result,
                checkout_branch_step(
                    old(session).replies(),
                    old(session).at(),
                    self.cwd@,
                    branch.deep_view(),
                    expected.deep_view(),
                ),
            ),
    {
        self.ensure_clean_worktree_in(session, "checkout")?;
        self.ensure_head_target_unchanged_in(session, expected, "checkout")?;
        self.ensure_branch_target_unchanged_in(session, branch, "checkout")?;
        match branch.kind {
            BranchKind::Local => commands::run(
                session,
                words::words3("switch", "--", branch.name.as_str()),
            ),
            BranchKind::Remote => {
                self.ensure_remote_checkout_target_available_in(session, branch)?;
                commands::run(
                    session,
                    words::words4("switch", "--track", "--", branch.name.as_str()),
                )
            },
        }
    }

    /// Refuses a name that Git does not take for a branch.
    pub(crate) fn ensure_valid_new_branch_name_in(
        &self,
        session: &mut Session,
        branch: &str,
    ) -> (result: GitResult<()>)
        ensures
            session::stepped(
                old(session),
                final(session),
                result,
                ensure_valid_new_branch_name_step(
                    old(session).replies(),
                    old(session).at(),
                    branch@,
                ),
            ),
    {
        let characters = text::chars_of(branch);
        if characters.len() == 0 || characters[0] == '-' || !text::same_slice(
            text::trim(characters.as_slice()),
            characters.as_slice(),
        ) {
            return Err(
                Halt::Failed(
                    commands::blocked(
                        "create branch is blocked because the branch name is invalid",
                    ),
                ),
            );
        }
        match commands::run_tolerant(session, words::words3("check-ref-format", "--branch", branch))? {
            Some(_output) => Ok(()),
            None => Err(
                Halt::Failed(
                    commands::blocked(
                        "create branch is blocked because the branch name is invalid",
                    ),
                ),
            ),
        }
    }

    /// Creates a branch whose name is free at a base that has not moved, or where `HEAD` stands.
    pub(crate) fn start_new_branch_in(
        &self,
        session: &mut Session,
        branch: &str,
        base: Option<&BranchTarget>,
        expected: &HeadTarget,
    ) -> (result: GitResult<GitOutput>)
        ensures
            session::stepped(
                old(session),
                final(session),
                result,
                start_new_branch_step(
                    old(session).replies(),
                    old(session).at(),
                    branch@,
                    base.deep_view(),
                    expected.deep_view(),
                ),
            ),
    {
        if base.is_none() && expected.oid.is_none() {
            return Err(
                Halt::Failed(
                    commands::blocked(
                        "create branch is blocked because the current branch has no commit",
                    ),
                ),
            );
        }
        if self.branch_target_in(session, branch)?.is_some() {
            let message = text::concat3(
                "create branch is blocked because ",
                branch,
                " already exists",
            );
            return Err(Halt::Failed(commands::blocked(message.as_str())));
        }
        let start = match base {
            Some(base) => {
                self.ensure_branch_target_unchanged_in(session, base, "create branch")?;
                base.oid.clone()
            },
            None => match &expected.oid {
                Some(oid) => oid.clone(),
                None => {
                    return Err(
                        Halt::Failed(
                            commands::blocked(
                                "create branch is blocked because the current branch has no commit",
                            ),
                        ),
                    );
                },
            },
        };
        commands::run(session, words::words5("switch", "-c", branch, "--", start.as_str()))
    }

    /// Creates a branch at a base, or where `HEAD` stands, and checks it out.
    pub(crate) fn create_branch_in(
        &self,
        session: &mut Session,
        branch: &str,
        base: Option<&BranchTarget>,
        expected: &HeadTarget,
    ) -> (result: GitResult<GitOutput>)
        ensures
            session::stepped(
                old(session),
                final(session),
                result,
                create_branch_step(
                    old(session).replies(),
                    old(session).at(),
                    self.cwd@,
                    branch@,
                    base.deep_view(),
                    expected.deep_view(),
                ),
            ),
    {
        self.ensure_valid_new_branch_name_in(session, branch)?;
        self.ensure_clean_worktree_in(session, "create branch")?;
        self.ensure_head_target_unchanged_in(session, expected, "create branch")?;
        self.start_new_branch_in(session, branch, base, expected)
    }

    /// Refuses an operation where one commit does not come after another.
    pub(crate) fn ensure_ancestor_in(
        &self,
        session: &mut Session,
        ancestor: &str,
        descendant: &str,
        message: &str,
    ) -> (result: GitResult<()>)
        ensures
            session::stepped(
                old(session),
                final(session),
                result,
                ensure_ancestor_step(
                    old(session).replies(),
                    old(session).at(),
                    ancestor@,
                    descendant@,
                    message@,
                ),
            ),
    {
        match commands::run_tolerant(
            session,
            words::words4("merge-base", "--is-ancestor", ancestor, descendant),
        )? {
            Some(_output) => Ok(()),
            None => Err(Halt::Failed(commands::blocked(message))),
        }
    }

    /// Moves the current branch forward to a branch that comes after it.
    pub(crate) fn merge_ff_only_in(
        &self,
        session: &mut Session,
        branch: &BranchTarget,
        expected: &HeadTarget,
    ) -> (result: GitResult<GitOutput>)
        ensures
            session::stepped(
                old(session),
                final(session),
                result,
                merge_ff_only_step(
                    old(session).replies(),
                    old(session).at(),
                    self.cwd@,
                    branch.deep_view(),
                    expected.deep_view(),
                ),
            ),
    {
        self.ensure_clean_worktree_in(session, "merge")?;
        self.ensure_head_target_unchanged_in(session, expected, "merge")?;
        self.ensure_branch_target_unchanged_in(session, branch, "merge")?;
        let current = match &expected.oid {
            Some(oid) => oid,
            None => {
                return Err(
                    Halt::Failed(
                        commands::blocked(
                            "merge is blocked because the current branch has no commit",
                        ),
                    ),
                );
            },
        };
        self.ensure_ancestor_in(
            session,
            current.as_str(),
            branch.oid.as_str(),
            "merge is blocked because it cannot fast-forward cleanly",
        )?;
        commands::run(session, words::words3("merge", "--ff-only", branch.oid.as_str()))
    }

    /// Rebases the current branch onto a branch.
    pub(crate) fn rebase_onto_in(
        &self,
        session: &mut Session,
        base: &BranchTarget,
        expected: &HeadTarget,
    ) -> (result: GitResult<GitOutput>)
        ensures
            session::stepped(
                old(session),
                final(session),
                result,
                rebase_onto_step(
                    old(session).replies(),
                    old(session).at(),
                    self.cwd@,
                    base.deep_view(),
                    expected.deep_view(),
                ),
            ),
    {
        self.ensure_clean_worktree_in(session, "rebase")?;
        self.ensure_head_target_unchanged_in(session, expected, "rebase")?;
        self.ensure_branch_target_unchanged_in(session, base, "rebase")?;
        commands::run(session, words::words2("rebase", base.oid.as_str()))
    }

    /// Refuses to check out a remote branch whose local name is taken.
    pub fn ensure_remote_checkout_target_available(
        &self,
        branch: &BranchTarget,
        replies: &[Reply],
    ) -> (result: GitResult<()>)
        ensures
            session::outcome(result) == ensure_remote_checkout_target_available_step(
                replies.deep_view(),
                0,
                branch.deep_view(),
            ).result,
    {
        let mut session = Session::new(replies);
        self.ensure_remote_checkout_target_available_in(&mut session, branch)
    }

    /// Checks out a branch: the working tree is clean, and neither `HEAD` nor the branch has moved.
    pub fn checkout_branch(
        &self,
        branch: &BranchTarget,
        expected: &HeadTarget,
        replies: &[Reply],
    ) -> (result: GitResult<GitOutput>)
        ensures
            session::outcome(result) == checkout_branch_step(
                replies.deep_view(),
                0,
                self.cwd@,
                branch.deep_view(),
                expected.deep_view(),
            ).result,
    {
        let mut session = Session::new(replies);
        self.checkout_branch_in(&mut session, branch, expected)
    }

    /// Creates a branch at a base, or where `HEAD` stands, and checks it out.
    pub fn create_branch(
        &self,
        branch: &str,
        base: Option<&BranchTarget>,
        expected: &HeadTarget,
        replies: &[Reply],
    ) -> (result: GitResult<GitOutput>)
        ensures
            session::outcome(result) == create_branch_step(
                replies.deep_view(),
                0,
                self.cwd@,
                branch@,
                base.deep_view(),
                expected.deep_view(),
            ).result,
    {
        let mut session = Session::new(replies);
        self.create_branch_in(&mut session, branch, base, expected)
    }

    /// Moves the current branch forward to a branch that comes after it.
    pub fn merge_ff_only(
        &self,
        branch: &BranchTarget,
        expected: &HeadTarget,
        replies: &[Reply],
    ) -> (result: GitResult<GitOutput>)
        ensures
            session::outcome(result) == merge_ff_only_step(
                replies.deep_view(),
                0,
                self.cwd@,
                branch.deep_view(),
                expected.deep_view(),
            ).result,
    {
        let mut session = Session::new(replies);
        self.merge_ff_only_in(&mut session, branch, expected)
    }

    /// Rebases the current branch onto a branch.
    pub fn rebase_onto(
        &self,
        base: &BranchTarget,
        expected: &HeadTarget,
        replies: &[Reply],
    ) -> (result: GitResult<GitOutput>)
        ensures
            session::outcome(result) == rebase_onto_step(
                replies.deep_view(),
                0,
                self.cwd@,
                base.deep_view(),
                expected.deep_view(),
            ).result,
    {
        let mut session = Session::new(replies);
        self.rebase_onto_in(&mut session, base, expected)
    }
}

}
