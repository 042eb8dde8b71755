use bitbygit::git::commands::Git;
use bitbygit::git::types::{
    BranchKind, BranchTarget, ExitStatus, GitError, Head, HeadTarget, IoFailure, OutputStream,
    RepositoryOperation,
};
use bitbygit::session::{Action, FileKind, FileMetadata, Halt, Reply};
use std::collections::{BTreeMap, BTreeSet};

/// A repository in memory that answers what the library asks for.
struct FakeRepo {
    refs: BTreeMap<String, String>,
    head: Option<String>,
    detached: Option<String>,
    parents: BTreeMap<String, String>,
    trees: BTreeMap<String, String>,
    index: String,
    changes: Vec<String>,
    config: BTreeMap<String, String>,
    paths: BTreeSet<String>,
    hooks: BTreeSet<String>,
    scripted: BTreeMap<String, (i32, String)>,
    fetched: Option<String>,
    ran: Vec<String>,
}

fn output(code: i32, stdout: &str) -> Reply {
    Reply::Output {
        status: ExitStatus { code: Some(code), description: format!("exit status: {code}") },
        stdout: stdout.as_bytes().to_vec(),
        stderr: if code == 0 { Vec::new() } else { b"fatal: refused\n".to_vec() },
    }
}

fn text(bytes: &[u8]) -> String {
    String::from_utf8_lossy(bytes).into_owned()
}

impl FakeRepo {
    /// A repository with one commit on `main`.
    fn initialized() -> FakeRepo {
        let mut repo = FakeRepo::unborn();
        repo.refs.insert("refs/heads/main".to_owned(), "c1".to_owned());
        repo.trees.insert("c1".to_owned(), "t1".to_owned());
        repo.index = "t1".to_owned();
        repo
    }

    fn unborn() -> FakeRepo {
        FakeRepo {
            refs: BTreeMap::new(),
            head: Some("refs/heads/main".to_owned()),
            detached: None,
            parents: BTreeMap::new(),
            trees: BTreeMap::new(),
            index: "4b825dc642cb6eb9a060e54bf8d69288fbee4904".to_owned(),
            changes: Vec::new(),
            config: BTreeMap::new(),
            paths: BTreeSet::new(),
            hooks: BTreeSet::new(),
            scripted: BTreeMap::new(),
            fetched: None,
            ran: Vec::new(),
        }
    }

    /// A commit on top of the current branch.
    fn commit(&mut self, oid: &str, tree: &str) {
        if let Some(parent) = self.head_oid() {
            self.parents.insert(oid.to_owned(), parent);
        }
        self.trees.insert(oid.to_owned(), tree.to_owned());
        self.index = tree.to_owned();
        if let Some(head) = &self.head {
            self.refs.insert(head.clone(), oid.to_owned());
        }
    }

    fn head_oid(&self) -> Option<String> {
        match &self.head {
            Some(reference) => self.refs.get(reference).cloned(),
            None => self.detached.clone(),
        }
    }

    fn is_ancestor(&self, ancestor: &str, descendant: &str) -> bool {
        let mut current = Some(descendant.to_owned());
        while let Some(oid) = current {
            if oid == ancestor {
                return true;
            }
            current = self.parents.get(&oid).cloned();
        }
        false
    }

    fn status(&self) -> String {
        let oid = self.head_oid().unwrap_or("(initial)".to_owned());
        let head = match &self.head {
            Some(reference) => reference.replace("refs/heads/", ""),
            None => "(detached)".to_owned(),
        };
        let mut report = format!("# branch.oid {oid}\0# branch.head {head}\0");
        for change in &self.changes {
            report.push_str(change);
            report.push('\0');
        }
        report
    }

    fn branches(&self) -> String {
        let mut list = String::new();
        for (reference, oid) in &self.refs {
            let mark = if Some(reference) == self.head.as_ref() { "*" } else { " " };
            list.push_str(&format!("{reference}\0{oid}\0\0{mark}\n"));
        }
        list
    }

    fn resolve(&self, name: &str) -> Option<String> {
        if name == "HEAD" {
            return self.head_oid();
        }
        if let Some(oid) = name.strip_suffix("^{tree}") {
            return self.trees.get(oid).cloned();
        }
        self.refs.get(name).cloned()
    }

    fn found(value: Option<String>, code: i32) -> Reply {
        match value {
            Some(value) => output(0, &format!("{value}\n")),
            None => output(code, ""),
        }
    }

    fn run(&mut self, args: &[String]) -> Reply {
        let words: Vec<&str> = args.iter().map(String::as_str).collect();
        let line = words.join(" ");
        self.ran.push(line.clone());
        if let Some((code, stdout)) = self.scripted.get(&line) {
            return output(*code, stdout);
        }
        match words.as_slice() {
            ["rev-parse", "--git-path", path] => output(0, &format!(".git/{path}\n")),
            ["rev-parse", "--show-toplevel"] => output(0, "/repo\n"),
            ["rev-parse", "--verify", name] => FakeRepo::found(self.resolve(name), 128),
            ["rev-parse", name] => FakeRepo::found(self.resolve(name), 128),
            ["symbolic-ref", "--quiet", "HEAD"] => FakeRepo::found(self.head.clone(), 1),
            ["status", "--porcelain=v2", "--branch", "-z"] => output(0, &self.status()),
            ["for-each-ref", format, "refs/heads", "refs/remotes"]
                if format.starts_with("--format=%(refname)") =>
            {
                output(0, &self.branches())
            }
            ["check-ref-format", "--branch", name] => {
                output(if name.contains(' ') { 1 } else { 0 }, "")
            }
            ["switch", "--", name] => {
                self.head = Some(format!("refs/heads/{name}"));
                output(0, "")
            }
            ["switch", "--track", "--", name] => {
                let (_, local) = name.split_once('/').unwrap_or(("", name));
                let oid = self.refs[&format!("refs/remotes/{name}")].clone();
                self.refs.insert(format!("refs/heads/{local}"), oid);
                self.head = Some(format!("refs/heads/{local}"));
                output(0, "")
            }
            ["switch", "-c", name, "--", start] => {
                self.refs.insert(format!("refs/heads/{name}"), (*start).to_owned());
                self.head = Some(format!("refs/heads/{name}"));
                output(0, "")
            }
            ["merge-base", "--is-ancestor", ancestor, descendant] => {
                output(if self.is_ancestor(ancestor, descendant) { 0 } else { 1 }, "")
            }
            ["merge", "--ff-only", oid] => {
                if let Some(head) = &self.head {
                    self.refs.insert(head.clone(), (*oid).to_owned());
                }
                output(0, "Fast-forward\n")
            }
            ["rebase", oid] => {
                let rebased = format!("{oid}-rebased");
                self.parents.insert(rebased.clone(), (*oid).to_owned());
                if let Some(head) = &self.head {
                    self.refs.insert(head.clone(), rebased);
                }
                output(0, "rebased\n")
            }
            ["write-tree"] => output(0, &format!("{}\n", self.index)),
            ["commit-tree", tree, "-m", _message] => {
                self.trees.insert("new".to_owned(), (*tree).to_owned());
                output(0, "new\n")
            }
            ["commit-tree", tree, "-p", parent, "-m", _message] => {
                self.trees.insert("new".to_owned(), (*tree).to_owned());
                self.parents.insert("new".to_owned(), (*parent).to_owned());
                output(0, "new\n")
            }
            ["update-ref", "-m", _message, reference, oid, _old] => {
                self.refs.insert((*reference).to_owned(), (*oid).to_owned());
                output(0, "")
            }
            ["update-ref", "-d", reference] => {
                self.refs.remove(*reference);
                output(0, "")
            }
            ["fetch", "--no-write-fetch-head", "--no-tags", "--refmap=", "--", _remote, refspec] => {
                match (&self.fetched, refspec.rsplit_once(':')) {
                    (Some(oid), Some((_, staged))) => {
                        self.refs.insert(staged.to_owned(), oid.clone());
                        output(0, "")
                    }
                    _ => output(1, ""),
                }
            }
            ["config", "--get", key] => FakeRepo::found(self.config.get(*key).cloned(), 1),
            ["config", _option, "--get", key] => {
                FakeRepo::found(self.config.get(*key).cloned(), 1)
            }
            ["push", ..] => output(0, "pushed\n"),
            ["branch", ..] => output(0, "tracking\n"),
            ["add", "--all"] | ["restore", "--staged", ":/"] => output(0, ""),
            ["rm", "--cached", "--ignore-unmatch", "-r", ":/"] => output(0, ""),
            _ => panic!("unexpected command: {line}"),
        }
    }

    fn answer(&mut self, action: &Action) -> Reply {
        match action {
            Action::Run { args } | Action::RunRaw { args } => self.run(args),
            Action::RunPaths { args } => {
                let words: Vec<String> = args.iter().map(|word| text(word)).collect();
                let line = words.join(" ");
                self.ran.push(line.clone());
                match self.scripted.get(&line) {
                    Some((code, stdout)) => output(*code, stdout),
                    None => output(0, ""),
                }
            }
            Action::Exists { path } => Reply::Flag(self.paths.contains(&text(path))),
            Action::Metadata { path } => {
                if self.hooks.contains(&text(path)) {
                    Reply::Metadata(FileMetadata {
                        kind: FileKind::File,
                        device: 1,
                        inode: 2,
                        mode: 0o100755,
                        links: 1,
                        length: 3,
                        modified: 4,
                        modified_nanoseconds: 5,
                        changed: 6,
                        changed_nanoseconds: 7,
                    })
                } else {
                    Reply::Failed(IoFailure {
                        not_found: true,
                        code: Some(2),
                        message: "No such file or directory (os error 2)".to_owned(),
                    })
                }
            }
            Action::NumberFetch => Reply::Number(3),
            Action::ProcessId => Reply::Number(77),
            other => panic!("unexpected action: {other:?}"),
        }
    }
}

fn drive<T>(
    repo: &mut FakeRepo,
    operation: impl Fn(&[Reply]) -> Result<T, Halt<GitError>>,
) -> Result<T, GitError> {
    let mut replies: Vec<Reply> = Vec::new();
    loop {
        match operation(&replies) {
            Ok(value) => return Ok(value),
            Err(Halt::Failed(error)) => return Err(error),
            Err(Halt::Pending(action)) => {
                let reply = repo.answer(&action);
                replies.push(reply);
                assert!(replies.len() < 1000);
            }
        }
    }
}

fn given<T>(result: Result<T, GitError>) -> T {
    match result {
        Ok(value) => value,
        Err(error) => panic!("{}", error.message()),
    }
}

fn refused<T>(result: Result<T, GitError>) -> String {
    match result {
        Ok(_value) => panic!("it was not refused"),
        Err(error) => error.message(),
    }
}

fn git() -> Git {
    Git::new(b"/repo".to_vec())
}

fn head_target(repo: &mut FakeRepo) -> HeadTarget {
    given(drive(repo, |replies| git().head_target(replies)))
}

fn branch_target(repo: &mut FakeRepo, name: &str) -> BranchTarget {
    match given(drive(repo, |replies| git().branch_target(name, replies))) {
        Some(target) => target,
        None => panic!("missing {name}"),
    }
}

#[test]
fn branch_target_blocks_ambiguous_local_and_remote_names() {
    let mut repo = FakeRepo::initialized();
    repo.refs.insert("refs/heads/origin/main".to_owned(), "c1".to_owned());
    repo.refs.insert("refs/remotes/origin/main".to_owned(), "c1".to_owned());

    let error = refused(drive(&mut repo, |replies| git().branch_target("origin/main", replies)));

    assert!(error.contains("ambiguous"));
}

#[test]
fn reads_repository_state_from_temp_repo() {
    let mut repo = FakeRepo::initialized();
    repo.changes = vec![
        "1 .M N... 100644 100644 100644 abc abc README.md".to_owned(),
        "1 A. N... 000000 100644 100644 zero abc staged.txt".to_owned(),
        "? untracked.txt".to_owned(),
    ];
    repo.scripted.insert("remote -v".to_owned(), (0, String::new()));

    let state = given(drive(&mut repo, |replies| git().repository(replies)));

    assert_eq!(state.root, b"/repo".to_vec());
    assert_eq!(state.branch.head, Head::Branch("main".to_owned()));
    assert_eq!(state.status.staged_files().len(), 1);
    assert_eq!(state.status.unstaged_files().len(), 1);
    assert_eq!(state.status.untracked_files().len(), 1);
}

#[test]
fn branch_workflows_create_checkout_merge_and_rebase() {
    let mut repo = FakeRepo::initialized();
    let target = head_target(&mut repo);

    given(drive(&mut repo, |replies| git().create_branch("feature", None, &target, replies)));
    repo.commit("c2", "t2");
    let feature = branch_target(&mut repo, "feature");
    let main = branch_target(&mut repo, "main");
    let target = head_target(&mut repo);
    given(drive(&mut repo, |replies| git().checkout_branch(&main, &target, replies)));
    let target = head_target(&mut repo);
    given(drive(&mut repo, |replies| git().merge_ff_only(&feature, &target, replies)));
    assert_eq!(repo.refs["refs/heads/main"], "c2");

    let target = head_target(&mut repo);
    given(drive(&mut repo, |replies| git().create_branch("topic", None, &target, replies)));
    repo.commit("c3", "t3");
    let main = branch_target(&mut repo, "main");
    let target = head_target(&mut repo);
    given(drive(&mut repo, |replies| git().checkout_branch(&main, &target, replies)));
    repo.commit("c4", "t4");
    let topic = branch_target(&mut repo, "topic");
    let target = head_target(&mut repo);
    given(drive(&mut repo, |replies| git().checkout_branch(&topic, &target, replies)));
    let main = branch_target(&mut repo, "main");
    let target = head_target(&mut repo);
    given(drive(&mut repo, |replies| git().rebase_onto(&main, &target, replies)));

    let head = repo.head_oid().unwrap_or_default();
    assert!(repo.is_ancestor("c4", &head));
}

#[test]
fn branch_workflows_block_dirty_tree() {
    let mut repo = FakeRepo::initialized();
    repo.changes = vec!["1 .M N... 100644 100644 100644 abc abc README.md".to_owned()];
    let target = head_target(&mut repo);

    let error =
        refused(drive(&mut repo, |replies| git().create_branch("feature", None, &target, replies)));

    assert!(error.contains("working tree is not clean"));
    assert!(!repo.ran.iter().any(|line| line.starts_with("switch")));
}

#[test]
fn remote_checkout_blocks_when_local_branch_exists() {
    let mut repo = FakeRepo::initialized();
    repo.refs.insert("refs/remotes/origin/main".to_owned(), "c1".to_owned());
    let remote = branch_target(&mut repo, "origin/main");
    let target = head_target(&mut repo);

    let error =
        refused(drive(&mut repo, |replies| git().checkout_branch(&remote, &target, replies)));

    assert!(error.contains("local branch main already exists"));
}

#[test]
fn branch_workflows_block_in_progress_rebase() {
    let mut repo = FakeRepo::initialized();
    repo.paths.insert("/repo/.git/rebase-merge".to_owned());
    let status = given(drive(&mut repo, |replies| git().status(replies)));
    assert_eq!(status.operation, Some(RepositoryOperation::Rebase));
    let target = head_target(&mut repo);

    let error = refused(drive(&mut repo, |replies| {
        git().create_branch("new-topic", None, &target, replies)
    }));

    assert!(error.contains("rebase operation is in progress"));
}

#[test]
fn detects_both_rebase_backends_and_no_operation_in_clean_repo() {
    let mut repo = FakeRepo::initialized();
    let status = given(drive(&mut repo, |replies| git().status(replies)));
    assert_eq!(status.operation, None);
    for marker in ["rebase-merge", "rebase-apply"] {
        let mut repo = FakeRepo::initialized();
        repo.paths.insert(format!("/repo/.git/{marker}"));
        let status = given(drive(&mut repo, |replies| git().status(replies)));
        assert_eq!(status.operation, Some(RepositoryOperation::Rebase));
    }
}

#[test]
fn paused_am_is_not_reported_as_rebase_and_remains_blocking() {
    let mut repo = FakeRepo::initialized();
    repo.paths.insert("/repo/.git/rebase-apply".to_owned());
    repo.paths.insert("/repo/.git/rebase-apply/applying".to_owned());
    let status = given(drive(&mut repo, |replies| git().status(replies)));
    assert_eq!(status.operation, None);

    let error =
        refused(drive(&mut repo, |replies| git().ensure_clean_worktree("checkout", replies)));

    assert!(error.contains("am operation is in progress"));
}

#[test]
fn cherry_pick_and_revert_markers_remain_blocking() {
    for (marker, name) in [("CHERRY_PICK_HEAD", "cherry-pick"), ("REVERT_HEAD", "revert")] {
        let mut repo = FakeRepo::initialized();
        repo.paths.insert(format!("/repo/.git/{marker}"));
        let error =
            refused(drive(&mut repo, |replies| git().ensure_clean_worktree("checkout", replies)));
        assert!(error.contains(&format!("{name} operation is in progress")));
    }
}

#[test]
fn conflicts_block_before_other_changes() {
    let mut repo = FakeRepo::initialized();
    repo.changes = vec![
        "u UU N... 100644 100644 100644 100644 one two three conflict.txt".to_owned(),
    ];
    let error = refused(drive(&mut repo, |replies| git().ensure_clean_worktree("merge", replies)));
    assert!(error.contains("merge is blocked while conflicts are present"));
}

#[test]
fn moved_targets_are_refused() {
    let mut repo = FakeRepo::initialized();
    repo.refs.insert("refs/heads/topic".to_owned(), "c1".to_owned());
    let topic = branch_target(&mut repo, "topic");
    let target = head_target(&mut repo);

    repo.refs.insert("refs/heads/topic".to_owned(), "c9".to_owned());
    let error =
        refused(drive(&mut repo, |replies| git().checkout_branch(&topic, &target, replies)));
    assert!(error.contains("topic changed since the plan was shown"));

    repo.refs.remove("refs/heads/topic");
    let error =
        refused(drive(&mut repo, |replies| git().checkout_branch(&topic, &target, replies)));
    assert!(error.contains("topic no longer exists"));

    repo.commit("c2", "t2");
    let error =
        refused(drive(&mut repo, |replies| git().checkout_branch(&topic, &target, replies)));
    assert!(error.contains("branch target changed since the plan was shown"));
}

#[test]
fn checks_out_a_remote_branch_under_its_local_name() {
    let mut repo = FakeRepo::initialized();
    repo.refs.insert("refs/remotes/origin/topic".to_owned(), "c1".to_owned());
    let remote = branch_target(&mut repo, "origin/topic");
    assert_eq!(remote.kind, BranchKind::Remote);
    let target = head_target(&mut repo);

    given(drive(&mut repo, |replies| git().checkout_branch(&remote, &target, replies)));

    assert_eq!(repo.head, Some("refs/heads/topic".to_owned()));
}

#[test]
fn new_branches_need_a_free_and_valid_name_and_a_commit() {
    let mut repo = FakeRepo::initialized();
    let target = head_target(&mut repo);
    let error =
        refused(drive(&mut repo, |replies| git().create_branch("a b", None, &target, replies)));
    assert!(error.contains("branch name is invalid"));
    let error =
        refused(drive(&mut repo, |replies| git().create_branch("main", None, &target, replies)));
    assert!(error.contains("main already exists"));

    let mut repo = FakeRepo::unborn();
    let target = head_target(&mut repo);
    assert_eq!(
        target,
        HeadTarget { oid: None, reference: Some("refs/heads/main".to_owned()) }
    );
    let error =
        refused(drive(&mut repo, |replies| git().create_branch("topic", None, &target, replies)));
    assert!(error.contains("current branch has no commit"));
}

#[test]
fn merges_only_fast_forward() {
    let mut repo = FakeRepo::initialized();
    repo.refs.insert("refs/heads/other".to_owned(), "c7".to_owned());
    let other = branch_target(&mut repo, "other");
    let target = head_target(&mut repo);

    let error = refused(drive(&mut repo, |replies| git().merge_ff_only(&other, &target, replies)));

    assert!(error.contains("fast-forward"), "{error}");
    assert!(!repo.ran.iter().any(|line| line.starts_with("merge --ff-only")));
}

#[test]
fn unstages_and_diffs_staged_rename_with_source_and_destination() {
    let mut repo = FakeRepo::initialized();
    let paths = vec![b"old.txt".to_vec(), b"new.txt".to_vec()];
    repo.scripted.insert(
        "diff --cached -- old.txt new.txt".to_owned(),
        (0, "rename from old.txt\nrename to new.txt\n".to_owned()),
    );

    let diff = given(drive(&mut repo, |replies| git().diff_paths(&paths, true, replies)));
    assert!(diff.contains("rename from old.txt"));
    assert!(diff.contains("rename to new.txt"));

    given(drive(&mut repo, |replies| git().unstage_paths(&paths, replies)));

    assert!(repo.ran.contains(&"restore --staged -- old.txt new.txt".to_owned()));
    let status = given(drive(&mut repo, |replies| git().status(replies)));
    assert_eq!(status.staged_files().len(), 0);
}

#[test]
fn stages_and_unstages_all_paths() {
    let mut repo = FakeRepo::initialized();
    given(drive(&mut repo, |replies| git().stage_all(replies)));
    given(drive(&mut repo, |replies| git().unstage_all(replies)));
    assert!(repo.ran.contains(&"add --all".to_owned()));
    assert!(repo.ran.contains(&"restore --staged :/".to_owned()));
}

#[test]
fn unstages_all_paths_in_unborn_repository() {
    let mut repo = FakeRepo::unborn();
    given(drive(&mut repo, |replies| git().unstage_all(replies)));
    assert!(repo.ran.contains(&"rm --cached --ignore-unmatch -r :/".to_owned()));
}

#[test]
fn unstages_selected_path_in_unborn_repository() {
    let mut repo = FakeRepo::unborn();
    given(drive(&mut repo, |replies| git().unstage_path(b"staged.txt", replies)));
    assert!(repo.ran.contains(&"rm --cached --ignore-unmatch -r -- staged.txt".to_owned()));
}

#[test]
fn stages_and_unstages_selected_path() {
    let mut repo = FakeRepo::initialized();
    given(drive(&mut repo, |replies| git().stage_path(b"README.md", replies)));
    given(drive(&mut repo, |replies| git().unstage_path(b"README.md", replies)));
    assert!(repo.ran.contains(&"add -- README.md".to_owned()));
    assert!(repo.ran.contains(&"restore --staged -- README.md".to_owned()));
}

#[test]
fn returns_diff_for_selected_path() {
    let mut repo = FakeRepo::initialized();
    repo.scripted.insert(
        "diff -- README.md".to_owned(),
        (0, "-initial\n+changed\n".to_owned()),
    );
    let diff = given(drive(&mut repo, |replies| git().diff_path(b"README.md", false, replies)));
    assert!(diff.contains("-initial"));
    assert!(diff.contains("+changed"));
}

#[test]
fn commits_staged_changes_with_message() {
    let mut repo = FakeRepo::unborn();
    repo.index = "t1".to_owned();

    let output = given(drive(&mut repo, |replies| git().commit("initial commit", replies)));

    assert!(output.stdout.contains("initial commit"));
    let status = given(drive(&mut repo, |replies| git().status(replies)));
    assert!(status.is_clean());
    assert_eq!(repo.refs["refs/heads/main"], "new");
}

#[test]
fn commit_message_is_passed_without_shell_execution() {
    let mut repo = FakeRepo::unborn();
    repo.index = "t1".to_owned();
    given(drive(&mut repo, |replies| git().commit("literal $(touch owned)", replies)));
    assert!(repo.ran.contains(&"commit-tree t1 -m literal $(touch owned)".to_owned()));
}

#[test]
fn commit_staged_tree_uses_confirmed_tree() {
    let mut repo = FakeRepo::unborn();
    repo.index = "t1".to_owned();
    let tree = given(drive(&mut repo, |replies| git().staged_tree(replies)));
    let target = head_target(&mut repo);

    repo.index = "t2".to_owned();
    repo.changes = vec!["1 A. N... 000000 100644 100644 zero abc injected.txt".to_owned()];
    given(drive(&mut repo, |replies| {
        git().commit_staged_tree("initial commit", &tree, &target, replies)
    }));

    assert_eq!(repo.trees["new"], "t1");
    let status = given(drive(&mut repo, |replies| git().status(replies)));
    assert_eq!(status.staged_files().len(), 1);
}

#[test]
fn commit_staged_tree_rejects_changed_head() {
    let mut repo = FakeRepo::initialized();
    repo.index = "t2".to_owned();
    let tree = given(drive(&mut repo, |replies| git().staged_tree(replies)));
    let target = head_target(&mut repo);
    assert_eq!(target.oid, Some("c1".to_owned()));
    repo.refs.insert("refs/heads/main".to_owned(), "external".to_owned());

    let error = refused(drive(&mut repo, |replies| {
        git().commit_staged_tree("confirmed", &tree, &target, replies)
    }));

    assert!(error.contains("target ref changed"));
    assert_eq!(repo.refs["refs/heads/main"], "external");
}

#[test]
fn commit_staged_tree_rejects_changed_head_ref() {
    let mut repo = FakeRepo::initialized();
    repo.index = "t2".to_owned();
    let tree = given(drive(&mut repo, |replies| git().staged_tree(replies)));
    let target = head_target(&mut repo);
    repo.refs.insert("refs/heads/other".to_owned(), "c1".to_owned());
    repo.head = Some("refs/heads/other".to_owned());

    let error = refused(drive(&mut repo, |replies| {
        git().commit_staged_tree("confirmed", &tree, &target, replies)
    }));

    assert!(error.contains("target ref changed"));
    assert_eq!(Some(repo.refs["refs/heads/other"].as_str()), target.oid.as_deref());
}

#[test]
fn commit_staged_tree_blocks_empty_commit() {
    let mut repo = FakeRepo::initialized();
    let tree = given(drive(&mut repo, |replies| git().staged_tree(replies)));
    let target = head_target(&mut repo);

    let error = refused(drive(&mut repo, |replies| {
        git().commit_staged_tree("empty", &tree, &target, replies)
    }));

    assert!(error.contains("no staged changes"));
}

#[test]
fn commit_staged_tree_blocks_gpgsign_policy() {
    let mut repo = FakeRepo::unborn();
    repo.index = "t1".to_owned();
    repo.config.insert("commit.gpgsign".to_owned(), "true".to_owned());
    let tree = given(drive(&mut repo, |replies| git().staged_tree(replies)));
    let target = head_target(&mut repo);

    let error = refused(drive(&mut repo, |replies| {
        git().commit_staged_tree("initial", &tree, &target, replies)
    }));

    assert!(error.contains("commit.gpgsign"));
}

#[test]
fn commit_staged_tree_blocks_configured_commit_hooks() {
    let mut repo = FakeRepo::unborn();
    repo.index = "t1".to_owned();
    repo.hooks.insert("/repo/.git/hooks/pre-commit".to_owned());
    let target = head_target(&mut repo);

    let error = refused(drive(&mut repo, |replies| {
        git().commit_staged_tree("initial", "t1", &target, replies)
    }));

    assert!(error.contains("pre-commit"));
    assert!(!repo.ran.iter().any(|line| line.starts_with("commit-tree")));
}

#[test]
fn hooks_are_looked_for_where_they_are_configured() {
    let mut repo = FakeRepo::unborn();
    repo.index = "t1".to_owned();
    repo.config.insert("core.hooksPath".to_owned(), "tools/hooks".to_owned());
    repo.hooks.insert("/repo/tools/hooks/commit-msg".to_owned());
    let error = refused(drive(&mut repo, |replies| git().commit("initial", replies)));
    assert!(error.contains("commit hook(s) are configured: commit-msg"));
}

#[test]
fn pushes_with_a_lease_and_only_forward() {
    let mut repo = FakeRepo::initialized();
    repo.commit("c2", "t2");
    given(drive(&mut repo, |replies| {
        git().push_current_branch("origin", "main", "c2", Some("c1"), replies)
    }));
    assert_eq!(
        repo.ran.last().map(String::as_str),
        Some("push --force-with-lease=refs/heads/main:c1 -- origin c2:refs/heads/main")
    );

    let error = refused(drive(&mut repo, |replies| {
        git().push_current_branch("origin", "main", "c2", Some("c9"), replies)
    }));
    assert!(error.contains("would not fast-forward"));
    assert_eq!(
        repo.ran.iter().filter(|line| line.starts_with("push")).count(),
        1
    );
}

#[test]
fn push_current_branch_set_upstream_sets_tracking_branch() {
    let mut repo = FakeRepo::initialized();
    let output = given(drive(&mut repo, |replies| {
        git().push_current_branch_set_upstream("origin", "main", "c1", None, replies)
    }));
    assert_eq!(output.stdout, "pushed\ntracking");
    assert_eq!(
        repo.ran.last().map(String::as_str),
        Some("branch --set-upstream-to=refs/remotes/origin/main main")
    );
}

#[test]
fn pulls_only_what_was_planned() {
    let mut repo = FakeRepo::initialized();
    repo.refs.insert("refs/remotes/origin/main".to_owned(), "c2".to_owned());
    repo.parents.insert("c2".to_owned(), "c1".to_owned());
    let target = head_target(&mut repo);

    let error = refused(drive(&mut repo, |replies| {
        git().pull_ff_only_from("origin", "main", Some("c1"), &target, replies)
    }));
    assert!(error.contains("changed"), "{error}");
    assert_eq!(repo.refs["refs/heads/main"], "c1");

    given(drive(&mut repo, |replies| {
        git().pull_ff_only_from("origin", "main", Some("c2"), &target, replies)
    }));
    assert_eq!(repo.refs["refs/heads/main"], "c2");

    let error = refused(drive(&mut repo, |replies| {
        git().pull_rebase_from("origin", "main", Some("c2"), &target, replies)
    }));
    assert!(error.contains("changed since the plan was shown"), "{error}");
}

#[test]
fn a_planned_fetch_leaves_no_ref_behind() {
    let mut repo = FakeRepo::initialized();
    repo.fetched = Some("c5".to_owned());
    let before = repo.refs.clone();
    let oid = given(drive(&mut repo, |replies| {
        git().fetch_remote_branch_for_plan("origin", "main", replies)
    }));
    assert_eq!(oid, "c5");
    assert_eq!(repo.refs, before);

    repo.fetched = None;
    let error = drive(&mut repo, |replies| {
        git().fetch_remote_branch_for_plan("origin", "main", replies)
    });
    assert!(matches!(error, Err(GitError::GitFailed { .. })));
    assert!(matches!(repo.ran.last(), Some(line) if line.starts_with("update-ref -d ")));
    assert_eq!(repo.refs, before);
}

#[test]
fn push_target_uses_default_simple_in_triangular_workflow() {
    let mut repo = FakeRepo::initialized();
    repo.scripted.insert(
        "for-each-ref --format=%(push:remotename)%00%(push:short) --count=1 -- refs/heads/feature"
            .to_owned(),
        (0, "fork\0fork/feature\n".to_owned()),
    );
    let target = given(drive(&mut repo, |replies| git().push_target("feature", replies)));
    assert_eq!(target, Some(("fork".to_owned(), "feature".to_owned())));
}

#[test]
fn typed_push_target_resolves_tracked_and_new_branches() {
    let mut repo = FakeRepo::initialized();
    repo.config.insert("remote.pushDefault".to_owned(), "origin".to_owned());
    repo.config.insert("push.default".to_owned(), "current".to_owned());
    let target = given(drive(&mut repo, |replies| {
        git().typed_push_target("topic", Some(("fork", "topic")), Some("fork"), replies)
    }));
    assert_eq!(target, Some(("origin".to_owned(), "topic".to_owned())));
    repo.config.insert("branch.topic.pushRemote".to_owned(), "fork".to_owned());
    let target = given(drive(&mut repo, |replies| {
        git().typed_push_target("topic", Some(("fork", "topic")), Some("origin"), replies)
    }));
    assert_eq!(target, Some(("fork".to_owned(), "topic".to_owned())));
    repo.config.insert("branch.new.pushRemote".to_owned(), "fork".to_owned());
    let target = given(drive(&mut repo, |replies| {
        git().typed_push_target("new", None, Some("origin"), replies)
    }));
    assert_eq!(target, Some(("fork".to_owned(), "new".to_owned())));
    repo.config.insert("push.default".to_owned(), "nothing".to_owned());
    let target = given(drive(&mut repo, |replies| {
        git().typed_push_target("topic", Some(("fork", "topic")), Some("origin"), replies)
    }));
    assert_eq!(target, None);
}

#[test]
fn upstream_present_is_returned() {
    let mut repo = FakeRepo::initialized();
    repo.scripted.insert(
        "status --porcelain=v2 --branch -z".to_owned(),
        (
            0,
            "# branch.oid c1\0# branch.head main\0# branch.upstream origin/main\0".to_owned(),
        ),
    );
    let upstream = given(drive(&mut repo, |replies| git().upstream(replies)));
    assert_eq!(upstream, Some("origin/main".to_owned()));
}

#[test]
fn reads_non_utf8_repository_root() {
    let replies = [Reply::Output {
        status: ExitStatus { code: Some(0), description: "exit status: 0".to_owned() },
        stdout: b"/tmp/repo-\xff\n".to_vec(),
        stderr: Vec::new(),
    }];
    match git().repo_root(&replies) {
        Ok(root) => assert_eq!(root, b"/tmp/repo-\xff".to_vec()),
        Err(_) => panic!("expected a root"),
    }
}

#[test]
fn upstream_missing_is_none() {
    let mut repo = FakeRepo::initialized();
    let upstream = given(drive(&mut repo, |replies| git().upstream(replies)));
    assert_eq!(upstream, None);
}

#[test]
fn upstream_unborn_repo_is_none() {
    let mut repo = FakeRepo::unborn();
    let upstream = given(drive(&mut repo, |replies| git().upstream(replies)));
    assert_eq!(upstream, None);
}

#[test]
fn upstream_invalid_repo_is_error() {
    let mut repo = FakeRepo::unborn();
    repo.scripted
        .insert("status --porcelain=v2 --branch -z".to_owned(), (128, String::new()));
    let error = drive(&mut repo, |replies| git().upstream(replies));
    assert!(matches!(error, Err(GitError::GitFailed { .. })));
}

#[test]
fn reads_repository_root_ending_in_carriage_return() {
    let mut repo = FakeRepo::initialized();
    repo.scripted
        .insert("rev-parse --show-toplevel".to_owned(), (0, "/tmp/repo\r\n".to_owned()));
    let root = given(drive(&mut repo, |replies| git().repo_root(replies)));
    assert_eq!(root, b"/tmp/repo\r".to_vec());
}

#[test]
fn remote_push_urls_accepts_leading_hyphen_remote() {
    let mut repo = FakeRepo::initialized();
    repo.scripted.insert(
        "remote get-url --push --all -- -origin".to_owned(),
        (0, "https://example.invalid/repo.git\n".to_owned()),
    );
    let urls = given(drive(&mut repo, |replies| git().remote_push_urls("-origin", replies)));
    assert_eq!(urls, vec!["https://example.invalid/repo.git".to_owned()]);
}

#[test]
fn reads_how_far_branches_are_apart() {
    let mut repo = FakeRepo::initialized();
    repo.scripted.insert(
        "rev-list --left-right --count main...origin/main".to_owned(),
        (0, "2\t5\n".to_owned()),
    );
    let counts = given(drive(&mut repo, |replies| {
        git().ahead_behind("main", "origin/main", replies)
    }));
    assert_eq!(counts, (2, 5));
    repo.scripted.insert(
        "rev-list --left-right --count main...origin/main".to_owned(),
        (0, "2\t5\t7\n".to_owned()),
    );
    let error = refused(drive(&mut repo, |replies| {
        git().ahead_behind("main", "origin/main", replies)
    }));
    assert!(error.contains("unexpected extra ahead/behind count"));
}

#[test]
fn failures_keep_what_the_command_said() {
    let mut repo = FakeRepo::initialized();
    repo.scripted.insert("fetch".to_owned(), (1, "partial\n".to_owned()));
    let error = drive(&mut repo, |replies| git().fetch_default_remote(replies));
    match error {
        Err(GitError::GitFailed { args, status, stdout, stderr }) => {
            assert_eq!(args, vec!["fetch".to_owned()]);
            assert_eq!(status.code, Some(1));
            assert_eq!(stdout, "partial\n");
            assert_eq!(stderr, "fatal: refused\n");
        }
        _ => panic!("expected a failure of git"),
    }
}

#[test]
fn output_that_is_not_text_is_refused() {
    let replies = [Reply::Output {
        status: ExitStatus { code: Some(0), description: "exit status: 0".to_owned() },
        stdout: vec![0xff],
        stderr: Vec::new(),
    }];
    match git().fetch_default_remote(&replies) {
        Err(Halt::Failed(GitError::Utf8 { args, stream, detail })) => {
            assert_eq!(args, vec!["fetch".to_owned()]);
            assert_eq!(stream, OutputStream::Stdout);
            assert_eq!(detail, "invalid utf-8 sequence of 1 bytes from index 0");
        }
        _ => panic!("expected a refusal"),
    }
}

#[test]
fn a_command_that_cannot_start_is_reported() {
    let failure = IoFailure { not_found: true, code: Some(2), message: "no git".to_owned() };
    match git().fetch_default_remote(&[Reply::Failed(failure.clone())]) {
        Err(Halt::Failed(error)) => {
            assert_eq!(
                error,
                GitError::Io { args: vec!["fetch".to_owned()], source: failure }
            );
            assert!(error.message().contains("no git"));
        }
        _ => panic!("expected a failure"),
    }
}

#[test]
fn an_answer_of_another_kind_is_not_taken() {
    for reply in [Reply::Done, Reply::Number(1), Reply::Missing] {
        match git().fetch_default_remote(&[reply]) {
            Err(Halt::Pending(action)) => {
                assert_eq!(action, Action::Run { args: vec!["fetch".to_owned()] });
            }
            _ => panic!("expected the same question"),
        }
    }
}
