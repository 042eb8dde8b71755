use bitbygit::git::commands::Git;
use bitbygit::git::recovery::bounded::{
    capture_limit, decide_run, digests_all_output, poll_delay, BoundedRunDecision, OutputDrain,
};
use bitbygit::git::recovery::drivers::{
    is_recovery_external_driver_config, recovery_filter_driver,
};
use bitbygit::git::recovery::files::{
    ensure_recovery_git_version, parse_remaining_rebase_commit_oids,
};
use bitbygit::git::recovery::lock::{
    recovery_lock_key_from_path, recovery_repository_key, resolve_recovery_data_dir,
};
use bitbygit::git::recovery::operations::{validate_recovery_action, RecoveryState};
use bitbygit::git::types::{
    ExitStatus, GitError, GitOutput, IoFailure, RecoveryAction, RepositoryOperation,
};
use bitbygit::session::{
    Action, BoundedCommandOutput, BoundedCommandPolicy, CapturedStream, FileKind, FileMetadata,
    Halt, Reply,
};
use std::collections::{BTreeMap, BTreeSet};

const TOPIC: &str = "1111111111111111111111111111111111111111";

#[derive(Clone)]
enum Node {
    File(Vec<u8>),
    Directory,
    Symlink(String),
    Pipe,
}

/// A repository in memory, with the files of Git and of its working tree.
#[derive(Clone)]
struct World {
    nodes: BTreeMap<String, (u64, u32, Node)>,
    config: BTreeMap<String, String>,
    outputs: BTreeMap<String, (i32, String)>,
    environment: BTreeMap<String, String>,
    locked: BTreeSet<String>,
    handles: Vec<(String, usize)>,
    executed: Vec<String>,
    expired: bool,
    on_fence: Option<(usize, String)>,
    checks: usize,
    respelled: Vec<String>,
    next_inode: u64,
}

fn text(bytes: &[u8]) -> String {
    String::from_utf8_lossy(bytes).into_owned()
}

fn missing() -> Reply {
    Reply::Failed(IoFailure {
        not_found: true,
        code: Some(2),
        message: "No such file or directory (os error 2)".to_owned(),
    })
}

fn git() -> Git {
    Git::new(b"/repo".to_vec())
}

fn captured(bytes: &[u8], policy: BoundedCommandPolicy, optional_locks: bool) -> (CapturedStream, bool) {
    let drain = OutputDrain::new(
        git().output_limit(optional_locks),
        capture_limit(policy),
        digests_all_output(policy),
    );
    let (drain, exceeded) = drain.push(bytes);
    (drain.finish(), exceeded)
}

impl World {
    fn clean() -> World {
        let mut world = World {
            nodes: BTreeMap::new(),
            config: BTreeMap::new(),
            outputs: BTreeMap::new(),
            environment: BTreeMap::new(),
            locked: BTreeSet::new(),
            handles: Vec::new(),
            executed: Vec::new(),
            expired: false,
            on_fence: None,
            checks: 0,
            respelled: Vec::new(),
            next_inode: 1,
        };
        world.environment.insert("BITBYGIT_DATA_DIR".to_owned(), "/data".to_owned());
        for directory in ["/", "/repo", "/repo/.git", "/repo/.git/hooks", "/data"] {
            world.add(directory, 0o040755, Node::Directory);
        }
        world.write("/repo/.git/HEAD", "ref: refs/heads/main\n");
        world.write("/repo/.git/index", "index");
        world.write("/repo/README.md", "initial\n");
        world
    }

    fn merging() -> World {
        let mut world = World::clean();
        world.write("/repo/.git/MERGE_HEAD", "2222222222222222222222222222222222222222\n");
        world.write("/repo/.git/MERGE_MSG", "Merge branch 'other'\n");
        world.write("/repo/.git/ORIG_HEAD", "3333333333333333333333333333333333333333\n");
        world
    }

    fn rebasing() -> World {
        let mut world = World::clean();
        world.add("/repo/.git/rebase-merge", 0o040755, Node::Directory);
        world.write("/repo/.git/rebase-merge/orig-head", &format!("{TOPIC}\n"));
        world.write("/repo/.git/rebase-merge/git-rebase-todo", "");
        world
    }

    fn add(&mut self, path: &str, mode: u32, node: Node) {
        self.nodes.insert(path.to_owned(), (self.next_inode, mode, node));
        self.next_inode += 1;
    }

    fn write(&mut self, path: &str, contents: &str) {
        self.add(path, 0o100644, Node::File(contents.as_bytes().to_vec()));
    }

    fn metadata_of(&self, path: &str) -> Option<FileMetadata> {
        self.nodes.get(path).map(|(inode, mode, node)| FileMetadata {
            kind: match node {
                Node::File(_) => FileKind::File,
                Node::Directory => FileKind::Directory,
                Node::Symlink(_) => FileKind::Symlink,
                Node::Pipe => FileKind::Other,
            },
            device: 1,
            inode: *inode,
            mode: *mode,
            links: 1,
            length: match node {
                Node::File(contents) => contents.len() as u64,
                _ => 0,
            },
            modified: 10,
            modified_nanoseconds: 0,
            changed: *inode as i64,
            changed_nanoseconds: 0,
        })
    }

    fn followed(&self, path: &str) -> String {
        match self.nodes.get(path) {
            Some((_, _, Node::Symlink(target))) => target.clone(),
            _ => path.to_owned(),
        }
    }

    fn children(&self, path: &str) -> Vec<String> {
        let prefix = format!("{path}/");
        self.nodes
            .keys()
            .filter_map(|name| name.strip_prefix(&prefix))
            .filter(|name| !name.contains('/'))
            .map(str::to_owned)
            .collect()
    }

    fn status_of_git(&self) -> Option<RepositoryOperation> {
        if self.nodes.contains_key("/repo/.git/rebase-merge") {
            Some(RepositoryOperation::Rebase)
        } else if self.nodes.contains_key("/repo/.git/MERGE_HEAD") {
            Some(RepositoryOperation::Merge)
        } else {
            None
        }
    }

    fn git_output(&mut self, words: &[&str]) -> (i32, String) {
        let line = words.join(" ");
        if let Some(answer) = self.outputs.get(&line) {
            return answer.clone();
        }
        match words {
            ["version"] => (0, "git version 2.45.1\n".to_owned()),
            ["rev-parse", "--path-format=absolute", "--git-path", path] => {
                (0, format!("/repo/.git/{path}\n"))
            }
            ["rev-parse", "--show-toplevel"] => (0, "/repo\n".to_owned()),
            ["config", "--get", key] => match self.config.get(*key) {
                Some(value) => (0, format!("{value}\n")),
                None => (1, String::new()),
            },
            ["config", "--path", "--get", key] => match self.config.get(*key) {
                Some(value) => (0, format!("{value}\n")),
                None => (1, String::new()),
            },
            ["config", "--name-only", "--null", "--list"] => {
                (0, self.config.keys().map(|key| format!("{key}\0")).collect())
            }
            ["config", "--null", "--list", "--show-origin", "--show-scope"] => {
                (0, self.config.iter().map(|(key, value)| format!("{key}\n{value}\0")).collect())
            }
            ["var", _variable] => (1, String::new()),
            ["diff", "--quiet", "--diff-filter=U", "--"] => (0, String::new()),
            ["status", ..] | ["diff", ..] | ["for-each-ref", ..] | ["ls-files", ..] => {
                (0, String::new())
            }
            ["ls-tree", ..] | ["show", ..] => (0, String::new()),
            ["check-attr", ..] => (0, String::new()),
            ["merge", "--abort"] | ["merge", "--continue"] => {
                self.executed.push(line);
                self.nodes.remove("/repo/.git/MERGE_HEAD");
                (0, "done\n".to_owned())
            }
            ["rebase", "--abort"] | ["rebase", "--continue"] | ["rebase", "--skip"] => {
                self.executed.push(line);
                self.nodes.retain(|path, _| !path.starts_with("/repo/.git/rebase-merge"));
                (0, "done\n".to_owned())
            }
            _ => panic!("unexpected command: {line}"),
        }
    }

    fn answer(&mut self, action: &Action) -> Reply {
        match action {
            Action::StartDeadline { .. } => Reply::Done,
            Action::CheckDeadline => {
                if self.expired {
                    Reply::TimedOut
                } else {
                    Reply::Done
                }
            }
            Action::RunBounded { args, optional_locks, policy } => {
                let words: Vec<&str> = args.iter().map(String::as_str).collect();
                let (code, stdout) = self.git_output(&words);
                let (stdout, exceeded) = captured(stdout.as_bytes(), *policy, *optional_locks);
                let (stderr, _) = captured(b"", *policy, *optional_locks);
                Reply::Captured {
                    output: BoundedCommandOutput {
                        status: ExitStatus {
                            code: Some(code),
                            description: format!("exit status: {code}"),
                        },
                        stdout,
                        stderr,
                    },
                    exceeded,
                }
            }
            Action::Exists { path } => Reply::Flag(self.nodes.contains_key(&text(path))),
            Action::IsDirectory { path } => {
                let kind = self.metadata_of(&text(path)).map(|metadata| metadata.kind);
                Reply::Flag(kind == Some(FileKind::Directory))
            }
            Action::Metadata { path } => match self.metadata_of(&self.followed(&text(path))) {
                Some(metadata) => Reply::Metadata(metadata),
                None => missing(),
            },
            Action::LinkMetadata { path } => match self.metadata_of(&text(path)) {
                Some(metadata) => Reply::Metadata(metadata),
                None => missing(),
            },
            Action::ReadLink { path } => match self.nodes.get(&text(path)) {
                Some((_, _, Node::Symlink(target))) => {
                    if self.respelled.is_empty() {
                        Reply::Bytes(target.as_bytes().to_vec())
                    } else {
                        let spelling = self.respelled.remove(0);
                        Reply::Bytes(spelling.into_bytes())
                    }
                }
                _ => missing(),
            },
            Action::Open { path } => {
                let path = text(path);
                if let Some((count, changed)) = self.on_fence.clone() {
                    if path == changed {
                        self.checks += 1;
                        if self.checks == count {
                            self.write(&changed, "changed\n");
                        }
                    }
                }
                match self.metadata_of(&path) {
                    None => Reply::Missing,
                    Some(metadata) if metadata.kind == FileKind::Symlink => Reply::Symlink,
                    Some(metadata) => {
                        self.handles.push((path, 0));
                        Reply::Opened { handle: self.handles.len() as u64 - 1, metadata }
                    }
                }
            }
            Action::Read { handle, limit } => {
                let (path, offset) = self.handles[*handle as usize].clone();
                match self.nodes.get(&path) {
                    Some((_, _, Node::File(contents))) => {
                        let end = contents.len().min(offset + *limit as usize);
                        let chunk = contents[offset..end].to_vec();
                        self.handles[*handle as usize].1 = end;
                        Reply::Bytes(chunk)
                    }
                    _ => missing(),
                }
            }
            Action::HandleMetadata { handle } => {
                match self.metadata_of(&self.handles[*handle as usize].0) {
                    Some(metadata) => Reply::Metadata(metadata),
                    None => missing(),
                }
            }
            Action::OpenDirectory { handle } => {
                self.handles[*handle as usize].1 = 0;
                Reply::Done
            }
            Action::NextChild { handle } => {
                let (path, index) = self.handles[*handle as usize].clone();
                self.handles[*handle as usize].1 += 1;
                match self.children(&path).get(index) {
                    Some(name) => Reply::Bytes(name.as_bytes().to_vec()),
                    None => Reply::Missing,
                }
            }
            Action::Canonicalize { path } => Reply::Bytes(path.clone()),
            Action::CreateDirectories { path } => {
                let path = text(path);
                if !self.nodes.contains_key(&path) {
                    self.add(&path, 0o040755, Node::Directory);
                }
                Reply::Done
            }
            Action::OpenLock { path } => {
                let path = text(path);
                if !self.nodes.contains_key(&path) {
                    self.add(&path, 0o100600, Node::File(Vec::new()));
                }
                self.handles.push((path, 0));
                Reply::Number(self.handles.len() as u64 - 1)
            }
            Action::Lock { handle } => {
                let path = &self.handles[*handle as usize].0;
                if self.locked.contains(path) {
                    Reply::Refused {
                        source: IoFailure {
                            not_found: false,
                            code: Some(11),
                            message: "Resource temporarily unavailable".to_owned(),
                        },
                        contended: Some(11),
                    }
                } else {
                    Reply::Done
                }
            }
            Action::Environment { name } => match self.environment.get(name) {
                Some(value) => Reply::Bytes(value.as_bytes().to_vec()),
                None => Reply::Missing,
            },
            other => panic!("unexpected action: {other:?}"),
        }
    }
}

fn drive<T>(
    world: &mut World,
    operation: impl Fn(&[Reply]) -> Result<T, Halt<GitError>>,
) -> Result<T, GitError> {
    let mut replies: Vec<Reply> = Vec::new();
    loop {
        match operation(&replies) {
            Ok(value) => return Ok(value),
            Err(Halt::Failed(error)) => return Err(error),
            Err(Halt::Pending(action)) => {
                let reply = world.answer(&action);
                replies.push(reply);
                assert!(replies.len() < 5000);
            }
        }
    }
}

fn given<T>(result: Result<T, GitError>) -> T {
    match result {
        Ok(value) => value,
        Err(error) => panic!("{}", error.message()),
    }
}

fn refused<T>(result: Result<T, GitError>) -> String {
    match result {
        Ok(_value) => panic!("it was not refused"),
        Err(error) => error.message(),
    }
}

fn recover(
    world: &mut World,
    operation: RepositoryOperation,
    action: RecoveryAction,
) -> Result<GitOutput, GitError> {
    drive(world, |replies| git().recover(operation, action, replies))
}

fn prepare(
    world: &mut World,
    operation: RepositoryOperation,
    action: RecoveryAction,
) -> Result<RecoveryState, GitError> {
    drive(world, |replies| git().prepare_recovery(operation, action, replies))
}

fn recover_exact(
    world: &mut World,
    operation: RepositoryOperation,
    action: RecoveryAction,
    expected: &RecoveryState,
) -> Result<GitOutput, GitError> {
    drive(world, |replies| git().recover_exact(operation, action, expected, replies))
}

#[test]
fn recovery_output_drainer_retains_only_hard_bounded_memory() {
    let drain = OutputDrain::new(1024, 4096, true);
    let (drain, exceeded) = drain.push(&[b'x'; 8192]);
    let capture = drain.finish();

    assert_eq!(capture.bytes.len(), 1024);
    assert!(capture.truncated);
    assert!(exceeded);
}

#[test]
fn output_is_drained_chunk_by_chunk() {
    let whole = OutputDrain::new(100, 50, true).push(b"hello world").0.finish();
    let (drain, exceeded) = OutputDrain::new(100, 50, true).push(b"hello ");
    assert!(!exceeded);
    let parts = drain.push(b"world").0.finish();
    assert_eq!(whole, parts);
    assert_eq!(whole.bytes, b"hello world".to_vec());
    assert!(!whole.truncated);
    assert_eq!(whole.lossy_text(), "hello world");

    let other = OutputDrain::new(100, 50, true).push(b"hello worlds").0.finish();
    assert_ne!(whole.digest, other.digest);
}

#[test]
fn recovery_reports_clear_minimum_git_version() {
    let error = refused(ensure_recovery_git_version(b"git version 2.41.3"));
    assert!(error.contains("requires Git 2.42 or newer"));
    given(ensure_recovery_git_version(b"git version 2.42.0"));
    given(ensure_recovery_git_version(b"git version 2.55.0.windows.1"));
}

#[test]
fn versions_that_cannot_be_read_are_refused() {
    for version in [&b"git version"[..], b"git version x.y", b"version 2.45.0", b"\xff", b""] {
        assert!(ensure_recovery_git_version(version).is_err());
    }
    given(ensure_recovery_git_version(b"git version 3.0.0\n"));
}

#[test]
fn recovery_storage_uses_bitbygit_data_root_precedence() {
    let resolved = resolve_recovery_data_dir(
        Some(b"/custom/data"),
        Some(b"/xdg/data"),
        Some(b"/appdata"),
        Some(b"/home/test"),
    );
    assert_eq!(resolved, Some(b"/custom/data".to_vec()));

    let resolved =
        resolve_recovery_data_dir(None, Some(b"/xdg/data"), None, Some(b"/home/test"));
    assert_eq!(resolved, Some(b"/xdg/data/bitbygit".to_vec()));

    let resolved = resolve_recovery_data_dir(None, None, Some(b"/appdata"), None);
    assert_eq!(resolved, Some(b"/appdata/bitbygit/data".to_vec()));
    let resolved = resolve_recovery_data_dir(None, None, None, Some(b"/home/test"));
    assert_eq!(resolved, Some(b"/home/test/.local/share/bitbygit".to_vec()));
    assert_eq!(resolve_recovery_data_dir(None, None, None, None), None);
}

#[test]
fn recovery_rejects_merge_skip_absent_state_and_mismatched_state() {
    let mut clean = World::clean();
    for (operation, action) in [
        (RepositoryOperation::Merge, RecoveryAction::Continue),
        (RepositoryOperation::Merge, RecoveryAction::Abort),
        (RepositoryOperation::Rebase, RecoveryAction::Continue),
        (RepositoryOperation::Rebase, RecoveryAction::Abort),
        (RepositoryOperation::Rebase, RecoveryAction::Skip),
    ] {
        let error = refused(recover(&mut clean, operation, action));
        assert!(error.contains("no"));
        assert!(error.contains("operation is active"));
    }

    let mut merge = World::merging();
    let error = refused(recover(&mut merge, RepositoryOperation::Merge, RecoveryAction::Skip));
    assert!(error.contains("does not support"));
    assert_eq!(merge.status_of_git(), Some(RepositoryOperation::Merge));

    let error = refused(recover(&mut merge, RepositoryOperation::Rebase, RecoveryAction::Abort));
    assert!(error.contains("merge operation is active"));
    assert_eq!(merge.status_of_git(), Some(RepositoryOperation::Merge));
    assert!(merge.executed.is_empty());
    assert!(
        validate_recovery_action(RepositoryOperation::Merge, RecoveryAction::Skip).is_err()
    );
    assert!(
        validate_recovery_action(RepositoryOperation::Rebase, RecoveryAction::Skip).is_ok()
    );
}

#[test]
fn rebase_continue_reports_the_next_conflict_then_finishes() {
    let mut world = World::rebasing();
    world.outputs.insert(
        "rebase --continue".to_owned(),
        (1, "CONFLICT (content): Merge conflict in second.txt\n".to_owned()),
    );

    match recover(&mut world, RepositoryOperation::Rebase, RecoveryAction::Continue) {
        Err(GitError::GitFailed { args, stdout, stderr, .. }) => {
            assert_eq!(args, vec!["rebase".to_owned(), "--continue".to_owned()]);
            assert!(format!("{stdout}\n{stderr}").contains("second.txt"));
        }
        Err(error) => panic!("expected a failure of git, got {}", error.message()),
        Ok(_) => panic!("expected rebase to stop at the next conflict"),
    }
    assert_eq!(world.status_of_git(), Some(RepositoryOperation::Rebase));

    world
        .outputs
        .insert("diff --quiet --diff-filter=U --".to_owned(), (1, String::new()));
    let error =
        refused(recover(&mut world, RepositoryOperation::Rebase, RecoveryAction::Continue));
    assert!(error.contains("rebase continue is blocked while unresolved conflicts are present"));

    world.outputs.clear();
    given(recover(&mut world, RepositoryOperation::Rebase, RecoveryAction::Continue));
    assert_eq!(world.status_of_git(), None);
    assert_eq!(world.executed, vec!["rebase --continue".to_owned()]);
}

#[test]
fn merge_abort_clears_operation_and_restores_head() {
    let mut world = World::merging();
    let output = given(recover(&mut world, RepositoryOperation::Merge, RecoveryAction::Abort));
    assert_eq!(output.stdout, "done\n");
    assert_eq!(world.status_of_git(), None);
    assert_eq!(world.executed, vec!["merge --abort".to_owned()]);
}

#[test]
fn rebase_abort_clears_operation_and_restores_head() {
    let mut world = World::rebasing();
    given(recover(&mut world, RepositoryOperation::Rebase, RecoveryAction::Abort));
    assert_eq!(world.status_of_git(), None);
    assert_eq!(world.executed, vec!["rebase --abort".to_owned()]);
}

#[test]
fn recovery_platform_end_to_end_exact_merge_and_rebase() {
    for (mut world, operation) in [
        (World::merging(), RepositoryOperation::Merge),
        (World::rebasing(), RepositoryOperation::Rebase),
    ] {
        let expected = given(prepare(&mut world, operation, RecoveryAction::Abort));
        assert!(world.executed.is_empty());
        given(recover_exact(&mut world, operation, RecoveryAction::Abort, &expected));
        assert_eq!(world.status_of_git(), None);
    }
}

#[test]
fn exact_recovery_rejects_changed_merge_control_input() {
    let mut world = World::merging();
    let expected =
        given(prepare(&mut world, RepositoryOperation::Merge, RecoveryAction::Abort));
    world.write("/repo/.git/MERGE_MSG", "changed message\n");

    let error = refused(recover_exact(
        &mut world,
        RepositoryOperation::Merge,
        RecoveryAction::Abort,
        &expected,
    ));

    assert!(error.contains("repository state changed after preview"));
    assert_eq!(world.status_of_git(), Some(RepositoryOperation::Merge));
    assert!(world.executed.is_empty());
}

#[test]
fn exact_recovery_rejects_changed_merge_autostash() {
    let mut world = World::merging();
    let expected =
        given(prepare(&mut world, RepositoryOperation::Merge, RecoveryAction::Abort));
    world.write("/repo/.git/MERGE_AUTOSTASH", "4444444444444444444444444444444444444444\n");

    let error = refused(recover_exact(
        &mut world,
        RepositoryOperation::Merge,
        RecoveryAction::Abort,
        &expected,
    ));

    assert!(error.contains("repository state changed after preview"));
    assert!(world.executed.is_empty());
}

#[test]
fn exact_recovery_rejects_changed_untracked_contents() {
    let untracked = "ls-files --others --exclude-standard --full-name -z --".to_owned();
    let mut world = World::merging();
    world.write("/repo/notes.txt", "before\n");
    world.outputs.insert(untracked, (0, "notes.txt\0".to_owned()));
    let expected =
        given(prepare(&mut world, RepositoryOperation::Merge, RecoveryAction::Abort));
    world.write("/repo/notes.txt", "after!\n");

    let error = refused(recover_exact(
        &mut world,
        RepositoryOperation::Merge,
        RecoveryAction::Abort,
        &expected,
    ));

    assert!(error.contains("repository state changed after preview"));
    assert!(world.executed.is_empty());
}

#[test]
fn recovery_fingerprint_tracks_refs_index_config_hooks_and_progress() {
    let mut world = World::rebasing();
    let before = given(drive(&mut world, |replies| git().recovery_state(replies)));
    let again = given(drive(&mut world, |replies| git().recovery_state(replies)));
    assert!(before.same(&again));

    let mut changed = world.clone();
    changed.write("/repo/.git/index", "other index");
    let state = given(drive(&mut changed, |replies| git().recovery_state(replies)));
    assert!(!before.same(&state));

    let mut changed = world.clone();
    changed.config.insert("rerere.enabled".to_owned(), "true".to_owned());
    let state = given(drive(&mut changed, |replies| git().recovery_state(replies)));
    assert!(!before.same(&state));

    let mut changed = world.clone();
    changed.write("/repo/.git/hooks/post-merge.sample", "#!/bin/sh\n");
    let state = given(drive(&mut changed, |replies| git().recovery_state(replies)));
    assert!(!before.same(&state));

    let mut changed = world.clone();
    changed.write("/repo/.git/rebase-merge/msgnum", "2\n");
    let state = given(drive(&mut changed, |replies| git().recovery_state(replies)));
    assert!(!before.same(&state));

    let mut changed = world.clone();
    changed.outputs.insert(
        "for-each-ref --sort=refname --format=%(refname)%00%(objectname)%00%(symref)%00".to_owned(),
        (0, "refs/heads/main\0c9\0\0\n".to_owned()),
    );
    let state = given(drive(&mut changed, |replies| git().recovery_state(replies)));
    assert!(!before.same(&state));
}

#[test]
fn recovery_fingerprint_tracks_symlinked_hook_target_contents() {
    let mut world = World::merging();
    world.write("/shared-hook", "first\n");
    world.add(
        "/repo/.git/hooks/shared",
        0o120777,
        Node::Symlink("/shared-hook".to_owned()),
    );
    let before = given(drive(&mut world, |replies| git().recovery_state(replies)));
    world.write("/shared-hook", "other\n");
    let after = given(drive(&mut world, |replies| git().recovery_state(replies)));
    assert!(!before.same(&after));
}

#[test]
fn link_targets_are_compared_part_by_part() {
    let link = "/repo/.git/hooks/shared";
    let mut world = World::merging();
    world.write("/shared/hook", "first\n");
    world.add(link, 0o120777, Node::Symlink("/shared/hook".to_owned()));
    let before = given(drive(&mut world, |replies| git().recovery_state(replies)));

    world.respelled = vec!["/shared/hook".to_owned(), "/shared/./hook".to_owned()];
    let again = given(drive(&mut world, |replies| git().recovery_state(replies)));
    assert!(before.same(&again));
    assert!(world.respelled.is_empty());

    world.respelled = vec!["/shared/hook".to_owned(), "/shared///hook/".to_owned()];
    let again = given(drive(&mut world, |replies| git().recovery_state(replies)));
    assert!(before.same(&again));

    world.respelled = vec!["/shared/hook".to_owned(), "/shared/other".to_owned()];
    let error = refused(drive(&mut world, |replies| git().recovery_state(replies)));
    assert!(error.contains("changed while it was fingerprinted"), "{error}");
}

#[test]
fn undone_changes_give_the_old_fingerprint() {
    let refs = "for-each-ref --sort=refname --format=%(refname)%00%(objectname)%00%(symref)%00";
    let mut world = World::merging();
    world.write("/repo/.git/MERGE_RR", "before\n");
    let before = given(drive(&mut world, |replies| git().recovery_state(replies)));

    for name in ["MERGE_RR", "MERGE_AUTOSTASH", "index", "hooks/post-merge.sample"] {
        let path = format!("/repo/.git/{name}");
        let mut changed = world.clone();
        changed.write(&path, "changed\n");
        let state = given(drive(&mut changed, |replies| git().recovery_state(replies)));
        assert!(!before.same(&state), "{name}");
        match world.nodes.get(&path) {
            Some(node) => changed.nodes.insert(path, node.clone()),
            None => changed.nodes.remove(&path),
        };
        let state = given(drive(&mut changed, |replies| git().recovery_state(replies)));
        assert!(before.same(&state), "{name}");
    }

    let old = world.outputs.insert(refs.to_owned(), (0, "refs/heads/topic\0c9\0\0\n".to_owned()));
    let state = given(drive(&mut world, |replies| git().recovery_state(replies)));
    assert!(!before.same(&state));
    match old {
        Some(output) => world.outputs.insert(refs.to_owned(), output),
        None => world.outputs.remove(refs),
    };
    let state = given(drive(&mut world, |replies| git().recovery_state(replies)));
    assert!(before.same(&state));
}

#[test]
fn contents_do_not_run_into_the_records_that_follow() {
    let untracked = "ls-files --others --exclude-standard --full-name -z --";
    let mut together = World::merging();
    together.write("/repo/a", "onetwo");
    together.write("/repo/b", "");
    together.outputs.insert(untracked.to_owned(), (0, "a\0b\0".to_owned()));
    let mut apart = World::merging();
    apart.write("/repo/a", "one");
    apart.write("/repo/b", "two");
    apart.outputs.insert(untracked.to_owned(), (0, "a\0b\0".to_owned()));

    let one = given(drive(&mut together, |replies| git().recovery_state(replies)));
    let other = given(drive(&mut apart, |replies| git().recovery_state(replies)));
    assert!(!one.same(&other));
}

#[test]
fn recovery_rejects_executable_hooks_without_starting_them() {
    let mut world = World::rebasing();
    world.add(
        "/repo/.git/hooks/post-checkout",
        0o100755,
        Node::File(b"#!/bin/sh\n".to_vec()),
    );
    let error = refused(recover(&mut world, RepositoryOperation::Rebase, RecoveryAction::Abort));
    assert!(error.contains("post-checkout"), "{error}");
    assert!(world.executed.is_empty());
}

#[test]
fn recovery_planning_rejects_fsmonitor_before_it_runs() {
    let mut world = World::merging();
    world.config.insert("core.fsmonitor".to_owned(), "/tools/monitor".to_owned());
    let error = refused(prepare(&mut world, RepositoryOperation::Merge, RecoveryAction::Abort));
    assert!(error.contains("core.fsmonitor"), "{error}");
}

#[test]
fn recovery_rejects_signing_configuration() {
    let mut world = World::merging();
    world.config.insert("commit.gpgsign".to_owned(), "true".to_owned());
    let error = refused(prepare(&mut world, RepositoryOperation::Merge, RecoveryAction::Continue));
    assert!(error.contains("sign"), "{error}");
}

#[test]
fn recovery_rejects_all_configured_external_driver_kinds() {
    for key in [
        "filter.unsafe.clean",
        "filter.unsafe.smudge",
        "filter.unsafe.process",
        "diff.external",
        "diff.unsafe.command",
        "diff.unsafe.textconv",
        "merge.unsafe.driver",
    ] {
        assert!(is_recovery_external_driver_config(key.as_bytes()), "{key}");
        let mut world = World::merging();
        world.outputs.insert(
            "ls-files --cached -z --".to_owned(),
            (0, "conflict.txt\0".to_owned()),
        );
        world.outputs.insert(
            "check-attr -z filter -- conflict.txt".to_owned(),
            (0, "conflict.txt\0filter\0unsafe\0".to_owned()),
        );
        world.config.insert(key.to_owned(), "cat".to_owned());
        let error = refused(drive(&mut world, |replies| git().recovery_state(replies)));
        assert!(error.contains("external Git drivers"), "{error}");
        assert!(error.contains(key), "{error}");
    }
    assert!(!is_recovery_external_driver_config(b"user.name"));
    assert_eq!(recovery_filter_driver(b"filter.LFS.smudge"), Some("lfs".to_owned()));
    assert_eq!(recovery_filter_driver(b"filter.lfs.required"), None);
}

#[test]
fn recovery_allows_inactive_global_lfs_configuration() {
    let mut world = World::merging();
    world.config.insert("filter.lfs.smudge".to_owned(), "git-lfs smudge -- %f".to_owned());
    given(prepare(&mut world, RepositoryOperation::Merge, RecoveryAction::Abort));
}

#[test]
fn rebase_abort_rejects_filter_selected_only_by_target_tree() {
    let mut world = World::rebasing();
    world.config.insert("filter.custom.smudge".to_owned(), "/tools/smudge".to_owned());
    world.outputs.insert(
        format!("ls-tree -r --name-only -z {TOPIC} --"),
        (0, "asset.bin\0".to_owned()),
    );
    world.outputs.insert(
        format!("check-attr -z --source={TOPIC} filter -- asset.bin"),
        (0, "asset.bin\0filter\0custom\0".to_owned()),
    );
    let error = refused(prepare(&mut world, RepositoryOperation::Rebase, RecoveryAction::Abort));
    assert!(error.contains("filter"), "{error}");
    assert!(world.executed.is_empty());
}

#[test]
fn recovery_rejects_remaining_rebase_exec_command() {
    for plan in ["exec make test\n", "x make test\n", "exec\tmake\n", "  x\ttouch owned\n"] {
        let mut world = World::rebasing();
        world.write("/repo/.git/rebase-merge/git-rebase-todo", plan);
        let error =
            refused(recover(&mut world, RepositoryOperation::Rebase, RecoveryAction::Continue));
        assert!(error.contains("exec command"), "{error}");
        assert!(world.executed.is_empty());
    }
}

#[test]
fn recovery_rejects_persisted_explicit_strategy_before_spawn() {
    let mut world = World::rebasing();
    world.write("/repo/.git/rebase-merge/strategy", "custom\n");
    let error = refused(recover(&mut world, RepositoryOperation::Rebase, RecoveryAction::Continue));
    assert!(error.contains("strategy"), "{error}");
    assert!(world.executed.is_empty());
}

#[test]
fn recovery_rejects_persisted_strategy_options_before_spawn() {
    let mut world = World::rebasing();
    world.write("/repo/.git/rebase-merge/strategy_opts", "--custom\n");
    let error = refused(recover(&mut world, RepositoryOperation::Rebase, RecoveryAction::Continue));
    assert!(error.contains("strategy option"), "{error}");
    assert!(world.executed.is_empty());
}

#[test]
fn recovery_rejects_active_rebase_gpg_sign_before_starting_signer() {
    let mut world = World::rebasing();
    world.write("/repo/.git/rebase-merge/gpg_sign_opt", "-S\n");
    let error = refused(prepare(&mut world, RepositoryOperation::Rebase, RecoveryAction::Continue));
    assert!(error.contains("--gpg-sign"), "{error}");
    let error = refused(recover(&mut world, RepositoryOperation::Rebase, RecoveryAction::Continue));
    assert!(error.contains("--gpg-sign"), "{error}");
    assert!(world.executed.is_empty());
    assert_eq!(world.status_of_git(), Some(RepositoryOperation::Rebase));
}

#[test]
fn recovery_rejects_fifo_rebase_todo_without_blocking() {
    let mut world = World::rebasing();
    world.add("/repo/.git/rebase-merge/git-rebase-todo", 0o010644, Node::Pipe);
    let error = refused(recover(&mut world, RepositoryOperation::Rebase, RecoveryAction::Continue));
    assert!(error.contains("is not a regular file"), "{error}");
    assert!(world.executed.is_empty());
}

#[test]
fn recovery_fingerprint_rejects_fifo_without_blocking() {
    let mut world = World::merging();
    world.add("/repo/.git/MERGE_RR", 0o010644, Node::Pipe);
    let error = refused(drive(&mut world, |replies| git().recovery_state(replies)));
    assert!(error.contains("not a regular file or directory"), "{error}");
}

#[test]
fn rebase_skip_drops_the_conflicting_commit() {
    let mut world = World::rebasing();
    world
        .outputs
        .insert("diff --quiet --diff-filter=U --".to_owned(), (1, String::new()));
    given(recover(&mut world, RepositoryOperation::Rebase, RecoveryAction::Skip));
    assert_eq!(world.status_of_git(), None);
    assert_eq!(world.executed, vec!["rebase --skip".to_owned()]);
}

#[test]
fn merge_continue_requires_resolution_and_finishes_without_an_editor() {
    let unresolved = "diff --quiet --diff-filter=U --".to_owned();
    let mut world = World::merging();
    world.outputs.insert(unresolved.clone(), (1, String::new()));
    let error = refused(recover(&mut world, RepositoryOperation::Merge, RecoveryAction::Continue));
    assert!(error.contains("unresolved conflicts"), "{error}");
    world.outputs.remove(&unresolved);
    given(recover(&mut world, RepositoryOperation::Merge, RecoveryAction::Continue));
    assert_eq!(world.status_of_git(), None);
}

#[test]
fn rebase_continue_blocks_ignored_path_touched_only_by_intermediate_commits() {
    let mut world = World::rebasing();
    world.write("/repo/.git/rebase-merge/git-rebase-todo", &format!("pick {TOPIC} add and drop\n"));
    world.outputs.insert(
        format!(
            "show --format= --name-only --no-renames --no-ext-diff --no-textconv -z {TOPIC} --"
        ),
        (0, "generated.bin\0".to_owned()),
    );
    world.outputs.insert(
        "ls-files --others --ignored --exclude-standard --full-name -z -- :(top,literal)generated.bin"
            .to_owned(),
        (0, "generated.bin\0".to_owned()),
    );
    world.write("/repo/generated.bin", "ignored\n");
    let error = refused(prepare(&mut world, RepositoryOperation::Rebase, RecoveryAction::Continue));
    assert!(error.contains("ignored worktree path generated.bin"), "{error}");
    given(prepare(&mut world, RepositoryOperation::Rebase, RecoveryAction::Abort));
    assert!(world.executed.is_empty());
}

#[test]
fn exact_recovery_surfaces_standard_git_lock_failure() {
    let mut world = World::merging();
    let expected =
        given(prepare(&mut world, RepositoryOperation::Merge, RecoveryAction::Abort));
    world.outputs.insert(
        "merge --abort".to_owned(),
        (128, "fatal: Unable to create '/repo/.git/index.lock': File exists.\n".to_owned()),
    );
    match recover_exact(&mut world, RepositoryOperation::Merge, RecoveryAction::Abort, &expected) {
        Err(GitError::GitFailed { args, stdout, .. }) => {
            assert_eq!(args, vec!["merge".to_owned(), "--abort".to_owned()]);
            assert!(stdout.contains("index.lock"));
        }
        _ => panic!("expected a failure of git"),
    }
    assert_eq!(world.status_of_git(), Some(RepositoryOperation::Merge));
}

#[test]
fn the_least_ignored_path_is_named() {
    let mut world = World::rebasing();
    let query = "ls-files --others --ignored --exclude-standard --full-name -z --";
    world.outputs.insert(
        format!("ls-tree -r --name-only -z {TOPIC} --"),
        (0, "z.bin\0a-b\0a/b\0".to_owned()),
    );
    world.outputs.insert(
        format!("{query} :(top,literal)a/b :(top,literal)a-b :(top,literal)z.bin"),
        (0, "z.bin\0a-b\0a/b\0".to_owned()),
    );
    let error = refused(recover(&mut world, RepositoryOperation::Rebase, RecoveryAction::Abort));
    assert!(error.contains("ignored worktree path a/b would be overwritten"), "{error}");
    assert!(world.executed.is_empty());
}

#[test]
fn rebase_abort_blocks_ignored_collision_path() {
    let mut world = World::rebasing();
    world.outputs.insert(
        format!("ls-tree -r --name-only -z {TOPIC} --"),
        (0, "cache.bin\0".to_owned()),
    );
    world.outputs.insert(
        "ls-files --others --ignored --exclude-standard --full-name -z -- :(top,literal)cache.bin"
            .to_owned(),
        (0, "cache.bin\0".to_owned()),
    );
    world.write("/repo/cache.bin", "ignored\n");
    let error = refused(recover(&mut world, RepositoryOperation::Rebase, RecoveryAction::Abort));
    assert!(error.contains("ignored worktree path cache.bin would be overwritten"), "{error}");
    assert!(world.executed.is_empty());
}

#[test]
fn recovery_platform_lock_serializes_bitbygit_execution() {
    let mut world = World::merging();
    let expected =
        given(prepare(&mut world, RepositoryOperation::Merge, RecoveryAction::Abort));
    let key = recovery_repository_key(b"/repo");
    let path = format!("/data/recovery-locks/{key}.lock");
    world.locked.insert(path.clone());

    let error = refused(recover_exact(
        &mut world,
        RepositoryOperation::Merge,
        RecoveryAction::Abort,
        &expected,
    ));
    assert!(error.contains("another BitByGit recovery"), "{error}");
    assert_eq!(world.status_of_git(), Some(RepositoryOperation::Merge));

    world.locked.clear();
    given(recover_exact(
        &mut world,
        RepositoryOperation::Merge,
        RecoveryAction::Abort,
        &expected,
    ));
    assert_eq!(world.status_of_git(), None);
    assert!(world.nodes.contains_key(&path));
}

#[test]
fn recovery_platform_lock_key_and_path_are_safe() {
    let key = recovery_repository_key(b"/repo");
    assert_eq!(key.len(), 64);
    assert!(key.bytes().all(|byte| byte.is_ascii_hexdigit()));
    assert_eq!(
        recovery_lock_key_from_path(format!("/data/recovery-locks/{key}.lock").as_bytes()),
        Some(key)
    );
    assert_eq!(recovery_lock_key_from_path(b"/data/recovery-locks/short.lock"), None);
    assert_eq!(recovery_lock_key_from_path(b"/data/recovery-locks"), None);
    assert_eq!(recovery_lock_key_from_path(b"/"), None);
}

#[test]
fn recovery_lock_replacement_cannot_enable_concurrent_recovery() {
    let mut world = World::merging();
    let expected =
        given(prepare(&mut world, RepositoryOperation::Merge, RecoveryAction::Abort));
    let directory = "/data/recovery-locks".to_owned();
    world.add(&directory, 0o040755, Node::Directory);
    world.on_fence = Some((2, directory));
    let error = refused(recover_exact(
        &mut world,
        RepositoryOperation::Merge,
        RecoveryAction::Abort,
        &expected,
    ));
    assert!(error.contains("lock"), "{error}");
    assert!(world.executed.is_empty());
}

#[test]
fn exact_recovery_rechecks_index_after_first_final_fence_pass() {
    for count in 2..5 {
        let mut world = World::merging();
        let expected =
            given(prepare(&mut world, RepositoryOperation::Merge, RecoveryAction::Abort));
        world.on_fence = Some((count, "/repo/.git/index".to_owned()));
        let result = recover_exact(
            &mut world,
            RepositoryOperation::Merge,
            RecoveryAction::Abort,
            &expected,
        );
        if world.checks >= count {
            assert!(refused(result).contains("repository state changed after preview"));
            assert!(world.executed.is_empty());
        } else {
            given(result);
        }
    }
}

#[test]
fn validation_only_looks() {
    let mut world = World::merging();
    given(drive(&mut world, |replies| {
        git().validate_recovery(RepositoryOperation::Merge, RecoveryAction::Abort, replies)
    }));
    let error = refused(drive(&mut world, |replies| {
        git().validate_recovery(RepositoryOperation::Rebase, RecoveryAction::Abort, replies)
    }));
    assert!(error.contains("rebase abort is blocked because a merge operation is active"));
    assert!(world.executed.is_empty());
}

#[test]
fn recovery_stops_when_time_has_run_out() {
    let mut world = World::merging();
    world.expired = true;
    let result = recover(&mut world, RepositoryOperation::Merge, RecoveryAction::Abort);
    assert!(matches!(result, Err(GitError::TimedOut { .. })));
    assert!(world.executed.is_empty());
}

#[test]
fn old_versions_of_git_are_refused_first() {
    let mut world = World::merging();
    world.outputs.insert("version".to_owned(), (0, "git version 2.41.3\n".to_owned()));
    let error = refused(recover(&mut world, RepositoryOperation::Merge, RecoveryAction::Abort));
    assert!(error.contains("requires Git 2.42 or newer"));
}

#[test]
fn remaining_commits_are_read_from_the_plan() {
    let plan = format!("pick {TOPIC} subject\n# comment\n\nbreak\n");
    let oids = given(parse_remaining_rebase_commit_oids("rebase-merge/git-rebase-todo", &plan));
    assert_eq!(oids, vec![TOPIC.to_owned()]);
    let plan = "reword bbbb x\nfixup -C aaaa y\nmerge -C cccc side # z\np bbbb again\nlabel onto\n";
    let oids = given(parse_remaining_rebase_commit_oids("rebase-merge/git-rebase-todo", plan));
    assert_eq!(oids, vec!["aaaa".to_owned(), "bbbb".to_owned(), "cccc".to_owned()]);
    assert!(parse_remaining_rebase_commit_oids("rebase-merge/git-rebase-todo", "pick nothex x\n").is_err());
}

#[test]
fn bounded_commands_are_ended_by_their_policy() {
    let policies = [
        BoundedCommandPolicy::Diagnostic,
        BoundedCommandPolicy::Digest,
        BoundedCommandPolicy::RecoveryExecution,
    ];
    for exceeded in [false, true] {
        for ended in [false, true] {
            for expired in [false, true] {
                for policy in policies {
                    let expected = match policy {
                        BoundedCommandPolicy::RecoveryExecution => BoundedRunDecision::WaitForEnd,
                        BoundedCommandPolicy::Diagnostic if exceeded => {
                            BoundedRunDecision::StopForOutput
                        }
                        _ if ended => BoundedRunDecision::Collect,
                        _ if expired => BoundedRunDecision::StopForTime,
                        _ => BoundedRunDecision::LookAgain,
                    };
                    assert_eq!(decide_run(policy, exceeded, ended, expired), expected);
                }
            }
        }
    }
    assert_eq!(poll_delay(0), 0);
    assert_eq!(poll_delay(3), 3);
    assert_eq!(poll_delay(1000), 5);
}
