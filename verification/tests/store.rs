use bitbygit::git::types::{ExitStatus, IoFailure};
use bitbygit::number::encode_hex;
use bitbygit::session::{Action, Halt, Reply};
use bitbygit::store::files::unique_tmp_path;
use bitbygit::store::formats::{
    format_audit_entry, format_registry, format_state, parse_audit_entries, parse_registry,
    parse_state,
};
use bitbygit::store::operations::{push_recent, resolve_config_dir};
use bitbygit::store::types::{
    fnv1a, AppState, AuditEntry, LocalStore, RepoId, RepositoryHealth, RepositoryRecord,
    StoreError, StorePaths,
};
use std::collections::{BTreeMap, BTreeSet};

/// A disk in memory, a clock and the repositories that Git finds.
struct Disk {
    files: BTreeMap<String, String>,
    repositories: BTreeSet<String>,
    environment: BTreeMap<String, String>,
    entered: String,
    now: Option<u64>,
    taken: usize,
    refuse_rename_to: Option<String>,
    asked: Vec<Action>,
}

fn text(bytes: &[u8]) -> String {
    String::from_utf8_lossy(bytes).into_owned()
}

fn failure(message: &str) -> IoFailure {
    IoFailure { not_found: false, code: Some(5), message: message.to_owned() }
}

impl Disk {
    fn new() -> Disk {
        Disk {
            files: BTreeMap::new(),
            repositories: BTreeSet::new(),
            environment: BTreeMap::new(),
            entered: String::new(),
            now: Some(1_700_000_000),
            taken: 0,
            refuse_rename_to: None,
            asked: Vec::new(),
        }
    }

    fn with_repository(path: &str) -> Disk {
        let mut disk = Disk::new();
        disk.repositories.insert(path.to_owned());
        disk
    }

    fn answer(&mut self, action: &Action) -> Reply {
        self.asked.push(action.clone());
        match action {
            Action::Enter { directory } => {
                self.entered = text(directory);
                Reply::Done
            }
            Action::RunRaw { args } => {
                assert_eq!(*args, ["rev-parse", "--show-toplevel"]);
                if self.repositories.contains(&self.entered) {
                    Reply::Output {
                        status: ExitStatus {
                            code: Some(0),
                            description: "exit status: 0".to_owned(),
                        },
                        stdout: format!("{}\n", self.entered).into_bytes(),
                        stderr: Vec::new(),
                    }
                } else {
                    Reply::Output {
                        status: ExitStatus {
                            code: Some(128),
                            description: "exit status: 128".to_owned(),
                        },
                        stdout: Vec::new(),
                        stderr: b"fatal: not a git repository\n".to_vec(),
                    }
                }
            }
            Action::Clock => match self.now {
                Some(now) => Reply::Number(now),
                None => Reply::Missing,
            },
            Action::ProcessId => Reply::Number(42),
            Action::ReadText { path } => match self.files.get(&text(path)) {
                Some(contents) => Reply::Text(contents.clone()),
                None => Reply::Missing,
            },
            Action::CreateDirectories { .. } | Action::SyncDirectory { .. } => Reply::Done,
            Action::WriteNew { path, contents } => {
                if self.taken > 0 {
                    self.taken -= 1;
                    return Reply::Exists(failure("File exists"));
                }
                self.files.insert(text(path), contents.clone());
                Reply::Done
            }
            Action::Rename { from, to } => {
                if self.refuse_rename_to == Some(text(to)) {
                    return Reply::Failed(failure("Input/output error"));
                }
                if let Some(contents) = self.files.remove(&text(from)) {
                    self.files.insert(text(to), contents);
                }
                Reply::Done
            }
            Action::Remove { path } => {
                self.files.remove(&text(path));
                Reply::Done
            }
            Action::Append { path, contents } => {
                self.files.entry(text(path)).or_default().push_str(contents);
                Reply::Done
            }
            Action::Environment { name } => match self.environment.get(name) {
                Some(value) => Reply::Bytes(value.as_bytes().to_vec()),
                None => Reply::Missing,
            },
            other => panic!("unexpected action: {other:?}"),
        }
    }
}

fn drive<T>(
    disk: &mut Disk,
    operation: impl Fn(&[Reply]) -> Result<T, Halt<StoreError>>,
) -> Result<T, StoreError> {
    let mut replies: Vec<Reply> = Vec::new();
    loop {
        match operation(&replies) {
            Ok(value) => return Ok(value),
            Err(Halt::Failed(error)) => return Err(error),
            Err(Halt::Pending(action)) => {
                let reply = disk.answer(&action);
                replies.push(reply);
                assert!(replies.len() < 1000);
            }
        }
    }
}

fn given<T>(result: Result<T, StoreError>) -> T {
    match result {
        Ok(value) => value,
        Err(error) => panic!("{}", error.message()),
    }
}

fn paths() -> StorePaths {
    StorePaths::from_roots(b"/config".to_vec(), b"/data".to_vec())
}

fn store(disk: &mut Disk) -> LocalStore {
    given(drive(disk, |replies| LocalStore::open(paths(), replies)))
}

fn add(disk: &mut Disk, path: &str) -> Result<RepositoryRecord, StoreError> {
    let store = store(disk);
    drive(disk, |replies| store.add_repository(path.as_bytes(), replies))
}

fn list(disk: &mut Disk) -> Result<Vec<RepositoryRecord>, StoreError> {
    let store = store(disk);
    drive(disk, |replies| store.list_repositories(replies))
}

fn id(text: &str) -> RepoId {
    given(RepoId::parse(text))
}

#[test]
fn persists_and_reloads_repository_registry() {
    let mut disk = Disk::with_repository("/repo");
    let record = given(add(&mut disk, "/repo"));
    assert_eq!(given(list(&mut disk)), vec![record.clone()]);
    assert_eq!(record.path, b"/repo".to_vec());
    assert_eq!(record.added_at, 1_700_000_000);

    disk.now = Some(1_700_000_009);
    let again = given(add(&mut disk, "/repo"));
    assert_eq!(again.id, record.id);
    assert_eq!(again.added_at, 1_700_000_000);
    assert_eq!(again.last_seen_at, 1_700_000_009);
    assert_eq!(given(list(&mut disk)), vec![again]);
}

#[test]
fn active_and_recent_state_survives_reload() {
    let mut disk = Disk::with_repository("/repo");
    let record = given(add(&mut disk, "/repo"));
    let store = store(&mut disk);

    given(drive(&mut disk, |replies| {
        store.set_active_repository(Some(record.id.clone()), replies)
    }));
    let state = given(drive(&mut disk, |replies| store.load_state(replies)));

    assert_eq!(state.active_repo, Some(record.id.clone()));
    assert_eq!(state.recent_repos, vec![record.id]);
}

#[test]
fn removing_repository_never_deletes_repo_from_disk() {
    let mut disk = Disk::with_repository("/repo");
    disk.files.insert("/repo/README.md".to_owned(), "initial\n".to_owned());
    let record = given(add(&mut disk, "/repo"));
    let store = store(&mut disk);

    let removed =
        given(drive(&mut disk, |replies| store.remove_repository(&record.id, replies)));

    assert_eq!(removed, Some(record.clone()));
    assert!(disk.files.contains_key("/repo/README.md"));
    assert!(given(list(&mut disk)).is_empty());
    let state = given(drive(&mut disk, |replies| store.load_state(replies)));
    assert_eq!(state, AppState::default());
    let removed =
        given(drive(&mut disk, |replies| store.remove_repository(&record.id, replies)));
    assert_eq!(removed, None);
}

#[test]
fn invalid_add_returns_recoverable_error() {
    let mut disk = Disk::new();
    let result = add(&mut disk, "/not-a-repo");
    assert!(matches!(result, Err(StoreError::InvalidRepository { .. })));
    if let Err(error) = result {
        assert!(error.message().starts_with("/not-a-repo is not a usable Git repository: "));
    }
}

#[test]
fn moved_repository_is_reported_as_invalid_without_breaking_list() {
    let mut disk = Disk::with_repository("/repo");
    let record = given(add(&mut disk, "/repo"));
    disk.repositories.remove("/repo");
    let store = store(&mut disk);

    let statuses = given(drive(&mut disk, |replies| store.list_repository_statuses(replies)));

    assert_eq!(statuses.len(), 1);
    assert_eq!(statuses[0].record.id, record.id);
    assert!(matches!(statuses[0].status, RepositoryHealth::Invalid { .. }));
}

#[test]
fn repository_status_by_id_checks_one_registered_repo() {
    let mut disk = Disk::with_repository("/repo");
    let record = given(add(&mut disk, "/repo"));
    let store = store(&mut disk);

    let status =
        given(drive(&mut disk, |replies| store.repository_status_by_id(&record.id, replies)));

    assert_eq!(status.record.id, record.id);
    assert_eq!(status.status, RepositoryHealth::Valid);

    let unknown = id("repo-unknown");
    let error = drive(&mut disk, |replies| store.repository_status_by_id(&unknown, replies));
    assert_eq!(
        error.map_err(|error| error.message()),
        Err("unknown repository id repo-unknown".to_owned())
    );
}

#[test]
fn audit_entries_are_persisted() {
    let mut disk = Disk::new();
    let store = store(&mut disk);
    let entry = given(drive(&mut disk, |replies| {
        AuditEntry::new(None, "refresh", "ok", "ready", replies)
    }));

    given(drive(&mut disk, |replies| store.append_audit(&entry, replies)));

    let entries = given(drive(&mut disk, |replies| store.list_audit_entries(replies)));
    assert_eq!(entries, vec![entry]);
}

#[test]
fn appended_entries_are_read_back_in_order() {
    let mut disk = Disk::new();
    let store = store(&mut disk);
    let mut expected = Vec::new();
    for (repo, message) in [(None, "tab\there"), (Some(id("repo-1")), "line\nbreak é")] {
        let entry = given(drive(&mut disk, |replies| {
            AuditEntry::new(repo.clone(), "commit", "ok", message, replies)
        }));
        given(drive(&mut disk, |replies| store.append_audit(&entry, replies)));
        expected.push(entry);
    }
    let entries = given(drive(&mut disk, |replies| store.list_audit_entries(replies)));
    assert_eq!(entries, expected);
    let contents = disk.files["/data/audit.tsv"].clone();
    assert_eq!(parse_audit_entries(&contents).ok(), Some(expected.clone()));
    assert_eq!(
        contents,
        format!("{}{}", format_audit_entry(&expected[0]), format_audit_entry(&expected[1]))
    );
}

#[test]
fn corrupt_state_parse_error_includes_file_path() {
    let mut disk = Disk::new();
    disk.files.insert("/data/state.tsv".to_owned(), "bad-line\n".to_owned());
    let store = store(&mut disk);
    let result = drive(&mut disk, |replies| store.load_state(replies));
    assert!(matches!(result, Err(StoreError::Parse { path: Some(_), .. })));
    if let Err(error) = result {
        assert!(error.message().starts_with("failed to parse /data/state.tsv: "));
    }
}

#[test]
fn corrupt_registry_id_is_rejected() {
    let mut disk = Disk::new();
    disk.files.insert(
        "/data/registry.tsv".to_owned(),
        format!("repo-deadbeef\t{}\t1\t1\n", encode_hex(b"/repo")),
    );
    assert!(matches!(list(&mut disk), Err(StoreError::Parse { .. })));
}

#[test]
fn duplicate_registry_id_is_rejected() {
    let mut disk = Disk::new();
    let id = RepoId::from_path(b"/repo");
    let line = format!("{}\t{}\t1\t1\n", id.as_str(), encode_hex(b"/repo"));
    disk.files.insert("/data/registry.tsv".to_owned(), line.clone());
    assert_eq!(given(list(&mut disk)).len(), 1);
    disk.files.insert("/data/registry.tsv".to_owned(), format!("{line}{line}"));
    assert!(matches!(list(&mut disk), Err(StoreError::Parse { .. })));
}

#[test]
fn corrupt_state_prevents_add_without_registry_mutation() {
    let mut disk = Disk::with_repository("/repo");
    disk.files.insert("/data/state.tsv".to_owned(), "bad-line\n".to_owned());
    assert!(matches!(add(&mut disk, "/repo"), Err(StoreError::Parse { .. })));
    assert!(given(list(&mut disk)).is_empty());
    assert!(!disk.asked.iter().any(|action| matches!(action, Action::WriteNew { .. })));
}

#[test]
fn corrupt_state_prevents_remove_without_registry_mutation() {
    let mut disk = Disk::with_repository("/repo");
    let record = given(add(&mut disk, "/repo"));
    disk.files.insert("/data/state.tsv".to_owned(), "bad-line\n".to_owned());
    let store = store(&mut disk);

    let result = drive(&mut disk, |replies| store.remove_repository(&record.id, replies));

    assert!(matches!(result, Err(StoreError::Parse { .. })));
    assert_eq!(given(list(&mut disk)), vec![record]);
}

#[test]
fn invalid_repository_ids_are_rejected() {
    assert!(RepoId::parse("bad\tid").is_err());
    assert!(RepoId::parse("bad,id").is_err());
    assert!(RepoId::parse("").is_err());
}

#[test]
fn store_paths_define_config_and_data_locations() {
    let paths = paths();
    assert_eq!(paths.config_dir, b"/config".to_vec());
    assert_eq!(paths.data_dir, b"/data".to_vec());
    assert_eq!(paths.registry_file, b"/data/registry.tsv".to_vec());
    assert_eq!(paths.state_file, b"/data/state.tsv".to_vec());
    assert_eq!(paths.audit_file, b"/data/audit.tsv".to_vec());
}

#[test]
fn store_paths_follow_the_environment() {
    let mut disk = Disk::new();
    let error = drive(&mut disk, |replies| StorePaths::from_environment(replies));
    assert!(matches!(error, Err(StoreError::HomeDirectoryUnavailable)));

    disk.environment.insert("HOME".to_owned(), "/home/me".to_owned());
    let paths = given(drive(&mut disk, |replies| StorePaths::from_environment(replies)));
    assert_eq!(paths.config_dir, b"/home/me/.config/bitbygit".to_vec());
    assert_eq!(paths.data_dir, b"/home/me/.local/share/bitbygit".to_vec());

    disk.environment.insert("BITBYGIT_CONFIG_DIR".to_owned(), "/own/config".to_owned());
    disk.environment.insert("XDG_DATA_HOME".to_owned(), "/xdg".to_owned());
    let paths = given(drive(&mut disk, |replies| StorePaths::from_environment(replies)));
    assert_eq!(paths.config_dir, b"/own/config".to_vec());
    assert_eq!(paths.data_dir, b"/xdg/bitbygit".to_vec());
    assert_eq!(
        resolve_config_dir(None, None, Some(b"/appdata"), None),
        Some(b"/appdata/bitbygit".to_vec())
    );
}

#[test]
fn registries_read_back_what_was_written() {
    let records = vec![
        RepositoryRecord {
            id: RepoId::from_path(b"/a"),
            path: b"/a".to_vec(),
            added_at: 1,
            last_seen_at: u64::MAX,
        },
        RepositoryRecord {
            id: RepoId::from_path(b"/b\xff\t\n"),
            path: b"/b\xff\t\n".to_vec(),
            added_at: 0,
            last_seen_at: 7,
        },
    ];
    let mut ordered = records.clone();
    ordered.sort_by(|left, right| left.id.cmp(&right.id));
    assert_eq!(parse_registry(&format_registry(&ordered)).ok(), Some(ordered));
    assert_eq!(parse_registry("").ok(), Some(Vec::new()));
    for broken in ["repo-1\n", "repo-1\tzz\t1\t1\n", "repo-1\t61\tx\t1\n", "\t61\t1\t1\n"] {
        assert!(parse_registry(broken).is_err(), "{broken}");
    }
}

#[test]
fn registries_are_read_in_order_and_lose_only_what_is_removed() {
    let mut disk = Disk::new();
    for path in ["/a", "/b", "/c"] {
        disk.repositories.insert(path.to_owned());
        given(add(&mut disk, path));
    }
    let records = given(list(&mut disk));
    let backwards: String =
        disk.files["/data/registry.tsv"].lines().rev().map(|line| format!("{line}\n")).collect();
    disk.files.insert("/data/registry.tsv".to_owned(), backwards);
    assert_eq!(given(list(&mut disk)), records);

    let store = store(&mut disk);
    let removed = records[1].clone();
    assert_eq!(
        given(drive(&mut disk, |replies| store.remove_repository(&removed.id, replies))),
        Some(removed)
    );
    assert_eq!(given(list(&mut disk)), vec![records[0].clone(), records[2].clone()]);
}

#[test]
fn states_read_back_what_was_written() {
    let state = AppState {
        active_repo: Some(id("repo-2")),
        recent_repos: vec![id("repo-2"), id("repo-1")],
    };
    assert_eq!(parse_state(&format_state(&state)).ok(), Some(state));
    assert_eq!(
        parse_state(&format_state(&AppState::default())).ok(),
        Some(AppState::default())
    );
    assert!(parse_state("bad-line\n").is_err());
    assert!(parse_state("active\tbad id\n").is_err());
}

#[test]
fn a_used_repository_comes_first_and_once() {
    let recent = vec![id("a"), id("b"), id("c")];
    assert_eq!(push_recent(&recent, &id("c")), vec![id("c"), id("a"), id("b")]);
    assert_eq!(push_recent(&recent, &id("d")), vec![id("d"), id("a"), id("b"), id("c")]);
    let mut many: Vec<RepoId> = Vec::new();
    for number in 0..60 {
        many = push_recent(&many, &id(&format!("r{number}")));
    }
    assert_eq!(many.len(), 50);
    assert_eq!(many[0], id("r59"));
    assert_eq!(many[49], id("r10"));
}

#[test]
fn files_are_replaced_by_a_whole_file() {
    let mut disk = Disk::with_repository("/repo");
    disk.taken = 2;
    given(add(&mut disk, "/repo"));
    let names: Vec<String> = disk
        .asked
        .iter()
        .filter_map(|action| match action {
            Action::WriteNew { path, .. } => Some(text(path)),
            _ => None,
        })
        .collect();
    assert_eq!(
        names[..3],
        [
            "/data/.registry.tsv.tmp-42-0".to_owned(),
            "/data/.registry.tsv.tmp-42-1".to_owned(),
            "/data/.registry.tsv.tmp-42-2".to_owned(),
        ]
    );
    assert!(disk.files.keys().all(|path| !path.contains(".tmp-")));
    assert_eq!(unique_tmp_path(b"/x/y", 7, 3), b"/x/.y.tmp-7-3".to_vec());
    assert_eq!(unique_tmp_path(b"/x/\xff", 7, 0), "/x/.\u{fffd}.tmp-7-0".as_bytes().to_vec());
}

#[test]
fn a_registry_is_restored_where_the_state_cannot_be_saved() {
    let mut disk = Disk::with_repository("/a");
    disk.repositories.insert("/b".to_owned());
    let record = given(add(&mut disk, "/a"));
    disk.refuse_rename_to = Some("/data/state.tsv".to_owned());
    let error = add(&mut disk, "/b").map_err(|error| error.message());
    assert_eq!(
        error,
        Err("failed to access /data/state.tsv: Input/output error".to_owned())
    );
    assert_eq!(given(list(&mut disk)), vec![record]);
    assert!(disk.files.keys().all(|path| !path.contains(".tmp-")));
}

#[test]
fn a_clock_before_the_epoch_is_reported() {
    let mut disk = Disk::with_repository("/repo");
    disk.now = None;
    let error = add(&mut disk, "/repo");
    assert!(matches!(error, Err(StoreError::ClockBeforeUnixEpoch)));
}

#[test]
fn only_registered_repositories_become_active() {
    let mut disk = Disk::new();
    let store = store(&mut disk);
    let unknown = id("repo-1");
    let error = drive(&mut disk, |replies| {
        store.set_active_repository(Some(unknown.clone()), replies)
    });
    assert!(matches!(error, Err(StoreError::UnknownRepository { .. })));
    given(drive(&mut disk, |replies| store.set_active_repository(None, replies)));
}

#[test]
fn names_of_repositories_come_from_their_paths() {
    assert_eq!(fnv1a(b""), 0xcbf29ce484222325);
    assert_eq!(fnv1a(b"a"), 0xaf63dc4c8601ec8c);
    assert_eq!(RepoId::from_path(b"a").as_str(), "repo-af63dc4c8601ec8c");
    assert!(RepoId::parse(RepoId::from_path(b"/repo").as_str()).is_ok());
}
