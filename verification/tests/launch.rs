use bitbygit::git::commands::Git;
use bitbygit::git::launch::{Launch, SSH_OPTIONS};
use bitbygit::git::types::{ExitStatus, GitError, IoFailure, OutputStream};
use bitbygit::session::{Action, BoundedCommandPolicy};

fn words(list: &[&str]) -> Vec<String> {
    list.iter().map(|word| (*word).to_owned()).collect()
}

fn launch(git: &Git, action: &Action, inherited: bool) -> Launch {
    match git.launch(action, inherited) {
        Some(launch) => launch,
        None => panic!("{action:?} starts Git"),
    }
}

fn value(launch: &Launch, name: &str) -> Option<String> {
    launch
        .environment
        .iter()
        .find(|(key, _)| key == name)
        .map(|(_, value)| String::from_utf8_lossy(value).into_owned())
}

fn args(launch: &Launch) -> Vec<String> {
    launch.args.iter().map(|word| String::from_utf8_lossy(word).into_owned()).collect()
}

fn bounded(list: &[&str], optional_locks: bool) -> Action {
    Action::RunBounded {
        args: words(list),
        optional_locks,
        policy: BoundedCommandPolicy::Diagnostic,
    }
}

#[test]
fn recovery_git_invocation_disables_automatic_maintenance() {
    let git = Git::new(b"/repo".to_vec());
    for key in ["maintenance.auto=false", "gc.auto=0"] {
        let launch = launch(&git, &bounded(&["config", "--get", "gc.auto"], false), false);
        let args = args(&launch);
        let place = args.iter().position(|word| word == key);
        assert!(matches!(place, Some(place) if place > 0 && args[place - 1] == "-c"), "{args:?}");
        assert_eq!(args[args.len() - 3..], ["config", "--get", "gc.auto"]);
    }
}

#[test]
fn commands_never_ask_for_anything() {
    let git = Git::new(b"/repo".to_vec());
    for action in [
        Action::Run { args: words(&["fetch"]) },
        Action::RunRaw { args: words(&["status"]) },
        Action::RunPaths { args: vec![b"add".to_vec()] },
        bounded(&["status"], true),
        bounded(&["merge", "--abort"], false),
    ] {
        let launch = launch(&git, &action, false);
        assert_eq!(value(&launch, "GIT_TERMINAL_PROMPT").as_deref(), Some("0"));
        assert_eq!(value(&launch, "GIT_ASKPASS").as_deref(), Some(""));
        assert_eq!(value(&launch, "SSH_ASKPASS").as_deref(), Some(""));
        assert_eq!(value(&launch, "SSH_ASKPASS_REQUIRE").as_deref(), Some("never"));
    }
    assert_eq!(git.launch(&Action::Clock, false), None);
}

#[test]
fn fetch_preserves_inherited_ssh_command() {
    let git = Git::new(b"/repo".to_vec());
    let fetch = Action::Run { args: words(&["fetch"]) };
    assert_eq!(value(&launch(&git, &fetch, true), "GIT_SSH_COMMAND"), None);
    assert_eq!(
        value(&launch(&git, &fetch, false), "GIT_SSH_COMMAND"),
        Some(format!("ssh {SSH_OPTIONS}"))
    );
}

#[test]
fn a_given_ssh_replaces_the_inherited_one() {
    let git = Git::with_ssh_executable(b"/repo".to_vec(), b"/it's/ssh".to_vec());
    let fetch = Action::Run { args: words(&["fetch"]) };
    assert_eq!(
        value(&launch(&git, &fetch, true), "GIT_SSH_COMMAND"),
        Some(format!("'/it'\\''s/ssh' {SSH_OPTIONS}"))
    );
}

#[test]
fn selected_path_operations_treat_pathspec_magic_as_literal() {
    let git = Git::new(b"/repo".to_vec());
    let action = Action::RunPaths {
        args: vec![b"add".to_vec(), b"--".to_vec(), b":(glob)*\xff".to_vec()],
    };
    let launch = launch(&git, &action, false);
    assert_eq!(value(&launch, "GIT_LITERAL_PATHSPECS").as_deref(), Some("1"));
    assert_eq!(launch.args[2], b":(glob)*\xff".to_vec());
}

#[test]
fn bounded_commands_start_nothing_of_their_own() {
    let git = Git::new(b"/repo".to_vec());
    let look = launch(&git, &bounded(&["status"], true), false);
    assert_eq!(args(&look), ["-c", "core.fsmonitor=false", "status"]);
    assert_eq!(value(&look, "GIT_OPTIONAL_LOCKS").as_deref(), Some("0"));
    assert_eq!(value(&look, "GIT_EDITOR").as_deref(), Some("true"));
    assert_eq!(value(&look, "GIT_SEQUENCE_EDITOR").as_deref(), Some("true"));
    let settings = launch(&git, &bounded(&["config", "--list"], true), false);
    assert_eq!(args(&settings), ["config", "--list"]);
    let execution = launch(&git, &bounded(&["merge", "--abort"], false), false);
    assert_eq!(value(&execution, "GIT_OPTIONAL_LOCKS"), None);
    assert_eq!(value(&execution, "GIT_CONFIG_NOSYSTEM"), None);
}

#[test]
fn isolated_commands_read_no_settings_of_the_user() {
    let git = Git::new(b"/repo".to_vec()).with_isolated_test_config();
    let look = launch(&git, &bounded(&["status"], true), false);
    assert_eq!(value(&look, "GIT_CONFIG_NOSYSTEM").as_deref(), Some("1"));
    assert_eq!(
        value(&look, "GIT_CONFIG_GLOBAL").as_deref(),
        Some("/repo/.bitbygit-test-global-config")
    );
}

#[test]
fn errors_are_described() {
    let status = ExitStatus { code: Some(1), description: "exit status: 1".to_owned() };
    let failed = GitError::GitFailed {
        args: words(&["merge", "--abort"]),
        status,
        stdout: "out\n".to_owned(),
        stderr: "err\n".to_owned(),
    };
    assert!(failed.message().contains("merge --abort"));
    assert!(failed.message().contains("exit status: 1"));
    let blocked = GitError::Blocked { message: "refused".to_owned() };
    assert!(blocked.message().contains("refused"));
    let late = GitError::TimedOut { args: words(&["status"]) };
    assert!(late.message().contains("status"));
    let parse = GitError::Parse { message: "what".to_owned() };
    assert!(parse.message().contains("what"));
    let source = IoFailure { not_found: false, code: None, message: "disk".to_owned() };
    let io = GitError::Io { args: words(&["status"]), source };
    assert!(io.message().contains("disk"));
    let utf8 = GitError::Utf8 {
        args: words(&["status"]),
        stream: OutputStream::Stderr,
        detail: "bad byte".to_owned(),
    };
    assert!(utf8.message().contains("stderr"));
    assert!(utf8.message().contains("bad byte"));
}
