use bitbygit::git::types::{ExitStatus, IoFailure};
use bitbygit::github::{
    CreatePullRequest, GhError, GhSetupStatus, GitHub, PullRequest, PullRequestRepository,
    AUTHENTICATE_GH_GUIDANCE, INSTALL_GH_GUIDANCE,
};
use bitbygit::session::{Action, Halt, Reply};
use serde_json::Value;

/// A GitHub CLI in memory that answers by its arguments.
struct FakeGh {
    missing: bool,
    answers: Vec<(Vec<&'static str>, i32, &'static str)>,
    invocations: Vec<String>,
    prompt_values: String,
}

impl FakeGh {
    fn new(answers: Vec<(Vec<&'static str>, i32, &'static str)>) -> FakeGh {
        FakeGh { missing: false, answers, invocations: Vec::new(), prompt_values: String::new() }
    }

    fn run(&mut self, args: &[String]) -> Reply {
        if self.missing {
            return Reply::Failed(IoFailure {
                not_found: true,
                code: Some(2),
                message: "No such file or directory (os error 2)".to_owned(),
            });
        }
        self.invocations.push(args.join("\u{1f}") + "\u{1f}\n");
        let found = self
            .answers
            .iter()
            .find(|(start, _, _)| args.len() >= start.len() && args[..start.len()] == start[..]);
        let (code, stdout) = match found {
            Some((_, code, stdout)) => (*code, *stdout),
            None => (1, ""),
        };
        Reply::Output {
            status: ExitStatus { code: Some(code), description: format!("exit status: {code}") },
            stdout: stdout.as_bytes().to_vec(),
            stderr: b"setup-check-output-must-not-be-exposed".to_vec(),
        }
    }

    fn answer(&mut self, action: &Action) -> Reply {
        match action {
            Action::RunGh { args } => {
                if let Some(launch) = github().launch(action) {
                    for (name, value) in launch.environment {
                        if name == "GH_PROMPT_DISABLED" {
                            self.prompt_values.push_str(&String::from_utf8_lossy(&value));
                            self.prompt_values.push('\n');
                        }
                    }
                }
                self.run(args)
            }
            Action::DecodeRepository { json } => decode_repository(json).unwrap_or(Reply::Missing),
            Action::DecodePullRequests { json } => {
                decode_pull_requests(json).unwrap_or(Reply::Missing)
            }
            other => panic!("unexpected action: {other:?}"),
        }
    }
}

fn word(value: &Value, key: &str) -> Option<String> {
    value.get(key)?.as_str().map(str::to_owned)
}

fn decode_repository(json: &str) -> Option<Reply> {
    let value = serde_json::from_str::<Value>(json).ok()?;
    Some(Reply::Repository {
        name_with_owner: word(&value, "nameWithOwner")?,
        default_branch: value.get("defaultBranchRef").and_then(|branch| word(branch, "name")),
    })
}

fn decode_pull_requests(json: &str) -> Option<Reply> {
    let value = serde_json::from_str::<Value>(json).ok()?;
    let mut requests = Vec::new();
    for item in value.as_array()? {
        requests.push(PullRequest {
            number: item.get("number")?.as_u64()?,
            url: word(item, "url")?,
            title: word(item, "title")?,
            base_ref_name: word(item, "baseRefName")?,
            head_ref_name: word(item, "headRefName")?,
            head_repository: item.get("headRepository").and_then(|repository| {
                word(repository, "nameWithOwner")
                    .map(|name_with_owner| PullRequestRepository { name_with_owner })
            }),
        });
    }
    Some(Reply::PullRequests(requests))
}

fn github() -> GitHub {
    GitHub::with_executable(b".".to_vec(), b"/bin/gh".to_vec())
}

fn drive<T>(
    fake: &mut FakeGh,
    operation: impl Fn(&[Reply]) -> Result<T, Halt<GhError>>,
) -> Result<T, GhError> {
    let mut replies: Vec<Reply> = Vec::new();
    loop {
        match operation(&replies) {
            Ok(value) => return Ok(value),
            Err(Halt::Failed(error)) => return Err(error),
            Err(Halt::Pending(action)) => {
                let reply = fake.answer(&action);
                replies.push(reply);
                assert!(replies.len() < 100);
            }
        }
    }
}

fn given<T>(result: Result<T, GhError>) -> T {
    match result {
        Ok(value) => value,
        Err(error) => panic!("{}", error.message()),
    }
}

const VIEWED: &str = "{\"nameWithOwner\":\"octo/repo\",\"defaultBranchRef\":{\"name\":\"main\"}}\n";

#[test]
fn missing_cli_has_install_guidance() {
    let mut fake = FakeGh::new(Vec::new());
    fake.missing = true;
    let status = given(drive(&mut fake, |replies| github().setup_status(replies)));
    assert_eq!(status, GhSetupStatus::MissingCli);
    assert_eq!(status.guidance(), Some(INSTALL_GH_GUIDANCE));

    let error = drive(&mut fake, |replies| github().repository(replies));
    assert_eq!(
        error.map_err(|error| error.message()),
        Err(INSTALL_GH_GUIDANCE.to_owned())
    );
}

#[test]
fn auth_failure_has_login_guidance() {
    let mut fake = FakeGh::new(vec![(vec!["--version"], 0, ""), (vec!["auth"], 1, "")]);
    let status = given(drive(&mut fake, |replies| github().setup_status(replies)));
    assert_eq!(status, GhSetupStatus::NotAuthenticated);
    assert_eq!(status.guidance(), Some(AUTHENTICATE_GH_GUIDANCE));
    assert_eq!(fake.prompt_values, "1\n1\n");
    assert_eq!(GhSetupStatus::Ready.guidance(), None);
}

#[test]
fn auth_check_ignores_a_stale_account_on_another_host() {
    let mut fake = FakeGh::new(vec![
        (vec!["--version"], 0, ""),
        (vec!["auth", "status", "--active", "--hostname", "github.com"], 0, ""),
        (vec!["repo", "view"], 0, VIEWED),
    ]);
    let repository = given(drive(&mut fake, |replies| github().repository(replies)));
    assert_eq!(repository.name_with_owner, "octo/repo");
    assert!(fake.invocations.contains(
        &"auth\u{1f}status\u{1f}--active\u{1f}--hostname\u{1f}github.com\u{1f}\n".to_owned()
    ));
}

#[test]
fn setup_checks_do_not_expose_command_output() {
    let mut fake = FakeGh::new(vec![
        (vec!["--version"], 0, "setup-check-output-must-not-be-exposed"),
        (vec!["auth", "status"], 1, "setup-check-output-must-not-be-exposed"),
    ]);
    let error = drive(&mut fake, |replies| github().repository(replies));
    assert!(!format!("{error:?}").contains("setup-check-output-must-not-be-exposed"));
    let mut fake = FakeGh::new(Vec::new());
    let error = drive(&mut fake, |replies| github().setup_status(replies));
    assert!(!format!("{error:?}").contains("setup-check-output-must-not-be-exposed"));
    assert_eq!(
        error.map_err(|error| error.message()),
        Err("GitHub CLI failed with status exit status: 1".to_owned())
    );
}

#[test]
fn queries_repository_and_all_existing_pull_requests() {
    let mut fake = FakeGh::new(vec![
        (vec!["--version"], 0, ""),
        (vec!["auth", "status"], 0, ""),
        (vec!["repo", "view"], 0, VIEWED),
        (
            vec!["pr", "list"],
            0,
            "[{\"number\":42,\"url\":\"https://github.com/octo/repo/pull/42\",\"title\":\"Existing PR\",\"baseRefName\":\"main\",\"headRefName\":\"feature\",\"headRepository\":{\"nameWithOwner\":\"octo/repo\"}}]\n",
        ),
    ]);

    let repository = given(drive(&mut fake, |replies| github().repository(replies)));
    let pull_requests =
        given(drive(&mut fake, |replies| github().existing_pull_requests("feature", replies)));

    assert_eq!(repository.name_with_owner, "octo/repo");
    assert_eq!(repository.default_branch, "main");
    assert_eq!(pull_requests.len(), 1);
    assert_eq!(pull_requests[0].number, 42);
    assert_eq!(pull_requests[0].url, "https://github.com/octo/repo/pull/42");
    assert_eq!(
        pull_requests[0]
            .head_repository
            .as_ref()
            .map(|repository| repository.name_with_owner.as_str()),
        Some("octo/repo")
    );
    assert!(fake.invocations.contains(
        &"pr\u{1f}list\u{1f}--head\u{1f}feature\u{1f}--state\u{1f}open\u{1f}--limit\u{1f}0\u{1f}--json\u{1f}number,url,title,baseRefName,headRefName,headRepository\u{1f}\n".to_owned()
    ));
    assert_eq!(fake.prompt_values, "1\n1\n1\n1\n1\n1\n");
}

#[test]
fn creates_pull_request_with_literal_shell_metacharacters_in_title() {
    let mut fake = FakeGh::new(vec![
        (vec!["--version"], 0, ""),
        (vec!["auth", "status"], 0, ""),
        (vec!["pr", "create"], 0, "https://github.com/octo/repo/pull/43\n"),
    ]);
    let title = "release $(touch /tmp/should-not-exist) ; | &".to_owned();
    let request = CreatePullRequest {
        title: title.clone(),
        body: "Ship it".to_owned(),
        base: "main".to_owned(),
        head: "feature".to_owned(),
    };

    let created =
        given(drive(&mut fake, |replies| github().create_pull_request(&request, replies)));

    assert_eq!(created.url, "https://github.com/octo/repo/pull/43");
    assert!(fake.invocations.contains(&format!(
        "pr\u{1f}create\u{1f}--title\u{1f}{title}\u{1f}--body\u{1f}Ship it\u{1f}--base\u{1f}main\u{1f}--head\u{1f}feature\u{1f}\n"
    )));
    assert_eq!(fake.prompt_values, "1\n1\n1\n");
}

#[test]
fn blank_requests_are_refused_before_they_are_sent() {
    let full = CreatePullRequest {
        title: "t".to_owned(),
        body: String::new(),
        base: "main".to_owned(),
        head: "feature".to_owned(),
    };
    assert!(full.validate().is_ok());
    let mut fake = FakeGh::new(vec![(vec!["--version"], 0, ""), (vec!["auth"], 0, "")]);
    for (request, name) in [
        (CreatePullRequest { title: " \t".to_owned(), ..full.clone() }, "title"),
        (CreatePullRequest { base: String::new(), ..full.clone() }, "base branch"),
        (CreatePullRequest { head: "\n".to_owned(), ..full.clone() }, "head branch"),
    ] {
        let error = drive(&mut fake, |replies| github().create_pull_request(&request, replies));
        assert_eq!(
            error.map_err(|error| error.message()),
            Err(format!("pull request {name} must not be empty"))
        );
    }
    assert!(!fake.invocations.iter().any(|line| line.starts_with("pr")));
}

#[test]
fn output_of_an_unknown_form_is_refused() {
    for (output, operation) in [
        ("not json", "repository"),
        ("{\"nameWithOwner\":\"octo/repo\",\"defaultBranchRef\":null}", "repository query"),
        (
            "{\"nameWithOwner\":\"octo/repo\",\"defaultBranchRef\":{\"name\":\"\"}}",
            "repository query",
        ),
    ] {
        let mut fake = FakeGh::new(vec![
            (vec!["--version"], 0, ""),
            (vec!["auth"], 0, ""),
            (vec!["repo", "view"], 0, output),
        ]);
        let error = drive(&mut fake, |replies| github().repository(replies));
        assert_eq!(
            error.map_err(|error| error.message()),
            Err(format!("GitHub CLI returned invalid output for {operation}"))
        );
    }
    let mut fake = FakeGh::new(vec![
        (vec!["--version"], 0, ""),
        (vec!["auth"], 0, ""),
        (vec!["pr", "list"], 0, "{}"),
        (vec!["pr", "create"], 0, "\n \n"),
    ]);
    let error = drive(&mut fake, |replies| github().existing_pull_requests("x", replies));
    assert!(matches!(error, Err(GhError::InvalidOutput { .. })));
    let request = CreatePullRequest {
        title: "t".to_owned(),
        body: String::new(),
        base: "main".to_owned(),
        head: "x".to_owned(),
    };
    let error = drive(&mut fake, |replies| github().create_pull_request(&request, replies));
    assert_eq!(
        error.map_err(|error| error.message()),
        Err("GitHub CLI returned invalid output for pull request creation".to_owned())
    );
}

#[test]
fn the_tool_is_found_by_its_name() {
    let tool = GitHub::new(b"/work".to_vec());
    assert_eq!(tool.executable, b"gh".to_vec());
    assert_eq!(tool.cwd, b"/work".to_vec());
    assert_eq!(tool.launch(&Action::Clock), None);
}
