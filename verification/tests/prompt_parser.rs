use bitbygit::operation::OperationRequest;
use bitbygit::prompt_parser::{
    parse_prompt, ParsedPrompt, PROMPT_EXAMPLES, RAW_GIT_MESSAGE, SHELL_SYNTAX_MESSAGE,
    UNSUPPORTED_PROMPT_MESSAGE,
};

#[test]
fn parses_supported_single_step_golden_prompts() {
    let cases = [
        ("branches", OperationRequest::Branches),
        ("fetch", OperationRequest::Fetch),
        ("push", OperationRequest::Push),
        ("open pr", OperationRequest::OpenPullRequest { base: None }),
        (
            "open pull request",
            OperationRequest::OpenPullRequest { base: None },
        ),
        (
            "open pull request to develop",
            OperationRequest::OpenPullRequest {
                base: Some("develop".to_owned()),
            },
        ),
        (
            "OPEN PR TO release",
            OperationRequest::OpenPullRequest {
                base: Some("release".to_owned()),
            },
        ),
        ("pull", OperationRequest::Pull { rebase: false }),
        ("pull --rebase", OperationRequest::Pull { rebase: true }),
        ("pull rebase", OperationRequest::Pull { rebase: true }),
        (
            "checkout feature/auth",
            OperationRequest::Checkout {
                branch: "feature/auth".to_owned(),
            },
        ),
        (
            "branch feature/auth",
            OperationRequest::CreateBranch {
                branch: "feature/auth".to_owned(),
                base: None,
            },
        ),
        (
            "branch feature/auth from origin/main",
            OperationRequest::CreateBranch {
                branch: "feature/auth".to_owned(),
                base: Some("origin/main".to_owned()),
            },
        ),
        (
            "merge feature/auth",
            OperationRequest::Merge {
                branch: "feature/auth".to_owned(),
            },
        ),
        (
            "rebase origin/main",
            OperationRequest::Rebase {
                base: "origin/main".to_owned(),
            },
        ),
        (
            "commit -m \"sync docs\"",
            OperationRequest::Commit {
                message: "sync docs".to_owned(),
            },
        ),
        (
            "commit ship staged work",
            OperationRequest::Commit {
                message: "ship staged work".to_owned(),
            },
        ),
    ];

    for (input, request) in cases {
        assert_eq!(parse_prompt(input), Ok(ParsedPrompt::Single(request)));
    }
}

#[test]
fn parses_request_sequences_without_shell_text() {
    assert_eq!(
        parse_prompt("commit -m \"fix auth and routing\" and push"),
        Ok(ParsedPrompt::Sequence(vec![
            OperationRequest::Commit {
                message: "fix auth and routing".to_owned(),
            },
            OperationRequest::Push,
        ]))
    );
    assert_eq!(
        parse_prompt("fetch then pull --rebase"),
        Ok(ParsedPrompt::Sequence(vec![
            OperationRequest::Fetch,
            OperationRequest::Pull { rebase: true },
        ]))
    );
    assert_eq!(
        parse_prompt("fetch && push"),
        Ok(ParsedPrompt::Sequence(vec![
            OperationRequest::Fetch,
            OperationRequest::Push,
        ]))
    );
}

#[test]
fn preserves_connectors_inside_quotes() {
    assert_eq!(
        parse_prompt("commit -m \"fix auth and routing then cleanup\""),
        Ok(ParsedPrompt::Single(OperationRequest::Commit {
            message: "fix auth and routing then cleanup".to_owned(),
        }))
    );
    assert_eq!(
        parse_prompt("commit -m \"fix auth && routing\""),
        Ok(ParsedPrompt::Single(OperationRequest::Commit {
            message: "fix auth && routing".to_owned(),
        }))
    );
}

#[test]
fn rejects_unsupported_golden_prompts() {
    let cases = [
        ("", format!("Prompt required. Try: {PROMPT_EXAMPLES}")),
        ("branch list", "Use `branches` to list branches.".to_owned()),
        (
            "checkout --detach",
            "Expected: checkout <branch>".to_owned(),
        ),
        (
            "branch feature from",
            "Expected: branch <name> or branch <name> from <base>".to_owned(),
        ),
        ("push --force", UNSUPPORTED_PROMPT_MESSAGE.to_owned()),
        ("pull --ff-only", UNSUPPORTED_PROMPT_MESSAGE.to_owned()),
        ("git push", RAW_GIT_MESSAGE.to_owned()),
        ("git commit -m \"message\"", RAW_GIT_MESSAGE.to_owned()),
        (
            "commit",
            "Commit message required. Try: commit -m \"message\"".to_owned(),
        ),
        (
            "commit -m",
            "Commit message required. Try: commit -m \"message\"".to_owned(),
        ),
        (
            "commit --amend",
            "Unsupported prompt. Try: commit -m \"message\"".to_owned(),
        ),
        (
            "commit --no-verify",
            "Unsupported prompt. Try: commit -m \"message\"".to_owned(),
        ),
        (
            "commit -S -m \"signed\"",
            "Unsupported prompt. Try: commit -m \"message\"".to_owned(),
        ),
        (
            "commit -m \"message\" trailing",
            "Unexpected text after commit message.".to_owned(),
        ),
        (
            "commitment -m \"message\"",
            UNSUPPORTED_PROMPT_MESSAGE.to_owned(),
        ),
    ];

    for (input, message) in cases {
        assert_eq!(
            parse_prompt(input).map_err(|error| error.message().to_owned()),
            Err(message)
        );
    }
}

#[test]
fn unclosed_quotes_fail_closed() {
    assert_eq!(
        parse_prompt("commit -m \"fix and push").map_err(|error| error.message().to_owned()),
        Err("Unclosed quote. Close the quoted string before submitting.".to_owned())
    );
}

#[test]
fn shell_like_prompts_reject_the_whole_prompt() {
    for input in [
        "fetch & push",
        "fetch; push",
        "push | cat",
        "pull > out.txt",
        "fetch and git push",
    ] {
        assert!(parse_prompt(input).is_err());
    }
}

#[test]
fn shell_syntax_outside_quotes_is_named() {
    for input in [
        "fetch & push",
        "fetch; push",
        "push | cat",
        "pull > out.txt",
        "pull < in.txt",
        "commit -m $(whoami)",
        "commit `whoami`",
        "checkout a\\b",
    ] {
        assert_eq!(
            parse_prompt(input).map_err(|error| error.message().to_owned()),
            Err(SHELL_SYNTAX_MESSAGE.to_owned()),
            "{input}"
        );
    }
    assert_eq!(
        parse_prompt("commit -m \"a; b | c > d\""),
        Ok(ParsedPrompt::Single(OperationRequest::Commit {
            message: "a; b | c > d".to_owned(),
        }))
    );
}

#[test]
fn ampersands_connect_only_in_pairs() {
    assert!(parse_prompt("fetch && push").is_ok());
    assert!(parse_prompt("fetch&&push").is_ok());
    for input in ["fetch & push", "fetch &&& push", "fetch &&&& push", "fetch && && push", "fetch &&"] {
        assert!(parse_prompt(input).is_err(), "{input}");
    }
    assert_eq!(
        parse_prompt("commit -m \"a &&& b\""),
        Ok(ParsedPrompt::Single(OperationRequest::Commit {
            message: "a &&& b".to_owned(),
        }))
    );
}

#[test]
fn each_part_of_a_sequence_is_read_as_it_is_alone() {
    let parts = ["fetch", "pull --rebase", "checkout topic", "commit -m \"x\""];
    for first in parts {
        for second in parts {
            let (Ok(ParsedPrompt::Single(left)), Ok(ParsedPrompt::Single(right))) =
                (parse_prompt(first), parse_prompt(second))
            else {
                panic!("{first} and {second} are prompts");
            };
            assert_eq!(
                parse_prompt(&format!("{first} and {second}")),
                Ok(ParsedPrompt::Sequence(vec![left, right]))
            );
        }
    }
}

#[test]
fn connectors_join_any_two_prompts() {
    let prompts = ["fetch", " push ", "checkout topic", "commit -m \"a && b\"", "fetch then push"];
    for connector in [" and ", " then ", " && ", " AND ", "\tThen\n", "&&", " &&"] {
        for first in prompts {
            for second in prompts {
                let mut expected = Vec::new();
                for single in [first, second] {
                    match parse_prompt(single) {
                        Ok(ParsedPrompt::Single(request)) => expected.push(request),
                        Ok(ParsedPrompt::Sequence(requests)) => expected.extend(requests),
                        Err(error) => panic!("{single}: {}", error.message()),
                    }
                }
                assert_eq!(
                    parse_prompt(&format!("{first}{connector}{second}")),
                    Ok(ParsedPrompt::Sequence(expected)),
                    "{first}{connector}{second}"
                );
            }
        }
    }
}

#[test]
fn a_refused_part_refuses_the_sequence() {
    assert_eq!(
        parse_prompt("fetch and git push").map_err(|error| error.message().to_owned()),
        Err(RAW_GIT_MESSAGE.to_owned())
    );
    assert!(parse_prompt("fetch and").is_err());
    assert!(parse_prompt("and push").is_err());
    assert!(parse_prompt("fetch and and push").is_err());
}
