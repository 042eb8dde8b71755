use bitbygit::config::{
    line_column, valid_branch_name, valid_branch_pattern, AppConfig, ConfigError,
    ConfirmationConfig, ConfirmationSetting, OperationFamily, CONFIG_SCHEMA_VERSION,
};
use std::error::Error;

fn check_keys(table: &toml::Table, known: &[&str]) -> Result<(), Option<usize>> {
    if table.keys().all(|key| known.contains(&key.as_str())) {
        Ok(())
    } else {
        Err(None)
    }
}

fn section<'a>(table: &'a toml::Table, key: &str) -> Result<Option<&'a toml::Table>, Option<usize>> {
    match table.get(key) {
        None => Ok(None),
        Some(toml::Value::Table(inner)) => Ok(Some(inner)),
        Some(_) => Err(None),
    }
}

fn text(value: &toml::Value) -> Result<String, Option<usize>> {
    value.as_str().map(str::to_owned).ok_or(None)
}

fn texts(value: &toml::Value) -> Result<Vec<String>, Option<usize>> {
    value.as_array().ok_or(None)?.iter().map(text).collect()
}

fn setting(value: &toml::Value) -> Result<ConfirmationSetting, Option<usize>> {
    match value.as_str() {
        Some("normal-selection") => Ok(ConfirmationSetting::NormalSelection),
        Some("visible-plan") => Ok(ConfirmationSetting::VisiblePlan),
        Some("explicit-confirmation") => Ok(ConfirmationSetting::ExplicitConfirmation),
        Some("blocked") => Ok(ConfirmationSetting::Blocked),
        _ => Err(None),
    }
}

fn family(value: String) -> Result<OperationFamily, Option<usize>> {
    match value.as_str() {
        "pull" => Ok(OperationFamily::Pull),
        "rebase" => Ok(OperationFamily::Rebase),
        "push" => Ok(OperationFamily::Push),
        _ => Err(None),
    }
}

fn decode(contents: &str) -> Result<AppConfig, Option<usize>> {
    let table = contents
        .parse::<toml::Table>()
        .map_err(|error| error.span().map(|span| span.start))?;
    check_keys(&table, &["schema-version", "policy", "pull-requests", "prompt"])?;
    let mut config = AppConfig::default();
    if let Some(value) = table.get("schema-version") {
        config.schema_version =
            u32::try_from(value.as_integer().ok_or(None)?).map_err(|_| None)?;
    }
    if let Some(policy) = section(&table, "policy")? {
        check_keys(
            policy,
            &["additional-protected-branches", "confirmation", "disabled-operations"],
        )?;
        if let Some(value) = policy.get("additional-protected-branches") {
            config.policy.additional_protected_branches = texts(value)?;
        }
        if let Some(value) = policy.get("disabled-operations") {
            config.policy.disabled_operations =
                texts(value)?.into_iter().map(family).collect::<Result<_, _>>()?;
        }
        if let Some(confirmation) = section(policy, "confirmation")? {
            check_keys(confirmation, &["low", "medium", "high"])?;
            if let Some(value) = confirmation.get("low") {
                config.policy.confirmation.low = setting(value)?;
            }
            if let Some(value) = confirmation.get("medium") {
                config.policy.confirmation.medium = setting(value)?;
            }
            if let Some(value) = confirmation.get("high") {
                config.policy.confirmation.high = setting(value)?;
            }
        }
    }
    if let Some(pull_requests) = section(&table, "pull-requests")? {
        check_keys(pull_requests, &["default-base-branch"])?;
        if let Some(value) = pull_requests.get("default-base-branch") {
            config.pull_requests.default_base_branch = Some(text(value)?);
        }
    }
    if let Some(prompt) = section(&table, "prompt")? {
        check_keys(prompt, &["enabled"])?;
        if let Some(value) = prompt.get("enabled") {
            config.prompt.enabled = value.as_bool().ok_or(None)?;
        }
    }
    Ok(config)
}

fn parse(contents: &str) -> Result<AppConfig, ConfigError> {
    AppConfig::parse(contents, decode(contents))
}

#[test]
fn empty_config_uses_complete_safe_defaults() {
    assert_eq!(parse(""), Ok(AppConfig::default()));
}

#[test]
fn valid_toml_produces_typed_settings() {
    let config = match parse(
        r#"
schema-version = 1

[policy]
additional-protected-branches = ["production", "stable/*"]
disabled-operations = ["pull", "rebase"]

[policy.confirmation]
low = "visible-plan"
medium = "explicit-confirmation"
high = "blocked"

[pull-requests]
default-base-branch = "develop"

[prompt]
enabled = false
"#,
    ) {
        Ok(config) => config,
        Err(error) => panic!("{error:?}"),
    };

    assert_eq!(config.policy.additional_protected_branches, ["production", "stable/*"]);
    assert_eq!(
        config.policy.disabled_operations,
        [OperationFamily::Pull, OperationFamily::Rebase]
    );
    assert_eq!(
        config.policy.confirmation.medium,
        ConfirmationSetting::ExplicitConfirmation
    );
    assert_eq!(
        config.pull_requests.default_base_branch.as_deref(),
        Some("develop")
    );
    assert!(!config.prompt.enabled);
}

#[test]
fn unknown_keys_and_enum_values_are_rejected_without_retaining_contents(
) -> Result<(), Box<dyn Error>> {
    let secret = "credential = \"super-secret-value\"";
    let error = match parse(secret) {
        Ok(_config) => return Err("unknown key must fail".into()),
        Err(error) => error,
    };
    assert!(!format!("{error:?}").contains("super-secret-value"));

    assert!(parse("[policy]\ndisabled-operations = [\"force-push\"]").is_err());
    assert!(parse("[prompt]\ncommand = \"git status\"").is_err());
    Ok(())
}

#[test]
fn values_that_weaken_or_ambiguate_policy_are_rejected() {
    assert!(parse("[policy.confirmation]\nmedium = \"normal-selection\"").is_err());
    assert!(parse("[policy]\nadditional-protected-branches = [\"release/**\"]").is_err());
    assert!(parse("[pull-requests]\ndefault-base-branch = \"bad branch\"").is_err());
}

#[test]
fn git_invalid_branch_name_boundaries_are_rejected() {
    for branch in ["HEAD", "foo.lock/bar", "foo/bar.lock/baz"] {
        assert!(parse(&format!("[pull-requests]\ndefault-base-branch = \"{branch}\"")).is_err());
        assert!(parse(&format!(
            "[policy]\nadditional-protected-branches = [\"{branch}\"]"
        ))
        .is_err());
    }

    for pattern in ["foo.lock/*", "foo/bar.lock/*"] {
        assert!(parse(&format!(
            "[policy]\nadditional-protected-branches = [\"{pattern}\"]"
        ))
        .is_err());
    }
}

#[test]
fn git_valid_branch_name_boundaries_and_wildcards_are_accepted() {
    let config = parse(
        r#"
[policy]
additional-protected-branches = ["HEAD/*", "foo.locked/*", "foo.LOCK/bar"]

[pull-requests]
default-base-branch = "foo/HEAD"
"#,
    );
    assert!(config.is_ok(), "{config:?}");
}

#[test]
fn refused_values_name_their_field() {
    let mut config = AppConfig::default();
    config.schema_version = CONFIG_SCHEMA_VERSION + 1;
    assert_eq!(
        AppConfig::parse("", Ok(config)).map_err(|error| error.message()),
        Err("invalid value for schema-version: only schema version 1 is supported".to_owned())
    );

    let mut config = AppConfig::default();
    config.policy.confirmation.medium = ConfirmationSetting::NormalSelection;
    assert_eq!(
        config.validate(),
        Err(ConfigError::InvalidValue {
            field: "policy.confirmation.medium",
            reason: "cannot weaken the safe default",
        })
    );

    let mut config = AppConfig::default();
    config.policy.confirmation.high = ConfirmationSetting::VisiblePlan;
    assert_eq!(
        config.validate(),
        Err(ConfigError::InvalidValue {
            field: "policy.confirmation.high",
            reason: "cannot weaken the safe default",
        })
    );

    let mut config = AppConfig::default();
    config.pull_requests.default_base_branch = Some("bad branch".to_owned());
    assert_eq!(
        config.validate(),
        Err(ConfigError::InvalidValue {
            field: "pull-requests.default-base-branch",
            reason: "must be a valid local branch name",
        })
    );
}

#[test]
fn repeated_entries_are_refused() {
    let mut config = AppConfig::default();
    config.policy.additional_protected_branches =
        vec!["stable".to_owned(), "beta".to_owned(), "stable".to_owned()];
    assert_eq!(
        config.validate(),
        Err(ConfigError::InvalidValue {
            field: "policy.additional-protected-branches",
            reason: "entries must not be repeated",
        })
    );
    config.policy.additional_protected_branches = vec!["stable".to_owned(), "*".to_owned()];
    assert_eq!(
        config.validate(),
        Err(ConfigError::InvalidValue {
            field: "policy.additional-protected-branches",
            reason: "entries must be branch names or patterns ending in /*",
        })
    );

    let mut config = AppConfig::default();
    config.policy.disabled_operations = vec![OperationFamily::Push, OperationFamily::Push];
    assert_eq!(
        config.validate(),
        Err(ConfigError::InvalidValue {
            field: "policy.disabled-operations",
            reason: "entries must not be repeated",
        })
    );
}

#[test]
fn undecoded_settings_are_located() {
    let contents = "schema-version = 1\nbroken";
    let error = match AppConfig::parse(contents, Err(Some(19))) {
        Ok(_config) => panic!("broken settings must fail"),
        Err(error) => error,
    };
    assert_eq!(
        error,
        ConfigError::InvalidSchema { line: Some(2), column: Some(1) }
    );
    assert_eq!(
        error.message(),
        "invalid TOML syntax or configuration schema at line 2, column 1"
    );
    let error = match AppConfig::parse(contents, Err(None)) {
        Ok(_config) => panic!("broken settings must fail"),
        Err(error) => error,
    };
    assert_eq!(error, ConfigError::InvalidSchema { line: None, column: None });
    assert_eq!(error.message(), "invalid TOML syntax or configuration schema");
}

#[test]
fn places_count_characters_from_one() {
    assert_eq!(line_column("abc", 0), Some((1, 1)));
    assert_eq!(line_column("abc", 3), Some((1, 4)));
    assert_eq!(line_column("é\nab", 4), Some((2, 2)));
    assert_eq!(line_column("é\nab", 1), None);
    assert_eq!(line_column("abc", 4), None);
}

#[test]
fn accepted_confirmations_are_no_weaker_than_the_defaults() {
    let weakest = ConfirmationConfig::default();
    let settings = [
        ConfirmationSetting::NormalSelection,
        ConfirmationSetting::VisiblePlan,
        ConfirmationSetting::ExplicitConfirmation,
        ConfirmationSetting::Blocked,
    ];
    for low in settings {
        for medium in settings {
            for high in settings {
                let mut config = AppConfig::default();
                config.policy.confirmation = ConfirmationConfig { low, medium, high };
                assert_eq!(
                    config.validate().is_ok(),
                    !low.is_weaker(weakest.low)
                        && !medium.is_weaker(weakest.medium)
                        && !high.is_weaker(weakest.high)
                );
            }
        }
    }
    for left in settings {
        for right in settings {
            assert_eq!(left.is_weaker(right), left < right);
        }
    }
}

#[test]
fn branch_names_follow_the_rules_of_git() {
    for branch in ["main", "feature/auth", "a", "foo.locked", "v1.0", "é", "foo@bar"] {
        assert!(valid_branch_name(branch), "{branch}");
        assert!(valid_branch_pattern(branch), "{branch}");
    }
    for branch in [
        "", "HEAD", "@", "-x", "/x", "x/", "x.", "a..b", "a@{b", "a//b", ".a", "a/.b", "a.lock",
        "a b", "a~", "a^", "a:", "a?", "a*", "a[", "a\\", "a\u{7f}", "a\tb",
    ] {
        assert!(!valid_branch_name(branch), "{branch}");
    }
    assert!(valid_branch_pattern("release/*"));
    assert!(!valid_branch_pattern("release*"));
    assert!(!valid_branch_pattern("*"));
    assert!(!valid_branch_pattern("/*"));
    assert!(!valid_branch_pattern("release/**"));
}
