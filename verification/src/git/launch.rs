//! How Git is started: its arguments and the environment variables that are set for it.
use crate::bytes;
use crate::git::commands;
use crate::git::commands::Git;
use crate::git::recovery::bounded::{RECOVERY_DIAGNOSTIC_LIMIT, RECOVERY_OUTPUT_LIMIT};
use crate::git::refs;
use crate::session::{Action, ActionView, BoundedCommandPolicy};
use crate::text;
use vstd::prelude::*;
use vstd::utf8;

verus! {

broadcast use crate::bytes::bytes_are_their_view;

/// The options of ssh under which it never asks for anything.
pub const SSH_OPTIONS: &'static str = "-oBatchMode=yes -oNumberOfPasswordPrompts=0 -oKbdInteractiveAuthentication=no -oStrictHostKeyChecking=yes";

/// How long planning a recovery may take, in milliseconds.
pub const RECOVERY_PLAN_TIMEOUT: u64 = 10000;

/// How long the checks before a recovery may take, in milliseconds.
pub const RECOVERY_START_TIMEOUT: u64 = 60000;

/// The arguments of a command and the environment variables that are set for it.
#[derive(Debug, Clone, PartialEq, Eq)]
pub struct Launch {
    pub args: Vec<Vec<u8>>,
    pub environment: Vec<(String, Vec<u8>)>,
}

/// The values of a [`Launch`].
#[verifier::ext_equal]
pub struct LaunchView {
    pub args: Seq<Seq<u8>>,
    pub environment: Seq<(Seq<char>, Seq<u8>)>,
}

impl DeepView for Launch {
    type V = LaunchView;

    open spec fn deep_view(&self) -> LaunchView {
        LaunchView { args: self.args.deep_view(), environment: self.environment.deep_view() }
    }
}

/// A Git in a directory, run with the ssh of the system or another.
pub open spec fn plain_git(git: Git, cwd: Seq<u8>, ssh_executable: Option<Seq<u8>>) -> bool {
    &&& git.cwd@ == cwd
    &&& git.ssh_executable.deep_view() == ssh_executable
    &&& git.recovery_plan_timeout == RECOVERY_PLAN_TIMEOUT
    &&& git.recovery_start_timeout == RECOVERY_START_TIMEOUT
    &&& git.recovery_output_limit == RECOVERY_OUTPUT_LIMIT
    &&& !git.isolated_test_config
}

/// A variable with a text as its value.
pub open spec fn variable(name: Seq<char>, value: Seq<char>) -> (Seq<char>, Seq<u8>) {
    (name, utf8::encode_utf8(value))
}

/// The variables under which neither Git nor ssh asks for anything.
pub open spec fn quiet_environment() -> Seq<(Seq<char>, Seq<u8>)> {
    seq![
        variable("GIT_TERMINAL_PROMPT"@, "0"@),
        variable("GIT_ASKPASS"@, ""@),
        variable("SSH_ASKPASS"@, ""@),
        variable("SSH_ASKPASS_REQUIRE"@, "never"@),
    ]
}

/// The ssh that Git is to use; a command that is set already stays, unless an executable is given.
pub open spec fn ssh_environment(ssh_executable: Option<Seq<u8>>, inherited: bool) -> Seq<
    (Seq<char>, Seq<u8>),
> {
    match ssh_executable {
        Some(path) => seq![
            variable(
                "GIT_SSH_COMMAND"@,
                refs::quoted(bytes::lossy_text(path)) + " "@ + SSH_OPTIONS@,
            ),
        ],
        None => if inherited {
            Seq::empty()
        } else {
            seq![variable("GIT_SSH_COMMAND"@, "ssh"@ + " "@ + SSH_OPTIONS@)]
        },
    }
}

/// The variables under which Git opens no editor.
pub open spec fn editor_environment() -> Seq<(Seq<char>, Seq<u8>)> {
    seq![variable("GIT_EDITOR"@, "true"@), variable("GIT_SEQUENCE_EDITOR"@, "true"@)]
}

/// The variables under which Git reads no settings but those of the repository.
pub open spec fn isolated_environment(isolated: bool, cwd: Seq<u8>) -> Seq<(Seq<char>, Seq<u8>)> {
    if isolated {
        seq![
            variable("GIT_CONFIG_NOSYSTEM"@, "1"@),
            (
                "GIT_CONFIG_GLOBAL"@,
                bytes::joined_path(cwd, utf8::encode_utf8(".bitbygit-test-global-config"@)),
            ),
        ]
    } else {
        Seq::empty()
    }
}

/// The variables under which Git takes no locks that it can do without.
pub open spec fn lock_environment(optional_locks: bool) -> Seq<(Seq<char>, Seq<u8>)> {
    if optional_locks {
        seq![variable("GIT_OPTIONAL_LOCKS"@, "0"@)]
    } else {
        Seq::empty()
    }
}

/// Texts as bytes.
pub open spec fn encoded(words: Seq<Seq<char>>) -> Seq<Seq<u8>> {
    Seq::new(words.len(), |i: int| utf8::encode_utf8(words[i]))
}

/// The settings for a bounded command: nothing is started in the background, and what is only looked at
/// starts no file system monitor.
pub open spec fn bounded_settings(args: Seq<Seq<char>>, optional_locks: bool) -> Seq<Seq<char>> {
    if !optional_locks {
        seq!["-c"@, "maintenance.auto=false"@, "-c"@, "gc.auto=0"@]
    } else if args.len() > 0 && args[0] == "config"@ {
        Seq::empty()
    } else {
        seq!["-c"@, "core.fsmonitor=false"@]
    }
}

/// How Git is started for an action, where the action starts it.
pub open spec fn launched(
    cwd: Seq<u8>,
    ssh_executable: Option<Seq<u8>>,
    isolated: bool,
    action: ActionView,
    inherited: bool,
) -> Option<LaunchView> {
    match action {
        ActionView::Run { args } => Some(
            LaunchView {
                args: encoded(args),
                environment: quiet_environment() + ssh_environment(ssh_executable, inherited),
            },
        ),
        ActionView::RunRaw { args } => Some(
            LaunchView { args: encoded(args), environment: quiet_environment() },
        ),
        ActionView::RunPaths { args } => Some(
            LaunchView {
                args,
                environment: quiet_environment() + seq![
                    variable("GIT_LITERAL_PATHSPECS"@, "1"@),
                ],
            },
        ),
        ActionView::RunBounded { args, optional_locks, policy: _ } => Some(
            LaunchView {
                args: encoded(bounded_settings(args, optional_locks) + args),
                environment: quiet_environment() + editor_environment() + isolated_environment(
                    isolated,
                    cwd,
                ) + lock_environment(optional_locks) + ssh_environment(ssh_executable, inherited),
            },
        ),
        _ => None,
    }
}

/// Adds a variable.
pub(crate) fn push_variable(environment: &mut Vec<(String, Vec<u8>)>, name: &str, value: &str)
    ensures
        final(environment).deep_view() == old(environment).deep_view().push(
            variable(name@, value@),
        ),
{
    environment.push((name.to_owned(), bytes::bytes_of(value)));
    assert(environment.deep_view() =~= old(environment).deep_view().push(variable(name@, value@)));
}

/// The variables under which neither Git nor ssh asks for anything.
fn be_quiet() -> (result: Vec<(String, Vec<u8>)>)
    ensures
        result.deep_view() == quiet_environment(),
{
    let mut result: Vec<(String, Vec<u8>)> = Vec::new();
    push_variable(&mut result, "GIT_TERMINAL_PROMPT", "0");
    push_variable(&mut result, "GIT_ASKPASS", "");
    push_variable(&mut result, "SSH_ASKPASS", "");
    push_variable(&mut result, "SSH_ASKPASS_REQUIRE", "never");
    assert(result.deep_view() =~= quiet_environment());
    result
}

/// Adds the ssh that Git is to use.
fn push_ssh(
    environment: &mut Vec<(String, Vec<u8>)>,
    ssh_executable: &Option<Vec<u8>>,
    inherited: bool,
)
    ensures
        final(environment).deep_view() == old(environment).deep_view() + ssh_environment(
            ssh_executable.deep_view(),
            inherited,
        ),
{
    match ssh_executable {
        Some(path) => {
            let shown = bytes::lossy(path.as_slice());
            let word = refs::shell_quote(shown.as_str());
            let command = text::concat3(word.as_str(), " ", SSH_OPTIONS);
            push_variable(environment, "GIT_SSH_COMMAND", command.as_str());
        },
        None => {
            if !inherited {
                let command = text::concat3("ssh", " ", SSH_OPTIONS);
                push_variable(environment, "GIT_SSH_COMMAND", command.as_str());
            }
        },
    }
    assert(environment.deep_view() =~= old(environment).deep_view() + ssh_environment(
        ssh_executable.deep_view(),
        inherited,
    ));
}

/// Adds texts as bytes.
fn push_encoded(args: &mut Vec<Vec<u8>>, words: &Vec<String>)
    ensures
        final(args).deep_view() == old(args).deep_view() + encoded(words.deep_view()),
{
    let ghost start = args.deep_view();
    let ghost all = encoded(words.deep_view());
    assert(start + all.take(0) =~= start);
    let mut index: usize = 0;
    while index < words.len()
        invariant
            index <= words@.len(),
            all == encoded(words.deep_view()),
            args.deep_view() == start + all.take(index as int),
        decreases words@.len() - index,
    {
        let ghost before = args.deep_view();
        args.push(bytes::bytes_of(words[index].as_str()));
        assert(args.deep_view() =~= before.push(all[index as int]));
        index += 1;
        assert(args.deep_view() =~= start + all.take(index as int));
    }
    assert(all.take(index as int) =~= all);
}

/// Texts as bytes.
pub(crate) fn encode_all(words: &Vec<String>) -> (result: Vec<Vec<u8>>)
    ensures
        result.deep_view() == encoded(words.deep_view()),
{
    let mut result: Vec<Vec<u8>> = Vec::new();
    push_encoded(&mut result, words);
    assert(result.deep_view() =~= encoded(words.deep_view()));
    result
}

/// The settings for a bounded command, as bytes.
fn settings_for(args: &Vec<String>, optional_locks: bool) -> (result: Vec<Vec<u8>>)
    ensures
        result.deep_view() == encoded(bounded_settings(args.deep_view(), optional_locks)),
{
    let mut result: Vec<Vec<u8>> = Vec::new();
    assert(args.deep_view().len() == args@.len());
    if !optional_locks {
        result.push(bytes::bytes_of("-c"));
        result.push(bytes::bytes_of("maintenance.auto=false"));
        result.push(bytes::bytes_of("-c"));
        result.push(bytes::bytes_of("gc.auto=0"));
    } else if args.len() > 0 && text::same_text(args[0].as_str(), "config") {
    } else {
        result.push(bytes::bytes_of("-c"));
        result.push(bytes::bytes_of("core.fsmonitor=false"));
    }
    assert(result.deep_view() =~= encoded(bounded_settings(args.deep_view(), optional_locks)));
    result
}

impl Git {
    /// A Git in a directory.
    pub fn new(cwd: Vec<u8>) -> (result: Git)
        ensures
            plain_git(result, cwd@, None),
    {
        Git {
            cwd,
            ssh_executable: None,
            recovery_plan_timeout: RECOVERY_PLAN_TIMEOUT,
            recovery_start_timeout: RECOVERY_START_TIMEOUT,
            recovery_output_limit: RECOVERY_OUTPUT_LIMIT,
            isolated_test_config: false,
        }
    }

    /// A Git in a directory that uses a given ssh.
    pub fn with_ssh_executable(cwd: Vec<u8>, ssh_executable: Vec<u8>) -> (result: Git)
        ensures
            plain_git(result, cwd@, Some(ssh_executable@)),
    {
        Git {
            cwd,
            ssh_executable: Some(ssh_executable),
            recovery_plan_timeout: RECOVERY_PLAN_TIMEOUT,
            recovery_start_timeout: RECOVERY_START_TIMEOUT,
            recovery_output_limit: RECOVERY_OUTPUT_LIMIT,
            isolated_test_config: false,
        }
    }

    /// The same Git, whose recoveries read no settings but those of the repository.
    pub fn with_isolated_test_config(self) -> (result: Git)
        ensures
            result == (Git { isolated_test_config: true, ..self }),
    {
        Git { isolated_test_config: true, ..self }
    }

    /// How many bytes of the output of a bounded command are kept.
    pub fn output_limit(&self, optional_locks: bool) -> (result: usize)
        ensures
            result == (if optional_locks {
                RECOVERY_DIAGNOSTIC_LIMIT
            } else {
                self.recovery_output_limit
            }),
    {
        if optional_locks {
            RECOVERY_DIAGNOSTIC_LIMIT
        } else {
            self.recovery_output_limit
        }
    }

    /// How Git is started for an action; `inherited` says that the ssh for Git is set already.
    pub fn launch(&self, action: &Action, inherited: bool) -> (result: Option<Launch>)
        ensures
            result.deep_view() == launched(
                self.cwd@,
                self.ssh_executable.deep_view(),
                self.isolated_test_config,
                action.deep_view(),
                inherited,
            ),
    {
        match action {
            Action::Run { args } => {
                let mut environment = be_quiet();
                push_ssh(&mut environment, &self.ssh_executable, inherited);
                Some(Launch { args: encode_all(args), environment })
            },
            Action::RunRaw { args } => {
                let environment = be_quiet();
                Some(Launch { args: encode_all(args), environment })
            },
            Action::RunPaths { args } => {
                let mut environment = be_quiet();
                push_variable(&mut environment, "GIT_LITERAL_PATHSPECS", "1");
                assert(environment.deep_view() =~= quiet_environment() + seq![
                    variable("GIT_LITERAL_PATHSPECS"@, "1"@),
                ]);
                Some(Launch { args: commands::copy_list(args), environment })
            },
            Action::RunBounded { args, optional_locks, policy: _ } => {
                let mut encoded_args = settings_for(args, *optional_locks);
                push_encoded(&mut encoded_args, args);
                let ghost settings = bounded_settings(args.deep_view(), *optional_locks);
                assert(encoded(settings) + encoded(args.deep_view()) =~= encoded(
                    settings + args.deep_view(),
                ));
                let environment = self.bounded_environment(*optional_locks, inherited);
                Some(Launch { args: encoded_args, environment })
            },
            _ => None,
        }
    }

    /// The environment of a bounded command.
    fn bounded_environment(&self, optional_locks: bool, inherited: bool) -> (result: Vec<
        (String, Vec<u8>),
    >)
        ensures
            result.deep_view() == quiet_environment() + editor_environment() + isolated_environment(
                self.isolated_test_config,
                self.cwd@,
            ) + lock_environment(optional_locks) + ssh_environment(
                self.ssh_executable.deep_view(),
                inherited,
            ),
    {
        let mut environment = be_quiet();
        push_variable(&mut environment, "GIT_EDITOR", "true");
        push_variable(&mut environment, "GIT_SEQUENCE_EDITOR", "true");
        let ghost so_far = quiet_environment() + editor_environment();
        assert(environment.deep_view() =~= so_far);
        if self.isolated_test_config {
            push_variable(&mut environment, "GIT_CONFIG_NOSYSTEM", "1");
            let ghost before = environment.deep_view();
            let global = bytes::join_name(self.cwd.as_slice(), ".bitbygit-test-global-config");
            environment.push(("GIT_CONFIG_GLOBAL".to_owned(), global));
            assert(environment.deep_view() =~= before.push(("GIT_CONFIG_GLOBAL"@, global@)));
        }
        let ghost next = so_far + isolated_environment(self.isolated_test_config, self.cwd@);
        assert(environment.deep_view() =~= next);
        if optional_locks {
            push_variable(&mut environment, "GIT_OPTIONAL_LOCKS", "0");
        }
        assert(environment.deep_view() =~= next + lock_environment(optional_locks));
        push_ssh(&mut environment, &self.ssh_executable, inherited);
        environment
    }
}

/// No command asks for anything: whatever action starts Git, the four variables that keep it and ssh from
/// asking are set.
pub proof fn commands_never_ask(
    cwd: Seq<u8>,
    ssh_executable: Option<Seq<u8>>,
    isolated: bool,
    action: ActionView,
    inherited: bool,
)
    requires
        launched(cwd, ssh_executable, isolated, action, inherited) is Some,
    ensures
        ({
            let environment = launched(
                cwd,
                ssh_executable,
                isolated,
                action,
                inherited,
            )->Some_0.environment;
            &&& environment.len() >= 4
            &&& environment.take(4) == quiet_environment()
        }),
{
    let environment = launched(
        cwd,
        ssh_executable,
        isolated,
        action,
        inherited,
    )->Some_0.environment;
    assert(environment.take(4) =~= quiet_environment());
}

/// The command that carries out a recovery starts no maintenance in the background, and opens no editor.
pub proof fn recovery_starts_no_maintenance(
    cwd: Seq<u8>,
    ssh_executable: Option<Seq<u8>>,
    isolated: bool,
    args: Seq<Seq<char>>,
    policy: BoundedCommandPolicy,
    inherited: bool,
)
    ensures
        ({
            let action = ActionView::RunBounded { args, optional_locks: false, policy };
            let launch = launched(cwd, ssh_executable, isolated, action, inherited)->Some_0;
            &&& launch.args == encoded(
                seq!["-c"@, "maintenance.auto=false"@, "-c"@, "gc.auto=0"@] + args,
            )
            &&& launch.environment.contains(variable("GIT_EDITOR"@, "true"@))
            &&& launch.environment.contains(variable("GIT_SEQUENCE_EDITOR"@, "true"@))
        }),
{
    let action = ActionView::RunBounded { args, optional_locks: false, policy };
    let environment = launched(
        cwd,
        ssh_executable,
        isolated,
        action,
        inherited,
    )->Some_0.environment;
    assert(environment[4] == variable("GIT_EDITOR"@, "true"@));
    assert(environment[5] == variable("GIT_SEQUENCE_EDITOR"@, "true"@));
}

}
