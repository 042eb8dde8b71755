//! How Git is started: with the words of the command and an environment in which nothing is asked.
use crate::bytes;
use crate::git::launch;
use crate::git::launch::LaunchView;
use crate::git::refs;
use crate::session::{ActionView, BoundedCommandPolicy};
use vstd::prelude::*;
use vstd::utf8;

verus! {

/// Whether a list of arguments is some words and then the words of a command.
pub open spec fn is_started_with(
    started: LaunchView,
    settings: Seq<Seq<char>>,
    args: Seq<Seq<char>>,
) -> bool {
    &&& started.args.len() == settings.len() + args.len()
    &&& forall|i: int|
        0 <= i < settings.len() ==> #[trigger] started.args[i] == utf8::encode_utf8(settings[i])
    &&& forall|i: int|
        #![trigger args[i]]
        0 <= i < args.len() ==> started.args[settings.len() + i] == utf8::encode_utf8(args[i])
}

/// Whether an environment sets a variable to a text.
pub open spec fn sets(started: LaunchView, name: Seq<char>, value: Seq<char>) -> bool {
    started.environment.contains((name, utf8::encode_utf8(value)))
}

/// Whether nothing can be asked at a terminal.
pub open spec fn asks_nothing(started: LaunchView) -> bool {
    &&& sets(started, "GIT_TERMINAL_PROMPT"@, "0"@)
    &&& sets(started, "GIT_ASKPASS"@, ""@)
    &&& sets(started, "SSH_ASKPASS"@, ""@)
    &&& sets(started, "SSH_ASKPASS_REQUIRE"@, "never"@)
}

/// The command that ssh is run by: one that asks nothing and trusts no new host.
pub open spec fn ssh_command(program: Seq<char>) -> Seq<char> {
    program
        + " -oBatchMode=yes -oNumberOfPasswordPrompts=0 -oKbdInteractiveAuthentication=no -oStrictHostKeyChecking=yes"@
}

/// What stands in an environment is in one that starts with it or goes on behind it.
proof fn lemma_sets(environment: Seq<(Seq<char>, Seq<u8>)>, place: int)
    requires
        0 <= place < environment.len(),
    ensures
        environment.contains(environment[place]),
{
}

/// The variables that keep Git from asking stand first.
proof fn lemma_quiet(started: LaunchView, more: Seq<(Seq<char>, Seq<u8>)>)
    requires
        started.environment == launch::quiet_environment() + more,
    ensures
        asks_nothing(started),
        forall|i: int|
            0 <= i < more.len() ==> started.environment.contains(#[trigger] more[i]),
{
    let all = started.environment;
    assert(all[0] == launch::variable("GIT_TERMINAL_PROMPT"@, "0"@));
    assert(all[1] == launch::variable("GIT_ASKPASS"@, ""@));
    assert(all[2] == launch::variable("SSH_ASKPASS"@, ""@));
    assert(all[3] == launch::variable("SSH_ASKPASS_REQUIRE"@, "never"@));
    lemma_sets(all, 0);
    lemma_sets(all, 1);
    lemma_sets(all, 2);
    lemma_sets(all, 3);
    assert forall|i: int| 0 <= i < more.len() implies all.contains(#[trigger] more[i]) by {
        assert(all[i + 4] == more[i]);
    }
}

/// A command is started with its own words in their order, and asks nothing.
pub proof fn commands_are_started_as_given(
    cwd: Seq<u8>,
    ssh: Option<Seq<u8>>,
    isolated: bool,
    args: Seq<Seq<char>>,
    inherited: bool,
)
    ensures
        ({
            let run = launch::launched(cwd, ssh, isolated, ActionView::Run { args }, inherited);
            let raw = launch::launched(cwd, ssh, isolated, ActionView::RunRaw { args }, inherited);
            &&& run is Some && raw is Some
            &&& is_started_with(run->Some_0, Seq::empty(), args) && asks_nothing(run->Some_0)
            &&& is_started_with(raw->Some_0, Seq::empty(), args) && asks_nothing(raw->Some_0)
            &&& ssh is None && !inherited ==> sets(
                run->Some_0,
                "GIT_SSH_COMMAND"@,
                ssh_command("ssh"@),
            )
            &&& ssh is Some ==> sets(
                run->Some_0,
                "GIT_SSH_COMMAND"@,
                ssh_command(refs::quoted(bytes::lossy_text(ssh->Some_0))),
            )
        }),
{
    let run = launch::launched(cwd, ssh, isolated, ActionView::Run { args }, inherited)->Some_0;
    let raw = launch::launched(cwd, ssh, isolated, ActionView::RunRaw { args }, inherited)->Some_0;
    let more = launch::ssh_environment(ssh, inherited);
    lemma_quiet(run, more);
    assert(raw.environment =~= launch::quiet_environment() + Seq::<(Seq<char>, Seq<u8>)>::empty());
    lemma_quiet(raw, Seq::empty());
    lemma_ssh(ssh, inherited);
    if ssh is Some || !inherited {
        assert(run.environment.contains(more[0]));
    }
}

/// What ssh is run by.
proof fn lemma_ssh(ssh: Option<Seq<u8>>, inherited: bool)
    ensures
        ssh is Some ==> launch::ssh_environment(ssh, inherited) == seq![
            (
                "GIT_SSH_COMMAND"@,
                utf8::encode_utf8(ssh_command(refs::quoted(bytes::lossy_text(ssh->Some_0)))),
            ),
        ],
        ssh is None && !inherited ==> launch::ssh_environment(ssh, inherited) == seq![
            ("GIT_SSH_COMMAND"@, utf8::encode_utf8(ssh_command("ssh"@))),
        ],
        ssh is None && inherited ==> launch::ssh_environment(ssh, inherited).len() == 0,
{
    reveal_strlit(" ");
    reveal_strlit(
        "-oBatchMode=yes -oNumberOfPasswordPrompts=0 -oKbdInteractiveAuthentication=no -oStrictHostKeyChecking=yes",
    );
    reveal_strlit(
        " -oBatchMode=yes -oNumberOfPasswordPrompts=0 -oKbdInteractiveAuthentication=no -oStrictHostKeyChecking=yes",
    );
    let options =
        " -oBatchMode=yes -oNumberOfPasswordPrompts=0 -oKbdInteractiveAuthentication=no -oStrictHostKeyChecking=yes"@;
    assert(" "@ + launch::SSH_OPTIONS@ =~= options);
    assert("ssh"@ + " "@ + launch::SSH_OPTIONS@ =~= ssh_command("ssh"@));
    if ssh is Some {
        let program = refs::quoted(bytes::lossy_text(ssh->Some_0));
        assert(program + " "@ + launch::SSH_OPTIONS@ =~= ssh_command(program));
    }
}

/// A command on paths is started with its arguments byte by byte, and takes no path for a pattern.
pub proof fn paths_are_no_patterns(
    cwd: Seq<u8>,
    ssh: Option<Seq<u8>>,
    isolated: bool,
    args: Seq<Seq<u8>>,
    inherited: bool,
)
    ensures
        ({
            let started = launch::launched(
                cwd,
                ssh,
                isolated,
                ActionView::RunPaths { args },
                inherited,
            );
            &&& started is Some
            &&& started->Some_0.args == args
            &&& asks_nothing(started->Some_0)
            &&& sets(started->Some_0, "GIT_LITERAL_PATHSPECS"@, "1"@)
        }),
{
    let started = launch::launched(cwd, ssh, isolated, ActionView::RunPaths { args }, inherited);
    let more = seq![launch::variable("GIT_LITERAL_PATHSPECS"@, "1"@)];
    lemma_quiet(started->Some_0, more);
    assert(started->Some_0.environment.contains(more[0]));
}

/// A recovery is carried out without maintenance and without an editor, and it takes its locks. What only looks takes no
/// locks, and starts no monitor unless it reads the settings.
pub proof fn recovery_is_started_contained(
    cwd: Seq<u8>,
    ssh: Option<Seq<u8>>,
    isolated: bool,
    args: Seq<Seq<char>>,
    looks: bool,
    policy: BoundedCommandPolicy,
    inherited: bool,
)
    ensures
        ({
            let action = ActionView::RunBounded { args, optional_locks: looks, policy };
            let started = launch::launched(cwd, ssh, isolated, action, inherited);
            let settings = if !looks {
                seq!["-c"@, "maintenance.auto=false"@, "-c"@, "gc.auto=0"@]
            } else if args.len() > 0 && args[0] == "config"@ {
                Seq::empty()
            } else {
                seq!["-c"@, "core.fsmonitor=false"@]
            };
            &&& started is Some
            &&& is_started_with(started->Some_0, settings, args)
            &&& asks_nothing(started->Some_0)
            &&& sets(started->Some_0, "GIT_EDITOR"@, "true"@)
            &&& sets(started->Some_0, "GIT_SEQUENCE_EDITOR"@, "true"@)
            &&& looks ==> sets(started->Some_0, "GIT_OPTIONAL_LOCKS"@, "0"@)
            &&& isolated ==> sets(started->Some_0, "GIT_CONFIG_NOSYSTEM"@, "1"@)
            &&& ssh is None && !inherited ==> sets(
                started->Some_0,
                "GIT_SSH_COMMAND"@,
                ssh_command("ssh"@),
            )
        }),
{
    let action = ActionView::RunBounded { args, optional_locks: looks, policy };
    let started = launch::launched(cwd, ssh, isolated, action, inherited)->Some_0;
    let editor = launch::editor_environment();
    let alone = launch::isolated_environment(isolated, cwd);
    let locks = launch::lock_environment(looks);
    let over = launch::ssh_environment(ssh, inherited);
    let more = editor + alone + locks + over;
    assert(started.environment =~= launch::quiet_environment() + more);
    lemma_quiet(started, more);
    assert(more[0] == launch::variable("GIT_EDITOR"@, "true"@));
    assert(more[1] == launch::variable("GIT_SEQUENCE_EDITOR"@, "true"@));
    if isolated {
        assert(more[2] == launch::variable("GIT_CONFIG_NOSYSTEM"@, "1"@));
    }
    if looks {
        assert(more[(editor + alone).len() as int] == launch::variable("GIT_OPTIONAL_LOCKS"@, "0"@));
    }
    lemma_ssh(ssh, inherited);
    if ssh is None && !inherited {
        assert(more[(editor + alone + locks).len() as int] == over[0]);
    }
    let settings = launch::bounded_settings(args, looks);
    let all = settings + args;
    assert forall|i: int| 0 <= i < settings.len() implies #[trigger] started.args[i]
        == utf8::encode_utf8(settings[i]) by {
        assert(all[i] == settings[i]);
    }
    assert forall|i: int| #![trigger args[i]] 0 <= i < args.len() implies started.args[
        settings.len() + i
    ] == utf8::encode_utf8(args[i]) by {
        assert(all[settings.len() + i] == args[i]);
    }
}

/// A recovery that is kept apart from the settings of the user reads none of them: it is given a file of its own in the
/// directory that Git runs in.
pub proof fn isolated_recovery_has_settings_of_its_own(
    cwd: Seq<u8>,
    ssh: Option<Seq<u8>>,
    args: Seq<Seq<char>>,
    looks: bool,
    policy: BoundedCommandPolicy,
    inherited: bool,
)
    ensures
        ({
            let action = ActionView::RunBounded { args, optional_locks: looks, policy };
            let started = launch::launched(cwd, ssh, true, action, inherited)->Some_0;
            started.environment.contains(
                (
                    "GIT_CONFIG_GLOBAL"@,
                    bytes::joined_path(cwd, utf8::encode_utf8(".bitbygit-test-global-config"@)),
                ),
            )
        }),
{
    let action = ActionView::RunBounded { args, optional_locks: looks, policy };
    let started = launch::launched(cwd, ssh, true, action, inherited)->Some_0;
    let before = launch::quiet_environment() + launch::editor_environment();
    let alone = launch::isolated_environment(true, cwd);
    assert(started.environment[before.len() as int + 1] == alone[1]);
}

}
