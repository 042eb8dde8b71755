# bitbygit

A verified core for a Git front end that asks before it acts. The library decides what a prompt asks
for, which policy applies, which commands are run, when they are refused, what is asked of GitHub and
what is stored. Its functions carry contracts that Verus proves.

The library does no input or output of its own. An operation such as `Git::checkout_branch` takes the
answers that it has got so far and gives its result, or the action that it waits for next: a command to
run, a path to look at, a file to write. The caller carries the action out, adds the answer to the list,
and calls the operation again. So the contract of each operation fixes everything that it asks for, in
which order, and what it makes of every answer.

Paths are bytes, read as Unix reads them, and what is said of a file is what Unix says of it.

- `src/session.rs`: actions, answers, and how operations are put together from steps.
- `src/text.rs`, `bytes.rs`, `number.rs`, `order.rs`, `digest.rs`, `words.rs`: texts, paths, numbers and digests.
- `src/operation.rs`, `config.rs`, `policy.rs`, `prompt_parser.rs`: requests, plans, settings, policy and prompts.
- `src/git/`: the status and branch lists of Git, the guarded operations, how Git is started, and in
  `recovery/` the fenced recovery of a merge or a rebase that stopped.
- `src/github.rs`: pull requests through the GitHub CLI.
- `src/store/`: the registry of repositories, the state and the log.
- `src/git/recovery/records.rs`: what a fingerprint lists, and the bytes that stand for it.
- `src/git/laws.rs`, `src/git/recovery/laws.rs`, `src/git/recovery/fingerprints.rs`, `src/store/laws.rs`: what
  holds of the operations as a whole.
- `tests/`: the library run against repositories, disks and tools in memory.
- `app/`: the driver that runs the commands and touches the disk.
