use bitbygit::git::refs::{
    combine_text, force_with_lease_arg, local_name_for_remote_branch, parse_branches,
    parse_remotes, remote_tracking_ref, shell_quote,
};
use bitbygit::git::status::{
    change_kind, parse_ahead_behind, parse_status, parse_status_bytes, parse_u32,
};
use bitbygit::git::types::{
    BranchInfo, BranchKind, ChangeKind, Head, StatusEntryType, WorktreeStatus,
};
use bitbygit::text::chars_of;

fn status_of(input: &str) -> WorktreeStatus {
    match parse_status(input) {
        Ok(status) => status,
        Err(error) => panic!("{}", error.message()),
    }
}

fn branches_of(input: &str) -> Vec<BranchInfo> {
    match parse_branches(input) {
        Ok(branches) => branches,
        Err(error) => panic!("{}", error.message()),
    }
}

fn path(text: &str) -> Vec<u8> {
    text.as_bytes().to_vec()
}

fn refusal(input: &str) -> String {
    match parse_status(input) {
        Ok(status) => panic!("{status:?}"),
        Err(error) => error.message(),
    }
}

#[test]
fn parses_clean_status() {
    let status = status_of(
        "# branch.oid 1234567\n# branch.head main\n# branch.upstream origin/main\n# branch.ab +0 -0\n",
    );

    assert!(status.is_clean());
    assert_eq!(status.branch.head, Head::Branch("main".to_owned()));
    assert_eq!(status.branch.upstream, Some("origin/main".to_owned()));
    assert_eq!(status.branch.ahead, 0);
    assert_eq!(status.branch.behind, 0);
    assert_eq!(status.operation, None);
}

#[test]
fn parses_dirty_unstaged_file() {
    let status = status_of(
        "# branch.oid 1234567\n# branch.head main\n1 .M N... 100644 100644 100644 abc abc README.md\n",
    );

    assert_eq!(status.unstaged_files().len(), 1);
    assert_eq!(status.entries[0].path, path("README.md"));
    assert_eq!(status.entries[0].worktree, ChangeKind::Modified);
}

#[test]
fn parses_staged_file() {
    let status = status_of(
        "# branch.oid 1234567\n# branch.head main\n1 A. N... 000000 100644 100644 zero abc src/main.rs\n",
    );

    assert_eq!(status.staged_files().len(), 1);
    assert_eq!(status.entries[0].index, ChangeKind::Added);
}

#[test]
fn parses_untracked_file() {
    let status = status_of("# branch.head main\n? notes.txt\n");

    assert_eq!(status.untracked_files().len(), 1);
    assert_eq!(status.entries[0].entry_type, StatusEntryType::Untracked);
}

#[test]
fn parses_renamed_file() {
    let status = status_of(
        "# branch.head main\n2 R. N... 100644 100644 100644 abc def R100 new.txt\told.txt\n",
    );

    assert_eq!(status.entries[0].entry_type, StatusEntryType::Renamed);
    assert_eq!(status.entries[0].path, path("new.txt"));
    assert_eq!(
        status.entries[0].original_path,
        Some(path("old.txt"))
    );
}

#[test]
fn parses_conflicted_file() {
    let status = status_of(
        "# branch.head main\nu UU N... 100644 100644 100644 100644 one two three conflict.txt\n",
    );

    assert_eq!(status.conflicted_files().len(), 1);
    assert_eq!(status.staged_files().len(), 0);
    assert_eq!(status.entries[0].entry_type, StatusEntryType::Conflict);
}

#[test]
fn parses_detached_head() {
    let status = status_of("# branch.oid abc123\n# branch.head (detached)\n");

    assert_eq!(status.branch.head, Head::Detached("abc123".to_owned()));
}

#[test]
fn parses_unborn_branch() {
    let status = status_of("# branch.oid (initial)\n# branch.head main\n");

    assert_eq!(status.branch.head, Head::Branch("main".to_owned()));
    assert!(status.branch.unborn);
}

#[test]
fn parses_nul_delimited_raw_paths() {
    let status = status_of("# branch.head main\0? café.txt\0? tab\tname.txt\0");

    assert_eq!(status.untracked_files().len(), 2);
    assert_eq!(status.entries[0].path, path("café.txt"));
    assert_eq!(status.entries[1].path, path("tab\tname.txt"));
}

#[test]
fn parses_nul_delimited_rename() {
    let status = status_of(
        "# branch.head main\0\
         2 R. N... 100644 100644 100644 abc def R100 new\tname.txt\0\
         old name.txt\0",
    );

    assert_eq!(status.entries[0].entry_type, StatusEntryType::Renamed);
    assert_eq!(status.entries[0].path, path("new\tname.txt"));
    assert_eq!(
        status.entries[0].original_path,
        Some(path("old name.txt"))
    );
}

#[test]
fn parses_copied_file() {
    let status = status_of(
        "# branch.head main\0\
         2 C. N... 100644 100644 100644 abc def C100 copy.txt\0\
         source.txt\0",
    );

    assert_eq!(status.entries[0].entry_type, StatusEntryType::Copied);
    assert_eq!(status.staged_files().len(), 1);
}

#[test]
fn parses_remotes() {
    let remotes = parse_remotes(
        "origin\thttps://github.com/cosentinode/bitbygit.git (fetch)\norigin\tgit@github.com:cosentinode/bitbygit.git (push)\n",
    );

    assert_eq!(remotes.len(), 1);
    assert_eq!(remotes[0].name, "origin");
    assert_eq!(
        remotes[0].fetch_url,
        Some("https://github.com/cosentinode/bitbygit.git".to_owned())
    );
    assert_eq!(
        remotes[0].push_url,
        Some("git@github.com:cosentinode/bitbygit.git".to_owned())
    );
}

#[test]
fn parses_branches_and_skips_remote_head() {
    let branches = branches_of(
        "refs/heads/main\x001111111111111111111111111111111111111111\x00origin/main\x00*\nrefs/remotes/origin/main\x002222222222222222222222222222222222222222\x00\x00\nrefs/remotes/origin/HEAD\x002222222222222222222222222222222222222222\x00\x00\n",
    );

    assert_eq!(branches.len(), 2);
    assert_eq!(branches[0].name, "main");
    assert_eq!(branches[0].kind, BranchKind::Local);
    assert!(branches[0].current);
    assert_eq!(branches[0].upstream.as_deref(), Some("origin/main"));
    assert_eq!(branches[1].name, "origin/main");
    assert_eq!(branches[1].kind, BranchKind::Remote);
}

#[test]
fn malformed_status_records_are_refused() {
    for input in [
        "1 .M N... 100644 README.md\n",
        "2 R. N... 100644 100644 100644 abc def R100 new.txt\n",
        "u UU N... 100644\n",
        "# branch.ab +1\n",
        "# branch.ab +x -0\n",
        "x something\n",
        "1 M N... 100644 100644 100644 abc abc README.md\n",
    ] {
        assert!(parse_status(input).is_err(), "{input}");
    }
    assert!(refusal("x something\n").contains("unknown porcelain v2 record: x something"));
    assert!(parse_status_bytes(b"# branch.head \xff\n").is_err());
    assert!(parse_status_bytes(b"? \xff\n").is_ok());
}

#[test]
fn reads_ahead_and_behind() {
    let status = status_of("# branch.oid 1\n# branch.head main\n# branch.ab +3 -12\n");
    assert_eq!(status.branch.ahead, 3);
    assert_eq!(status.branch.behind, 12);
    assert_eq!(
        parse_ahead_behind(&chars_of("+4294967295 -0")).ok(),
        Some((u32::MAX, 0))
    );
    assert!(parse_ahead_behind(&chars_of("+4294967296 -0")).is_err());
    assert_eq!(parse_u32(&chars_of("+7")), Some(7));
    assert_eq!(parse_u32(&chars_of("")), None);
    assert_eq!(parse_u32(&chars_of("-1")), None);
}

#[test]
fn reads_ignored_files_and_unknown_letters() {
    let status = status_of("# branch.head main\n! target/\n");
    assert_eq!(status.entries[0].entry_type, StatusEntryType::Ignored);
    assert_eq!(status.entries[0].worktree, ChangeKind::Ignored);
    assert_eq!(change_kind(b'.'), ChangeKind::Unmodified);
    assert_eq!(change_kind(b'D'), ChangeKind::Deleted);
    assert_eq!(change_kind(b'T'), ChangeKind::Unknown('T'));
}

#[test]
fn a_clean_report_has_no_entries() {
    assert!(status_of("# branch.head main\n").is_clean());
    let status = status_of("# branch.head main\n? notes.txt\n");
    assert!(!status.is_clean());
    assert_eq!(status.staged_files().len(), 0);
    assert_eq!(status.unstaged_files().len(), 0);
}

#[test]
fn reads_remotes_in_order_of_name() {
    let remotes = parse_remotes("b\tB (fetch)\na\tA (fetch)\nb\tP (push)\nbroken\n");
    assert_eq!(remotes.len(), 2);
    assert_eq!(remotes[0].name, "a");
    assert_eq!(remotes[0].push_url, None);
    assert_eq!(remotes[1].name, "b");
    assert_eq!(remotes[1].push_url, Some("P".to_owned()));
}

#[test]
fn malformed_branch_records_are_refused() {
    assert!(parse_branches("refs/heads/main\u{0}1\n").is_err());
    assert!(parse_branches("refs/tags/v1\u{0}1\u{0}\u{0}\n").is_err());
}

#[test]
fn references_are_named() {
    assert_eq!(local_name_for_remote_branch("origin/topic/a"), Some("topic/a".to_owned()));
    assert_eq!(local_name_for_remote_branch("origin"), None);
    assert_eq!(local_name_for_remote_branch("origin/"), None);
    assert_eq!(remote_tracking_ref("origin", "topic"), "refs/remotes/origin/topic");
    assert_eq!(
        force_with_lease_arg("topic", Some("abc")),
        "--force-with-lease=refs/heads/topic:abc"
    );
    assert_eq!(force_with_lease_arg("topic", None), "--force-with-lease=refs/heads/topic:");
}

#[test]
fn quoted_words_are_one_word_to_a_shell() {
    assert_eq!(shell_quote("plain"), "'plain'");
    assert_eq!(shell_quote("a b"), "'a b'");
    assert_eq!(shell_quote("it's"), "'it'\\''s'");
    assert_eq!(shell_quote(""), "''");
}

#[test]
fn outputs_are_joined_by_lines() {
    assert_eq!(combine_text("a", "b"), "a\nb");
    assert_eq!(combine_text("a\n", "b"), "a\nb");
    assert_eq!(combine_text("", "b"), "b");
    assert_eq!(combine_text("a", ""), "a");
}
