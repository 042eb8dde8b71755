//! What a recovery reads from the plan of a rebase and from lists of paths.
use crate::bytes;
use crate::git::recovery::collisions;
use crate::git::recovery::files;
use crate::git::recovery::state;
use crate::git::types::RecoveryAction;
use crate::order;
use crate::text;
use vstd::prelude::*;

verus! {

/// The commit that an instruction of a plan names.
pub open spec fn named_by(line: Seq<char>) -> Option<Seq<char>> {
    files::instruction_oid(text::ascii_words(line, ' '))
}

/// The commits that are left to rebase are those that the instructions of the plan name, and no others.
pub proof fn commits_left_are_those_of_the_plan(relative: Seq<char>, lines: Seq<Seq<char>>)
    requires
        files::plan_oids(relative, lines) is Ok,
    ensures
        ({
            let left = files::plan_oids(relative, lines)->Ok_0;
            &&& forall|i: int|
                #![trigger lines[i]]
                0 <= i < lines.len() && named_by(lines[i]) is Some ==> left.contains(
                    named_by(lines[i])->Some_0,
                )
            &&& forall|oid: Seq<char>| #[trigger]
                left.contains(oid) ==> is_named(lines, oid)
        }),
    decreases lines.len(),
{
    if lines.len() > 0 {
        let rest = lines.drop_last();
        commits_left_are_those_of_the_plan(relative, rest);
        files::plan_oids_are_ordered_names(relative, rest);
        let before = files::plan_oids(relative, rest)->Ok_0;
        let left = files::plan_oids(relative, lines)->Ok_0;
        if named_by(lines.last()) is Some {
            order::inserting_keeps_order(before, named_by(lines.last())->Some_0);
        }
        assert forall|i: int|
            #![trigger lines[i]]
            0 <= i < lines.len() && named_by(lines[i]) is Some implies left.contains(
            named_by(lines[i])->Some_0,
        ) by {
            if i < rest.len() {
                assert(rest[i] == lines[i]);
            }
        }
        assert forall|oid: Seq<char>| #[trigger] left.contains(oid) implies is_named(lines, oid) by {
            if before.contains(oid) {
                assert(is_named(rest, oid));
                let i = choose|i: int|
                    0 <= i < rest.len() && named_by(#[trigger] rest[i]) == Some(oid);
                assert(lines[i] == rest[i]);
            } else {
                assert(named_by(lines[lines.len() - 1]) == Some(oid));
            }
        }
    }
}

/// Whether an instruction of a plan names a commit.
pub open spec fn is_named(lines: Seq<Seq<char>>, oid: Seq<char>) -> bool {
    exists|i: int| 0 <= i < lines.len() && named_by(#[trigger] lines[i]) == Some(oid)
}

/// A plan is refused where an instruction names what is no commit: less than four hexadecimal digits, or anything else.
pub proof fn plans_with_other_names_are_refused(
    relative: Seq<char>,
    lines: Seq<Seq<char>>,
    place: int,
)
    requires
        0 <= place < lines.len(),
        named_by(lines[place]) is Some,
        named_by(lines[place])->Some_0.len() < 4 || !files::all_hex(
            named_by(lines[place])->Some_0,
        ),
    ensures
        files::plan_oids(relative, lines) is Err,
    decreases lines.len(),
{
    let rest = lines.drop_last();
    if place < rest.len() {
        assert(rest[place] == lines[place]);
        plans_with_other_names_are_refused(relative, rest, place);
    }
}

/// The commit that a rebase started from is a whole object name, of forty or sixty-four hexadecimal digits.
pub proof fn rebases_start_from_whole_names(relative: Seq<char>, contents: Seq<char>)
    ensures
        ({
            let start = files::original_head(relative, contents);
            let name = text::trimmed(contents);
            &&& start is Ok <==> (name.len() == 40 || name.len() == 64) && forall|i: int|
                0 <= i < name.len() ==> files::is_hex(#[trigger] name[i])
            &&& start is Ok ==> start->Ok_0 == Some(name)
        }),
        forall|character: char| #[trigger]
            files::is_hex(character) <==> '0' <= character <= '9' || 'a' <= character <= 'f' || 'A'
                <= character <= 'F',
{
}

/// Paths are taken only where all of them stay inside: none starts at the root, and none climbs.
pub proof fn paths_stay_inside(
    known: Seq<Seq<u8>>,
    paths: Seq<Seq<u8>>,
    message: Seq<char>,
)
    ensures
        state::with_inside_paths(known, paths, message) is Ok <==> forall|i: int|
            0 <= i < paths.len() ==> (#[trigger] paths[i]).len() == 0 || (paths[i][0] != 47
                && !bytes::climbs(paths[i])),
    decreases paths.len(),
{
    if paths.len() > 0 {
        let rest = paths.skip(1);
        let more = if paths[0].len() == 0 {
            known
        } else {
            order::inserted_path(known, paths[0])
        };
        paths_stay_inside(more, rest, message);
        if forall|i: int|
            0 <= i < paths.len() ==> (#[trigger] paths[i]).len() == 0 || (paths[i][0] != 47
                && !bytes::climbs(paths[i])) {
            assert forall|i: int| 0 <= i < rest.len() implies (#[trigger] rest[i]).len() == 0 || (
            rest[i][0] != 47 && !bytes::climbs(rest[i])) by {
                assert(rest[i] == paths[i + 1]);
            }
            assert(paths[0].len() == 0 || (paths[0][0] != 47 && !bytes::climbs(paths[0])));
        } else if state::with_inside_paths(known, paths, message) is Ok {
            assert forall|i: int| 0 <= i < paths.len() implies (#[trigger] paths[i]).len() == 0 || (
            paths[i][0] != 47 && !bytes::climbs(paths[i])) by {
                if i > 0 {
                    assert(rest[i - 1] == paths[i]);
                }
            }
        }
    }
}

/// The paths that a recovery would write are asked of Git: for an abort all paths of the target, otherwise those that
/// differ from it, and for each commit that is left those that it touches.
pub proof fn written_paths_are_asked_of_git(target: Seq<char>, oid: Seq<char>)
    ensures
        collisions::changed_words(RecoveryAction::Abort, target) == seq![
            "ls-tree"@,
            "-r"@,
            "--name-only"@,
            "-z"@,
            target,
            "--"@,
        ],
        collisions::changed_words(RecoveryAction::Continue, target) == seq![
            "diff"@,
            "--name-only"@,
            "--no-renames"@,
            "--no-ext-diff"@,
            "--no-textconv"@,
            "-z"@,
            "HEAD"@,
            target,
            "--"@,
        ],
        collisions::changed_words(RecoveryAction::Skip, target) == collisions::changed_words(
            RecoveryAction::Continue,
            target,
        ),
        collisions::touched_words(oid) == seq![
            "show"@,
            "--format="@,
            "--name-only"@,
            "--no-renames"@,
            "--no-ext-diff"@,
            "--no-textconv"@,
            "-z"@,
            oid,
            "--"@,
        ],
{
}

/// Whether paths are ignored is asked of `git ls-files`, with each path taken literally from the top.
pub proof fn ignored_paths_are_asked_of_git(paths: Seq<Seq<u8>>, place: int)
    requires
        0 <= place < paths.len(),
    ensures
        ({
            let words = collisions::ignored_words(paths);
            &&& words.len() == 7 + paths.len()
            &&& words.take(7) == seq![
                "ls-files"@,
                "--others"@,
                "--ignored"@,
                "--exclude-standard"@,
                "--full-name"@,
                "-z"@,
                "--"@,
            ]
            &&& words[7 + place] == ":(top,literal)"@ + vstd::utf8::decode_utf8(paths[place])
        }),
{
    let words = collisions::ignored_words(paths);
    assert(words.take(7) =~= seq![
        "ls-files"@,
        "--others"@,
        "--ignored"@,
        "--exclude-standard"@,
        "--full-name"@,
        "-z"@,
        "--"@,
    ]);
}

}
