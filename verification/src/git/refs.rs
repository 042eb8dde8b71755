//! Reading branch lists and remote lists, and the names of refs.
use crate::git::status;
use crate::git::types::{
    BranchInfo, BranchInfoView, BranchKind, GitError, GitErrorView, GitOutput, GitOutputView,
    Remote, RemoteView,
};
use crate::order;
use crate::text;
use vstd::prelude::*;

verus! {

/// One line of a remote list: a name, an address and what the address is for.
pub open spec fn remote_line(line: Seq<char>) -> Option<(Seq<char>, Seq<char>, Seq<char>)> {
    let tab = text::position_of(line, '\t') as int;
    let rest = line.skip(tab + 1);
    let space = text::last_position_of(rest, ' ');
    if tab < line.len() && space >= 0 {
        Some((line.take(tab), rest.take(space), rest.skip(space + 1)))
    } else {
        None
    }
}

/// A remote with an address that was set for fetching or for pushing.
pub open spec fn with_url(remote: RemoteView, url: Seq<char>, purpose: Seq<char>) -> RemoteView {
    if purpose == "(fetch)"@ {
        RemoteView { fetch_url: Some(url), ..remote }
    } else if purpose == "(push)"@ {
        RemoteView { push_url: Some(url), ..remote }
    } else {
        remote
    }
}

/// A list of remotes, in the order of their names, after one more line.
pub open spec fn with_remote(
    list: Seq<RemoteView>,
    name: Seq<char>,
    url: Seq<char>,
    purpose: Seq<char>,
) -> Seq<RemoteView>
    decreases list.len(),
{
    let fresh = with_url(RemoteView { name, fetch_url: None, push_url: None }, url, purpose);
    if list.len() == 0 {
        seq![fresh]
    } else if list[0].name == name {
        list.update(0, with_url(list[0], url, purpose))
    } else if order::precedes(name, list[0].name) {
        seq![fresh] + list
    } else {
        seq![list[0]] + with_remote(list.skip(1), name, url, purpose)
    }
}

/// The remotes that a list of lines names.
pub open spec fn remotes_of(lines: Seq<Seq<char>>) -> Seq<RemoteView>
    decreases lines.len(),
{
    if lines.len() == 0 {
        Seq::empty()
    } else {
        let before = remotes_of(lines.drop_last());
        match remote_line(lines.last()) {
            Some((name, url, purpose)) => with_remote(before, name, url, purpose),
            None => before,
        }
    }
}

/// The names of a list of remotes.
pub open spec fn remote_names(list: Seq<RemoteView>) -> Seq<Seq<char>> {
    Seq::new(list.len(), |i: int| list[i].name)
}

/// One more line keeps the names in order and adds its name.
proof fn lemma_with_remote_names(
    list: Seq<RemoteView>,
    name: Seq<char>,
    url: Seq<char>,
    purpose: Seq<char>,
)
    ensures
        remote_names(with_remote(list, name, url, purpose)) == order::inserted(
            remote_names(list),
            name,
        ),
    decreases list.len(),
{
    let result = with_remote(list, name, url, purpose);
    let names = remote_names(list);
    if list.len() == 0 {
        assert(remote_names(result) =~= seq![name]);
    } else if list[0].name == name {
        assert(remote_names(result) =~= names);
    } else if order::precedes(name, list[0].name) {
        assert(remote_names(result) =~= seq![name] + names);
    } else {
        lemma_with_remote_names(list.skip(1), name, url, purpose);
        assert(remote_names(list.skip(1)) =~= names.skip(1));
        let tail = with_remote(list.skip(1), name, url, purpose);
        assert(remote_names(result) =~= seq![names[0]] + remote_names(tail));
    }
}

/// A remote list names each remote once, and the names stand in ascending order.
pub proof fn remotes_are_distinct_and_ordered(lines: Seq<Seq<char>>)
    ensures
        order::ascending(remote_names(remotes_of(lines))),
    decreases lines.len(),
{
    if lines.len() > 0 {
        remotes_are_distinct_and_ordered(lines.drop_last());
        let before = remotes_of(lines.drop_last());
        match remote_line(lines.last()) {
            Some((name, url, purpose)) => {
                lemma_with_remote_names(before, name, url, purpose);
                order::inserting_keeps_order(remote_names(before), name);
            },
            None => {},
        }
    }
}

/// What stands before the place of a remote stays as it is.
proof fn lemma_with_remote_behind(
    list: Seq<RemoteView>,
    name: Seq<char>,
    url: Seq<char>,
    purpose: Seq<char>,
    count: int,
)
    requires
        0 <= count <= list.len(),
        forall|i: int|
            0 <= i < count ==> (#[trigger] list[i]).name != name && !order::precedes(
                name,
                list[i].name,
            ),
    ensures
        with_remote(list, name, url, purpose) == list.take(count) + with_remote(
            list.skip(count),
            name,
            url,
            purpose,
        ),
    decreases count,
{
    if count == 0 {
        assert(list.skip(0) =~= list);
        assert(list.take(0) + with_remote(list, name, url, purpose) =~= with_remote(
            list,
            name,
            url,
            purpose,
        ));
    } else {
        let rest = list.skip(1);
        assert forall|i: int| 0 <= i < count - 1 implies (#[trigger] rest[i]).name != name
            && !order::precedes(name, rest[i].name) by {
            assert(rest[i] == list[i + 1]);
        }
        assert(list[0].name != name);
        lemma_with_remote_behind(rest, name, url, purpose, count - 1);
        assert(rest.skip(count - 1) =~= list.skip(count));
        assert(with_remote(list, name, url, purpose) =~= list.take(count) + with_remote(
            list.skip(count),
            name,
            url,
            purpose,
        ));
    }
}

impl Remote {
    /// Sets the address that a line gives.
    fn set_url(self, url: String, purpose: &[char]) -> (result: Remote)
        ensures
            result.deep_view() == with_url(self.deep_view(), url@, purpose@),
    {
        if text::is_text(purpose, "(fetch)") {
            Remote { name: self.name, fetch_url: Some(url), push_url: self.push_url }
        } else if text::is_text(purpose, "(push)") {
            Remote { name: self.name, fetch_url: self.fetch_url, push_url: Some(url) }
        } else {
            self
        }
    }
}

/// Adds what one line of a remote list says.
fn add_remote(list: &mut Vec<Remote>, name: &[char], url: &[char], purpose: &[char])
    ensures
        final(list).deep_view() == with_remote(old(list).deep_view(), name@, url@, purpose@),
{
    let ghost start = list.deep_view();
    let mut index: usize = 0;
    while index < list.len()
        invariant
            index <= list@.len(),
            list.deep_view() == start,
            start == old(list).deep_view(),
            forall|i: int|
                0 <= i < index ==> (#[trigger] start[i]).name != name@ && !order::precedes(
                    name@,
                    start[i].name,
                ),
        decreases list@.len() - index,
    {
        let current = text::chars_of(list[index].name.as_str());
        assert(start[index as int].name == current@);
        if text::same_slice(current.as_slice(), name) {
            proof {
                lemma_with_remote_behind(start, name@, url@, purpose@, index as int);
                assert(start.skip(index as int)[0] == start[index as int]);
            }
            let remote = list.remove(index);
            let changed = remote.set_url(text::string_of(url), purpose);
            list.insert(index, changed);
            assert(list.deep_view() =~= start.take(index as int) + start.skip(index as int).update(
                0,
                changed.deep_view(),
            ));
            return;
        }
        if order::is_before(name, current.as_slice()) {
            proof {
                lemma_with_remote_behind(start, name@, url@, purpose@, index as int);
                assert(start.skip(index as int)[0] == start[index as int]);
            }
            let fresh = Remote { name: text::string_of(name), fetch_url: None, push_url: None };
            let remote = fresh.set_url(text::string_of(url), purpose);
            list.insert(index, remote);
            assert(list.deep_view() =~= start.take(index as int) + (seq![remote.deep_view()]
                + start.skip(index as int)));
            return;
        }
        index += 1;
    }
    proof {
        lemma_with_remote_behind(start, name@, url@, purpose@, index as int);
        assert(start.take(index as int) =~= start);
        assert(start.skip(index as int) =~= Seq::<RemoteView>::empty());
    }
    let fresh = Remote { name: text::string_of(name), fetch_url: None, push_url: None };
    let remote = fresh.set_url(text::string_of(url), purpose);
    list.push(remote);
    assert(list.deep_view() =~= start + seq![remote.deep_view()]);
}

/// Reads the output of `git remote -v`.
pub fn parse_remotes(input: &str) -> (result: Vec<Remote>)
    ensures
        result.deep_view() == remotes_of(text::text_lines(input@)),
{
    let characters = text::chars_of(input);
    let lines = text::lines(characters.as_slice());
    let ghost all = text::slices(lines@);
    let mut remotes: Vec<Remote> = Vec::new();
    assert(remotes.deep_view() =~= Seq::<RemoteView>::empty());
    let mut index: usize = 0;
    assert(all.take(0) =~= Seq::<Seq<char>>::empty());
    while index < lines.len()
        invariant
            index <= lines@.len(),
            all == text::slices(lines@),
            remotes.deep_view() == remotes_of(all.take(index as int)),
        decreases lines@.len() - index,
    {
        let line = lines[index];
        assert(all.take(index + 1).drop_last() =~= all.take(index as int));
        assert(all.take(index + 1).last() == line@);
        index += 1;
        proof {
            text::lemma_position(line@, '\t');
        }
        if let Some((name, rest)) = text::split_once(line, '\t') {
            if let Some((url, purpose)) = text::rsplit_once(rest, ' ') {
                add_remote(&mut remotes, name, url, purpose);
            }
        }
    }
    assert(all.take(index as int) =~= all);
    remotes
}

/// The branch that one line of the branch list names.
pub open spec fn branch_line(line: Seq<char>) -> Result<BranchInfoView, GitErrorView> {
    let fields = text::pieces(line, '\0');
    if fields.len() != 4 {
        Err(status::unreadable("git branch list output has unexpected fields"@))
    } else {
        let local = text::has_prefix(fields[0], "refs/heads/"@);
        let remote = text::has_prefix(fields[0], "refs/remotes/"@);
        if !local && !remote {
            Err(status::unreadable("unsupported branch reference: "@ + fields[0]))
        } else {
            Ok(
                BranchInfoView {
                    name: if local {
                        fields[0].skip("refs/heads/"@.len() as int)
                    } else {
                        fields[0].skip("refs/remotes/"@.len() as int)
                    },
                    reference: fields[0],
                    oid: fields[1],
                    upstream: if fields[2].len() == 0 {
                        None
                    } else {
                        Some(fields[2])
                    },
                    current: fields[3] == "*"@,
                    kind: if local {
                        BranchKind::Local
                    } else {
                        BranchKind::Remote
                    },
                },
            )
        }
    }
}

/// Whether a branch is the default-branch marker of a remote.
pub open spec fn is_remote_head(branch: BranchInfoView) -> bool {
    branch.kind == BranchKind::Remote && text::has_suffix(branch.name, "/HEAD"@)
}

/// The branches that a list of lines names: blank lines and default-branch markers are left out.
pub open spec fn branches_in(lines: Seq<Seq<char>>) -> Result<Seq<BranchInfoView>, GitErrorView>
    decreases lines.len(),
{
    if lines.len() == 0 {
        Ok(Seq::empty())
    } else {
        match branches_in(lines.drop_last()) {
            Err(error) => Err(error),
            Ok(before) => if text::trimmed(lines.last()).len() == 0 {
                Ok(before)
            } else {
                match branch_line(lines.last()) {
                    Err(error) => Err(error),
                    Ok(branch) => if is_remote_head(branch) {
                        Ok(before)
                    } else {
                        Ok(before.push(branch))
                    },
                }
            },
        }
    }
}

/// The branches that some output lists.
pub open spec fn branches_of(input: Seq<char>) -> Result<Seq<BranchInfoView>, GitErrorView> {
    branches_in(text::text_lines(input))
}

/// Lines that start with unreadable ones are unreadable in the same way.
proof fn lemma_branches_prefix(lines: Seq<Seq<char>>, count: int)
    requires
        0 <= count <= lines.len(),
        branches_in(lines.take(count)) is Err,
    ensures
        branches_in(lines) == branches_in(lines.take(count)),
    decreases lines.len() - count,
{
    if count < lines.len() {
        assert(lines.take(count + 1).drop_last() =~= lines.take(count));
        lemma_branches_prefix(lines, count + 1);
    } else {
        assert(lines.take(count) =~= lines);
    }
}

/// The values of a branch or of the error in its place.
pub open spec fn branch_outcome(result: Result<BranchInfo, GitError>) -> Result<
    BranchInfoView,
    GitErrorView,
> {
    match result {
        Ok(branch) => Ok(branch.deep_view()),
        Err(error) => Err(error.deep_view()),
    }
}

/// Reads one line of the branch list.
pub fn parse_branch_line(line: &[char]) -> (result: Result<BranchInfo, GitError>)
    ensures
        branch_outcome(result) == branch_line(line@),
{
    let fields = text::split(line, '\0');
    assert(fields@.len() == text::slices(fields@).len());
    if fields.len() != 4 {
        return Err(status::parse_error("git branch list output has unexpected fields"));
    }
    assert(text::slices(fields@)[0] == fields@[0]@);
    assert(text::slices(fields@)[1] == fields@[1]@);
    assert(text::slices(fields@)[2] == fields@[2]@);
    assert(text::slices(fields@)[3] == fields@[3]@);
    let reference = fields[0];
    let (kind, name) = if let Some(name) = text::strip_text_prefix(reference, "refs/heads/") {
        (BranchKind::Local, name)
    } else if let Some(name) = text::strip_text_prefix(reference, "refs/remotes/") {
        (BranchKind::Remote, name)
    } else {
        let shown = text::string_of(reference);
        let message = text::concat2("unsupported branch reference: ", shown.as_str());
        return Err(status::parse_error(message.as_str()));
    };
    let upstream = if fields[2].len() == 0 {
        None
    } else {
        Some(text::string_of(fields[2]))
    };
    Ok(
        BranchInfo {
            name: text::string_of(name),
            reference: text::string_of(reference),
            oid: text::string_of(fields[1]),
            upstream,
            current: text::is_text(fields[3], "*"),
            kind,
        },
    )
}

/// Reads the branch list.
pub fn parse_branches(input: &str) -> (result: Result<Vec<BranchInfo>, GitError>)
    ensures
        (match result {
            Ok(branches) => Ok::<_, GitErrorView>(branches.deep_view()),
            Err(error) => Err(error.deep_view()),
        }) == branches_of(input@),
{
    let characters = text::chars_of(input);
    let lines = text::lines(characters.as_slice());
    let ghost all = text::slices(lines@);
    let mut branches: Vec<BranchInfo> = Vec::new();
    assert(branches.deep_view() =~= Seq::<BranchInfoView>::empty());
    let mut index: usize = 0;
    assert(all.take(0) =~= Seq::<Seq<char>>::empty());
    while index < lines.len()
        invariant
            index <= lines@.len(),
            all == text::slices(lines@),
            all == text::text_lines(input@),
            branches_in(all.take(index as int)) == Ok::<_, GitErrorView>(branches.deep_view()),
        decreases lines@.len() - index,
    {
        let line = lines[index];
        let ghost longer = all.take(index + 1);
        assert(longer.drop_last() =~= all.take(index as int));
        assert(longer.last() == line@);
        if text::trim(line).len() > 0 {
            let branch = match parse_branch_line(line) {
                Ok(branch) => branch,
                Err(error) => {
                    proof {
                        lemma_branches_prefix(all, index + 1);
                    }
                    return Err(error);
                },
            };
            let name = text::chars_of(branch.name.as_str());
            if !(branch.kind == BranchKind::Remote && text::ends_with(name.as_slice(), "/HEAD")) {
                let ghost before = branches.deep_view();
                branches.push(branch);
                assert(branches.deep_view() =~= before.push(branch.deep_view()));
            }
        }
        index += 1;
    }
    assert(all.take(index as int) =~= all);
    Ok(branches)
}

/// The name that a remote branch gets when it is checked out: what follows the remote's name.
pub open spec fn local_name(name: Seq<char>) -> Option<Seq<char>> {
    let at = text::position_of(name, '/') as int;
    if at + 1 < name.len() {
        Some(name.skip(at + 1))
    } else {
        None
    }
}

/// The name that a remote branch gets when it is checked out.
pub fn local_name_for_remote_branch(name: &str) -> (result: Option<String>)
    ensures
        result.deep_view() == local_name(name@),
{
    let characters = text::chars_of(name);
    let at: usize = text::position(characters.as_slice(), '/');
    if characters.len() > 0 && at < characters.len() - 1 {
        let tail = vstd::slice::slice_subrange(characters.as_slice(), at + 1, characters.len());
        assert(tail@ =~= name@.skip(at + 1));
        Some(text::string_of(tail))
    } else {
        None
    }
}

/// The ref that follows a branch of a remote.
pub open spec fn tracking_ref(remote: Seq<char>, branch: Seq<char>) -> Seq<char> {
    "refs/remotes/"@ + remote + "/"@ + branch
}

/// The ref that follows a branch of a remote.
pub fn remote_tracking_ref(remote: &str, branch: &str) -> (result: String)
    ensures
        result@ == tracking_ref(remote@, branch@),
{
    text::concat4("refs/remotes/", remote, "/", branch)
}

/// The option that lets a push go through only where the remote branch stands at a known commit.
pub open spec fn lease_option(branch: Seq<char>, expected: Option<Seq<char>>) -> Seq<char> {
    "--force-with-lease=refs/heads/"@ + branch + ":"@ + match expected {
        Some(oid) => oid,
        None => Seq::empty(),
    }
}

/// The option that lets a push go through only where the remote branch stands at a known commit.
pub fn force_with_lease_arg(branch: &str, expected_remote_oid: Option<&str>) -> (result: String)
    ensures
        result@ == lease_option(branch@, expected_remote_oid.deep_view()),
{
    let mut result = text::concat3("--force-with-lease=refs/heads/", branch, ":");
    if let Some(oid) = expected_remote_oid {
        result.append(oid);
    } else {
        assert(result@ + Seq::<char>::empty() =~= result@);
    }
    result
}

/// Two outputs without the white space around them, on two lines; an empty one is left out.
pub open spec fn combined_text(first: Seq<char>, second: Seq<char>) -> Seq<char> {
    let one = text::trimmed(first);
    let other = text::trimmed(second);
    if one.len() == 0 {
        other
    } else if other.len() == 0 {
        one
    } else {
        one + "\n"@ + other
    }
}

/// Two outputs on two lines.
pub fn combine_text(first: &str, second: &str) -> (result: String)
    ensures
        result@ == combined_text(first@, second@),
{
    let one = text::trimmed_text(first);
    let other = text::trimmed_text(second);
    if one.as_str().is_empty() {
        other
    } else if other.as_str().is_empty() {
        one
    } else {
        text::concat3(one.as_str(), "\n", other.as_str())
    }
}

/// What two commands wrote, as the output of the second one.
pub open spec fn combined(first: GitOutputView, second: GitOutputView) -> GitOutputView {
    GitOutputView {
        status: second.status,
        stdout: combined_text(first.stdout, second.stdout),
        stderr: combined_text(first.stderr, second.stderr),
    }
}

/// What two commands wrote, as the output of the second one.
pub fn combine_outputs(first: GitOutput, second: GitOutput) -> (result: GitOutput)
    ensures
        result.deep_view() == combined(first.deep_view(), second.deep_view()),
{
    let stdout = combine_text(first.stdout.as_str(), second.stdout.as_str());
    let stderr = combine_text(first.stderr.as_str(), second.stderr.as_str());
    GitOutput { status: second.status, stdout, stderr }
}

/// Characters with each single quote written so that a shell reads it inside single quotes.
pub open spec fn escaped(value: Seq<char>) -> Seq<char>
    decreases value.len(),
{
    if value.len() == 0 {
        Seq::empty()
    } else if value.last() == '\'' {
        escaped(value.drop_last()) + "'\\''"@
    } else {
        escaped(value.drop_last()).push(value.last())
    }
}

/// A value as one word of a shell command.
pub open spec fn quoted(value: Seq<char>) -> Seq<char> {
    "'"@ + escaped(value) + "'"@
}

/// A value as one word of a shell command.
pub fn shell_quote(value: &str) -> (result: String)
    ensures
        result@ == quoted(value@),
{
    let characters = text::chars_of(value);
    let mut inner = String::new();
    let mut index: usize = 0;
    while index < characters.len()
        invariant
            index <= characters@.len(),
            inner@ == escaped(characters@.take(index as int)),
        decreases characters@.len() - index,
    {
        let ghost longer = characters@.take(index + 1);
        assert(longer.drop_last() =~= characters@.take(index as int));
        if characters[index] == '\'' {
            inner.append("'\\''");
        } else {
            inner.push(characters[index]);
        }
        index += 1;
    }
    assert(characters@.take(index as int) =~= value@);
    text::concat3("'", inner.as_str(), "'")
}

}
