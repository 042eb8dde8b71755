//! Reading what Git lists gives back what it wrote: branches, remotes, commits of remotes, counts and settings.
use crate::git::commands;
use crate::git::effects;
use crate::git::inspect;
use crate::git::refs;
use crate::git::remotes;
use crate::git::types::{
    BranchInfoView, BranchKind, GitErrorView, GitOutputView, RemoteView,
};
use crate::number;
use crate::order;
use crate::parts;
use crate::session::{HaltView, ReplyView};
use crate::text;
use vstd::prelude::*;

verus! {

/// A branch as Git lists it: its reference, its commit, what it follows, and whether it is checked out.
pub open spec fn listed(branch: BranchInfoView) -> Seq<char> {
    let upstream = match branch.upstream {
        Some(upstream) => upstream,
        None => Seq::empty(),
    };
    let mark = if branch.current {
        "*"@
    } else {
        " "@
    };
    parts::written(seq![branch.reference, branch.oid, upstream], '\0') + mark
}

/// The reference of a branch.
pub open spec fn reference_of(kind: BranchKind, name: Seq<char>) -> Seq<char> {
    match kind {
        BranchKind::Local => "refs/heads/"@ + name,
        BranchKind::Remote => "refs/remotes/"@ + name,
    }
}

/// Whether Git can list a branch: its reference goes with its name, and nothing in it reads as the end of a field.
pub open spec fn listable(branch: BranchInfoView) -> bool {
    &&& branch.reference == reference_of(branch.kind, branch.name)
    &&& branch.upstream is Some ==> branch.upstream->Some_0.len() > 0
    &&& !branch.reference.contains('\0')
    &&& !branch.oid.contains('\0')
    &&& branch.upstream is Some ==> !branch.upstream->Some_0.contains('\0')
    &&& !listed(branch).contains('\n')
}

/// Whether a branch is the default one of a remote.
pub open spec fn is_default(branch: BranchInfoView) -> bool {
    branch.kind is Remote && text::has_suffix(branch.name, "/HEAD"@)
}

/// A branch is read as it was listed.
pub proof fn listed_branch_is_read_back(branch: BranchInfoView)
    requires
        listable(branch),
    ensures
        refs::branch_line(listed(branch)) == Ok::<BranchInfoView, GitErrorView>(branch),
        refs::is_remote_head(branch) == is_default(branch),
        text::trimmed(listed(branch)).len() > 0,
        listed(branch).last() != '\r',
{
    reveal_strlit("*");
    reveal_strlit(" ");
    reveal_strlit("refs/heads/");
    reveal_strlit("refs/remotes/");
    let upstream = match branch.upstream {
        Some(upstream) => upstream,
        None => Seq::empty(),
    };
    let fields = seq![branch.reference, branch.oid, upstream];
    let mark = if branch.current {
        "*"@
    } else {
        " "@
    };
    let line = listed(branch);
    assert forall|i: int| 0 <= i < fields.len() implies !(#[trigger] fields[i]).contains('\0') by {
        assert(fields[i] == branch.reference || fields[i] == branch.oid || fields[i] == upstream);
    }
    assert(!mark.contains('\0'));
    parts::split_parts_are_those_written(fields, mark, '\0');
    let read = text::pieces(line, '\0');
    assert(read == fields.push(mark));
    assert(read[0] == branch.reference && read[1] == branch.oid && read[2] == upstream && read[3]
        == mark);
    assert("*"@[0] == '*' && " "@[0] == ' ');
    assert("refs/heads/"@[5] == 'h' && "refs/remotes/"@[5] == 'r');
    let lead = match branch.kind {
        BranchKind::Local => "refs/heads/"@,
        BranchKind::Remote => "refs/remotes/"@,
    };
    assert(branch.reference.take(lead.len() as int) =~= lead);
    assert(branch.reference.skip(lead.len() as int) =~= branch.name);
    if branch.kind is Remote {
        assert(branch.reference[5] == 'r');
        if text::has_prefix(branch.reference, "refs/heads/"@) {
            assert(branch.reference.take("refs/heads/"@.len() as int)[5] == 'h');
        }
    }
    assert(line[0] == branch.reference[0]);
    assert(lead[0] == 'r');
    assert(branch.reference[0] == 'r');
    text::lemma_trimmed_start(line);
    assert(!text::is_white('r'));
    assert(text::trimmed_start(line) == line);
    text::lemma_trimmed_end(line);
    assert(line.last() == mark[0]);
    if text::trimmed(line).len() == 0 {
        assert(text::is_white(line[0]));
    }
}

/// The branches of a list that are no default branches of a remote.
pub open spec fn without_defaults(list: Seq<BranchInfoView>) -> Seq<BranchInfoView> {
    list.filter(|branch: BranchInfoView| !is_default(branch))
}

/// The lines of a list of branches.
pub open spec fn listing(list: Seq<BranchInfoView>) -> Seq<Seq<char>> {
    Seq::new(list.len(), |i: int| listed(list[i]))
}

/// All lines of a list of branches are read as they were listed.
proof fn lemma_branches(list: Seq<BranchInfoView>)
    requires
        forall|i: int| 0 <= i < list.len() ==> listable(#[trigger] list[i]),
    ensures
        refs::branches_in(listing(list)) == Ok::<Seq<BranchInfoView>, GitErrorView>(
            without_defaults(list),
        ),
    decreases list.len(),
{
    reveal(Seq::filter);
    let lines = listing(list);
    if list.len() == 0 {
        assert(without_defaults(list) =~= Seq::<BranchInfoView>::empty());
    } else {
        let rest = list.drop_last();
        assert forall|i: int| 0 <= i < rest.len() implies listable(#[trigger] rest[i]) by {
            assert(rest[i] == list[i]);
        }
        lemma_branches(rest);
        assert(lines.drop_last() =~= listing(rest));
        assert(listable(list[list.len() - 1]));
        listed_branch_is_read_back(list.last());
        assert(lines.last() == listed(list.last()));
    }
}

/// Reading the list of branches gives back the branches that Git listed, in their order, without the default ones
/// of the remotes.
pub proof fn branches_are_read_back(list: Seq<BranchInfoView>)
    requires
        forall|i: int| 0 <= i < list.len() ==> listable(#[trigger] list[i]),
    ensures
        refs::branches_of(parts::written(listing(list), '\n')) == Ok::<
            Seq<BranchInfoView>,
            GitErrorView,
        >(without_defaults(list)),
{
    let lines = listing(list);
    assert forall|i: int| 0 <= i < lines.len() implies !(#[trigger] lines[i]).contains('\n') && (
    lines[i].len() == 0 || lines[i].last() != '\r') by {
        assert(listable(list[i]));
        listed_branch_is_read_back(list[i]);
    }
    parts::lines_are_read_back(lines);
    lemma_branches(list);
}

/// The remote with a name in a list.
pub open spec fn remote_named(list: Seq<RemoteView>, name: Seq<char>) -> Option<RemoteView>
    decreases list.len(),
{
    if list.len() == 0 {
        None
    } else if list[0].name == name {
        Some(list[0])
    } else {
        remote_named(list.skip(1), name)
    }
}

/// Adding an address to an ordered list of remotes changes that of its remote and purpose alone.
proof fn lemma_with_remote(
    list: Seq<RemoteView>,
    name: Seq<char>,
    url: Seq<char>,
    purpose: Seq<char>,
    other: Seq<char>,
)
    requires
        order::ascending(refs::remote_names(list)),
    ensures
        remote_named(refs::with_remote(list, name, url, purpose), other) == if other != name {
            remote_named(list, other)
        } else {
            match remote_named(list, name) {
                Some(remote) => Some(refs::with_url(remote, url, purpose)),
                None => Some(
                    refs::with_url(
                        RemoteView { name, fetch_url: None, push_url: None },
                        url,
                        purpose,
                    ),
                ),
            }
        },
    decreases list.len(),
{
    let result = refs::with_remote(list, name, url, purpose);
    if list.len() == 0 {
        assert(result.skip(1) =~= list);
    } else if list[0].name == name {
        assert(result.skip(1) =~= list.skip(1));
    } else if order::precedes(name, list[0].name) {
        assert(result.skip(1) =~= list);
        assert(result[0].name == name);
        lemma_before(list, name);
    } else {
        let rest = list.skip(1);
        let names = refs::remote_names(list);
        assert forall|i: int, j: int| 0 <= i < j < refs::remote_names(rest).len() implies
            order::precedes(
                #[trigger] refs::remote_names(rest)[i],
                #[trigger] refs::remote_names(rest)[j],
            ) by {
            assert(refs::remote_names(rest)[i] == names[i + 1]);
            assert(refs::remote_names(rest)[j] == names[j + 1]);
        }
        lemma_with_remote(rest, name, url, purpose, other);
        assert(result.skip(1) =~= refs::with_remote(rest, name, url, purpose));
    }
}

/// A name that comes before all of an ordered list is not in it.
proof fn lemma_before(list: Seq<RemoteView>, name: Seq<char>)
    requires
        order::ascending(refs::remote_names(list)),
        list.len() > 0 ==> order::precedes(name, list[0].name),
    ensures
        remote_named(list, name) is None,
    decreases list.len(),
{
    if list.len() > 0 {
        let rest = list.skip(1);
        let names = refs::remote_names(list);
        order::order_is_total(name, list[0].name);
        assert forall|i: int, j: int| 0 <= i < j < refs::remote_names(rest).len() implies
            order::precedes(
                #[trigger] refs::remote_names(rest)[i],
                #[trigger] refs::remote_names(rest)[j],
            ) by {
            assert(refs::remote_names(rest)[i] == names[i + 1]);
            assert(refs::remote_names(rest)[j] == names[j + 1]);
        }
        if rest.len() > 0 {
            assert(names[0] == list[0].name && names[1] == rest[0].name);
            order::order_is_transitive(name, names[0], names[1]);
        }
        lemma_before(rest, name);
    }
}

/// A line of `git remote -v`.
pub open spec fn remote_listed(name: Seq<char>, url: Seq<char>, fetches: bool) -> Seq<char> {
    name + seq!['\t'] + (url + seq![' '] + if fetches {
        "(fetch)"@
    } else {
        "(push)"@
    })
}

/// Each line of `git remote -v` gives one address, spaces in it included: that of its remote for fetching or that
/// for pushing. All others stay as they were.
pub proof fn addresses_of_remotes_are_read_back(
    lines: Seq<Seq<char>>,
    name: Seq<char>,
    url: Seq<char>,
    fetches: bool,
    other: Seq<char>,
)
    requires
        !name.contains('\t'),
    ensures
        ({
            let before = refs::remotes_of(lines);
            let after = refs::remotes_of(lines.push(remote_listed(name, url, fetches)));
            let old_remote = match remote_named(before, name) {
                Some(remote) => remote,
                None => RemoteView { name, fetch_url: None, push_url: None },
            };
            &&& other != name ==> remote_named(after, other) == remote_named(before, other)
            &&& fetches ==> remote_named(after, name) == Some(
                RemoteView { fetch_url: Some(url), ..old_remote },
            )
            &&& !fetches ==> remote_named(after, name) == Some(
                RemoteView { push_url: Some(url), ..old_remote },
            )
        }),
{
    let line = remote_listed(name, url, fetches);
    let longer = lines.push(line);
    assert(longer.drop_last() =~= lines);
    assert(longer.last() == line);
    reveal_strlit("(fetch)");
    reveal_strlit("(push)");
    let purpose = if fetches {
        "(fetch)"@
    } else {
        "(push)"@
    };
    let rest = url + seq![' '] + purpose;
    assert forall|i: int| 0 <= i < name.len() implies line[i] != '\t' by {
        assert(line[i] == name[i]);
        if name[i] == '\t' {
            assert(name.contains('\t'));
        }
    }
    text::lemma_position_unique(line, '\t', name.len() as int);
    assert(line.take(name.len() as int) =~= name);
    assert(line.skip(name.len() as int + 1) =~= rest);
    text::lemma_last_position(rest, ' ');
    let space = text::last_position_of(rest, ' ');
    assert(rest[url.len() as int] == ' ');
    if space > url.len() {
        assert(rest[space] == purpose[space - url.len() - 1]);
    }
    assert(space == url.len());
    assert(rest.take(space) =~= url);
    assert(rest.skip(space + 1) =~= purpose);
    assert(refs::remote_line(line) == Some((name, url, purpose)));
    assert("(fetch)"@ != "(push)"@) by {
        assert("(fetch)"@.len() == 7 && "(push)"@.len() == 6);
    }
    refs::remotes_are_distinct_and_ordered(lines);
    let before = refs::remotes_of(lines);
    lemma_with_remote(before, name, url, purpose, other);
    lemma_with_remote(before, name, url, purpose, name);
}

/// The remotes are asked of `git remote -v`.
pub proof fn remotes_are_asked_of_git(replies: Seq<ReplyView>, at: nat, output: Seq<char>)
    ensures
        ({
            let step = inspect::remotes_step(replies, at);
            &&& at >= replies.len() ==> effects::waits_to_run(step, seq!["remote"@, "-v"@])
            &&& effects::says(replies, at, 0, output, Seq::empty()) ==> step.result == Ok::<
                Seq<RemoteView>,
                HaltView<GitErrorView>,
            >(refs::remotes_of(text::text_lines(output)))
        }),
{
    if effects::says(replies, at, 0, output, Seq::empty()) {
        effects::lemma_says(replies, at, 0, output, Seq::empty(), seq!["remote"@, "-v"@]);
    }
}

/// Whether a text is one word.
pub open spec fn is_word(value: Seq<char>) -> bool {
    value.len() > 0 && forall|i: int|
        0 <= i < value.len() ==> !text::is_white(#[trigger] value[i])
}

/// The commit of a branch of a remote, or of an address, is asked of `git ls-remote --heads`: it stands in front of
/// the tab, and there is none where nothing is written.
pub proof fn commits_of_remotes_are_read_back(
    replies: Seq<ReplyView>,
    at: nat,
    place: Seq<char>,
    branch: Seq<char>,
    oid: Seq<char>,
    more: Seq<char>,
)
    requires
        is_word(oid),
    ensures
        ({
            let by_name = remotes::remote_head_oid_step(replies, at, place, branch);
            let by_url = remotes::remote_url_head_oid_step(replies, at, place, branch);
            let words = seq!["ls-remote"@, "--heads"@, "--"@, place, "refs/heads/"@ + branch];
            &&& at >= replies.len() ==> effects::waits_to_run(by_name, words)
                && effects::waits_to_run(by_url, words)
            &&& effects::says(replies, at, 0, oid + seq!['\t'] + more, Seq::empty()) ==> {
                &&& by_name.result == Ok::<Option<Seq<char>>, HaltView<GitErrorView>>(Some(oid))
                &&& by_url.result == Ok::<Option<Seq<char>>, HaltView<GitErrorView>>(Some(oid))
            }
            &&& effects::says(replies, at, 0, Seq::empty(), Seq::empty()) ==> {
                &&& by_name.result == Ok::<Option<Seq<char>>, HaltView<GitErrorView>>(None)
                &&& by_url.result == Ok::<Option<Seq<char>>, HaltView<GitErrorView>>(None)
            }
        }),
{
    let words = seq!["ls-remote"@, "--heads"@, "--"@, place, "refs/heads/"@ + branch];
    let output = oid + seq!['\t'] + more;
    if effects::says(replies, at, 0, output, Seq::empty()) {
        effects::lemma_says(replies, at, 0, output, Seq::empty(), words);
    }
    if effects::says(replies, at, 0, Seq::empty(), Seq::empty()) {
        effects::lemma_says(replies, at, 0, Seq::empty(), Seq::empty(), words);
    }
    lemma_first_word(oid, more);
}

/// The first word of an output is what stands before its first tab.
proof fn lemma_first_word(word: Seq<char>, more: Seq<char>)
    requires
        is_word(word),
    ensures
        remotes::first_word(word + seq!['\t'] + more) == Some(word),
{
    let output = word + seq!['\t'] + more;
    text::lemma_position(output, '\n');
    let end = text::position_of(output, '\n') as int;
    let line = text::text_lines(output)[0];
    if end <= word.len() {
        if end < word.len() {
            assert(output[end] == word[end]);
            assert(text::is_white('\n'));
        }
        assert(output[word.len() as int] == '\t');
        assert(false);
    }
    let tail = line.skip(word.len() as int);
    assert(tail.len() > 0 ==> tail[0] == '\t') by {
        if tail.len() > 0 {
            assert(tail[0] == line[word.len() as int]);
            assert(line[word.len() as int] == output[word.len() as int]);
        }
    }
    assert(line =~= word + tail) by {
        assert(line.len() >= word.len());
        assert forall|i: int| 0 <= i < word.len() implies line[i] == word[i] by {
            assert(line[i] == output[i]);
        }
    }
    assert(text::is_white('\t'));
    parts::lemma_one_word(word, tail);
    assert(text::words(line)[0] == word);
}

/// How far two branches are apart is asked of `git rev-list --left-right --count`: the first number counts the
/// commits that only the local one has, and the second those that only the upstream has.
pub proof fn counts_of_commits_are_read_back(
    replies: Seq<ReplyView>,
    at: nat,
    local: Seq<char>,
    upstream: Seq<char>,
    ahead: u32,
    behind: u32,
)
    ensures
        ({
            let step = remotes::ahead_behind_step(replies, at, local, upstream);
            let output = number::decimal(ahead as nat) + (seq!['\t'] + (number::decimal(
                behind as nat,
            ) + seq!['\n']));
            &&& at >= replies.len() ==> effects::waits_to_run(
                step,
                seq!["rev-list"@, "--left-right"@, "--count"@, local + "..."@ + upstream],
            )
            &&& effects::says(replies, at, 0, output, Seq::empty()) ==> step.result == Ok::<
                (u32, u32),
                HaltView<GitErrorView>,
            >((ahead, behind))
        }),
{
    let one = number::decimal(ahead as nat);
    let other = number::decimal(behind as nat);
    let output = one + (seq!['\t'] + (other + seq!['\n']));
    number::lemma_decimal(ahead as nat);
    number::lemma_decimal(behind as nat);
    number::written_number_reads_back(ahead as nat, u32::MAX as nat);
    number::written_number_reads_back(behind as nat, u32::MAX as nat);
    assert forall|i: int| 0 <= i < one.len() implies !text::is_white(#[trigger] one[i]) by {
        assert(number::is_digit(one[i]));
    }
    assert forall|i: int| 0 <= i < other.len() implies !text::is_white(#[trigger] other[i]) by {
        assert(number::is_digit(other[i]));
    }
    parts::words_are_read_back(one, seq!['\t'], other, seq!['\n']);
    let words = text::words(output);
    assert(words == seq![one, other]);
    assert(words[0] == one && words[1] == other && words.len() == 2);
    if effects::says(replies, at, 0, output, Seq::empty()) {
        effects::lemma_says(
            replies,
            at,
            0,
            output,
            Seq::empty(),
            seq!["rev-list"@, "--left-right"@, "--count"@, local + "..."@ + upstream],
        );
    }
}

/// The addresses that a push goes to are asked of `git remote get-url --push --all`: one on each line.
pub proof fn addresses_of_pushes_are_read_back(
    replies: Seq<ReplyView>,
    at: nat,
    remote: Seq<char>,
    urls: Seq<Seq<char>>,
)
    requires
        forall|i: int| 0 <= i < urls.len() ==> is_word(#[trigger] urls[i]),
    ensures
        ({
            let step = remotes::remote_push_urls_step(replies, at, remote);
            &&& at >= replies.len() ==> effects::waits_to_run(
                step,
                seq!["remote"@, "get-url"@, "--push"@, "--all"@, "--"@, remote],
            )
            &&& effects::says(replies, at, 0, parts::written(urls, '\n'), Seq::empty())
                ==> step.result == Ok::<Seq<Seq<char>>, HaltView<GitErrorView>>(urls)
        }),
{
    assert forall|i: int| 0 <= i < urls.len() implies !(#[trigger] urls[i]).contains('\n') && (
    urls[i].len() == 0 || urls[i].last() != '\r') by {
        let url = urls[i];
        assert(is_word(url));
        assert(text::is_white('\n') && text::is_white('\r'));
        if url.contains('\n') {
            let at = choose|at: int| 0 <= at < url.len() && url[at] == '\n';
            assert(text::is_white(url[at]));
        }
        assert(!text::is_white(url[url.len() - 1]));
    }
    parts::lines_are_read_back(urls);
    lemma_filled_lines(urls);
    let output = parts::written(urls, '\n');
    if effects::says(replies, at, 0, output, Seq::empty()) {
        effects::lemma_says(
            replies,
            at,
            0,
            output,
            Seq::empty(),
            seq!["remote"@, "get-url"@, "--push"@, "--all"@, "--"@, remote],
        );
    }
}

/// Lines of one word each are kept.
proof fn lemma_filled_lines(lines: Seq<Seq<char>>)
    requires
        forall|i: int| 0 <= i < lines.len() ==> is_word(#[trigger] lines[i]),
    ensures
        remotes::filled_lines(lines) == lines,
    decreases lines.len(),
{
    if lines.len() > 0 {
        let rest = lines.drop_last();
        assert forall|i: int| 0 <= i < rest.len() implies is_word(#[trigger] rest[i]) by {
            assert(rest[i] == lines[i]);
        }
        lemma_filled_lines(rest);
        assert(is_word(lines[lines.len() - 1]));
        lemma_word_is_trimmed(lines.last());
        assert(lines =~= rest.push(lines.last()));
    } else {
        assert(remotes::filled_lines(lines) =~= lines);
    }
}

/// Nothing is trimmed from a word.
pub proof fn lemma_word_is_trimmed(word: Seq<char>)
    requires
        is_word(word),
    ensures
        text::trimmed(word) == word,
{
    assert(!text::is_white(word[0]));
    assert(!text::is_white(word[word.len() - 1]));
}

/// A setting is asked of `git config --get`, with an option where one is given. There is none where that ends with
/// one.
pub proof fn settings_are_asked_of_git(
    replies: Seq<ReplyView>,
    at: nat,
    option: Seq<char>,
    key: Seq<char>,
    value: Seq<char>,
)
    ensures
        ({
            let step = commands::config_value_step(replies, at, option, key);
            &&& at >= replies.len() && option.len() == 0 ==> effects::waits_to_run(
                step,
                seq!["config"@, "--get"@, key],
            )
            &&& at >= replies.len() && option.len() > 0 ==> effects::waits_to_run(
                step,
                seq!["config"@, option, "--get"@, key],
            )
            &&& effects::says(replies, at, 0, value, Seq::empty()) ==> step.result == Ok::<
                Option<Seq<char>>,
                HaltView<GitErrorView>,
            >(Some(text::trimmed(value))) && step.next == at + 1
            &&& effects::says(replies, at, 1, value, Seq::empty()) ==> step.result == Ok::<
                Option<Seq<char>>,
                HaltView<GitErrorView>,
            >(None) && step.next == at + 1
        }),
{
    let words = if option.len() == 0 {
        seq!["config"@, "--get"@, key]
    } else {
        seq!["config"@, option, "--get"@, key]
    };
    if effects::says(replies, at, 0, value, Seq::empty()) {
        effects::lemma_says(replies, at, 0, value, Seq::empty(), words);
    }
    if effects::says(replies, at, 1, value, Seq::empty()) {
        effects::lemma_says(replies, at, 1, value, Seq::empty(), words);
    }
}

/// Where a branch is followed is configured as `branch.NAME.remote` and `branch.NAME.merge`; the latter names a
/// branch under `refs/heads/`. Without either there is no such place.
pub proof fn followed_branch_is_configured(
    replies: Seq<ReplyView>,
    at: nat,
    branch: Seq<char>,
    remote: Seq<char>,
    target: Seq<char>,
)
    ensures
        ({
            let step = remotes::upstream_push_target_step(replies, at, branch);
            let first = commands::config_value_step(
                replies,
                at,
                Seq::empty(),
                "branch."@ + branch + ".remote"@,
            );
            let second = commands::config_value_step(
                replies,
                first.next,
                Seq::empty(),
                "branch."@ + branch + ".merge"@,
            );
            let none = Ok::<Option<Seq<char>>, HaltView<GitErrorView>>(None);
            &&& first.result is Ok && second.result is Ok ==> {
                &&& first.result == none || second.result == none ==> step.result == Ok::<
                    Option<(Seq<char>, Seq<char>)>,
                    HaltView<GitErrorView>,
                >(None)
                &&& first.result->Ok_0 == Some(remote) && second.result->Ok_0 == Some(
                    "refs/heads/"@ + target,
                ) ==> step.result == Ok::<Option<(Seq<char>, Seq<char>)>, HaltView<GitErrorView>>(
                    Some((remote, target)),
                )
            }
        }),
{
    let whole = "refs/heads/"@ + target;
    assert(whole.take("refs/heads/"@.len() as int) =~= "refs/heads/"@);
    assert(whole.skip("refs/heads/"@.len() as int) =~= target);
}

/// Where a branch is pushed to is asked of `git for-each-ref`: it writes the remote and the branch of it that would
/// be pushed to.
pub proof fn push_target_is_what_git_says(
    replies: Seq<ReplyView>,
    at: nat,
    branch: Seq<char>,
    remote: Seq<char>,
    target: Seq<char>,
)
    requires
        is_word(remote),
        is_word(target),
        !remote.contains('\0'),
    ensures
        ({
            let step = remotes::push_target_step(replies, at, branch);
            let output = remote + seq!['\0'] + (remote + "/"@ + target);
            let words = seq![
                "for-each-ref"@,
                "--format=%(push:remotename)%00%(push:short)"@,
                "--count=1"@,
                "--"@,
                "refs/heads/"@ + branch,
            ];
            &&& at >= replies.len() ==> effects::waits_to_run(step, words)
            &&& effects::says(replies, at, 0, output.push('\n'), Seq::empty()) ==> step.result
                == Ok::<Option<(Seq<char>, Seq<char>)>, HaltView<GitErrorView>>(
                Some((remote, target)),
            )
        }),
{
    reveal_strlit("/");
    let output = remote + seq!['\0'] + (remote + "/"@ + target);
    let words = seq![
        "for-each-ref"@,
        "--format=%(push:remotename)%00%(push:short)"@,
        "--count=1"@,
        "--"@,
        "refs/heads/"@ + branch,
    ];
    let whole = output.push('\n');
    assert(text::trimmed(whole) == output) by {
        assert(whole[0] == remote[0]);
        assert(!text::is_white(remote[0]));
        assert(text::trimmed_start(whole) == whole);
        assert(whole.last() == '\n' && text::is_white('\n'));
        assert(whole.drop_last() =~= output);
        assert(output.last() == target[target.len() - 1]);
        assert(text::trimmed_end(output) == output);
    }
    assert forall|i: int| 0 <= i < remote.len() implies output[i] != '\0' by {
        assert(output[i] == remote[i]);
        if remote[i] == '\0' {
            assert(remote.contains('\0'));
        }
    }
    text::lemma_position_unique(output, '\0', remote.len() as int);
    assert(output.take(remote.len() as int) =~= remote);
    let full = remote + "/"@ + target;
    assert(output.skip(remote.len() as int + 1) =~= full);
    let lead = remote + "/"@;
    assert(full.take(lead.len() as int) =~= lead);
    assert(full.skip(lead.len() as int) =~= target);
    if effects::says(replies, at, 0, whole, Seq::empty()) {
        effects::lemma_says(replies, at, 0, whole, Seq::empty(), words);
    }
}

/// The remote that a branch is pushed to is the one configured for the branch, or else the one configured for all
/// pushes, or else the one that the branch follows, or else the default one.
pub proof fn push_remote_is_the_most_particular(
    own: Option<Seq<char>>,
    common: Option<Seq<char>>,
    upstream: Option<(Seq<char>, Seq<char>)>,
    default_remote: Option<Seq<char>>,
)
    ensures
        ({
            let remote = remotes::push_remote(own, common, upstream, default_remote);
            &&& own is Some ==> remote == own
            &&& own is None && common is Some ==> remote == common
            &&& own is None && common is None && upstream is Some ==> remote == Some(
                upstream->Some_0.0,
            )
            &&& own is None && common is None && upstream is None ==> remote == default_remote
        }),
{
}

/// Where a typed push goes: to the branch that is followed for `upstream` and `tracking`, and for `simple` where the
/// remote is the followed one; to the branch of the same name otherwise; nowhere for `nothing`. Any other setting is
/// refused.
pub proof fn push_goes_where_the_setting_says(
    setting: Seq<char>,
    remote: Seq<char>,
    upstream: (Seq<char>, Seq<char>),
    branch: Seq<char>,
)
    ensures
        ({
            let target = remotes::push_target_by(setting, remote, upstream, branch);
            let followed = Ok::<Option<(Seq<char>, Seq<char>)>, GitErrorView>(Some(upstream));
            let same = Ok::<Option<(Seq<char>, Seq<char>)>, GitErrorView>(Some((remote, branch)));
            &&& setting == "simple"@ && remote == upstream.0 ==> target == followed
            &&& setting == "simple"@ && remote != upstream.0 ==> target == same
            &&& setting == "upstream"@ || setting == "tracking"@ ==> target == followed
            &&& setting == "current"@ || setting == "matching"@ ==> target == same
            &&& setting == "nothing"@ ==> target == Ok::<
                Option<(Seq<char>, Seq<char>)>,
                GitErrorView,
            >(None)
            &&& target is Err <==> setting != "simple"@ && setting != "upstream"@ && setting
                != "tracking"@ && setting != "current"@ && setting != "matching"@ && setting
                != "nothing"@
        }),
        remotes::setting_or_simple(None) == "simple"@,
        remotes::setting_or_simple(Some(setting)) == setting,
{
    reveal_strlit("simple");
    reveal_strlit("upstream");
    reveal_strlit("tracking");
    reveal_strlit("current");
    reveal_strlit("matching");
    reveal_strlit("nothing");
    assert("simple"@.len() == 6 && "upstream"@.len() == 8 && "tracking"@.len() == 8);
    assert("current"@.len() == 7 && "matching"@.len() == 8 && "nothing"@.len() == 7);
    assert("upstream"@[0] == 'u' && "tracking"@[0] == 't' && "matching"@[0] == 'm');
    assert("current"@[0] == 'c' && "nothing"@[0] == 'n');
}

/// A typed push asks for the remote of the branch and for that of all pushes. It goes nowhere without a remote, to the
/// branch of the same name where nothing is followed, and otherwise where `push.default` says.
pub proof fn typed_push_follows_the_configuration(
    replies: Seq<ReplyView>,
    at: nat,
    branch: Seq<char>,
    upstream: Option<(Seq<char>, Seq<char>)>,
    default_remote: Option<Seq<char>>,
)
    ensures
        ({
            let step = remotes::typed_push_target_step(
                replies,
                at,
                branch,
                upstream,
                default_remote,
            );
            let own = commands::config_value_step(
                replies,
                at,
                Seq::empty(),
                "branch."@ + branch + ".pushRemote"@,
            );
            let common = commands::config_value_step(
                replies,
                own.next,
                Seq::empty(),
                "remote.pushDefault"@,
            );
            let setting = commands::config_value_step(
                replies,
                common.next,
                Seq::empty(),
                "push.default"@,
            );
            let remote = remotes::push_remote(
                own.result->Ok_0,
                common.result->Ok_0,
                upstream,
                default_remote,
            );
            &&& own.result is Err ==> step.result is Err
            &&& own.result is Ok && common.result is Ok ==> {
                &&& remote is None || remote->Some_0.len() == 0 ==> step.result == Ok::<
                    Option<(Seq<char>, Seq<char>)>,
                    HaltView<GitErrorView>,
                >(None)
                &&& remote is Some && remote->Some_0.len() > 0 && upstream is None ==> step.result
                    == Ok::<Option<(Seq<char>, Seq<char>)>, HaltView<GitErrorView>>(
                    Some((remote->Some_0, branch)),
                )
                &&& remote is Some && remote->Some_0.len() > 0 && upstream is Some
                    && setting.result is Ok ==> {
                    let target = remotes::push_target_by(
                        remotes::setting_or_simple(setting.result->Ok_0),
                        remote->Some_0,
                        upstream->Some_0,
                        branch,
                    );
                    &&& step.result is Ok <==> target is Ok
                    &&& step.result is Ok ==> step.result->Ok_0 == target->Ok_0
                }
            }
        }),
{
}

/// A fetch for a plan that fails still removes the ref that it may have made, and then fails as the fetch did.
pub proof fn failed_fetch_is_cleaned_up(
    replies: Seq<ReplyView>,
    at: nat,
    remote: Seq<char>,
    branch: Seq<char>,
    count: u64,
    process: u64,
    stdout: Seq<char>,
    stderr: Seq<char>,
)
    requires
        at + 1 < replies.len(),
        replies[at as int] == ReplyView::Number(count),
        replies[(at + 1) as int] == ReplyView::Number(process),
        effects::says(replies, at + 2, 1, stdout, stderr),
    ensures
        ({
            let step = remotes::fetch_remote_branch_for_plan_step(replies, at, remote, branch);
            let staged = "refs/bitbygit/fetch/"@ + number::decimal(process as nat) + "-"@
                + number::decimal(count as nat);
            &&& replies.len() == at + 3 ==> effects::waits_to_run(
                step,
                seq!["update-ref"@, "-d"@, staged],
            )
            &&& !(step.result is Ok)
        }),
{
    let staged = remotes::staged_ref(process, count);
    effects::lemma_says(
        replies,
        at + 2,
        1,
        stdout,
        stderr,
        seq![
            "fetch"@,
            "--no-write-fetch-head"@,
            "--no-tags"@,
            "--refmap="@,
            "--"@,
            remote,
            "+refs/heads/"@ + branch + ":"@ + staged,
        ],
    );
}

/// The output of two commands is that of the first and then that of the second, each without white space around it and
/// with a line feed between them where both wrote something.
pub proof fn outputs_are_put_together(first: Seq<char>, second: Seq<char>)
    requires
        is_word(first),
        is_word(second),
    ensures
        refs::combined_text(first, second) == first + seq!['\n'] + second,
        refs::combined_text(first, Seq::empty()) == first,
        refs::combined_text(Seq::empty(), second) == second,
{
    reveal_strlit("\n");
    lemma_word_is_trimmed(first);
    lemma_word_is_trimmed(second);
    assert("\n"@ =~= seq!['\n']);
}

}
