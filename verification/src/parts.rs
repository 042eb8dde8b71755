//! Splitting gives back what was put together.
use crate::text;
use vstd::prelude::*;

verus! {

/// Some parts with a separator behind each of them.
pub open spec fn written<T>(parts: Seq<Seq<T>>, separator: T) -> Seq<T>
    decreases parts.len(),
{
    if parts.len() == 0 {
        Seq::empty()
    } else {
        parts[0] + seq![separator] + written(parts.drop_first(), separator)
    }
}

/// Whether something occurs in none of some parts.
pub open spec fn free_of<T>(parts: Seq<Seq<T>>, symbol: T) -> bool {
    forall|i: int| 0 <= i < parts.len() ==> !(#[trigger] parts[i]).contains(symbol)
}

/// Whether none of some parts is empty.
pub open spec fn none_empty<T>(parts: Seq<Seq<T>>) -> bool {
    forall|i: int| 0 <= i < parts.len() ==> (#[trigger] parts[i]).len() > 0
}

/// The first place of a separator behind a part that does not hold it is the end of the part.
pub(crate) proof fn lemma_first_part<T>(part: Seq<T>, separator: T, more: Seq<T>)
    requires
        !part.contains(separator),
    ensures
        text::position_of(part + seq![separator] + more, separator) == part.len(),
        (part + seq![separator] + more).take(part.len() as int) == part,
        (part + seq![separator] + more).skip(part.len() as int + 1) == more,
{
    let whole = part + seq![separator] + more;
    assert forall|i: int| 0 <= i < part.len() implies whole[i] != separator by {
        assert(whole[i] == part[i]);
        if part[i] == separator {
            assert(part.contains(separator));
        }
    }
    text::lemma_position_unique(whole, separator, part.len() as int);
    assert(whole.take(part.len() as int) =~= part);
    assert(whole.skip(part.len() as int + 1) =~= more);
}

/// Splitting at every separator gives back the parts that were written, and what stands behind them.
pub proof fn split_parts_are_those_written<T>(parts: Seq<Seq<T>>, last: Seq<T>, separator: T)
    requires
        free_of(parts, separator),
        !last.contains(separator),
    ensures
        text::pieces(written(parts, separator) + last, separator) == parts.push(last),
    decreases parts.len(),
{
    let whole = written(parts, separator) + last;
    if parts.len() == 0 {
        assert(whole =~= last);
        text::lemma_position(last, separator);
        assert(parts.push(last) =~= seq![last]);
    } else {
        let rest = parts.drop_first();
        let tail = written(rest, separator) + last;
        assert forall|i: int| 0 <= i < rest.len() implies !(#[trigger] rest[i]).contains(
            separator,
        ) by {
            assert(rest[i] == parts[i + 1]);
        }
        split_parts_are_those_written(rest, last, separator);
        assert(whole =~= parts[0] + seq![separator] + tail);
        lemma_first_part(parts[0], separator, tail);
        text::lemma_position(whole, separator);
        assert(parts.push(last) =~= seq![parts[0]] + rest.push(last));
    }
}

/// Splitting at the first separators alone gives back the parts that were written, and all that stands behind
/// them in one piece, separators included.
pub proof fn last_part_is_kept_whole<T>(parts: Seq<Seq<T>>, last: Seq<T>, separator: T)
    requires
        free_of(parts, separator),
    ensures
        text::pieces_at_most(written(parts, separator) + last, separator, parts.len() + 1)
            == parts.push(last),
    decreases parts.len(),
{
    let whole = written(parts, separator) + last;
    if parts.len() == 0 {
        assert(whole =~= last);
        assert(parts.push(last) =~= seq![last]);
    } else {
        let rest = parts.drop_first();
        let tail = written(rest, separator) + last;
        assert forall|i: int| 0 <= i < rest.len() implies !(#[trigger] rest[i]).contains(
            separator,
        ) by {
            assert(rest[i] == parts[i + 1]);
        }
        last_part_is_kept_whole(rest, last, separator);
        assert(whole =~= parts[0] + seq![separator] + tail);
        lemma_first_part(parts[0], separator, tail);
        assert(parts.push(last) =~= seq![parts[0]] + rest.push(last));
    }
}

/// Nothing is left out of parts of which none is empty.
pub proof fn filled_parts_are_kept<T>(parts: Seq<Seq<T>>)
    requires
        none_empty(parts),
    ensures
        text::filled(parts) == parts,
        text::filled(parts.push(Seq::empty())) == parts,
    decreases parts.len(),
{
    let more = parts.push(Seq::empty());
    assert(more.drop_last() =~= parts);
    if parts.len() > 0 {
        let rest = parts.drop_last();
        assert forall|i: int| 0 <= i < rest.len() implies (#[trigger] rest[i]).len() > 0 by {
            assert(rest[i] == parts[i]);
        }
        filled_parts_are_kept(rest);
        assert(parts =~= rest.push(parts.last()));
    } else {
        assert(text::filled(parts) =~= parts);
    }
}

/// What is written holds the separator if and only if there is a part, and another symbol if and only if a part
/// holds it.
pub proof fn written_parts_hold_their_symbols<T>(parts: Seq<Seq<T>>, separator: T, symbol: T)
    ensures
        parts.len() > 0 ==> written(parts, separator).contains(separator),
        symbol != separator && free_of(parts, symbol) ==> !written(parts, separator).contains(
            symbol,
        ),
    decreases parts.len(),
{
    if parts.len() > 0 {
        let rest = parts.drop_first();
        let whole = written(parts, separator);
        assert(whole[parts[0].len() as int] == separator);
        written_parts_hold_their_symbols(rest, separator, symbol);
        if symbol != separator && free_of(parts, symbol) {
            assert forall|i: int| 0 <= i < rest.len() implies !(#[trigger] rest[i]).contains(
                symbol,
            ) by {
                assert(rest[i] == parts[i + 1]);
            }
            if whole.contains(symbol) {
                let at = choose|at: int| 0 <= at < whole.len() && whole[at] == symbol;
                if at < parts[0].len() {
                    assert(parts[0][at] == symbol);
                } else {
                    assert(at > parts[0].len());
                    assert(written(rest, separator)[at - parts[0].len() - 1] == symbol);
                }
            }
        }
    }
}

/// Splitting at the separators and leaving out what is empty gives back the parts that were written.
pub proof fn written_parts_are_read_back<T>(parts: Seq<Seq<T>>, separator: T)
    requires
        free_of(parts, separator),
        none_empty(parts),
    ensures
        text::filled(text::pieces(written(parts, separator), separator)) == parts,
{
    assert(written(parts, separator) + Seq::<T>::empty() =~= written(parts, separator));
    split_parts_are_those_written(parts, Seq::empty(), separator);
    filled_parts_are_kept(parts);
}

/// Two words with a space between them are read as those two.
pub proof fn two_words_are_read_back(first: Seq<char>, second: Seq<char>)
    requires
        first.len() > 0,
        second.len() > 0,
        forall|i: int| 0 <= i < first.len() ==> !text::is_white(#[trigger] first[i]),
        forall|i: int| 0 <= i < second.len() ==> !text::is_white(#[trigger] second[i]),
    ensures
        text::words(first + seq![' '] + second) == seq![first, second],
{
    let whole = first + seq![' '] + second;
    let tail = seq![' '] + second;
    assert(whole =~= first + tail);
    lemma_one_word(first, tail);
    assert(tail.drop_first() =~= second);
    assert(text::trimmed_start(tail) == text::trimmed_start(second)) by {
        assert(tail[0] == ' ');
    }
    lemma_one_word(second, Seq::empty());
    assert(second + Seq::<char>::empty() =~= second);
    assert(text::words(Seq::<char>::empty()) =~= Seq::<Seq<char>>::empty());
    assert(text::words(second) =~= seq![second]);
    assert(text::words(tail) == text::words(second));
    assert(text::words(whole) =~= seq![first, second]);
}

/// The first word of a text is what stands before its first white space.
pub proof fn lemma_one_word(word: Seq<char>, more: Seq<char>)
    requires
        word.len() > 0,
        forall|i: int| 0 <= i < word.len() ==> !text::is_white(#[trigger] word[i]),
        more.len() > 0 ==> text::is_white(more[0]),
    ensures
        text::words(word + more) == seq![word] + text::words(more),
        text::trimmed_start(word + more) == word + more,
{
    let whole = word + more;
    assert(whole[0] == word[0]);
    text::lemma_word_len(whole);
    let end = text::word_len(whole) as int;
    if end < word.len() {
        assert(whole[end] == word[end]);
    }
    if end > word.len() {
        assert(whole[word.len() as int] == more[0]);
    }
    assert(whole.take(end) =~= word);
    assert(whole.skip(end) =~= more);
}

/// White space in front of a text is no word.
pub proof fn white_space_is_no_word(space: Seq<char>, value: Seq<char>)
    requires
        text::all_white(space),
    ensures
        text::words(space + value) == text::words(value),
        text::words(space) == Seq::<Seq<char>>::empty(),
{
    text::lemma_white_in_front(space, value);
    text::lemma_white_in_front(space, Seq::empty());
    assert(space + Seq::<char>::empty() =~= space);
}

/// Two words are read back, whatever white space is between and behind them.
pub proof fn words_are_read_back(
    first: Seq<char>,
    between: Seq<char>,
    second: Seq<char>,
    behind: Seq<char>,
)
    requires
        first.len() > 0,
        second.len() > 0,
        between.len() > 0,
        forall|i: int| 0 <= i < first.len() ==> !text::is_white(#[trigger] first[i]),
        forall|i: int| 0 <= i < second.len() ==> !text::is_white(#[trigger] second[i]),
        text::all_white(between),
        text::all_white(behind),
    ensures
        text::words(first + (between + (second + behind))) == seq![first, second],
{
    white_space_is_no_word(behind, Seq::empty());
    lemma_one_word(second, behind);
    white_space_is_no_word(between, second + behind);
    lemma_one_word(first, between + (second + behind));
    assert(text::words(first + (between + (second + behind))) =~= seq![first, second]);
}

/// The lines of a text are those that were written into it.
pub proof fn lines_are_read_back(lines: Seq<Seq<char>>)
    requires
        free_of(lines, '\n'),
        forall|i: int|
            0 <= i < lines.len() ==> (#[trigger] lines[i]).len() == 0 || lines[i].last() != '\r',
    ensures
        text::text_lines(written(lines, '\n')) == lines,
    decreases lines.len(),
{
    let whole = written(lines, '\n');
    if lines.len() == 0 {
        assert(text::text_lines(whole) =~= lines);
    } else {
        let rest = lines.drop_first();
        assert forall|i: int| 0 <= i < rest.len() implies !(#[trigger] rest[i]).contains('\n') && (
        rest[i].len() == 0 || rest[i].last() != '\r') by {
            assert(rest[i] == lines[i + 1]);
        }
        lines_are_read_back(rest);
        lemma_first_part(lines[0], '\n', written(rest, '\n'));
        text::lemma_position(whole, '\n');
        assert(text::text_lines(whole) =~= seq![lines[0]] + rest);
        assert(lines =~= seq![lines[0]] + rest);
    }
}

/// A carriage return at the end of a line does not belong to it.
pub proof fn returns_do_not_belong_to_lines(line: Seq<char>, more: Seq<char>)
    requires
        !line.contains('\n'),
    ensures
        text::text_lines(line + seq!['\r', '\n'] + more) == seq![line] + text::text_lines(more),
{
    let part = line.push('\r');
    let whole = line + seq!['\r', '\n'] + more;
    assert(!part.contains('\n')) by {
        if part.contains('\n') {
            let at = choose|at: int| 0 <= at < part.len() && part[at] == '\n';
            assert(line[at] == '\n');
        }
    }
    assert(whole =~= part + seq!['\n'] + more);
    lemma_first_part(part, '\n', more);
    text::lemma_position(whole, '\n');
    assert(part.drop_last() =~= line);
}

}
