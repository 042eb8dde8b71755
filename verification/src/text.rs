//! Sequences of characters and of bytes: searching, splitting and trimming.
//!
//! Text is scanned as a slice of `char`, raw command output as a slice of `u8`. The functions that
//! do not care which of the two they look at are written once, over [`Symbol`].
use vstd::prelude::*;
use vstd::slice::slice_subrange;

verus! {

/// An element of a scanned sequence: equality is the equality of values, and values are ordered by
/// their rank.
pub trait Symbol: Copy + Sized {
    spec fn rank(self) -> int;

    proof fn rank_is_injective(self, other: Self)
        ensures
            self.rank() == other.rank() ==> self == other,
    ;

    fn same(self, other: Self) -> (result: bool)
        ensures
            result == (self == other),
    ;

    fn below(self, other: Self) -> (result: bool)
        ensures
            result == (self.rank() < other.rank()),
    ;

    fn is_gap(self) -> (result: bool)
        ensures
            result == ascii_gap(self.rank()),
    ;
}

/// Whether a rank is that of ASCII white space.
pub open spec fn ascii_gap(rank: int) -> bool {
    rank == 9 || rank == 10 || rank == 12 || rank == 13 || rank == 32
}

impl Symbol for char {
    open spec fn rank(self) -> int {
        self as int
    }

    proof fn rank_is_injective(self, other: Self) {
    }

    fn same(self, other: Self) -> (result: bool) {
        self == other
    }

    fn below(self, other: Self) -> (result: bool) {
        self < other
    }

    fn is_gap(self) -> (result: bool) {
        self == '\t' || self == '\n' || self == '\u{c}' || self == '\r' || self == ' '
    }
}

impl Symbol for u8 {
    open spec fn rank(self) -> int {
        self as int
    }

    proof fn rank_is_injective(self, other: Self) {
    }

    fn same(self, other: Self) -> (result: bool) {
        self == other
    }

    fn below(self, other: Self) -> (result: bool) {
        self < other
    }

    fn is_gap(self) -> (result: bool) {
        self == 9 || self == 10 || self == 12 || self == 13 || self == 32
    }
}

/// `String::push` appends one character.
pub assume_specification[ String::push ](string: &mut String, character: char)
    ensures
        final(string)@ == old(string)@.push(character),
;

/// The characters of a string.
pub fn chars_of(text: &str) -> (result: Vec<char>)
    ensures
        result@ == text@,
{
    let mut result: Vec<char> = Vec::new();
    for character in iter: text.chars()
        invariant
            iter.seq() == text@,
            result@ == text@.take(iter.index() as int),
    {
        result.push(character);
    }
    assert(text@.take(text@.len() as int) =~= text@);
    result
}

/// The string made of the given characters.
pub fn string_of(characters: &[char]) -> (result: String)
    ensures
        result@ == characters@,
{
    let mut result = String::new();
    let mut index: usize = 0;
    while index < characters.len()
        invariant
            index <= characters@.len(),
            result@ == characters@.take(index as int),
        decreases characters@.len() - index,
    {
        result.push(characters[index]);
        index += 1;
        assert(characters@.take(index as int) =~= characters@.take(index - 1).push(
            characters@[index - 1],
        ));
    }
    assert(characters@.take(index as int) =~= characters@);
    result
}

/// `first` followed by `second`.
pub fn concat2(first: &str, second: &str) -> (result: String)
    ensures
        result@ == first@ + second@,
{
    let mut result = String::from_str(first);
    result.append(second);
    result
}

/// `first`, `second` and `third`, one after the other.
pub fn concat3(first: &str, second: &str, third: &str) -> (result: String)
    ensures
        result@ == first@ + second@ + third@,
{
    let mut result = concat2(first, second);
    result.append(third);
    result
}

/// Four pieces of text, one after the other.
pub fn concat4(first: &str, second: &str, third: &str, fourth: &str) -> (result: String)
    ensures
        result@ == first@ + second@ + third@ + fourth@,
{
    let mut result = concat3(first, second, third);
    result.append(fourth);
    result
}

/// Five pieces of text, one after the other.
pub fn concat5(first: &str, second: &str, third: &str, fourth: &str, fifth: &str) -> (result:
    String)
    ensures
        result@ == first@ + second@ + third@ + fourth@ + fifth@,
{
    let mut result = concat4(first, second, third, fourth);
    result.append(fifth);
    result
}

/// Whether two strings hold the same characters.
pub fn same_text(left: &str, right: &str) -> (result: bool)
    ensures
        result == (left@ == right@),
{
    let left_characters = chars_of(left);
    let right_characters = chars_of(right);
    same_slice(left_characters.as_slice(), right_characters.as_slice())
}

/// Whether a slice holds the characters of a string.
pub fn is_text(characters: &[char], text: &str) -> (result: bool)
    ensures
        result == (characters@ == text@),
{
    let expected = chars_of(text);
    same_slice(characters, expected.as_slice())
}

/// Whether two optional strings are both absent, or both present with the same characters.
pub fn same_optional_text(left: Option<&str>, right: Option<&str>) -> (result: bool)
    ensures
        result == (left.deep_view() == right.deep_view()),
{
    match (left, right) {
        (Some(left), Some(right)) => same_text(left, right),
        (None, None) => true,
        _ => false,
    }
}

/// The optional string behind a reference.
pub fn borrowed(text: &Option<String>) -> (result: Option<&str>)
    ensures
        result.deep_view() == text.deep_view(),
{
    match text {
        Some(text) => Some(text.as_str()),
        None => None,
    }
}

/// A copy of an optional string.
pub fn clone_optional(text: &Option<String>) -> (result: Option<String>)
    ensures
        result.deep_view() == text.deep_view(),
{
    match text {
        Some(text) => Some(text.clone()),
        None => None,
    }
}

/// A copy of a list of strings.
pub fn clone_texts(list: &Vec<String>) -> (result: Vec<String>)
    ensures
        result.deep_view() == list.deep_view(),
{
    let mut result: Vec<String> = Vec::new();
    let mut index: usize = 0;
    while index < list.len()
        invariant
            index <= list@.len(),
            result.deep_view() == list.deep_view().take(index as int),
        decreases list@.len() - index,
    {
        let ghost before = result;
        result.push(list[index].clone());
        index += 1;
        assert(result.deep_view() =~= before.deep_view().push(list@[index - 1]@));
        assert(list.deep_view().take(index as int) =~= list.deep_view().take(index - 1).push(
            list@[index - 1]@,
        ));
    }
    assert(list.deep_view().take(index as int) =~= list.deep_view());
    result
}

/// Whether a list of strings holds the given text.
pub fn holds_text(list: &Vec<String>, text: &str) -> (result: bool)
    ensures
        result == list.deep_view().contains(text@),
{
    let mut index: usize = 0;
    while index < list.len()
        invariant
            index <= list@.len(),
            forall|i: int| 0 <= i < index ==> list.deep_view()[i] != text@,
        decreases list@.len() - index,
    {
        if same_text(list[index].as_str(), text) {
            assert(list.deep_view()[index as int] == text@);
            return true;
        }
        index += 1;
    }
    false
}

/// The strings of a list with a separator between each two.
pub open spec fn joined(list: Seq<Seq<char>>, separator: Seq<char>) -> Seq<char>
    decreases list.len(),
{
    if list.len() == 0 {
        Seq::empty()
    } else if list.len() == 1 {
        list[0]
    } else {
        joined(list.drop_last(), separator) + separator + list.last()
    }
}

/// The strings of a list with a separator between each two.
pub fn join(list: &Vec<String>, separator: &str) -> (result: String)
    ensures
        result@ == joined(list.deep_view(), separator@),
{
    let mut result = String::new();
    let mut index: usize = 0;
    while index < list.len()
        invariant
            index <= list@.len(),
            result@ == joined(list.deep_view().take(index as int), separator@),
        decreases list@.len() - index,
    {
        if index > 0 {
            result.append(separator);
        }
        result.append(list[index].as_str());
        index += 1;
        let ghost now = list.deep_view().take(index as int);
        assert(now.drop_last() =~= list.deep_view().take(index - 1));
        assert(now.last() == list@[index - 1]@);
    }
    assert(list.deep_view().take(index as int) =~= list.deep_view());
    result
}

/// Whether two slices hold the same elements.
pub fn same_slice<T: Symbol>(left: &[T], right: &[T]) -> (result: bool)
    ensures
        result == (left@ == right@),
{
    if left.len() != right.len() {
        return false;
    }
    let mut index: usize = 0;
    while index < left.len()
        invariant
            index <= left@.len(),
            left@.len() == right@.len(),
            left@.take(index as int) == right@.take(index as int),
        decreases left@.len() - index,
    {
        if !left[index].same(right[index]) {
            return false;
        }
        index += 1;
        assert(left@.take(index as int) =~= left@.take(index - 1).push(left@[index - 1]));
        assert(right@.take(index as int) =~= right@.take(index - 1).push(right@[index - 1]));
    }
    assert(left@.take(index as int) =~= left@);
    assert(right@.take(index as int) =~= right@);
    true
}

/// Whether `prefix` stands at the start of `value`.
pub open spec fn has_prefix<T>(value: Seq<T>, prefix: Seq<T>) -> bool {
    prefix.len() <= value.len() && value.take(prefix.len() as int) == prefix
}

/// Whether `suffix` stands at the end of `value`.
pub open spec fn has_suffix<T>(value: Seq<T>, suffix: Seq<T>) -> bool {
    suffix.len() <= value.len() && value.skip(value.len() - suffix.len()) == suffix
}

/// The part of `value` behind `prefix`, where `prefix` stands at its start.
pub fn strip_prefix<'a, T: Symbol>(value: &'a [T], prefix: &[T]) -> (result: Option<&'a [T]>)
    ensures
        result is Some == has_prefix(value@, prefix@),
        result is Some ==> result->Some_0@ == value@.skip(prefix@.len() as int),
{
    if prefix.len() > value.len() {
        return None;
    }
    let (head, tail) = value.split_at(prefix.len());
    assert(head@ =~= value@.take(prefix@.len() as int));
    assert(tail@ =~= value@.skip(prefix@.len() as int));
    if same_slice(head, prefix) {
        Some(tail)
    } else {
        None
    }
}

/// The part of `value` before `suffix`, where `suffix` stands at its end.
pub fn strip_suffix<'a, T: Symbol>(value: &'a [T], suffix: &[T]) -> (result: Option<&'a [T]>)
    ensures
        result is Some == has_suffix(value@, suffix@),
        result is Some ==> result->Some_0@ == value@.take(value@.len() - suffix@.len()),
{
    if suffix.len() > value.len() {
        return None;
    }
    let (head, tail) = value.split_at(value.len() - suffix.len());
    assert(head@ =~= value@.take(value@.len() - suffix@.len()));
    assert(tail@ =~= value@.skip(value@.len() - suffix@.len()));
    if same_slice(tail, suffix) {
        Some(head)
    } else {
        None
    }
}

/// The part of some characters behind a prefix.
pub fn strip_text_prefix<'a>(value: &'a [char], prefix: &str) -> (result: Option<&'a [char]>)
    ensures
        result is Some == has_prefix(value@, prefix@),
        result is Some ==> result->Some_0@ == value@.skip(prefix@.len() as int),
{
    let characters = chars_of(prefix);
    strip_prefix(value, characters.as_slice())
}

/// The part of some characters before a suffix.
pub fn strip_text_suffix<'a>(value: &'a [char], suffix: &str) -> (result: Option<&'a [char]>)
    ensures
        result is Some == has_suffix(value@, suffix@),
        result is Some ==> result->Some_0@ == value@.take(value@.len() - suffix@.len()),
{
    let characters = chars_of(suffix);
    strip_suffix(value, characters.as_slice())
}

/// Whether some characters start with the given text.
pub fn starts_with(value: &[char], prefix: &str) -> (result: bool)
    ensures
        result == has_prefix(value@, prefix@),
{
    strip_text_prefix(value, prefix).is_some()
}

/// Whether some characters end with the given text.
pub fn ends_with(value: &[char], suffix: &str) -> (result: bool)
    ensures
        result == has_suffix(value@, suffix@),
{
    strip_text_suffix(value, suffix).is_some()
}

/// How many elements stand before the first one that equals `wanted`; all of them where none does.
pub open spec fn position_of<T>(value: Seq<T>, wanted: T) -> nat
    decreases value.len(),
{
    if value.len() == 0 || value[0] == wanted {
        0
    } else {
        1 + position_of(value.drop_first(), wanted)
    }
}

/// The first place of an element, characterised by what stands before and at it.
pub proof fn lemma_position<T>(value: Seq<T>, wanted: T)
    ensures
        position_of(value, wanted) <= value.len(),
        position_of(value, wanted) < value.len() ==> value[position_of(value, wanted) as int]
            == wanted,
        forall|i: int| 0 <= i < position_of(value, wanted) ==> value[i] != wanted,
        value.contains(wanted) == (position_of(value, wanted) < value.len()),
    decreases value.len(),
{
    if value.len() > 0 && value[0] != wanted {
        let rest = value.drop_first();
        lemma_position(rest, wanted);
        let at = position_of(rest, wanted);
        assert forall|i: int| 0 <= i < at + 1 implies value[i] != wanted by {
            if i > 0 {
                assert(rest[i - 1] == value[i]);
            }
        }
        if at < rest.len() {
            assert(value[at as int + 1] == rest[at as int]);
        } else if value.contains(wanted) {
            let i = choose|i: int| 0 <= i < value.len() && value[i] == wanted;
            assert(rest[i - 1] == wanted);
        }
    }
}

/// Nothing equal to `wanted` stands before `at`, and `at` is an end or such an element.
pub proof fn lemma_position_unique<T>(value: Seq<T>, wanted: T, at: int)
    requires
        0 <= at <= value.len(),
        forall|i: int| 0 <= i < at ==> value[i] != wanted,
        at < value.len() ==> value[at] == wanted,
    ensures
        position_of(value, wanted) == at,
{
    lemma_position(value, wanted);
    let found = position_of(value, wanted) as int;
    if found < at {
        assert(value[found] != wanted);
    }
}

/// How many elements stand before the first one that equals `wanted`.
pub fn position<T: Symbol>(value: &[T], wanted: T) -> (result: usize)
    ensures
        result == position_of(value@, wanted),
        result <= value@.len(),
{
    let mut index: usize = 0;
    while index < value.len() && !value[index].same(wanted)
        invariant
            index <= value@.len(),
            forall|i: int| 0 <= i < index ==> value@[i] != wanted,
        decreases value@.len() - index,
    {
        index += 1;
    }
    proof {
        lemma_position_unique(value@, wanted, index as int);
    }
    index
}

/// The parts of a sequence between the places where `separator` stands.
pub open spec fn pieces<T>(value: Seq<T>, separator: T) -> Seq<Seq<T>>
    decreases value.len(),
{
    proof {
        lemma_position(value, separator);
    }
    let at = position_of(value, separator) as int;
    if at < value.len() {
        seq![value.take(at)] + pieces(value.skip(at + 1), separator)
    } else {
        seq![value]
    }
}

/// The contents of each slice of a list.
pub open spec fn slices<T>(list: Seq<&[T]>) -> Seq<Seq<T>> {
    Seq::new(list.len(), |i: int| list[i]@)
}

/// The parts of a slice between the places where `separator` stands.
pub fn split<'a, T: Symbol>(value: &'a [T], separator: T) -> (result: Vec<&'a [T]>)
    ensures
        slices(result@) == pieces(value@, separator),
        result@.len() >= 1,
{
    let mut result: Vec<&'a [T]> = Vec::new();
    let mut rest = value;
    loop
        invariant_except_break
            slices(result@) + pieces(rest@, separator) == pieces(value@, separator),
        ensures
            slices(result@) == pieces(value@, separator),
            result@.len() >= 1,
        decreases rest@.len(),
    {
        let at: usize = position(rest, separator);
        let ghost before = result@;
        if at < rest.len() {
            let piece = slice_subrange(rest, 0, at);
            assert(piece@ =~= rest@.take(at as int));
            let tail = slice_subrange(rest, at + 1, rest.len());
            assert(tail@ =~= rest@.skip(at + 1));
            result.push(piece);
            assert(slices(result@) =~= slices(before).push(piece@));
            assert(slices(result@) + pieces(tail@, separator) =~= slices(before) + pieces(
                rest@,
                separator,
            ));
            rest = tail;
        } else {
            result.push(rest);
            assert(slices(result@) =~= slices(before) + pieces(rest@, separator));
            break;
        }
    }
    result
}

/// The parts of a list that are not empty.
pub open spec fn filled<T>(list: Seq<Seq<T>>) -> Seq<Seq<T>>
    decreases list.len(),
{
    if list.len() == 0 {
        Seq::empty()
    } else if list.last().len() > 0 {
        filled(list.drop_last()).push(list.last())
    } else {
        filled(list.drop_last())
    }
}

/// The parts of a slice between the places where `separator` stands, without the empty ones.
pub fn split_filled<'a, T: Symbol>(value: &'a [T], separator: T) -> (result: Vec<&'a [T]>)
    ensures
        slices(result@) == filled(pieces(value@, separator)),
{
    let parts = split(value, separator);
    let mut result: Vec<&'a [T]> = Vec::new();
    let mut index: usize = 0;
    while index < parts.len()
        invariant
            index <= parts@.len(),
            slices(result@) == filled(slices(parts@).take(index as int)),
        decreases parts@.len() - index,
    {
        let ghost before = result@;
        let part = parts[index];
        let ghost longer = slices(parts@).take(index + 1);
        assert(longer.drop_last() =~= slices(parts@).take(index as int));
        assert(longer.last() == part@);
        if part.len() > 0 {
            result.push(part);
            assert(slices(result@) =~= slices(before).push(part@));
        }
        index += 1;
    }
    assert(slices(parts@).take(index as int) =~= slices(parts@));
    result
}

/// The parts of a sequence between the first `count - 1` places where `separator` stands.
pub open spec fn pieces_at_most<T>(value: Seq<T>, separator: T, count: nat) -> Seq<Seq<T>>
    decreases count,
{
    let at = position_of(value, separator) as int;
    if count == 0 {
        Seq::empty()
    } else if count > 1 && at < value.len() {
        seq![value.take(at)] + pieces_at_most(value.skip(at + 1), separator, (count - 1) as nat)
    } else {
        seq![value]
    }
}

/// The parts of a slice between the first `count - 1` places where `separator` stands.
pub fn split_at_most<'a, T: Symbol>(value: &'a [T], separator: T, count: usize) -> (result: Vec<
    &'a [T],
>)
    requires
        count > 0,
    ensures
        slices(result@) == pieces_at_most(value@, separator, count as nat),
{
    let mut result: Vec<&'a [T]> = Vec::new();
    let mut rest = value;
    let mut left: usize = count;
    loop
        invariant_except_break
            0 < left <= count,
            slices(result@) + pieces_at_most(rest@, separator, left as nat) == pieces_at_most(
                value@,
                separator,
                count as nat,
            ),
        ensures
            slices(result@) == pieces_at_most(value@, separator, count as nat),
        decreases left,
    {
        let at: usize = position(rest, separator);
        let ghost before = result@;
        if left > 1 && at < rest.len() {
            let piece = slice_subrange(rest, 0, at);
            assert(piece@ =~= rest@.take(at as int));
            let tail = slice_subrange(rest, at + 1, rest.len());
            assert(tail@ =~= rest@.skip(at + 1));
            result.push(piece);
            assert(slices(result@) =~= slices(before).push(piece@));
            assert(slices(result@) + pieces_at_most(tail@, separator, (left - 1) as nat)
                =~= slices(before) + pieces_at_most(rest@, separator, left as nat));
            rest = tail;
            left -= 1;
        } else {
            result.push(rest);
            assert(slices(result@) =~= slices(before) + pieces_at_most(
                rest@,
                separator,
                left as nat,
            ));
            break;
        }
    }
    result
}

/// The parts of a slice before and behind the first place where `separator` stands.
pub fn split_once<'a, T: Symbol>(value: &'a [T], separator: T) -> (result: Option<
    (&'a [T], &'a [T]),
>)
    ensures
        result is Some == value@.contains(separator),
        result is Some ==> {
            let at = position_of(value@, separator) as int;
            &&& at < value@.len()
            &&& result->Some_0.0@ == value@.take(at)
            &&& result->Some_0.1@ == value@.skip(at + 1)
        },
{
    let at: usize = position(value, separator);
    proof {
        lemma_position(value@, separator);
    }
    if at < value.len() {
        let head = slice_subrange(value, 0, at);
        let tail = slice_subrange(value, at + 1, value.len());
        assert(head@ =~= value@.take(at as int));
        assert(tail@ =~= value@.skip(at + 1));
        Some((head, tail))
    } else {
        None
    }
}

/// The last place where `wanted` stands, or -1.
pub open spec fn last_position_of<T>(value: Seq<T>, wanted: T) -> int
    decreases value.len(),
{
    if value.len() == 0 {
        -1
    } else if value.last() == wanted {
        value.len() - 1
    } else {
        last_position_of(value.drop_last(), wanted)
    }
}

/// The last place of an element, characterised by what stands at and behind it.
pub proof fn lemma_last_position<T>(value: Seq<T>, wanted: T)
    ensures
        -1 <= last_position_of(value, wanted) < value.len(),
        last_position_of(value, wanted) >= 0 ==> value[last_position_of(value, wanted)] == wanted,
        forall|i: int| last_position_of(value, wanted) < i < value.len() ==> value[i] != wanted,
    decreases value.len(),
{
    if value.len() > 0 && value.last() != wanted {
        let rest = value.drop_last();
        lemma_last_position(rest, wanted);
        assert forall|i: int| last_position_of(value, wanted) < i < value.len() implies value[i]
            != wanted by {
            if i < rest.len() {
                assert(rest[i] == value[i]);
            }
        }
    }
}

/// The place behind the last element that equals `wanted`, or the start where none does.
pub fn last_position<T: Symbol>(value: &[T], wanted: T) -> (result: usize)
    ensures
        result == last_position_of(value@, wanted) + 1,
        result <= value@.len(),
{
    let mut end: usize = value.len();
    assert(value@.take(end as int) =~= value@);
    while end > 0 && !value[end - 1].same(wanted)
        invariant
            end <= value@.len(),
            last_position_of(value@, wanted) == last_position_of(value@.take(end as int), wanted),
        decreases end,
    {
        assert(value@.take(end as int).last() == value@[end - 1]);
        assert(value@.take(end as int).drop_last() =~= value@.take(end - 1));
        end -= 1;
    }
    if end > 0 {
        assert(value@.take(end as int).last() == value@[end - 1]);
    }
    end
}

/// The parts of a slice before and behind the last place where `separator` stands.
pub fn rsplit_once<'a, T: Symbol>(value: &'a [T], separator: T) -> (result: Option<
    (&'a [T], &'a [T]),
>)
    ensures
        result is Some == (last_position_of(value@, separator) >= 0),
        result is Some ==> {
            let at = last_position_of(value@, separator);
            &&& at < value@.len()
            &&& result->Some_0.0@ == value@.take(at)
            &&& result->Some_0.1@ == value@.skip(at + 1)
        },
{
    let end: usize = last_position(value, separator);
    if end == 0 {
        return None;
    }
    let head = slice_subrange(value, 0, end - 1);
    let tail = slice_subrange(value, end, value.len());
    assert(head@ =~= value@.take(end - 1));
    assert(tail@ =~= value@.skip(end as int));
    Some((head, tail))
}

/// Whether a character has the Unicode property `White_Space`.
pub open spec fn is_white(character: char) -> bool {
    ||| '\u{9}' <= character <= '\u{d}'
    ||| character == '\u{20}'
    ||| character == '\u{85}'
    ||| character == '\u{a0}'
    ||| character == '\u{1680}'
    ||| '\u{2000}' <= character <= '\u{200a}'
    ||| character == '\u{2028}'
    ||| character == '\u{2029}'
    ||| character == '\u{202f}'
    ||| character == '\u{205f}'
    ||| character == '\u{3000}'
}

/// Whether a character has the Unicode property `White_Space`.
pub fn is_whitespace(character: char) -> (result: bool)
    ensures
        result == is_white(character),
{
    ('\u{9}' <= character && character <= '\u{d}') || character == '\u{20}' || character
        == '\u{85}' || character == '\u{a0}' || character == '\u{1680}' || ('\u{2000}' <= character
        && character <= '\u{200a}') || character == '\u{2028}' || character == '\u{2029}'
        || character == '\u{202f}' || character == '\u{205f}' || character == '\u{3000}'
}

/// Whether a character is a control character.
pub open spec fn is_control_character(character: char) -> bool {
    character <= '\u{1f}' || '\u{7f}' <= character <= '\u{9f}'
}

/// Whether a character is a control character.
pub fn is_control(character: char) -> (result: bool)
    ensures
        result == is_control_character(character),
{
    character <= '\u{1f}' || ('\u{7f}' <= character && character <= '\u{9f}')
}

/// Whether some characters are all white space.
pub open spec fn is_blank(value: Seq<char>) -> bool {
    forall|i: int| 0 <= i < value.len() ==> is_white(#[trigger] value[i])
}

/// A sequence without the white space at its start.
pub open spec fn trimmed_start(value: Seq<char>) -> Seq<char>
    decreases value.len(),
{
    if value.len() > 0 && is_white(value[0]) {
        trimmed_start(value.drop_first())
    } else {
        value
    }
}

/// A sequence without the white space at its end.
pub open spec fn trimmed_end(value: Seq<char>) -> Seq<char>
    decreases value.len(),
{
    if value.len() > 0 && is_white(value.last()) {
        trimmed_end(value.drop_last())
    } else {
        value
    }
}

/// A sequence without the white space at its start and at its end.
pub open spec fn trimmed(value: Seq<char>) -> Seq<char> {
    trimmed_end(trimmed_start(value))
}

/// Characters without the white space at their start.
pub fn trim_start<'a>(value: &'a [char]) -> (result: &'a [char])
    ensures
        result@ == trimmed_start(value@),
        result@.len() <= value@.len(),
{
    let mut start: usize = 0;
    assert(value@.skip(0) =~= value@);
    while start < value.len() && is_whitespace(value[start])
        invariant
            start <= value@.len(),
            trimmed_start(value@) == trimmed_start(value@.skip(start as int)),
        decreases value@.len() - start,
    {
        assert(value@.skip(start as int)[0] == value@[start as int]);
        assert(value@.skip(start as int).drop_first() =~= value@.skip(start + 1));
        start += 1;
    }
    if start < value.len() {
        assert(value@.skip(start as int)[0] == value@[start as int]);
    }
    let result = slice_subrange(value, start, value.len());
    assert(result@ =~= value@.skip(start as int));
    result
}

/// Characters without the white space at their end.
pub fn trim_end<'a>(value: &'a [char]) -> (result: &'a [char])
    ensures
        result@ == trimmed_end(value@),
        result@.len() <= value@.len(),
{
    let mut end: usize = value.len();
    assert(value@.take(end as int) =~= value@);
    while end > 0 && is_whitespace(value[end - 1])
        invariant
            end <= value@.len(),
            trimmed_end(value@) == trimmed_end(value@.take(end as int)),
        decreases end,
    {
        assert(value@.take(end as int).last() == value@[end - 1]);
        assert(value@.take(end as int).drop_last() =~= value@.take(end - 1));
        end -= 1;
    }
    if end > 0 {
        assert(value@.take(end as int).last() == value@[end - 1]);
    }
    let result = slice_subrange(value, 0, end);
    assert(result@ =~= value@.take(end as int));
    result
}

/// Characters without the white space at their start and at their end.
pub fn trim<'a>(value: &'a [char]) -> (result: &'a [char])
    ensures
        result@ == trimmed(value@),
        result@.len() <= value@.len(),
{
    trim_end(trim_start(value))
}

/// A copy of a string without the white space at its start and at its end.
pub fn trimmed_text(value: &str) -> (result: String)
    ensures
        result@ == trimmed(value@),
{
    let characters = chars_of(value);
    string_of(trim(characters.as_slice()))
}

/// A character with an upper-case ASCII letter made lower case.
pub open spec fn lower(character: char) -> char {
    if 'A' <= character <= 'Z' {
        (character as u32 + 32) as char
    } else {
        character
    }
}

/// Characters with the upper-case ASCII letters made lower case.
pub open spec fn lowered(value: Seq<char>) -> Seq<char> {
    Seq::new(value.len(), |i: int| lower(value[i]))
}

/// Characters with the upper-case ASCII letters made lower case.
pub fn to_lowercase(value: &[char]) -> (result: Vec<char>)
    ensures
        result@ == lowered(value@),
{
    let mut result: Vec<char> = Vec::new();
    let mut index: usize = 0;
    while index < value.len()
        invariant
            index <= value@.len(),
            result@ == lowered(value@).take(index as int),
        decreases value@.len() - index,
    {
        let character = value[index];
        let lowered_character = if 'A' <= character && character <= 'Z' {
            ((character as u8) + 32) as char
        } else {
            character
        };
        result.push(lowered_character);
        index += 1;
    }
    assert(lowered(value@).take(index as int) =~= lowered(value@));
    result
}

/// Whether some characters equal a lower-case text, the case of ASCII letters aside.
pub fn is_text_ignoring_case(value: &[char], text: &str) -> (result: bool)
    ensures
        result == (lowered(value@) == lowered(text@)),
{
    let left = to_lowercase(value);
    let expected = chars_of(text);
    let right = to_lowercase(expected.as_slice());
    same_slice(left.as_slice(), right.as_slice())
}

/// How many characters at the start are not white space.
pub open spec fn word_len(value: Seq<char>) -> nat
    decreases value.len(),
{
    if value.len() == 0 || is_white(value[0]) {
        0
    } else {
        1 + word_len(value.drop_first())
    }
}

/// The parts of some characters that white space separates.
pub open spec fn words(value: Seq<char>) -> Seq<Seq<char>>
    decreases value.len(),
{
    proof {
        lemma_trimmed_start(value);
        lemma_word_len(trimmed_start(value));
    }
    let rest = trimmed_start(value);
    if rest.len() == 0 {
        Seq::empty()
    } else {
        let end = word_len(rest) as int;
        seq![rest.take(end)] + words(rest.skip(end))
    }
}

/// What is left at the start after trimming is no white space, and nothing was added.
pub proof fn lemma_trimmed_start(value: Seq<char>)
    ensures
        trimmed_start(value).len() <= value.len(),
        trimmed_start(value).len() > 0 ==> !is_white(trimmed_start(value)[0]),
        trimmed_start(value) == value.skip(value.len() - trimmed_start(value).len()),
        forall|i: int|
            0 <= i < value.len() - trimmed_start(value).len() ==> is_white(#[trigger] value[i]),
    decreases value.len(),
{
    if value.len() > 0 && is_white(value[0]) {
        let rest = value.drop_first();
        lemma_trimmed_start(rest);
        let tail = trimmed_start(rest);
        assert(rest.skip(rest.len() - tail.len()) =~= value.skip(value.len() - tail.len()));
        assert forall|i: int| 0 <= i < value.len() - tail.len() implies is_white(
            #[trigger] value[i],
        ) by {
            if i > 0 {
                assert(rest[i - 1] == value[i]);
            }
        }
    } else {
        assert(value.skip(0) =~= value);
    }
}

/// What is left at the end after trimming is no white space, and nothing was added.
pub proof fn lemma_trimmed_end(value: Seq<char>)
    ensures
        trimmed_end(value).len() <= value.len(),
        trimmed_end(value).len() > 0 ==> !is_white(trimmed_end(value).last()),
        trimmed_end(value) == value.take(trimmed_end(value).len() as int),
        forall|i: int|
            trimmed_end(value).len() <= i < value.len() ==> is_white(#[trigger] value[i]),
    decreases value.len(),
{
    if value.len() > 0 && is_white(value.last()) {
        let rest = value.drop_last();
        lemma_trimmed_end(rest);
        let head = trimmed_end(rest);
        assert(rest.take(head.len() as int) =~= value.take(head.len() as int));
        assert forall|i: int| head.len() <= i < value.len() implies is_white(
            #[trigger] value[i],
        ) by {
            if i < rest.len() {
                assert(rest[i] == value[i]);
            }
        }
    } else {
        assert(value.take(value.len() as int) =~= value);
    }
}

/// Whether a sequence holds nothing but white space.
pub open spec fn all_white(value: Seq<char>) -> bool {
    forall|i: int| 0 <= i < value.len() ==> is_white(#[trigger] value[i])
}

/// White space in front is trimmed.
pub proof fn lemma_white_in_front(space: Seq<char>, value: Seq<char>)
    requires
        all_white(space),
    ensures
        trimmed_start(space + value) == trimmed_start(value),
        trimmed(space + value) == trimmed(value),
    decreases space.len(),
{
    if space.len() == 0 {
        assert(space + value =~= value);
    } else {
        assert((space + value)[0] == space[0]);
        let rest = space.drop_first();
        assert forall|i: int| 0 <= i < rest.len() implies is_white(#[trigger] rest[i]) by {
            assert(rest[i] == space[i + 1]);
        }
        assert((space + value).drop_first() =~= rest + value);
        lemma_white_in_front(rest, value);
    }
}

/// White space at the end is trimmed.
proof fn lemma_white_at_end(value: Seq<char>, space: Seq<char>)
    requires
        all_white(space),
    ensures
        trimmed_end(value + space) == trimmed_end(value),
    decreases space.len(),
{
    if space.len() == 0 {
        assert(value + space =~= value);
    } else {
        assert((value + space).last() == space.last());
        let rest = space.drop_last();
        assert forall|i: int| 0 <= i < rest.len() implies is_white(#[trigger] rest[i]) by {
            assert(rest[i] == space[i]);
        }
        assert((value + space).drop_last() =~= value + rest);
        lemma_white_at_end(value, rest);
    }
}

/// Trimming the start of what is not blank leaves what follows.
proof fn lemma_start_of_both(value: Seq<char>, more: Seq<char>)
    requires
        trimmed_start(value).len() > 0,
    ensures
        trimmed_start(value + more) == trimmed_start(value) + more,
    decreases value.len(),
{
    assert((value + more)[0] == value[0]);
    if is_white(value[0]) {
        assert((value + more).drop_first() =~= value.drop_first() + more);
        lemma_start_of_both(value.drop_first(), more);
    }
}

/// White space behind what is not blank is trimmed.
pub proof fn lemma_white_behind(value: Seq<char>, space: Seq<char>)
    requires
        all_white(space),
        trimmed(value).len() > 0,
    ensures
        trimmed(value + space) == trimmed(value),
{
    lemma_trimmed_end(trimmed_start(value));
    lemma_start_of_both(value, space);
    lemma_white_at_end(trimmed_start(value), space);
}

/// What starts and ends without white space is not trimmed.
pub proof fn lemma_nothing_to_trim(value: Seq<char>)
    requires
        value.len() > 0,
        !is_white(value[0]),
        !is_white(value.last()),
    ensures
        trimmed(value) == value,
{
}

/// A sequence is its trimmed part with white space around it.
pub proof fn lemma_around_trimmed(value: Seq<char>) -> (around: (Seq<char>, Seq<char>))
    ensures
        all_white(around.0),
        all_white(around.1),
        value == around.0 + (trimmed(value) + around.1),
        trimmed(value).len() > 0 ==> !is_white(trimmed(value)[0]) && !is_white(
            trimmed(value).last(),
        ),
{
    lemma_trimmed_start(value);
    let rest = trimmed_start(value);
    lemma_trimmed_end(rest);
    let core = trimmed_end(rest);
    let before = value.take(value.len() - rest.len());
    let behind = rest.skip(core.len() as int);
    assert forall|i: int| 0 <= i < before.len() implies is_white(#[trigger] before[i]) by {
        assert(before[i] == value[i]);
    }
    assert forall|i: int| 0 <= i < behind.len() implies is_white(#[trigger] behind[i]) by {
        assert(behind[i] == rest[core.len() + i]);
    }
    assert(rest =~= core + behind);
    assert(value =~= before + rest);
    if core.len() > 0 {
        assert(core[0] == rest[0]);
    }
    (before, behind)
}

/// A word starts where no white space stands and ends before the first white space.
pub proof fn lemma_word_len(value: Seq<char>)
    ensures
        word_len(value) <= value.len(),
        value.len() > 0 && !is_white(value[0]) ==> word_len(value) > 0,
        forall|i: int| 0 <= i < word_len(value) ==> !is_white(#[trigger] value[i]),
        word_len(value) < value.len() ==> is_white(value[word_len(value) as int]),
    decreases value.len(),
{
    if value.len() > 0 && !is_white(value[0]) {
        let rest = value.drop_first();
        lemma_word_len(rest);
        assert forall|i: int| 0 <= i < word_len(value) implies !is_white(#[trigger] value[i]) by {
            if i > 0 {
                assert(rest[i - 1] == value[i]);
            }
        }
    }
}

/// The parts of some characters that white space separates.
pub fn split_whitespace<'a>(value: &'a [char]) -> (result: Vec<&'a [char]>)
    ensures
        slices(result@) == words(value@),
{
    let mut result: Vec<&'a [char]> = Vec::new();
    let mut rest = value;
    loop
        invariant
            slices(result@) + words(rest@) == words(value@),
        ensures
            slices(result@) == words(value@),
        decreases rest@.len(),
    {
        let start = trim_start(rest);
        if start.len() == 0 {
            assert(slices(result@) + words(rest@) =~= slices(result@));
            break;
        }
        let mut end: usize = 0;
        assert(start@.skip(0) =~= start@);
        while end < start.len() && !is_whitespace(start[end])
            invariant
                end <= start@.len(),
                word_len(start@) == end + word_len(start@.skip(end as int)),
            decreases start@.len() - end,
        {
            assert(start@.skip(end as int)[0] == start@[end as int]);
            assert(start@.skip(end as int).drop_first() =~= start@.skip(end + 1));
            end += 1;
        }
        if end < start.len() {
            assert(start@.skip(end as int)[0] == start@[end as int]);
        }
        assert(word_len(start@) == end);
        proof {
            lemma_trimmed_start(rest@);
            lemma_word_len(start@);
        }
        let word = slice_subrange(start, 0, end);
        let tail = slice_subrange(start, end, start.len());
        assert(word@ =~= start@.take(end as int));
        assert(tail@ =~= start@.skip(end as int));
        let ghost before = result@;
        result.push(word);
        assert(slices(result@) =~= slices(before).push(word@));
        assert(slices(result@) + words(tail@) =~= slices(before) + words(rest@));
        rest = tail;
    }
    result
}

/// A line without a carriage return at its end.
pub open spec fn without_return(line: Seq<char>) -> Seq<char> {
    if line.len() > 0 && line.last() == '\r' {
        line.drop_last()
    } else {
        line
    }
}

/// The lines of a text. A line ends with a line feed or with a carriage return and a line feed; the
/// last one may lack its end, and a text that ends with a line feed has no further, empty line.
pub open spec fn text_lines(value: Seq<char>) -> Seq<Seq<char>>
    decreases value.len(),
{
    proof {
        lemma_position(value, '\n');
    }
    let at = position_of(value, '\n') as int;
    if value.len() == 0 {
        Seq::empty()
    } else if at < value.len() {
        seq![without_return(value.take(at))] + text_lines(value.skip(at + 1))
    } else {
        seq![value]
    }
}

/// The lines of a text.
pub fn lines<'a>(value: &'a [char]) -> (result: Vec<&'a [char]>)
    ensures
        slices(result@) == text_lines(value@),
{
    let mut result: Vec<&'a [char]> = Vec::new();
    let mut rest = value;
    while rest.len() > 0
        invariant
            slices(result@) + text_lines(rest@) == text_lines(value@),
        decreases rest@.len(),
    {
        let at: usize = position(rest, '\n');
        let ghost before = result@;
        if at < rest.len() {
            let full = slice_subrange(rest, 0, at);
            assert(full@ =~= rest@.take(at as int));
            let line = if at > 0 && full[at - 1] == '\r' {
                let shorter = slice_subrange(full, 0, at - 1);
                assert(shorter@ =~= full@.drop_last());
                shorter
            } else {
                full
            };
            let tail = slice_subrange(rest, at + 1, rest.len());
            assert(tail@ =~= rest@.skip(at + 1));
            result.push(line);
            assert(slices(result@) =~= slices(before).push(line@));
            assert(slices(result@) + text_lines(tail@) =~= slices(before) + text_lines(rest@));
            rest = tail;
        } else {
            let tail = slice_subrange(rest, rest.len(), rest.len());
            assert(tail@ =~= Seq::<char>::empty());
            result.push(rest);
            assert(slices(result@) =~= slices(before).push(rest@));
            assert(slices(result@) + text_lines(tail@) =~= slices(before) + text_lines(rest@));
            rest = tail;
        }
    }
    assert(slices(result@) + text_lines(rest@) =~= slices(result@));
    result
}

/// A sequence with `space` in the place of all ASCII white space.
pub open spec fn spaced<T: Symbol>(value: Seq<T>, space: T) -> Seq<T> {
    Seq::new(
        value.len(),
        |i: int|
            if ascii_gap(value[i].rank()) {
                space
            } else {
                value[i]
            },
    )
}

/// The parts of a sequence that ASCII white space separates.
pub open spec fn ascii_words<T: Symbol>(value: Seq<T>, space: T) -> Seq<Seq<T>> {
    filled(pieces(spaced(value, space), space))
}

/// A sequence with `space` in the place of all ASCII white space.
pub fn space_out<T: Symbol>(value: &[T], space: T) -> (result: Vec<T>)
    ensures
        result@ == spaced(value@, space),
{
    let mut result: Vec<T> = Vec::new();
    let mut index: usize = 0;
    while index < value.len()
        invariant
            index <= value@.len(),
            result@ == spaced(value@, space).take(index as int),
        decreases value@.len() - index,
    {
        if value[index].is_gap() {
            result.push(space);
        } else {
            result.push(value[index]);
        }
        index += 1;
    }
    assert(spaced(value@, space).take(index as int) =~= spaced(value@, space));
    result
}

/// Whether `part` stands somewhere in `value`.
pub open spec fn contains_text(value: Seq<char>, part: Seq<char>) -> bool {
    exists|i: int| 0 <= i <= value.len() && has_prefix(#[trigger] value.skip(i), part)
}

/// Whether `part` stands somewhere in `value`.
pub fn holds_part(value: &str, part: &str) -> (result: bool)
    ensures
        result == contains_text(value@, part@),
{
    let characters = chars_of(value);
    let wanted = chars_of(part);
    let mut index: usize = 0;
    while index <= characters.len()
        invariant
            index <= characters@.len() + 1,
            characters@ == value@,
            wanted@ == part@,
            forall|i: int| 0 <= i < index ==> !has_prefix(#[trigger] value@.skip(i), part@),
        decreases characters@.len() + 1 - index,
    {
        let rest = slice_subrange(characters.as_slice(), index, characters.len());
        assert(rest@ =~= value@.skip(index as int));
        if strip_prefix(rest, wanted.as_slice()).is_some() {
            return true;
        }
        if index == characters.len() {
            return false;
        }
        index += 1;
    }
    false
}

}
