//! Ordered lists without repetition: of texts, and of paths.
use crate::text;
use crate::text::Symbol;
use vstd::prelude::*;
use vstd::slice::slice_subrange;

verus! {

/// Whether one sequence stands before another: at the first place where they differ it has the lower
/// element, or it ends there.
pub open spec fn precedes<T: Symbol>(left: Seq<T>, right: Seq<T>) -> bool
    decreases left.len(),
{
    if right.len() == 0 {
        false
    } else if left.len() == 0 {
        true
    } else if left[0] != right[0] {
        left[0].rank() < right[0].rank()
    } else {
        precedes(left.drop_first(), right.drop_first())
    }
}

/// Whether one sequence stands before another.
pub fn is_before<T: Symbol>(left: &[T], right: &[T]) -> (result: bool)
    ensures
        result == precedes(left@, right@),
{
    let mut index: usize = 0;
    assert(left@.skip(0) =~= left@);
    assert(right@.skip(0) =~= right@);
    while index < left.len() && index < right.len()
        invariant
            index <= left@.len(),
            index <= right@.len(),
            precedes(left@, right@) == precedes(
                left@.skip(index as int),
                right@.skip(index as int),
            ),
        decreases left@.len() - index,
    {
        assert(left@.skip(index as int)[0] == left@[index as int]);
        assert(right@.skip(index as int)[0] == right@[index as int]);
        if !left[index].same(right[index]) {
            return left[index].below(right[index]);
        }
        assert(left@.skip(index as int).drop_first() =~= left@.skip(index + 1));
        assert(right@.skip(index as int).drop_first() =~= right@.skip(index + 1));
        index += 1;
    }
    index < right.len()
}

/// Two sequences are the same, or exactly one of them stands before the other.
pub proof fn order_is_total<T: Symbol>(left: Seq<T>, right: Seq<T>)
    ensures
        left == right || precedes(left, right) || precedes(right, left),
        !(precedes(left, right) && precedes(right, left)),
        !precedes(left, left),
    decreases left.len(),
{
    if left.len() > 0 {
        order_is_total(left.drop_first(), left.drop_first());
    }
    if left.len() == 0 || right.len() == 0 {
        if left.len() == 0 && right.len() == 0 {
            assert(left =~= right);
        }
    } else if left[0] != right[0] {
        left[0].rank_is_injective(right[0]);
    } else {
        order_is_total(left.drop_first(), right.drop_first());
        if left.drop_first() == right.drop_first() {
            assert(left =~= seq![left[0]] + left.drop_first());
            assert(right =~= seq![right[0]] + right.drop_first());
        }
    }
}

/// What stands before a sequence stands before those behind it.
pub proof fn order_is_transitive<T: Symbol>(first: Seq<T>, second: Seq<T>, third: Seq<T>)
    requires
        precedes(first, second),
        precedes(second, third),
    ensures
        precedes(first, third),
    decreases first.len(),
{
    if first.len() > 0 && first[0] == second[0] && second[0] == third[0] {
        order_is_transitive(first.drop_first(), second.drop_first(), third.drop_first());
    }
}

/// A list in ascending order, in which nothing occurs twice.
pub open spec fn ascending<T: Symbol>(list: Seq<Seq<T>>) -> bool {
    forall|i: int, j: int|
        0 <= i < j < list.len() ==> precedes(#[trigger] list[i], #[trigger] list[j])
}

/// An ordered list with one more item, unless the list holds it.
pub open spec fn inserted<T: Symbol>(list: Seq<Seq<T>>, item: Seq<T>) -> Seq<Seq<T>>
    decreases list.len(),
{
    if list.len() == 0 {
        seq![item]
    } else if list[0] == item {
        list
    } else if precedes(item, list[0]) {
        seq![item] + list
    } else {
        seq![list[0]] + inserted(list.skip(1), item)
    }
}

/// An ordered list with all the items of another list.
pub open spec fn inserted_all<T: Symbol>(list: Seq<Seq<T>>, items: Seq<Seq<T>>) -> Seq<Seq<T>>
    decreases items.len(),
{
    if items.len() == 0 {
        list
    } else {
        inserted(inserted_all(list, items.drop_last()), items.last())
    }
}

/// Items can be inserted in two goes.
pub proof fn lemma_inserted_all<T: Symbol>(
    list: Seq<Seq<T>>,
    first: Seq<Seq<T>>,
    second: Seq<Seq<T>>,
)
    ensures
        inserted_all(list, first + second) == inserted_all(inserted_all(list, first), second),
    decreases second.len(),
{
    if second.len() == 0 {
        assert(first + second =~= first);
    } else {
        lemma_inserted_all(list, first, second.drop_last());
        assert((first + second).drop_last() =~= first + second.drop_last());
    }
}

/// Inserting keeps a list in order, and adds the item and nothing else.
pub proof fn inserting_keeps_order<T: Symbol>(list: Seq<Seq<T>>, item: Seq<T>)
    requires
        ascending(list),
    ensures
        ascending(inserted(list, item)),
        forall|other: Seq<T>| #[trigger]
            inserted(list, item).contains(other) == (list.contains(other) || other == item),
    decreases list.len(),
{
    let result = inserted(list, item);
    if list.len() == 0 {
        assert(result[0] == item);
        assert forall|other: Seq<T>|
            #[trigger] result.contains(other) == (list.contains(other) || other
            == item) by {
            if other == item {
                assert(result.contains(result[0]));
            }
        }
    } else if list[0] == item {
        assert(list.contains(list[0]));
    } else if precedes(item, list[0]) {
        assert forall|i: int, j: int| 0 <= i < j < result.len() implies precedes(
            #[trigger] result[i],
            #[trigger] result[j],
        ) by {
            if i == 0 {
                if j > 1 {
                    assert(precedes(list[0], list[j - 1]));
                    order_is_transitive(item, list[0], list[j - 1]);
                }
            } else {
                assert(precedes(list[i - 1], list[j - 1]));
            }
        }
        assert forall|other: Seq<T>|
            #[trigger] result.contains(other) == (list.contains(other) || other
            == item) by {
            if other == item {
                assert(result.contains(result[0]));
            }
            if list.contains(other) {
                let k = choose|k: int| 0 <= k < list.len() && list[k] == other;
                assert(result[k + 1] == other);
            }
        }
    } else {
        let rest = list.skip(1);
        assert forall|i: int, j: int| 0 <= i < j < rest.len() implies precedes(
            #[trigger] rest[i],
            #[trigger] rest[j],
        ) by {
            assert(precedes(list[i + 1], list[j + 1]));
        }
        inserting_keeps_order(rest, item);
        let tail = inserted(rest, item);
        order_is_total(item, list[0]);
        assert forall|i: int, j: int| 0 <= i < j < result.len() implies precedes(
            #[trigger] result[i],
            #[trigger] result[j],
        ) by {
            if i == 0 {
                assert(tail.contains(tail[j - 1]));
                if tail[j - 1] != item {
                    assert(rest.contains(tail[j - 1]));
                    let k = choose|k: int| 0 <= k < rest.len() && rest[k] == tail[j - 1];
                    assert(precedes(list[0], list[k + 1]));
                }
            } else {
                assert(precedes(tail[i - 1], tail[j - 1]));
            }
        }
        assert forall|other: Seq<T>|
            #[trigger] result.contains(other) == (list.contains(other) || other
            == item) by {
            if result.contains(other) {
                let k = choose|k: int| 0 <= k < result.len() && result[k] == other;
                if k == 0 {
                    assert(list[0] == other);
                } else {
                    assert(tail[k - 1] == other);
                    assert(tail.contains(other));
                    if other != item {
                        let m = choose|m: int| 0 <= m < rest.len() && rest[m] == other;
                        assert(list[m + 1] == other);
                    }
                }
            }
            if list.contains(other) || other == item {
                if other == list[0] {
                    assert(result[0] == other);
                } else {
                    if other != item {
                        let k = choose|k: int| 0 <= k < list.len() && list[k] == other;
                        assert(rest[k - 1] == other);
                    }
                    assert(tail.contains(other));
                    let m = choose|m: int| 0 <= m < tail.len() && tail[m] == other;
                    assert(result[m + 1] == other);
                }
            }
        }
    }
}

/// What stands before the place of an item stays as it is.
proof fn lemma_inserted_behind<T: Symbol>(list: Seq<Seq<T>>, item: Seq<T>, count: int)
    requires
        0 <= count <= list.len(),
        forall|i: int| 0 <= i < count ==> list[i] != item && !precedes(item, list[i]),
    ensures
        inserted(list, item) == list.take(count) + inserted(list.skip(count), item),
    decreases count,
{
    if count == 0 {
        assert(list.skip(0) =~= list);
        assert(list.take(0) + inserted(list, item) =~= inserted(list, item));
    } else {
        let rest = list.skip(1);
        assert forall|i: int| 0 <= i < count - 1 implies rest[i] != item && !precedes(
            item,
            rest[i],
        ) by {
            assert(rest[i] == list[i + 1]);
        }
        assert(list[0] != item);
        lemma_inserted_behind(rest, item, count - 1);
        assert(rest.skip(count - 1) =~= list.skip(count));
        assert(inserted(list, item) =~= list.take(count) + inserted(list.skip(count), item));
    }
}

/// Inserts a text into an ordered list.
pub fn insert_text(list: &mut Vec<String>, item: String)
    ensures
        final(list).deep_view() == inserted(old(list).deep_view(), item@),
{
    let wanted = text::chars_of(item.as_str());
    let ghost start = list.deep_view();
    let mut index: usize = 0;
    while index < list.len()
        invariant
            index <= list@.len(),
            list.deep_view() == start,
            start == old(list).deep_view(),
            wanted@ == item@,
            forall|i: int| 0 <= i < index ==> start[i] != item@ && !precedes(item@, start[i]),
        decreases list@.len() - index,
    {
        let current = text::chars_of(list[index].as_str());
        assert(start[index as int] == current@);
        if text::same_slice(current.as_slice(), wanted.as_slice()) {
            proof {
                lemma_inserted_behind(start, item@, index as int);
                assert(start.skip(index as int)[0] == item@);
                assert(start.take(index as int) + start.skip(index as int) =~= start);
            }
            return;
        }
        if is_before(wanted.as_slice(), current.as_slice()) {
            proof {
                lemma_inserted_behind(start, item@, index as int);
                assert(start.skip(index as int)[0] == current@);
            }
            list.insert(index, item);
            assert(list.deep_view() =~= start.take(index as int) + (seq![item@] + start.skip(
                index as int,
            )));
            return;
        }
        index += 1;
    }
    proof {
        lemma_inserted_behind(start, item@, index as int);
        assert(start.take(index as int) =~= start);
        assert(start.skip(index as int) =~= Seq::<Seq<char>>::empty());
    }
    list.push(item);
    assert(list.deep_view() =~= start + seq![item@]);
}

/// Inserts texts into an ordered list.
pub fn insert_texts(list: &mut Vec<String>, items: &Vec<String>)
    ensures
        final(list).deep_view() == inserted_all(old(list).deep_view(), items.deep_view()),
{
    let ghost start = list.deep_view();
    let ghost all = items.deep_view();
    let mut index: usize = 0;
    assert(all.take(0) =~= Seq::<Seq<char>>::empty());
    while index < items.len()
        invariant
            index <= items@.len(),
            start == old(list).deep_view(),
            all == items.deep_view(),
            list.deep_view() == inserted_all(start, all.take(index as int)),
        decreases items@.len() - index,
    {
        assert(all.take(index + 1).drop_last() =~= all.take(index as int));
        assert(all.take(index + 1).last() == items@[index as int]@);
        insert_text(list, items[index].clone());
        index += 1;
    }
    assert(all.take(index as int) =~= all);
}

/// One part of a path: the kind of part, in the order in which kinds stand, and its name.
pub type PathPart = (u8, Seq<u8>);

/// The parts of a path that its pieces stand for: `.` and empty pieces stand for none.
pub open spec fn parts_of(pieces: Seq<Seq<u8>>) -> Seq<PathPart>
    decreases pieces.len(),
{
    if pieces.len() == 0 {
        Seq::empty()
    } else {
        let piece = pieces.last();
        let rest = parts_of(pieces.drop_last());
        if piece.len() == 0 || piece == seq![46u8] {
            rest
        } else if piece == seq![46u8, 46u8] {
            rest.push((2u8, Seq::empty()))
        } else {
            rest.push((3u8, piece))
        }
    }
}

/// The parts of a path. The root, and a `.` at the start, are parts of their own.
pub open spec fn path_parts(path: Seq<u8>) -> Seq<PathPart> {
    let pieces = text::pieces(path, 47u8);
    let first = if path.len() > 0 && path[0] == 47 {
        seq![(0u8, Seq::<u8>::empty())]
    } else if pieces[0] == seq![46u8] {
        seq![(1u8, Seq::<u8>::empty())]
    } else {
        Seq::empty()
    };
    first + parts_of(pieces)
}

/// Whether one list of parts stands before another.
pub open spec fn parts_precede(left: Seq<PathPart>, right: Seq<PathPart>) -> bool
    decreases left.len(),
{
    if right.len() == 0 {
        false
    } else if left.len() == 0 {
        true
    } else if left[0] != right[0] {
        left[0].0 < right[0].0 || (left[0].0 == right[0].0 && precedes(left[0].1, right[0].1))
    } else {
        parts_precede(left.drop_first(), right.drop_first())
    }
}

/// The order of parts is that of a total order: of two lists of parts exactly one case holds.
pub proof fn order_of_parts_is_total(left: Seq<PathPart>, right: Seq<PathPart>)
    ensures
        left == right || parts_precede(left, right) || parts_precede(right, left),
        !(parts_precede(left, right) && parts_precede(right, left)),
        !parts_precede(left, left),
    decreases left.len(),
{
    if left.len() > 0 {
        order_of_parts_is_total(left.drop_first(), left.drop_first());
    }
    if left.len() == 0 || right.len() == 0 {
        if left.len() == 0 && right.len() == 0 {
            assert(left =~= right);
        }
    } else if left[0] != right[0] {
        order_is_total(left[0].1, right[0].1);
    } else {
        order_of_parts_is_total(left.drop_first(), right.drop_first());
        if left.drop_first() == right.drop_first() {
            assert(left =~= seq![left[0]] + left.drop_first());
            assert(right =~= seq![right[0]] + right.drop_first());
        }
    }
}

/// Parts that stand before others stand before those behind them.
pub proof fn order_of_parts_is_transitive(
    first: Seq<PathPart>,
    second: Seq<PathPart>,
    third: Seq<PathPart>,
)
    requires
        parts_precede(first, second),
        parts_precede(second, third),
    ensures
        parts_precede(first, third),
    decreases first.len(),
{
    if first.len() > 0 {
        if first[0] == second[0] && second[0] == third[0] {
            order_of_parts_is_transitive(
                first.drop_first(),
                second.drop_first(),
                third.drop_first(),
            );
        } else if first[0] != second[0] && second[0] != third[0] && first[0].0 == second[0].0
            && second[0].0 == third[0].0 {
            order_is_transitive(first[0].1, second[0].1, third[0].1);
            order_is_total(first[0].1, third[0].1);
        }
    }
}

/// One part of a path.
struct Part<'a> {
    kind: u8,
    name: &'a [u8],
}

/// The values of a list of parts.
spec fn part_views(list: Seq<Part>) -> Seq<PathPart> {
    Seq::new(list.len(), |i: int| (list[i].kind, list[i].name@))
}

/// Splits a path into its parts.
fn split_path<'a>(path: &'a [u8]) -> (result: Vec<Part<'a>>)
    ensures
        part_views(result@) == path_parts(path@),
{
    let pieces = text::split(path, 47);
    let ghost all = text::slices(pieces@);
    let empty = slice_subrange(path, 0, 0);
    assert(empty@ =~= Seq::<u8>::empty());
    let mut result: Vec<Part<'a>> = Vec::new();
    let ghost first: Seq<PathPart> = Seq::empty();
    assert(all[0] == pieces@[0]@);
    if path.len() > 0 && path[0] == 47 {
        result.push(Part { kind: 0, name: empty });
    } else if pieces[0].len() == 1 && pieces[0][0] == 46 {
        assert(pieces@[0]@ =~= seq![46u8]);
        result.push(Part { kind: 1, name: empty });
    }
    assert(pieces@[0]@ == seq![46u8] ==> pieces@[0]@[0] == 46);
    let ghost start = part_views(result@);
    assert(start + parts_of(all) =~= path_parts(path@));
    let mut index: usize = 0;
    assert(start + parts_of(all.take(0)) =~= start);
    while index < pieces.len()
        invariant
            index <= pieces@.len(),
            all == text::slices(pieces@),
            empty@ == Seq::<u8>::empty(),
            part_views(result@) == start + parts_of(all.take(index as int)),
        decreases pieces@.len() - index,
    {
        let piece = pieces[index];
        let ghost before = result@;
        let ghost longer = all.take(index + 1);
        assert(longer.drop_last() =~= all.take(index as int));
        assert(longer.last() == piece@);
        assert(piece@ == seq![46u8] ==> piece@[0] == 46);
        assert(piece@ == seq![46u8, 46u8] ==> piece@[0] == 46 && piece@[1] == 46);
        if piece.len() == 0 {
        } else if piece.len() == 1 && piece[0] == 46 {
            assert(piece@ =~= seq![46u8]);
        } else if piece.len() == 2 && piece[0] == 46 && piece[1] == 46 {
            assert(piece@ =~= seq![46u8, 46u8]);
            result.push(Part { kind: 2, name: empty });
            assert(part_views(result@) =~= part_views(before).push((2u8, Seq::empty())));
            assert(part_views(result@) =~= start + parts_of(longer));
        } else {
            result.push(Part { kind: 3, name: piece });
            assert(part_views(result@) =~= part_views(before).push((3u8, piece@)));
            assert(part_views(result@) =~= start + parts_of(longer));
        }
        index += 1;
    }
    assert(all.take(index as int) =~= all);
    result
}

/// How two paths compare: -1, 0 or 1 where the first stands before, with or behind the second.
fn compare_paths(left: &[u8], right: &[u8]) -> (result: i8)
    ensures
        result == 0 <==> path_parts(left@) == path_parts(right@),
        result < 0 <==> path_parts(left@) != path_parts(right@) && parts_precede(
            path_parts(left@),
            path_parts(right@),
        ),
{
    let a = split_path(left);
    let b = split_path(right);
    let ghost x = part_views(a@);
    let ghost y = part_views(b@);
    let mut index: usize = 0;
    assert(x.skip(0) =~= x);
    assert(y.skip(0) =~= y);
    while index < a.len() && index < b.len()
        invariant
            index <= a@.len(),
            index <= b@.len(),
            x == part_views(a@),
            y == part_views(b@),
            x == path_parts(left@),
            y == path_parts(right@),
            forall|i: int| 0 <= i < index ==> x[i] == y[i],
            parts_precede(x, y) == parts_precede(x.skip(index as int), y.skip(index as int)),
        decreases a@.len() - index,
    {
        let one = &a[index];
        let other = &b[index];
        assert(x[index as int] == (one.kind, one.name@));
        assert(y[index as int] == (other.kind, other.name@));
        assert(x.skip(index as int)[0] == x[index as int]);
        assert(y.skip(index as int)[0] == y[index as int]);
        if one.kind != other.kind {
            return if one.kind < other.kind {
                -1
            } else {
                1
            };
        }
        if !text::same_slice(one.name, other.name) {
            return if is_before(one.name, other.name) {
                -1
            } else {
                1
            };
        }
        assert(x.skip(index as int).drop_first() =~= x.skip(index + 1));
        assert(y.skip(index as int).drop_first() =~= y.skip(index + 1));
        index += 1;
    }
    if index < b.len() {
        assert(x.len() != y.len());
        -1
    } else if index < a.len() {
        assert(x.len() != y.len());
        1
    } else {
        assert(x =~= y);
        0
    }
}

/// Whether two paths have the same parts.
pub fn same_path(left: &[u8], right: &[u8]) -> (result: bool)
    ensures
        result == (path_parts(left@) == path_parts(right@)),
{
    compare_paths(left, right) == 0
}

/// An ordered list of paths with one more path, unless the list holds one with the same parts.
pub open spec fn inserted_path(list: Seq<Seq<u8>>, item: Seq<u8>) -> Seq<Seq<u8>>
    decreases list.len(),
{
    if list.len() == 0 {
        seq![item]
    } else if path_parts(list[0]) == path_parts(item) {
        list
    } else if parts_precede(path_parts(item), path_parts(list[0])) {
        seq![item] + list
    } else {
        seq![list[0]] + inserted_path(list.skip(1), item)
    }
}

/// Paths in ascending order, in which no two have the same parts.
pub open spec fn ascending_paths(list: Seq<Seq<u8>>) -> bool {
    forall|i: int, j: int|
        0 <= i < j < list.len() ==> parts_precede(
            path_parts(#[trigger] list[i]),
            path_parts(#[trigger] list[j]),
        )
}

/// Whether a list holds a path with the parts of a path.
pub open spec fn holds_path(list: Seq<Seq<u8>>, path: Seq<u8>) -> bool {
    exists|i: int| 0 <= i < list.len() && path_parts(#[trigger] list[i]) == path_parts(path)
}

/// Inserting a path keeps a list of paths in order and without repeats: it keeps what the list holds, and
/// adds the path and nothing else.
pub proof fn inserting_a_path_keeps_order(list: Seq<Seq<u8>>, item: Seq<u8>)
    requires
        ascending_paths(list),
    ensures
        ascending_paths(inserted_path(list, item)),
        forall|i: int| 0 <= i < list.len() ==> inserted_path(list, item).contains(#[trigger] list[i]),
        forall|i: int|
            0 <= i < inserted_path(list, item).len() ==> {
                let path = #[trigger] inserted_path(list, item)[i];
                list.contains(path) || path == item
            },
        holds_path(inserted_path(list, item), item),
    decreases list.len(),
{
    let result = inserted_path(list, item);
    if list.len() == 0 {
        assert(result[0] == item);
    } else if path_parts(list[0]) == path_parts(item) {
        assert(result[0] == list[0]);
        assert forall|i: int| 0 <= i < list.len() implies result.contains(#[trigger] list[i]) by {
            assert(result[i] == list[i]);
        }
    } else if parts_precede(path_parts(item), path_parts(list[0])) {
        assert(result[0] == item);
        assert forall|i: int, j: int| 0 <= i < j < result.len() implies parts_precede(
            path_parts(#[trigger] result[i]),
            path_parts(#[trigger] result[j]),
        ) by {
            assert(result[j] == list[j - 1]);
            if i > 0 {
                assert(result[i] == list[i - 1]);
            } else if j > 1 {
                assert(parts_precede(path_parts(list[0]), path_parts(list[j - 1])));
                order_of_parts_is_transitive(
                    path_parts(item),
                    path_parts(list[0]),
                    path_parts(list[j - 1]),
                );
            }
        }
        assert forall|i: int| 0 <= i < list.len() implies result.contains(#[trigger] list[i]) by {
            assert(result[i + 1] == list[i]);
        }
        assert forall|i: int| 0 <= i < result.len() implies list.contains(#[trigger] result[i])
            || result[i] == item by {
            if i > 0 {
                assert(result[i] == list[i - 1]);
            }
        }
    } else {
        let rest = list.skip(1);
        let tail = inserted_path(rest, item);
        assert forall|i: int, j: int| 0 <= i < j < rest.len() implies parts_precede(
            path_parts(#[trigger] rest[i]),
            path_parts(#[trigger] rest[j]),
        ) by {
            assert(rest[i] == list[i + 1] && rest[j] == list[j + 1]);
        }
        inserting_a_path_keeps_order(rest, item);
        order_of_parts_is_total(path_parts(item), path_parts(list[0]));
        assert(result[0] == list[0]);
        assert forall|i: int| 0 <= i < tail.len() implies parts_precede(
            path_parts(list[0]),
            path_parts(#[trigger] tail[i]),
        ) && (list.contains(tail[i]) || tail[i] == item) by {
            if tail[i] != item {
                let k = choose|k: int| 0 <= k < rest.len() && rest[k] == tail[i];
                assert(rest[k] == list[k + 1]);
            }
        }
        assert forall|i: int, j: int| 0 <= i < j < result.len() implies parts_precede(
            path_parts(#[trigger] result[i]),
            path_parts(#[trigger] result[j]),
        ) by {
            assert(result[j] == tail[j - 1]);
            if i > 0 {
                assert(result[i] == tail[i - 1]);
            }
        }
        assert forall|i: int| 0 <= i < list.len() implies result.contains(#[trigger] list[i]) by {
            if i > 0 {
                assert(rest[i - 1] == list[i]);
                assert(tail.contains(rest[i - 1]));
                let k = choose|k: int| 0 <= k < tail.len() && tail[k] == list[i];
                assert(result[k + 1] == list[i]);
            }
        }
        assert forall|i: int| 0 <= i < result.len() implies list.contains(#[trigger] result[i])
            || result[i] == item by {
            if i > 0 {
                assert(result[i] == tail[i - 1]);
            } else {
                assert(list.contains(list[0]));
            }
        }
        let k = choose|k: int|
            0 <= k < tail.len() && path_parts(#[trigger] tail[k]) == path_parts(item);
        assert(result[k + 1] == tail[k]);
    }
}

/// What stands before the place of a path stays as it is.
proof fn lemma_inserted_path_behind(list: Seq<Seq<u8>>, item: Seq<u8>, count: int)
    requires
        0 <= count <= list.len(),
        forall|i: int|
            0 <= i < count ==> path_parts(#[trigger] list[i]) != path_parts(item) && !parts_precede(
                path_parts(item),
                path_parts(list[i]),
            ),
    ensures
        inserted_path(list, item) == list.take(count) + inserted_path(list.skip(count), item),
    decreases count,
{
    if count == 0 {
        assert(list.skip(0) =~= list);
        assert(list.take(0) + inserted_path(list, item) =~= inserted_path(list, item));
    } else {
        let rest = list.skip(1);
        assert forall|i: int| 0 <= i < count - 1 implies path_parts(#[trigger] rest[i])
            != path_parts(item) && !parts_precede(path_parts(item), path_parts(rest[i])) by {
            assert(rest[i] == list[i + 1]);
        }
        assert(path_parts(list[0]) != path_parts(item));
        lemma_inserted_path_behind(rest, item, count - 1);
        assert(rest.skip(count - 1) =~= list.skip(count));
        assert(inserted_path(list, item) =~= list.take(count) + inserted_path(
            list.skip(count),
            item,
        ));
    }
}

/// Inserts a path into an ordered list of paths.
pub fn insert_path(list: &mut Vec<Vec<u8>>, item: Vec<u8>)
    ensures
        final(list).deep_view() == inserted_path(old(list).deep_view(), item@),
{
    let ghost start = list.deep_view();
    let mut index: usize = 0;
    while index < list.len()
        invariant
            index <= list@.len(),
            list.deep_view() == start,
            start == old(list).deep_view(),
            forall|i: int|
                0 <= i < index ==> path_parts(#[trigger] start[i]) != path_parts(item@)
                    && !parts_precede(path_parts(item@), path_parts(start[i])),
        decreases list@.len() - index,
    {
        let order: i8 = compare_paths(item.as_slice(), list[index].as_slice());
        assert(start[index as int] =~= list@[index as int]@);
        if order == 0 {
            proof {
                lemma_inserted_path_behind(start, item@, index as int);
                assert(start.skip(index as int)[0] == start[index as int]);
                assert(start.take(index as int) + start.skip(index as int) =~= start);
            }
            return;
        }
        if order < 0 {
            proof {
                lemma_inserted_path_behind(start, item@, index as int);
                assert(start.skip(index as int)[0] == start[index as int]);
            }
            assert(item.deep_view() =~= item@);
            list.insert(index, item);
            assert(list.deep_view() =~= start.take(index as int) + (seq![item@] + start.skip(
                index as int,
            )));
            return;
        }
        index += 1;
    }
    proof {
        lemma_inserted_path_behind(start, item@, index as int);
        assert(start.take(index as int) =~= start);
        assert(start.skip(index as int) =~= Seq::<Seq<u8>>::empty());
    }
    assert(item.deep_view() =~= item@);
    list.push(item);
    assert(list.deep_view() =~= start + seq![item@]);
}

/// Byte strings in ascending order, repeated ones kept: `item` goes behind those not above it.
pub open spec fn sorted_with(list: Seq<Seq<u8>>, item: Seq<u8>) -> Seq<Seq<u8>>
    decreases list.len(),
{
    if list.len() > 0 && precedes(item, list.last()) {
        sorted_with(list.drop_last(), item).push(list.last())
    } else {
        list.push(item)
    }
}

/// The byte strings of a list in ascending order.
pub open spec fn sorted(list: Seq<Seq<u8>>) -> Seq<Seq<u8>>
    decreases list.len(),
{
    if list.len() == 0 {
        Seq::empty()
    } else {
        sorted_with(sorted(list.drop_last()), list.last())
    }
}

/// Inserts a byte string behind those of an ordered list that are not above it.
fn insert_sorted(list: &mut Vec<Vec<u8>>, item: Vec<u8>)
    ensures
        final(list).deep_view() == sorted_with(old(list).deep_view(), item@),
{
    let ghost start = list.deep_view();
    let mut index: usize = list.len();
    assert(start.take(index as int) =~= start);
    assert(sorted_with(start, item@) + start.skip(index as int) =~= sorted_with(start, item@));
    while index > 0 && is_before(item.as_slice(), list[index - 1].as_slice())
        invariant
            index <= list@.len(),
            list.deep_view() == start,
            sorted_with(start, item@) == sorted_with(start.take(index as int), item@) + start.skip(
                index as int,
            ),
        decreases index,
    {
        let ghost shorter = start.take(index as int);
        assert(shorter.last() =~= list@[index - 1]@);
        assert(shorter.drop_last() =~= start.take(index - 1));
        assert(sorted_with(start.take(index - 1), item@) + start.skip(index - 1) =~= sorted_with(
            shorter,
            item@,
        ) + start.skip(index as int));
        index -= 1;
    }
    if index > 0 {
        assert(start.take(index as int).last() =~= list@[index - 1]@);
    }
    assert(item.deep_view() =~= item@);
    list.insert(index, item);
    assert(list.deep_view() =~= start.take(index as int).push(item@) + start.skip(index as int));
}

/// The byte strings of a list in ascending order.
pub fn sort_bytes(list: Vec<Vec<u8>>) -> (result: Vec<Vec<u8>>)
    ensures
        result.deep_view() == sorted(list.deep_view()),
{
    let mut result: Vec<Vec<u8>> = Vec::new();
    assert(result.deep_view() =~= Seq::<Seq<u8>>::empty());
    let ghost all = list.deep_view();
    let mut index: usize = 0;
    assert(all.take(0) =~= Seq::<Seq<u8>>::empty());
    while index < list.len()
        invariant
            index <= list@.len(),
            all == list.deep_view(),
            result.deep_view() == sorted(all.take(index as int)),
        decreases list@.len() - index,
    {
        let item = crate::bytes::copy_bytes(list[index].as_slice());
        assert(all.take(index + 1).drop_last() =~= all.take(index as int));
        assert(all.take(index + 1).last() =~= item@);
        insert_sorted(&mut result, item);
        index += 1;
    }
    assert(all.take(index as int) =~= all);
    result
}

}
