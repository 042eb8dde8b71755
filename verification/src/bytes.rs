//! Raw bytes: their reading as UTF-8, and paths.
//!
//! A path is a sequence of bytes with `/` between its parts.
use crate::text;
use vstd::prelude::*;
use vstd::slice::slice_subrange;
use vstd::slice::slice_to_vec;
use vstd::utf8;

verus! {

/// The view of a list of bytes is the same however deep one looks.
pub broadcast proof fn bytes_are_their_view(bytes: Vec<u8>)
    ensures
        #[trigger] bytes.deep_view() == bytes@,
{
    assert(bytes.deep_view() =~= bytes@);
}

/// The words in which `FromUtf8Error` says what is wrong with some bytes.
pub uninterp spec fn utf8_error_text(bytes: Seq<u8>) -> Seq<char>;

/// `String::from_utf8` gives the text that the bytes encode where they are valid UTF-8. Elsewhere it
/// gives an error, whose words depend on the bytes alone.
#[verifier::external_body]
pub(crate) fn utf8_text(bytes: &[u8]) -> (result: Result<String, String>)
    ensures
        result is Ok == utf8::valid_utf8(bytes@),
        result is Ok ==> result->Ok_0@ == utf8::decode_utf8(bytes@),
        result is Err ==> result->Err_0@ == utf8_error_text(bytes@),
{
    String::from_utf8(bytes.to_vec()).map_err(|error| error.to_string())
}

/// The text that `String::from_utf8_lossy` makes of some bytes.
pub uninterp spec fn lossy_text(bytes: Seq<u8>) -> Seq<char>;

/// `String::from_utf8_lossy` gives the text that the bytes encode where they are valid UTF-8.
/// Elsewhere it puts replacement characters in the place of what is not valid.
#[verifier::external_body]
pub(crate) fn lossy(bytes: &[u8]) -> (result: String)
    ensures
        result@ == lossy_text(bytes@),
        utf8::valid_utf8(bytes@) ==> result@ == utf8::decode_utf8(bytes@),
{
    String::from_utf8_lossy(bytes).into_owned()
}

/// The UTF-8 bytes of a text.
pub fn bytes_of(text: &str) -> (result: Vec<u8>)
    ensures
        result@ == utf8::encode_utf8(text@),
{
    slice_to_vec(text.as_bytes())
}

/// A copy of some bytes.
pub fn copy_bytes(bytes: &[u8]) -> (result: Vec<u8>)
    ensures
        result@ == bytes@,
{
    slice_to_vec(bytes)
}

/// Whether bytes are the UTF-8 bytes of a text.
pub fn is_bytes_of(bytes: &[u8], text: &str) -> (result: bool)
    ensures
        result == (bytes@ == utf8::encode_utf8(text@)),
{
    text::same_slice(bytes, text.as_bytes())
}

/// The part of some bytes behind a prefix that is given as text.
pub open spec fn behind(value: Seq<u8>, prefix: Seq<char>) -> Option<Seq<u8>> {
    if text::has_prefix(value, utf8::encode_utf8(prefix)) {
        Some(value.skip(utf8::encode_utf8(prefix).len() as int))
    } else {
        None
    }
}

/// The part of some bytes behind a prefix that is given as text.
pub fn strip_bytes_prefix<'a>(value: &'a [u8], prefix: &str) -> (result: Option<&'a [u8]>)
    ensures
        result is Some == behind(value@, prefix@) is Some,
        result is Some ==> result->Some_0@ == behind(value@, prefix@)->Some_0,
{
    text::strip_prefix(value, prefix.as_bytes())
}

/// Bytes without one line feed at their end.
pub open spec fn without_line_ending(value: Seq<u8>) -> Seq<u8> {
    if value.len() > 0 && value.last() == 10 {
        value.drop_last()
    } else {
        value
    }
}

/// Bytes without one line feed at their end.
pub fn strip_byte_line_ending(value: &[u8]) -> (result: &[u8])
    ensures
        result@ == without_line_ending(value@),
{
    if value.len() > 0 && value[value.len() - 1] == 10 {
        let result = slice_subrange(value, 0, value.len() - 1);
        assert(result@ =~= value@.drop_last());
        result
    } else {
        value
    }
}

/// Whether a path starts at the root.
pub open spec fn absolute(path: Seq<u8>) -> bool {
    path.len() > 0 && path[0] == 47
}

/// Whether a path starts at the root.
pub fn is_absolute(path: &[u8]) -> (result: bool)
    ensures
        result == absolute(path@),
{
    path.len() > 0 && path[0] == 47
}

/// The path `tail`, taken from the directory `base` where it does not start at the root.
pub open spec fn joined_path(base: Seq<u8>, tail: Seq<u8>) -> Seq<u8> {
    if absolute(tail) {
        tail
    } else if base.len() > 0 && base.last() != 47 {
        base.push(47) + tail
    } else {
        base + tail
    }
}

/// The path `tail`, taken from the directory `base` where it does not start at the root.
pub fn join_path(base: &[u8], tail: &[u8]) -> (result: Vec<u8>)
    ensures
        result@ == joined_path(base@, tail@),
{
    if is_absolute(tail) {
        return slice_to_vec(tail);
    }
    let mut result = slice_to_vec(base);
    if base.len() > 0 && base[base.len() - 1] != 47 {
        result.push(47);
    }
    result.extend_from_slice(tail);
    result
}

/// The path of a named thing in the directory `base`.
pub fn join_name(base: &[u8], name: &str) -> (result: Vec<u8>)
    ensures
        result@ == joined_path(base@, utf8::encode_utf8(name@)),
{
    join_path(base, name.as_bytes())
}

/// Whether one part of a path is `..`.
pub open spec fn climbs(path: Seq<u8>) -> bool {
    text::pieces(path, 47u8).contains(seq![46u8, 46u8])
}

/// Whether one part of a path is `..`.
pub fn has_parent_component(path: &[u8]) -> (result: bool)
    ensures
        result == climbs(path@),
{
    let parts = text::split(path, 47);
    let mut index: usize = 0;
    while index < parts.len()
        invariant
            index <= parts@.len(),
            text::slices(parts@) == text::pieces(path@, 47u8),
            forall|i: int| 0 <= i < index ==> text::pieces(path@, 47u8)[i] != seq![46u8, 46u8],
        decreases parts@.len() - index,
    {
        let part = parts[index];
        assert(text::slices(parts@)[index as int] == part@);
        if part.len() == 2 && part[0] == 46 && part[1] == 46 {
            assert(part@ =~= seq![46u8, 46u8]);
            return true;
        }
        assert(part@ == seq![46u8, 46u8] ==> part@[0] == 46 && part@[1] == 46);
        index += 1;
    }
    false
}

/// A path without the separators and `.` parts at its end; the root stays.
pub open spec fn trimmed_path(path: Seq<u8>) -> Seq<u8>
    decreases path.len(),
{
    if path.len() > 1 && path.last() == 47 {
        trimmed_path(path.drop_last())
    } else if path.len() > 1 && path.last() == 46 && path[path.len() - 2] == 47 {
        trimmed_path(path.drop_last())
    } else {
        path
    }
}

/// Trimming keeps a start of a path.
proof fn lemma_trimmed_path(path: Seq<u8>)
    ensures
        trimmed_path(path).len() <= path.len(),
        trimmed_path(path) == path.take(trimmed_path(path).len() as int),
    decreases path.len(),
{
    if path.len() > 1 && (path.last() == 47 || (path.last() == 46 && path[path.len() - 2] == 47)) {
        lemma_trimmed_path(path.drop_last());
        let kept = trimmed_path(path.drop_last());
        assert(path.drop_last().take(kept.len() as int) =~= path.take(kept.len() as int));
    } else {
        assert(path.take(path.len() as int) =~= path);
    }
}

/// A path without the separators and `.` parts at its end.
fn trim_path(path: &[u8]) -> (result: &[u8])
    ensures
        result@ == trimmed_path(path@),
        result@.len() <= path@.len(),
{
    let mut end: usize = path.len();
    assert(path@.take(end as int) =~= path@);
    while end > 1 && (path[end - 1] == 47 || (path[end - 1] == 46 && path[end - 2] == 47))
        invariant
            end <= path@.len(),
            trimmed_path(path@) == trimmed_path(path@.take(end as int)),
        decreases end,
    {
        assert(path@.take(end as int).drop_last() =~= path@.take(end - 1));
        end -= 1;
    }
    let result = slice_subrange(path, 0, end);
    assert(result@ =~= path@.take(end as int));
    result
}

/// The path of the directory that holds the last part of a path, where there is such a part.
pub open spec fn parent(path: Seq<u8>) -> Option<Seq<u8>> {
    let whole = trimmed_path(path);
    let at = text::last_position_of(whole, 47u8);
    if whole.len() == 0 || whole == seq![47u8] {
        None
    } else {
        Some(trimmed_path(whole.take(at + 1)))
    }
}

/// The path of the directory that holds the last part of a path.
pub fn parent_path(path: &[u8]) -> (result: Option<&[u8]>)
    ensures
        result.deep_view() == parent(path@),
{
    let whole = trim_path(path);
    if whole.len() == 0 {
        return None;
    }
    if whole.len() == 1 && whole[0] == 47 {
        assert(whole@ =~= seq![47u8]);
        return None;
    }
    let at = text::last_position(whole, 47);
    let head = slice_subrange(whole, 0, at);
    assert(head@ =~= whole@.take(text::last_position_of(whole@, 47u8) + 1));
    let result = trim_path(head);
    assert(result.deep_view() =~= result@);
    Some(result)
}

/// The last part of a path, where it names something: not the root, `.` or `..`.
pub open spec fn file_name(path: Seq<u8>) -> Option<Seq<u8>> {
    let whole = trimmed_path(path);
    let name = whole.skip(text::last_position_of(whole, 47u8) + 1);
    if name.len() == 0 || name == seq![46u8] || name == seq![46u8, 46u8] {
        None
    } else {
        Some(name)
    }
}

/// The last part of a path, where it names something.
pub fn file_name_of(path: &[u8]) -> (result: Option<&[u8]>)
    ensures
        result.deep_view() == file_name(path@),
{
    let whole = trim_path(path);
    let at = text::last_position(whole, 47);
    let name = slice_subrange(whole, at, whole.len());
    assert(name@ =~= whole@.skip(text::last_position_of(whole@, 47u8) + 1));
    if name.len() == 0 {
        return None;
    }
    if name.len() == 1 && name[0] == 46 {
        assert(name@ =~= seq![46u8]);
        return None;
    }
    if name.len() == 2 && name[0] == 46 && name[1] == 46 {
        assert(name@ =~= seq![46u8, 46u8]);
        return None;
    }
    assert(name@ == seq![46u8] ==> name@[0] == 46);
    assert(name@ == seq![46u8, 46u8] ==> name@[0] == 46 && name@[1] == 46);
    assert(name.deep_view() =~= name@);
    Some(name)
}

}
