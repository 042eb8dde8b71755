//! Lists of words, as the arguments of a command.
use vstd::prelude::*;

verus! {

/// Appends a word.
pub fn push_word(list: &mut Vec<String>, word: &str)
    ensures
        final(list).deep_view() == old(list).deep_view().push(word@),
{
    let ghost before = list.deep_view();
    list.push(word.to_owned());
    assert(list.deep_view() =~= before.push(word@));
}

/// One word.
pub fn words1(first: &str) -> (result: Vec<String>)
    ensures
        result.deep_view() == seq![first@],
{
    let mut result: Vec<String> = Vec::new();
    push_word(&mut result, first);
    assert(result.deep_view() =~= seq![first@]);
    result
}

/// Two words.
pub fn words2(first: &str, second: &str) -> (result: Vec<String>)
    ensures
        result.deep_view() == seq![first@, second@],
{
    let mut result = words1(first);
    push_word(&mut result, second);
    assert(result.deep_view() =~= seq![first@, second@]);
    result
}

/// Three words.
pub fn words3(first: &str, second: &str, third: &str) -> (result: Vec<String>)
    ensures
        result.deep_view() == seq![first@, second@, third@],
{
    let mut result = words2(first, second);
    push_word(&mut result, third);
    assert(result.deep_view() =~= seq![first@, second@, third@]);
    result
}

/// Four words.
pub fn words4(first: &str, second: &str, third: &str, fourth: &str) -> (result: Vec<String>)
    ensures
        result.deep_view() == seq![first@, second@, third@, fourth@],
{
    let mut result = words3(first, second, third);
    push_word(&mut result, fourth);
    assert(result.deep_view() =~= seq![first@, second@, third@, fourth@]);
    result
}

/// Five words.
pub fn words5(
    first: &str,
    second: &str,
    third: &str,
    fourth: &str,
    fifth: &str,
) -> (result: Vec<String>)
    ensures
        result.deep_view() == seq![first@, second@, third@, fourth@, fifth@],
{
    let mut result = words4(first, second, third, fourth);
    push_word(&mut result, fifth);
    assert(result.deep_view() =~= seq![first@, second@, third@, fourth@, fifth@]);
    result
}

/// Six words.
pub fn words6(
    first: &str,
    second: &str,
    third: &str,
    fourth: &str,
    fifth: &str,
    sixth: &str,
) -> (result: Vec<String>)
    ensures
        result.deep_view() == seq![first@, second@, third@, fourth@, fifth@, sixth@],
{
    let mut result = words5(first, second, third, fourth, fifth);
    push_word(&mut result, sixth);
    assert(result.deep_view() =~= seq![first@, second@, third@, fourth@, fifth@, sixth@]);
    result
}

/// Seven words.
pub fn words7(
    first: &str,
    second: &str,
    third: &str,
    fourth: &str,
    fifth: &str,
    sixth: &str,
    seventh: &str,
) -> (result: Vec<String>)
    ensures
        result.deep_view() == seq![first@, second@, third@, fourth@, fifth@, sixth@, seventh@],
{
    let mut result = words6(first, second, third, fourth, fifth, sixth);
    push_word(&mut result, seventh);
    assert(result.deep_view() =~= seq![first@, second@, third@, fourth@, fifth@, sixth@, seventh@]);
    result
}

/// Eight words.
pub fn words8(
    first: &str,
    second: &str,
    third: &str,
    fourth: &str,
    fifth: &str,
    sixth: &str,
    seventh: &str,
    eighth: &str,
) -> (result: Vec<String>)
    ensures
        result.deep_view() == seq![
            first@,
            second@,
            third@,
            fourth@,
            fifth@,
            sixth@,
            seventh@,
            eighth@,
        ],
{
    let mut result = words7(first, second, third, fourth, fifth, sixth, seventh);
    push_word(&mut result, eighth);
    assert(result.deep_view() =~= seq![first@, second@, third@, fourth@, fifth@, sixth@, seventh@, eighth@]);
    result
}

/// Nine words.
pub fn words9(
    first: &str,
    second: &str,
    third: &str,
    fourth: &str,
    fifth: &str,
    sixth: &str,
    seventh: &str,
    eighth: &str,
    ninth: &str,
) -> (result: Vec<String>)
    ensures
        result.deep_view() == seq![
            first@,
            second@,
            third@,
            fourth@,
            fifth@,
            sixth@,
            seventh@,
            eighth@,
            ninth@,
        ],
{
    let mut result = words8(first, second, third, fourth, fifth, sixth, seventh, eighth);
    push_word(&mut result, ninth);
    assert(result.deep_view() =~= seq![first@, second@, third@, fourth@, fifth@, sixth@, seventh@, eighth@, ninth@]);
    result
}

/// Ten words.
pub fn words10(
    first: &str,
    second: &str,
    third: &str,
    fourth: &str,
    fifth: &str,
    sixth: &str,
    seventh: &str,
    eighth: &str,
    ninth: &str,
    tenth: &str,
) -> (result: Vec<String>)
    ensures
        result.deep_view() == seq![
            first@,
            second@,
            third@,
            fourth@,
            fifth@,
            sixth@,
            seventh@,
            eighth@,
            ninth@,
            tenth@,
        ],
{
    let mut result = words9(first, second, third, fourth, fifth, sixth, seventh, eighth, ninth);
    push_word(&mut result, tenth);
    assert(result.deep_view() =~= seq![first@, second@, third@, fourth@, fifth@, sixth@, seventh@, eighth@, ninth@, tenth@]);
    result
}

}
