//! Numbers as text: decimal and hexadecimal digits, in both directions.
use vstd::prelude::*;

verus! {

/// Whether a character is a decimal digit.
pub open spec fn is_digit(character: char) -> bool {
    '0' <= character <= '9'
}

/// The number that a decimal digit stands for.
pub open spec fn digit_value(character: char) -> nat {
    (character as nat - '0' as nat) as nat
}

/// The decimal digit of a number below ten.
pub open spec fn digit_of(value: nat) -> char {
    ('0' as nat + value) as char
}

/// Whether all characters are decimal digits.
pub open spec fn all_digits(text: Seq<char>) -> bool {
    forall|i: int| 0 <= i < text.len() ==> is_digit(#[trigger] text[i])
}

/// The number that a sequence of decimal digits stands for.
pub open spec fn digits_value(text: Seq<char>) -> nat
    decreases text.len(),
{
    if text.len() == 0 {
        0
    } else {
        10 * digits_value(text.drop_last()) + digit_value(text.last())
    }
}

/// The decimal digits of a number, without leading zeros.
pub open spec fn decimal(value: nat) -> Seq<char>
    decreases value,
{
    if value < 10 {
        seq![digit_of(value)]
    } else {
        decimal(value / 10).push(digit_of(value % 10))
    }
}

/// A text without the plus sign that may stand before other characters.
pub open spec fn without_plus(text: Seq<char>) -> Seq<char> {
    if text.len() > 1 && text[0] == '+' {
        text.skip(1)
    } else {
        text
    }
}

/// What a text reads as: an optional plus sign and at least one digit, for a number up to `limit`.
pub open spec fn number_in(text: Seq<char>, limit: nat) -> Option<nat> {
    let digits = without_plus(text);
    if digits.len() > 0 && all_digits(digits) && digits_value(digits) <= limit {
        Some(digits_value(digits))
    } else {
        None
    }
}

/// The digits of a number stand for that number.
pub proof fn lemma_decimal(value: nat)
    ensures
        decimal(value).len() > 0,
        all_digits(decimal(value)),
        digits_value(decimal(value)) == value,
    decreases value,
{
    if value < 10 {
        assert(decimal(value).drop_last() =~= Seq::<char>::empty());
        assert(digits_value(Seq::<char>::empty()) == 0);
        assert(digit_value(digit_of(value)) == value);
    } else {
        lemma_decimal(value / 10);
        assert(decimal(value).drop_last() =~= decimal(value / 10));
        assert(digit_value(digit_of(value % 10)) == value % 10);
    }
}

/// A number that was written in decimal reads as the same number.
pub proof fn written_number_reads_back(value: nat, limit: nat)
    requires
        value <= limit,
    ensures
        number_in(decimal(value), limit) == Some(value),
{
    lemma_decimal(value);
    assert(is_digit(decimal(value)[0]));
}

/// Leading digits stand for no more than the whole.
proof fn lemma_digits_grow(text: Seq<char>, count: int)
    requires
        0 <= count <= text.len(),
    ensures
        digits_value(text.take(count)) <= digits_value(text),
    decreases text.len() - count,
{
    if count == text.len() {
        assert(text.take(count) =~= text);
    } else {
        lemma_digits_grow(text, count + 1);
        assert(text.take(count + 1).drop_last() =~= text.take(count));
    }
}

/// Reads a number up to `limit`.
pub fn parse_number(text: &[char], limit: u64) -> (result: Option<u64>)
    ensures
        result is Some == number_in(text@, limit as nat) is Some,
        result is Some ==> result->Some_0 as nat == number_in(text@, limit as nat)->Some_0,
{
    let start: usize = if text.len() > 1 && text[0] == '+' {
        1
    } else {
        0
    };
    let ghost digits = text@.skip(start as int);
    assert(start == 0 ==> digits =~= text@);
    if text.len() == 0 {
        return None;
    }
    let mut value: u64 = 0;
    let mut index: usize = start;
    assert(digits.take(0) =~= Seq::<char>::empty());
    while index < text.len()
        invariant
            start <= index <= text@.len(),
            digits == text@.skip(start as int),
            digits == without_plus(text@),
            digits.len() > 0,
            value as nat == digits_value(digits.take(index - start)),
            value <= limit,
            forall|i: int| 0 <= i < index - start ==> is_digit(#[trigger] digits[i]),
        decreases text@.len() - index,
    {
        let character = text[index];
        assert(digits[index - start] == character);
        if !('0' <= character && character <= '9') {
            return None;
        }
        let digit: u64 = (character as u64) - ('0' as u64);
        let ghost longer = digits.take(index - start + 1);
        assert(longer.drop_last() =~= digits.take(index - start));
        proof {
            lemma_digits_grow(digits, index - start + 1);
        }
        if value > limit / 10 {
            assert(value >= limit / 10 + 1);
            assert(10 * (limit / 10 + 1) > limit);
            return None;
        }
        let tenfold: u64 = value * 10;
        if digit > limit - tenfold {
            return None;
        }
        value = tenfold + digit;
        index += 1;
    }
    assert(digits.take(index - start) =~= digits);
    Some(value)
}

/// The decimal digits of a number.
pub fn decimal_of(value: u64) -> (result: String)
    ensures
        result@ == decimal(value as nat),
    decreases value,
{
    let digit = (48 + (value % 10) as u8) as char;
    if value < 10 {
        let mut result = String::new();
        result.push(digit);
        result
    } else {
        let mut result = decimal_of(value / 10);
        result.push(digit);
        result
    }
}

/// The lower-case hexadecimal digit of a number below sixteen. Other numbers have the digit of zero.
pub open spec fn hex_digit_of(value: u8) -> char {
    if value < 10 {
        ('0' as u8 + value) as char
    } else if value < 16 {
        ('a' as u8 + value - 10) as char
    } else {
        '0'
    }
}

/// The number that a hexadecimal digit of either case stands for.
pub open spec fn hex_digit_value(byte: u8) -> Option<u8> {
    if '0' as u8 <= byte <= '9' as u8 {
        Some((byte - '0' as u8) as u8)
    } else if 'a' as u8 <= byte <= 'f' as u8 {
        Some((byte - 'a' as u8 + 10) as u8)
    } else if 'A' as u8 <= byte <= 'F' as u8 {
        Some((byte - 'A' as u8 + 10) as u8)
    } else {
        None
    }
}

/// Two hexadecimal digits for each byte, the high one first.
pub open spec fn hex(bytes: Seq<u8>) -> Seq<char>
    decreases bytes.len(),
{
    if bytes.len() == 0 {
        Seq::empty()
    } else {
        hex(bytes.drop_last()).push(hex_digit_of(bytes.last() / 16)).push(
            hex_digit_of(bytes.last() % 16),
        )
    }
}

/// The bytes that pairs of hexadecimal digits stand for, where all of them are digits.
pub open spec fn unhex(digits: Seq<u8>) -> Option<Seq<u8>>
    recommends
        digits.len() % 2 == 0,
    decreases digits.len(),
{
    if digits.len() < 2 {
        Some(Seq::empty())
    } else {
        let rest = unhex(digits.take(digits.len() - 2));
        let high = hex_digit_value(digits[digits.len() - 2]);
        let low = hex_digit_value(digits[digits.len() - 1]);
        if rest is Some && high is Some && low is Some {
            Some(rest->Some_0.push((16 * high->Some_0 + low->Some_0) as u8))
        } else {
            None
        }
    }
}

/// The lower-case hexadecimal digit of a number below sixteen. Other numbers have the digit of zero.
pub fn hex_digit(value: u8) -> (result: char)
    ensures
        result == hex_digit_of(value),
{
    if value < 10 {
        (48 + value) as char
    } else if value < 16 {
        (97 + (value - 10)) as char
    } else {
        '0'
    }
}

/// The number that a hexadecimal digit of either case stands for.
pub fn parse_hex_digit(byte: u8) -> (result: Option<u8>)
    ensures
        result == hex_digit_value(byte),
        result is Some ==> result->Some_0 < 16,
{
    if 48 <= byte && byte <= 57 {
        Some(byte - 48)
    } else if 97 <= byte && byte <= 102 {
        Some(byte - 97 + 10)
    } else if 65 <= byte && byte <= 70 {
        Some(byte - 65 + 10)
    } else {
        None
    }
}

/// Two hexadecimal digits for each byte.
pub fn encode_hex(bytes: &[u8]) -> (result: String)
    ensures
        result@ == hex(bytes@),
{
    let mut result = String::new();
    let mut index: usize = 0;
    while index < bytes.len()
        invariant
            index <= bytes@.len(),
            result@ == hex(bytes@.take(index as int)),
        decreases bytes@.len() - index,
    {
        let byte = bytes[index];
        result.push(hex_digit(byte / 16));
        result.push(hex_digit(byte % 16));
        index += 1;
        assert(bytes@.take(index as int).drop_last() =~= bytes@.take(index - 1));
    }
    assert(bytes@.take(index as int) =~= bytes@);
    result
}

/// The bytes that pairs of hexadecimal digits stand for.
pub fn decode_hex(digits: &[u8]) -> (result: Option<Vec<u8>>)
    requires
        digits@.len() % 2 == 0,
    ensures
        result is Some == unhex(digits@) is Some,
        result is Some ==> result->Some_0@ == unhex(digits@)->Some_0,
{
    let mut result: Vec<u8> = Vec::new();
    let mut index: usize = 0;
    while index < digits.len()
        invariant
            index <= digits@.len(),
            index % 2 == 0,
            digits@.len() % 2 == 0,
            unhex(digits@.take(index as int)) == Some(result@),
        decreases digits@.len() - index,
    {
        let ghost longer = digits@.take(index + 2);
        assert(longer.take(longer.len() - 2) =~= digits@.take(index as int));
        match (parse_hex_digit(digits[index]), parse_hex_digit(digits[index + 1])) {
            (Some(high), Some(low)) => {
                result.push(high * 16 + low);
                index += 2;
            },
            _ => {
                assert(unhex(longer) is None);
                proof {
                    lemma_unhex_prefix(digits@, index + 2);
                }
                return None;
            },
        }
    }
    assert(digits@.take(index as int) =~= digits@);
    Some(result)
}

/// Digits that start with something other than digits stand for nothing.
proof fn lemma_unhex_prefix(digits: Seq<u8>, count: int)
    requires
        0 <= count <= digits.len(),
        count % 2 == 0,
        digits.len() % 2 == 0,
        unhex(digits.take(count)) is None,
    ensures
        unhex(digits) is None,
    decreases digits.len() - count,
{
    if count == digits.len() {
        assert(digits.take(count) =~= digits);
    } else {
        assert(digits.take(count + 2).take(count) =~= digits.take(count));
        lemma_unhex_prefix(digits, count + 2);
    }
}

/// The digits of some bytes, each as one byte, stand for those bytes.
pub proof fn written_bytes_read_back(bytes: Seq<u8>)
    ensures
        hex(bytes).len() == 2 * bytes.len(),
        forall|i: int| 0 <= i < hex(bytes).len() ==> (#[trigger] hex(bytes)[i]) as u32 <= 127,
        unhex(Seq::new(hex(bytes).len(), |i: int| hex(bytes)[i] as u8)) == Some(bytes),
    decreases bytes.len(),
{
    let digits = Seq::new(hex(bytes).len(), |i: int| hex(bytes)[i] as u8);
    if bytes.len() == 0 {
        assert(bytes =~= Seq::<u8>::empty());
    } else {
        let rest = bytes.drop_last();
        let byte = bytes.last();
        written_bytes_read_back(rest);
        let rest_digits = Seq::new(hex(rest).len(), |i: int| hex(rest)[i] as u8);
        assert(digits.take(digits.len() - 2) =~= rest_digits);
        assert(digits[digits.len() - 2] == hex_digit_of(byte / 16) as u8);
        assert(digits[digits.len() - 1] == hex_digit_of(byte % 16) as u8);
        assert(hex_digit_value(hex_digit_of(byte / 16) as u8) == Some((byte / 16) as u8));
        assert(hex_digit_value(hex_digit_of(byte % 16) as u8) == Some((byte % 16) as u8));
        assert(rest.push(byte) =~= bytes);
    }
}

/// The sixteen lower-case hexadecimal digits of a number, the highest first.
pub open spec fn hex_number(value: u64) -> Seq<char> {
    Seq::new(16, |i: int| hex_digit_of(((value as nat / hex_weight((15 - i) as nat)) % 16) as u8))
}

/// The weight of a hexadecimal digit that stands `place` digits before the last one.
pub open spec fn hex_weight(place: nat) -> nat
    decreases place,
{
    if place == 0 {
        1
    } else {
        16 * hex_weight((place - 1) as nat)
    }
}

/// The sixteen lower-case hexadecimal digits of a number.
pub fn hex_number_of(value: u64) -> (result: String)
    ensures
        result@ == hex_number(value),
{
    let mut result = String::new();
    let mut place: u32 = 16;
    let mut weight: u64 = 0x1000_0000_0000_0000;
    proof {
        reveal_with_fuel(hex_weight, 17);
        assert(hex_weight(15) == 0x1000_0000_0000_0000);
    }
    while place > 0
        invariant
            place <= 16,
            place > 0 ==> weight as nat == hex_weight((place - 1) as nat) && weight > 0,
            result@ == hex_number(value).take(16 - place),
        decreases place,
    {
        let digit: u8 = ((value / weight) % 16) as u8;
        result.push(hex_digit(digit));
        place -= 1;
        let ghost index: int = 15 - place;
        assert(hex_number(value)[index] == hex_digit_of(digit));
        assert(hex_number(value).take(16 - place) =~= hex_number(value).take(index).push(
            hex_digit_of(digit),
        ));
        if place > 0 {
            proof {
                lemma_hex_weight((place - 1) as nat);
            }
            weight = weight / 16;
        }
    }
    assert(hex_number(value).take(16) =~= hex_number(value));
    result
}

/// Each place weighs sixteen times the next one.
proof fn lemma_hex_weight(place: nat)
    ensures
        hex_weight(place) > 0,
        hex_weight(place + 1) == 16 * hex_weight(place),
        hex_weight(place + 1) / 16 == hex_weight(place),
    decreases place,
{
    if place > 0 {
        lemma_hex_weight((place - 1) as nat);
    }
}

}
