//! Numbers as they are written, and the order of texts.
use crate::digest;
use crate::number;
use crate::order;
use crate::text;
use crate::text::Symbol;
use vstd::prelude::*;

verus! {

/// Texts are ordered as in a dictionary: by the first place at which they differ, and a text comes before all that go on
/// behind it.
pub proof fn order_is_that_of_a_dictionary<T: Symbol>(
    lead: Seq<T>,
    left: T,
    right: T,
    behind: Seq<T>,
    other: Seq<T>,
)
    ensures
        order::precedes(lead, lead + seq![right] + other),
        left.rank() < right.rank() ==> order::precedes(
            lead + seq![left] + behind,
            lead + seq![right] + other,
        ),
    decreases lead.len(),
{
    let one = lead + seq![left] + behind;
    let two = lead + seq![right] + other;
    if lead.len() == 0 {
        assert(one[0] == left && two[0] == right);
    } else {
        let rest = lead.drop_first();
        order_is_that_of_a_dictionary(rest, left, right, behind, other);
        assert(one.drop_first() =~= rest + seq![left] + behind);
        assert(two.drop_first() =~= rest + seq![right] + other);
        assert(one[0] == lead[0] && two[0] == lead[0]);
    }
}

/// A number above the limit is not read, nor is a text with anything in it that is no digit, but for a plus in front.
pub proof fn other_numbers_are_not_read(value: nat, limit: nat, text: Seq<char>, place: int)
    ensures
        value > limit ==> number::number_in(number::decimal(value), limit) is None,
        number::number_in(Seq::empty(), limit) is None,
        0 <= place < text.len() && !('0' <= text[place] <= '9') && !(place == 0 && text[0] == '+')
            ==> number::number_in(text, limit) is None,
{
    number::lemma_decimal(value);
    assert(number::is_digit(number::decimal(value)[0]));
    if 0 <= place < text.len() && !('0' <= text[place] <= '9') && !(place == 0 && text[0] == '+') {
        let digits = number::without_plus(text);
        if text.len() > 1 && text[0] == '+' {
            assert(digits[place - 1] == text[place]);
        } else {
            assert(digits[place] == text[place]);
        }
    }
}

/// The bytes of a number are written from the lowest on.
pub proof fn low_bytes_come_first(value: u64)
    ensures
        ({
            let written = digest::little_endian(value);
            &&& written.len() == 8
            &&& written[0] as nat == value as nat % 256
            &&& written[1] as nat == (value as nat / 256) % 256
            &&& written[2] as nat == (value as nat / 256 / 256) % 256
            &&& written[3] as nat == (value as nat / 256 / 256 / 256) % 256
        }),
{
    digest::lemma_low_bytes_len(value as nat, 8);
    reveal_with_fuel(digest::low_bytes, 5);
}

/// The digit of a hexadecimal number is one of the sixteen, in lower case.
pub proof fn hexadecimal_digits_are_lower_case(value: u8)
    requires
        value < 16,
    ensures
        number::hex_digit_of(value) == if value < 10 {
            (48 + value) as char
        } else {
            (87 + value) as char
        },
        number::hex_digit_value(number::hex_digit_of(value) as u8) == Some(value),
{
}

/// The number that hexadecimal digits stand for.
pub open spec fn hexadecimal_value(digits: Seq<char>) -> nat
    decreases digits.len(),
{
    if digits.len() == 0 {
        0
    } else {
        16 * hexadecimal_value(digits.drop_last()) + match number::hex_digit_value(
            digits.last() as u8,
        ) {
            Some(digit) => digit as nat,
            None => 0,
        }
    }
}

/// The digits of a number from the highest on stand for what is left of it above the places that follow.
proof fn lemma_hexadecimal(value: u64, count: nat)
    requires
        count <= 16,
    ensures
        hexadecimal_value(number::hex_number(value).take(count as int)) == value as nat
            / number::hex_weight((16 - count) as nat),
    decreases count,
{
    let whole = number::hex_number(value);
    let digits = whole.take(count as int);
    if count == 0 {
        assert(number::hex_weight(16) == 0x1_0000_0000_0000_0000) by {
            reveal_with_fuel(number::hex_weight, 17);
        }
        assert(value as nat / 0x1_0000_0000_0000_0000 == 0);
    } else {
        let before = (count - 1) as nat;
        lemma_hexadecimal(value, before);
        assert(digits.drop_last() =~= whole.take(before as int));
        let place = (16 - count) as nat;
        let weight = number::hex_weight(place);
        lemma_weight(place);
        let higher = value as nat / number::hex_weight(place + 1);
        let here = value as nat / weight;
        assert(number::hex_weight(place + 1) == 16 * weight);
        assert(higher == here / 16) by (nonlinear_arith)
            requires
                weight > 0,
                higher == value as nat / (16 * weight),
                here == value as nat / weight,
        {
            vstd::arithmetic::div_mod::lemma_div_denominator(
                value as int,
                weight as int,
                16,
            );
            assert(weight * 16 == 16 * weight);
        }
        let digit = (here % 16) as u8;
        assert(digits.last() == number::hex_digit_of(digit));
        hexadecimal_digits_are_lower_case(digit);
        assert(here == 16 * (here / 16) + here % 16);
    }
}

/// A place counts for something.
proof fn lemma_weight(place: nat)
    ensures
        number::hex_weight(place) > 0,
    decreases place,
{
    if place > 0 {
        lemma_weight((place - 1) as nat);
    }
}

/// A number is written in sixteen hexadecimal digits, which stand for it.
pub proof fn hexadecimal_numbers_are_read_back(value: u64)
    ensures
        number::hex_number(value).len() == 16,
        hexadecimal_value(number::hex_number(value)) == value as nat,
{
    lemma_hexadecimal(value, 16);
    assert(number::hex_number(value).take(16) =~= number::hex_number(value));
    assert(number::hex_weight(0) == 1);
    assert(value as nat / 1 == value as nat);
}

/// Capital ASCII letters become small ones, and everything else stays as it is.
pub proof fn capital_letters_become_small(place: u32, character: char)
    requires
        place < 26,
    ensures
        text::lower((65 + place) as char) == (97 + place) as char,
        !('A' <= character <= 'Z') ==> text::lower(character) == character,
        text::lower(text::lower(character)) == text::lower(character),
{
}

/// White space is what Unicode calls so.
pub proof fn white_space_is_that_of_unicode(character: char)
    ensures
        text::is_white(character) <==> {
            let code = character as u32;
            ||| 0x9 <= code <= 0xd
            ||| code == 0x20 || code == 0x85 || code == 0xa0 || code == 0x1680
            ||| 0x2000 <= code <= 0x200a
            ||| code == 0x2028 || code == 0x2029 || code == 0x202f || code == 0x205f || code
                == 0x3000
        },
{
}

}
