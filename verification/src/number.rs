//! Reading a kit number: an unsigned number of eight bits, written in
//! decimal, or in hexadecimal after `0x`.

use vstd::prelude::*;
use vstd::string::is_ascii_spec_bytes;

verus! {

/// The ASCII codes of the characters that a number's text is made of.
const ZERO: u8 = 48;

const NINE: u8 = 57;

const UPPER_A: u8 = 65;

const UPPER_F: u8 = 70;

const LOWER_A: u8 = 97;

const LOWER_F: u8 = 102;

const LOWER_X: u8 = 120;

const PLUS: u8 = 43;

/// The value of a character as a digit in the given radix, which is 10 or
/// 16. Hexadecimal digits may be written in either case.
pub open spec fn digit_of(c: char, radix: int) -> Option<int> {
    if '0' <= c <= '9' {
        Some(c as int - '0' as int)
    } else if radix == 16 && 'a' <= c <= 'f' {
        Some(c as int - 'a' as int + 10)
    } else if radix == 16 && 'A' <= c <= 'F' {
        Some(c as int - 'A' as int + 10)
    } else {
        None
    }
}

/// Every character is a digit in the given radix.
pub open spec fn all_digits(digits: Seq<char>, radix: int) -> bool {
    forall|i: int| 0 <= i < digits.len() ==> digit_of(#[trigger] digits[i], radix) is Some
}

/// The number that a sequence of digits denotes in the given radix.
pub open spec fn digits_value(digits: Seq<char>, radix: int) -> int
    decreases digits.len(),
{
    if digits.len() == 0 {
        0
    } else {
        digits_value(digits.drop_last(), radix) * radix + match digit_of(digits.last(), radix) {
            Some(d) => d,
            None => 0,
        }
    }
}

/// The digits of a number's text: the text without a `+` in front.
pub open spec fn unsigned_part(text: Seq<char>) -> Seq<char> {
    if text.len() > 0 && text[0] == '+' {
        text.skip(1)
    } else {
        text
    }
}

/// The number of eight bits that a text denotes in the given radix: the
/// text is an optional `+` and then at least one digit and nothing else, and
/// the number is at most 255.
pub open spec fn number_of(text: Seq<char>, radix: int) -> Option<u8> {
    let digits = unsigned_part(text);
    if digits.len() > 0 && all_digits(digits, radix) && digits_value(digits, radix) <= 255 {
        Some(digits_value(digits, radix) as u8)
    } else {
        None
    }
}

/// Whether a text starts with `0x`.
pub open spec fn has_hex_prefix(text: Seq<char>) -> bool {
    text.len() >= 2 && text[0] == '0' && text[1] == 'x'
}

/// The kit number that a cell holds: a hexadecimal number after `0x`, and a
/// decimal number otherwise.
pub open spec fn kit_number_of(text: Seq<char>) -> Option<u8> {
    if has_hex_prefix(text) {
        number_of(text.skip(2), 16)
    } else {
        number_of(text, 10)
    }
}

/// A longer sequence of digits denotes no smaller number.
proof fn lemma_value_grows(digits: Seq<char>, radix: int, upto: int)
    requires
        radix == 10 || radix == 16,
        0 <= upto <= digits.len(),
    ensures
        0 <= digits_value(digits.take(upto), radix) <= digits_value(digits, radix),
    decreases digits.len() - upto,
{
    lemma_value_bounds(digits.take(upto), radix);
    if upto < digits.len() {
        lemma_value_grows(digits, radix, upto + 1);
        assert(digits.take(upto + 1).drop_last() =~= digits.take(upto));
    } else {
        assert(digits.take(upto) =~= digits);
    }
}

/// The number that digits denote is not negative.
proof fn lemma_value_bounds(digits: Seq<char>, radix: int)
    requires
        radix == 10 || radix == 16,
    ensures
        0 <= digits_value(digits, radix),
    decreases digits.len(),
{
    if digits.len() > 0 {
        lemma_value_bounds(digits.drop_last(), radix);
    }
}

/// A text that denotes a number holds ASCII characters only.
proof fn lemma_number_is_ascii(text: Seq<char>, radix: int)
    requires
        number_of(text, radix) is Some,
    ensures
        vstd::utf8::is_ascii_chars(text),
{
    let digits = unsigned_part(text);
    assert forall|i: int| 0 <= i < text.len() implies '\0' <= #[trigger] text[i] <= '\u{7f}' by {
        if text[0] == '+' && i > 0 {
            assert(digit_of(digits[i - 1], radix) is Some);
        }
    }
}

/// A cell that holds a kit number holds ASCII characters only.
pub proof fn lemma_kit_number_is_ascii(text: Seq<char>)
    requires
        kit_number_of(text) is Some,
    ensures
        vstd::utf8::is_ascii_chars(text),
{
    if has_hex_prefix(text) {
        let rest = text.skip(2);
        lemma_number_is_ascii(rest, 16);
        assert forall|i: int| 0 <= i < text.len() implies '\0' <= #[trigger] text[i]
            <= '\u{7f}' by {
            if i >= 2 {
                assert(rest[i - 2] == text[i]);
            }
        }
    } else {
        lemma_number_is_ascii(text, 10);
    }
}

/// The bytes of a text whose characters are all ASCII: one byte for each
/// character, with the character's code.
pub open spec fn ascii_bytes(text: Seq<char>, bytes: Seq<u8>) -> bool {
    &&& bytes.len() == text.len()
    &&& forall|i: int|
        0 <= i < text.len() ==> (#[trigger] text[i]) as int == bytes[i] as int && bytes[i] < 128
}

/// Reads the digit that the byte of an ASCII character stands for.
fn digit(byte: u8, hex: bool, c: Ghost<char>) -> (out: Option<u8>)
    requires
        byte as int == c@ as int,
    ensures
        match out {
            Some(d) => digit_of(c@, if hex { 16 } else { 10 }) == Some(d as int) && d < 16,
            None => digit_of(c@, if hex { 16 } else { 10 }) is None,
        },
{
    if ZERO <= byte && byte <= NINE {
        Some(byte - ZERO)
    } else if hex && LOWER_A <= byte && byte <= LOWER_F {
        Some(byte - LOWER_A + 10)
    } else if hex && UPPER_A <= byte && byte <= UPPER_F {
        Some(byte - UPPER_A + 10)
    } else {
        None
    }
}

/// Reads the number that the bytes from `start` on denote.
fn parse_number(bytes: &[u8], start: usize, hex: bool, chars: Ghost<Seq<char>>) -> (out: Option<u8>)
    requires
        start <= bytes.len(),
        ascii_bytes(chars@, bytes@),
    ensures
        out == number_of(chars@.skip(start as int), if hex { 16 } else { 10 }),
{
    let ghost text = chars@;
    let ghost radix: int = if hex { 16 } else { 10 };
    let ghost body = text.skip(start as int);
    let mut i: usize = start;
    if i < bytes.len() && bytes[i] == PLUS {
        i += 1;
    }
    let ghost digits = unsigned_part(body);
    let first = i;
    if i == bytes.len() {
        return None;
    }
    let mut value: u8 = 0;
    while i < bytes.len()
        invariant
            first <= i <= bytes.len(),
            ascii_bytes(text, bytes@),
            radix == (if hex { 16int } else { 10int }),
            text == chars@,
            digits == text.skip(first as int),
            digits == unsigned_part(text.skip(start as int)),
            all_digits(digits.take(i - first), radix),
            value == digits_value(digits.take(i - first), radix),
        decreases bytes.len() - i,
    {
        let ghost seen = digits.take(i - first);
        let ghost next = digits.take(i - first + 1);
        proof {
            assert(next.drop_last() =~= seen);
            assert(digits[i - first] == text[i as int]);
        }
        let d = match digit(bytes[i], hex, Ghost(text[i as int])) {
            Some(d) => d,
            None => {
                return None;
            },
        };
        let scaled: u16 = if hex {
            value as u16 * 16
        } else {
            value as u16 * 10
        };
        let total: u16 = scaled + d as u16;
        if total > 255 {
            proof {
                lemma_value_grows(digits, radix, i - first + 1);
            }
            return None;
        }
        value = total as u8;
        proof {
            assert forall|k: int| 0 <= k < next.len() implies digit_of(
                #[trigger] next[k],
                radix,
            ) is Some by {}
        }
        i += 1;
    }
    assert(digits.take(i - first) =~= digits);
    Some(value)
}

/// Reads the kit number that a cell holds.
pub fn parse_kit_number(text: &str) -> (out: Option<u8>)
    ensures
        out == kit_number_of(text@),
{
    if !text.is_ascii() {
        proof {
            if kit_number_of(text@) is Some {
                lemma_kit_number_is_ascii(text@);
            }
        }
        return None;
    }
    let bytes = text.as_bytes();
    proof {
        is_ascii_spec_bytes(text);
        assert forall|i: int| 0 <= i < text@.len() implies (#[trigger] text@[i]) as int
            == bytes@[i] as int && bytes@[i] < 128 by {}
    }
    if bytes.len() >= 2 && bytes[0] == ZERO && bytes[1] == LOWER_X {
        parse_number(bytes, 2, true, Ghost(text@))
    } else {
        proof {
            assert(text@.skip(0) =~= text@);
        }
        parse_number(bytes, 0, false, Ghost(text@))
    }
}

} // verus!
