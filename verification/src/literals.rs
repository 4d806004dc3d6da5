//! The values that literals denote.

use vstd::prelude::*;
#[allow(unused_imports)]
use vstd::std_specs::iter::IteratorSpec;

use crate::chain::Chain;

verus! {

/// The characters of a text as a list.
pub open spec fn text_of(chars: Seq<char>) -> Chain<char>
    decreases chars.len(),
{
    if chars.len() == 0 {
        Chain::Empty
    } else {
        text_of(chars.drop_last()).pushed(chars.last())
    }
}

/// The characters of a text.
pub fn text_chars(text: &str) -> (chars: Vec<char>)
    ensures
        chars@ == text@,
{
    let mut chars: Vec<char> = Vec::new();
    for item in iter: text.chars()
        invariant
            chars@ == iter.seq().take(iter.index()),
            iter.seq() == text@,
    {
        chars.push(item);
    }
    chars
}

/// The value of a hexadecimal digit.
pub open spec fn hex_digit(c: char) -> Option<u32> {
    if '0' <= c <= '9' {
        Some((c as u32 - '0' as u32) as u32)
    } else if 'a' <= c <= 'f' {
        Some((c as u32 - 'a' as u32 + 10) as u32)
    } else if 'A' <= c <= 'F' {
        Some((c as u32 - 'A' as u32 + 10) as u32)
    } else {
        None
    }
}

fn read_hex_digit(c: char) -> (digit: Option<u32>)
    ensures
        digit == hex_digit(c),
        digit is Some ==> digit->0 < 16,
{
    if '0' <= c && c <= '9' {
        Some(c as u32 - '0' as u32)
    } else if 'a' <= c && c <= 'f' {
        Some(c as u32 - 'a' as u32 + 10)
    } else if 'A' <= c && c <= 'F' {
        Some(c as u32 - 'A' as u32 + 10)
    } else {
        None
    }
}

/// Whether a number is that of a character.
pub open spec fn is_scalar(value: u32) -> bool {
    value < 0xd800 || 0xe000 <= value <= 0x10ffff
}

/// The character with a number.
pub open spec fn scalar(value: u32) -> Option<char> {
    if is_scalar(value) {
        Some(value as char)
    } else {
        None
    }
}

/// `char::from_u32` gives the character with a number, or `None` if no
/// character has it: above 0x10ffff, and among the surrogates.
#[verifier::external_body]
fn read_scalar(value: u32) -> (result: Option<char>)
    ensures
        result == scalar(value),
{
    char::from_u32(value)
}

/// The number that hexadecimal digits `from..to` denote after `value`, if it
/// fits in 32 bits.
pub open spec fn hex_number(chars: Seq<char>, from: int, to: int, value: int) -> Option<u32>
    decreases to - from,
{
    if value > u32::MAX {
        None
    } else if from >= to {
        Some(value as u32)
    } else {
        match hex_digit(chars[from]) {
            None => None,
            Some(digit) => hex_number(chars, from + 1, to, value * 16 + digit),
        }
    }
}

fn read_hex_number(chars: &Vec<char>, from: usize, to: usize) -> (result: Option<u32>)
    requires
        from <= to <= chars@.len(),
    ensures
        result == hex_number(chars@, from as int, to as int, 0),
{
    let mut value: u64 = 0;
    let mut position: usize = from;
    while position < to
        invariant
            from <= position <= to <= chars@.len(),
            value <= u32::MAX,
            hex_number(chars@, from as int, to as int, 0) == hex_number(
                chars@,
                position as int,
                to as int,
                value as int,
            ),
        decreases to - position,
    {
        match read_hex_digit(chars[position]) {
            None => {
                return None;
            },
            Some(digit) => {
                value = value * 16 + digit as u64;
            },
        }
        position = position + 1;
        if value > u32::MAX as u64 {
            return None;
        }
    }
    Some(value as u32)
}

/// The position of the first `}` at or after `position`.
pub open spec fn closing_brace(chars: Seq<char>, position: int) -> Option<int>
    decreases chars.len() - position,
{
    if position < 0 || position >= chars.len() {
        None
    } else if chars[position] == '}' {
        Some(position)
    } else {
        closing_brace(chars, position + 1)
    }
}

fn find_closing_brace(chars: &Vec<char>, from: usize) -> (result: Option<usize>)
    requires
        from <= chars@.len(),
    ensures
        match result {
            Some(found) => closing_brace(chars@, from as int) == Some(found as int) && from
                <= found < chars@.len(),
            None => closing_brace(chars@, from as int) is None,
        },
{
    let mut position: usize = from;
    while position < chars.len()
        invariant
            from <= position <= chars@.len(),
            closing_brace(chars@, from as int) == closing_brace(chars@, position as int),
        decreases chars@.len() - position,
    {
        if chars[position] == '}' {
            return Some(position);
        }
        position = position + 1;
    }
    None
}

/// The character of a unicode escape whose text starts at `position`, behind
/// the `u`, and the position behind the escape: a number in braces, or four
/// digits, or two surrogates of four digits each.
pub open spec fn unicode_escape(chars: Seq<char>, position: int) -> Option<(char, int)> {
    if position < chars.len() && chars[position] == '{' {
        match closing_brace(chars, position + 1) {
            None => None,
            Some(close) => {
                let signed = position + 1 < close && chars[position + 1] == '+';
                let first = if signed {
                    position + 2
                } else {
                    position + 1
                };
                if first >= close {
                    None
                } else {
                    match hex_number(chars, first, close, 0) {
                        None => None,
                        Some(value) => match scalar(value) {
                            None => None,
                            Some(c) => Some((c, close + 1)),
                        },
                    }
                }
            },
        }
    } else {
        match four_digits(chars, position) {
            None => None,
            Some(first) => if !(0xd800 <= first <= 0xdfff) {
                match scalar(first) {
                    None => None,
                    Some(c) => Some((c, position + 4)),
                }
            } else if !(0xd800 <= first <= 0xdbff) {
                None
            } else if position + 6 > chars.len() || chars[position + 4] != '\\' || chars[position
                + 5] != 'u' {
                None
            } else {
                match four_digits(chars, position + 6) {
                    None => None,
                    Some(second) => if !(0xdc00 <= second <= 0xdfff) {
                        None
                    } else {
                        match scalar(
                            (0x1_0000 + (first - 0xd800) * 0x400 + (second - 0xdc00)) as u32,
                        ) {
                            None => None,
                            Some(c) => Some((c, position + 10)),
                        }
                    },
                }
            },
        }
    }
}

/// The number that the four hexadecimal digits at `position` denote.
pub open spec fn four_digits(chars: Seq<char>, position: int) -> Option<u32> {
    if position < 0 || position + 4 > chars.len() {
        None
    } else {
        match (
            hex_digit(chars[position]),
            hex_digit(chars[position + 1]),
            hex_digit(chars[position + 2]),
            hex_digit(chars[position + 3]),
        ) {
            (Some(a), Some(b), Some(c), Some(d)) => Some(
                (a * 0x1000 + b * 0x100 + c * 0x10 + d) as u32,
            ),
            _ => None,
        }
    }
}

fn read_four_digits(chars: &Vec<char>, position: usize) -> (result: Option<u32>)
    ensures
        result == four_digits(chars@, position as int),
        result is Some ==> result->0 <= 0xffff && position + 4 <= chars@.len(),
{
    if chars.len() < 4 || position > chars.len() - 4 {
        return None;
    }
    match (
        read_hex_digit(chars[position]),
        read_hex_digit(chars[position + 1]),
        read_hex_digit(chars[position + 2]),
        read_hex_digit(chars[position + 3]),
    ) {
        (Some(a), Some(b), Some(c), Some(d)) => Some(a * 0x1000 + b * 0x100 + c * 0x10 + d),
        _ => None,
    }
}

/// Reads a unicode escape whose text starts at `position`, behind the `u`.
pub fn decode_constant_unicode_escape(chars: &Vec<char>, position: usize) -> (result: Option<
    (char, usize),
>)
    requires
        position <= chars@.len(),
    ensures
        match result {
            Some((c, next)) => unicode_escape(chars@, position as int) == Some((c, next as int))
                && position < next <= chars@.len(),
            None => unicode_escape(chars@, position as int) is None,
        },
{
    if position < chars.len() && chars[position] == '{' {
        match find_closing_brace(chars, position + 1) {
            None => None,
            Some(close) => {
                let signed = position + 1 < close && chars[position + 1] == '+';
                let first: usize = if signed {
                    position + 2
                } else {
                    position + 1
                };
                if first >= close {
                    return None;
                }
                match read_hex_number(chars, first, close) {
                    None => None,
                    Some(value) => match read_scalar(value) {
                        None => None,
                        Some(c) => Some((c, close + 1)),
                    },
                }
            },
        }
    } else {
        match read_four_digits(chars, position) {
            None => None,
            Some(first) => if !(0xd800 <= first && first <= 0xdfff) {
                match read_scalar(first) {
                    None => None,
                    Some(c) => Some((c, position + 4)),
                }
            } else if !(first <= 0xdbff) {
                None
            } else if chars.len() - position < 6 || chars[position + 4] != '\\' || chars[position
                + 5] != 'u' {
                None
            } else {
                match read_four_digits(chars, position + 6) {
                    None => None,
                    Some(second) => if !(0xdc00 <= second && second <= 0xdfff) {
                        None
                    } else {
                        match read_scalar(
                            0x1_0000 + (first - 0xd800) * 0x400 + (second - 0xdc00),
                        ) {
                            None => None,
                            Some(c) => Some((c, position + 10)),
                        }
                    },
                }
            },
        }
    }
}

/// The character that a one-letter escape stands for.
pub open spec fn simple_escape(c: char) -> Option<char> {
    if c == '"' {
        Some('"')
    } else if c == '\\' {
        Some('\\')
    } else if c == '/' {
        Some('/')
    } else if c == 'b' {
        Some('\u{8}')
    } else if c == 'f' {
        Some('\u{c}')
    } else if c == 'n' {
        Some('\n')
    } else if c == 'r' {
        Some('\r')
    } else if c == 't' {
        Some('\t')
    } else if c == '0' {
        Some('\0')
    } else {
        None
    }
}

fn read_simple_escape(c: char) -> (result: Option<char>)
    ensures
        result == simple_escape(c),
{
    if c == '"' {
        Some('"')
    } else if c == '\\' {
        Some('\\')
    } else if c == '/' {
        Some('/')
    } else if c == 'b' {
        Some('\u{8}')
    } else if c == 'f' {
        Some('\u{c}')
    } else if c == 'n' {
        Some('\n')
    } else if c == 'r' {
        Some('\r')
    } else if c == 't' {
        Some('\t')
    } else if c == '0' {
        Some('\0')
    } else {
        None
    }
}

/// The character of an escape whose text starts at `position`, behind the
/// backslash, and the position behind the escape.
pub open spec fn escape(chars: Seq<char>, position: int) -> Option<(char, int)> {
    if position >= chars.len() {
        None
    } else if chars[position] == 'u' {
        unicode_escape(chars, position + 1)
    } else {
        match simple_escape(chars[position]) {
            None => None,
            Some(c) => Some((c, position + 1)),
        }
    }
}

/// What `decoded` has, and then the text from `position` on with its escapes
/// replaced.
pub open spec fn unescaped(chars: Seq<char>, position: int, decoded: Chain<char>) -> Option<
    Chain<char>,
>
    decreases chars.len() - position,
{
    if position >= chars.len() {
        Some(decoded)
    } else if chars[position] != '\\' {
        unescaped(chars, position + 1, decoded.pushed(chars[position]))
    } else {
        match escape(chars, position + 1) {
            None => None,
            Some((c, next)) => if position < next <= chars.len() {
                unescaped(chars, next, decoded.pushed(c))
            } else {
                None
            },
        }
    }
}

/// The text that a literal in quotation marks denotes.
pub open spec fn literal_text(source: Seq<char>) -> Option<Chain<char>> {
    if source.len() < 2 || source[0] != '"' || source.last() != '"' {
        None
    } else {
        unescaped(source.subrange(1, source.len() - 1), 0, Chain::Empty)
    }
}

/// Reads the text that a literal in quotation marks denotes.
pub fn decode_constant_text(source: &str) -> (result: Result<Chain<char>, ()>)
    ensures
        match result {
            Ok(text) => literal_text(source@) == Some(text),
            Err(()) => literal_text(source@) is None,
        },
{
    let all = text_chars(source);
    if all.len() < 2 || all[0] != '"' || all[all.len() - 1] != '"' {
        return Err(());
    }
    let mut chars: Vec<char> = Vec::new();
    let mut index: usize = 1;
    while index < all.len() - 1
        invariant
            1 <= index <= all@.len() - 1,
            chars@ == all@.subrange(1, index as int),
        decreases all@.len() - index,
    {
        chars.push(all[index]);
        index = index + 1;
    }
    assert(chars@ =~= source@.subrange(1, source@.len() - 1));
    let mut decoded: Chain<char> = Chain::new();
    let mut position: usize = 0;
    while position < chars.len()
        invariant
            position <= chars@.len(),
            unescaped(chars@, 0, Chain::Empty) == unescaped(chars@, position as int, decoded),
            source@.len() >= 2,
            source@[0] == '"',
            source@.last() == '"',
            chars@ == source@.subrange(1, source@.len() - 1),
        decreases chars@.len() - position,
    {
        let c: char = chars[position];
        if c != '\\' {
            decoded.push(c);
            position = position + 1;
        } else if position + 1 >= chars.len() {
            return Err(());
        } else if chars[position + 1] == 'u' {
            match decode_constant_unicode_escape(&chars, position + 2) {
                None => {
                    return Err(());
                },
                Some((c, next)) => {
                    decoded.push(c);
                    position = next;
                },
            }
        } else {
            match read_simple_escape(chars[position + 1]) {
                None => {
                    return Err(());
                },
                Some(c) => {
                    decoded.push(c);
                    position = position + 2;
                },
            }
        }
    }
    Ok(decoded)
}

/// The number that decimal digits from `position` on denote after `value`.
pub open spec fn decimal_number(chars: Seq<char>, position: int, value: int) -> Option<int>
    decreases chars.len() - position,
{
    if position >= chars.len() {
        Some(value)
    } else if '0' <= chars[position] <= '9' {
        decimal_number(chars, position + 1, value * 10 + (chars[position] as int - '0' as int))
    } else {
        None
    }
}

/// The integer that a text denotes: decimal digits behind an optional sign, in
/// the range of `i64`.
pub open spec fn literal_int(chars: Seq<char>) -> Option<i64> {
    let signed = chars.len() > 0 && (chars[0] == '-' || chars[0] == '+');
    let first: int = if signed {
        1
    } else {
        0
    };
    if first >= chars.len() {
        None
    } else {
        match decimal_number(chars, first, 0) {
            None => None,
            Some(magnitude) => {
                let value = if chars[0] == '-' {
                    -magnitude
                } else {
                    magnitude
                };
                if i64::MIN <= value <= i64::MAX {
                    Some(value as i64)
                } else {
                    None
                }
            },
        }
    }
}

proof fn lemma_decimal_grows(chars: Seq<char>, position: int, value: int)
    requires
        0 <= position,
        0 <= value,
        decimal_number(chars, position, value) is Some,
    ensures
        decimal_number(chars, position, value)->0 >= value,
    decreases chars.len() - position,
{
    if position < chars.len() {
        lemma_decimal_grows(
            chars,
            position + 1,
            value * 10 + (chars[position] as int - '0' as int),
        );
    }
}

/// Reads the integer that a text denotes.
pub fn parse_int(text: &str) -> (result: Option<i64>)
    ensures
        result == literal_int(text@),
{
    let chars = text_chars(text);
    if chars.len() == 0 {
        return None;
    }
    let negative = chars[0] == '-';
    let signed = negative || chars[0] == '+';
    let first: usize = if signed {
        1
    } else {
        0
    };
    if first >= chars.len() {
        return None;
    }
    let mut value: u64 = 0;
    let mut large = false;
    let mut position: usize = first;
    while position < chars.len()
        invariant
            first <= position <= chars@.len(),
            chars@ == text@,
            first < chars@.len(),
            first == if chars@[0] == '-' || chars@[0] == '+' {
                1int
            } else {
                0int
            },
            value <= 0x8000_0000_0000_0000,
            !large ==> decimal_number(chars@, first as int, 0) == decimal_number(
                chars@,
                position as int,
                value as int,
            ),
            large ==> (decimal_number(chars@, first as int, 0) is Some ==> decimal_number(
                chars@,
                first as int,
                0,
            )->0 > 0x8000_0000_0000_0000) && (decimal_number(chars@, position as int, 0) is None
                <==> decimal_number(chars@, first as int, 0) is None),
        decreases chars@.len() - position,
    {
        let c: char = chars[position];
        if !('0' <= c && c <= '9') {
            return None;
        }
        let digit: u64 = (c as u32 - '0' as u32) as u64;
        if !large {
            if value > 922337203685477580 || value * 10 + digit > 0x8000_0000_0000_0000 {
                proof {
                    let next = value as int * 10 + digit as int;
                    assert(decimal_number(chars@, position as int, value as int)
                        == decimal_number(chars@, position as int + 1, next));
                    if decimal_number(chars@, position as int + 1, next) is Some {
                        lemma_decimal_grows(chars@, position as int + 1, next);
                    }
                    lemma_decimal_shape(chars@, position as int + 1, next, 0);
                }
                large = true;
            } else {
                value = value * 10 + digit;
            }
        } else {
            proof {
                lemma_decimal_shape(
                    chars@,
                    position as int + 1,
                    0 * 10 + (chars@[position as int] as int - '0' as int),
                    0,
                );
            }
        }
        position = position + 1;
    }
    if large {
        return None;
    }
    if negative {
        if value == 0x8000_0000_0000_0000 {
            Some(i64::MIN)
        } else {
            Some(-(value as i64))
        }
    } else if value == 0x8000_0000_0000_0000 {
        None
    } else {
        Some(value as i64)
    }
}

/// Whether the characters are digits does not depend on what came before.
proof fn lemma_decimal_shape(chars: Seq<char>, position: int, left: int, right: int)
    ensures
        decimal_number(chars, position, left) is None <==> decimal_number(
            chars,
            position,
            right,
        ) is None,
    decreases chars.len() - position,
{
    if position < chars.len() && '0' <= chars[position] <= '9' {
        let digit = chars[position] as int - '0' as int;
        lemma_decimal_shape(chars, position + 1, left * 10 + digit, right * 10 + digit);
    }
}

} // verus!
