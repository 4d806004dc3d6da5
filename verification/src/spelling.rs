//! What is written as a literal is what the literal denotes.

use vstd::prelude::*;

use crate::chain::Chain;
use crate::literals::{
    decimal_number, escape, four_digits, hex_digit, literal_int, literal_text, scalar, unescaped,
};
use crate::rendering::{decimal, digit};

verus! {

proof fn lemma_digit(value: nat)
    requires
        value < 10,
    ensures
        '0' <= digit(value) <= '9',
        digit(value) as int - '0' as int == value,
{
}

proof fn lemma_one_more(chars: Seq<char>, c: char, position: int, value: int)
    requires
        0 <= position <= chars.len(),
        '0' <= c <= '9',
    ensures
        decimal_number(chars.push(c), position, value) == match decimal_number(
            chars,
            position,
            value,
        ) {
            Some(number) => Some(number * 10 + (c as int - '0' as int)),
            None => None,
        },
    decreases chars.len() - position,
{
    reveal_with_fuel(decimal_number, 3);
    let longer = chars.push(c);
    if position < chars.len() {
        assert(longer[position] == chars[position]);
        if '0' <= chars[position] <= '9' {
            lemma_one_more(
                chars,
                c,
                position + 1,
                value * 10 + (chars[position] as int - '0' as int),
            );
        }
    } else {
        assert(longer[position] == c);
    }
}

proof fn lemma_behind(front: Seq<char>, chars: Seq<char>, position: int, value: int)
    requires
        0 <= position <= chars.len(),
    ensures
        decimal_number(front + chars, front.len() + position, value) == decimal_number(
            chars,
            position,
            value,
        ),
    decreases chars.len() - position,
{
    if position < chars.len() {
        assert((front + chars)[front.len() + position] == chars[position]);
        lemma_behind(
            front,
            chars,
            position + 1,
            value * 10 + (chars[position] as int - '0' as int),
        );
    }
}

proof fn lemma_decimal(value: nat)
    ensures
        decimal_number(decimal(value), 0, 0) == Some(value as int),
        decimal(value).len() > 0,
        '0' <= decimal(value)[0] <= '9',
    decreases value,
{
    reveal_with_fuel(decimal_number, 3);
    lemma_digit(value % 10);
    if value >= 10 {
        lemma_decimal(value / 10);
        let chars = decimal(value / 10);
        lemma_one_more(chars, digit(value % 10), 0, 0);
        assert(decimal(value) == chars.push(digit(value % 10)));
        assert(decimal(value)[0] == chars[0]);
        assert(value == value / 10 * 10 + value % 10);
    } else {
        lemma_digit(value);
    }
}

/// The digits of a number denote the number, behind a minus sign its opposite,
/// and behind a plus sign the number again, wherever that fits; nothing is
/// denoted otherwise.
pub proof fn law_digits_denote(value: nat)
    ensures
        literal_int(decimal(value)) == if value <= 0x7fff_ffff_ffff_ffff {
            Some(value as i64)
        } else {
            None
        },
        literal_int(seq!['+'] + decimal(value)) == if value <= 0x7fff_ffff_ffff_ffff {
            Some(value as i64)
        } else {
            None
        },
        literal_int(seq!['-'] + decimal(value)) == if value <= 0x8000_0000_0000_0000 {
            Some((-value) as i64)
        } else {
            None
        },
        literal_int(seq![]) is None,
        literal_int(seq!['-']) is None,
        literal_int(seq!['+']) is None,
{
    lemma_decimal(value);
    let plus = seq!['+'] + decimal(value);
    let minus = seq!['-'] + decimal(value);
    lemma_behind(seq!['+'], decimal(value), 0, 0);
    lemma_behind(seq!['-'], decimal(value), 0, 0);
    assert(plus[0] == '+' && minus[0] == '-');
}

/// A text with anything but digits behind its sign denotes no number.
pub proof fn law_only_digits_denote(chars: Seq<char>, index: int)
    requires
        0 <= index < chars.len(),
        !('0' <= chars[index] <= '9'),
        index > 0 || chars[0] != '-' && chars[0] != '+',
    ensures
        literal_int(chars) is None,
{
    lemma_not_digit(chars, 0, 0, index);
    if index > 0 {
        lemma_not_digit(chars, 1, 0, index);
    }
}

proof fn lemma_not_digit(chars: Seq<char>, position: int, value: int, index: int)
    requires
        0 <= position <= index < chars.len(),
        !('0' <= chars[index] <= '9'),
    ensures
        decimal_number(chars, position, value) is None,
    decreases index - position,
{
    if position < index && '0' <= chars[position] <= '9' {
        lemma_not_digit(
            chars,
            position + 1,
            value * 10 + (chars[position] as int - '0' as int),
            index,
        );
    }
}

proof fn lemma_plain(chars: Seq<char>, position: int, decoded: Chain<char>)
    requires
        0 <= position <= chars.len(),
        forall|i: int| 0 <= i < chars.len() ==> chars[i] != '\\',
    ensures
        match unescaped(chars, position, decoded) {
            Some(text) => text.seq() == decoded.seq() + chars.subrange(
                position,
                chars.len() as int,
            ),
            None => false,
        },
    decreases chars.len() - position,
{
    if position < chars.len() {
        let next = decoded.pushed(chars[position]);
        lemma_plain(chars, position + 1, next);
        assert(next.seq() == decoded.seq().push(chars[position]));
        assert(chars.subrange(position, chars.len() as int) =~= seq![chars[position]]
            + chars.subrange(position + 1, chars.len() as int));
        assert(decoded.seq().push(chars[position]) + chars.subrange(
            position + 1,
            chars.len() as int,
        ) =~= decoded.seq() + chars.subrange(position, chars.len() as int));
    } else {
        assert(decoded.seq() + chars.subrange(position, chars.len() as int) =~= decoded.seq());
    }
}

/// A text without backslashes, in quotation marks, denotes itself.
pub proof fn law_plain_texts_denote_themselves(chars: Seq<char>)
    requires
        forall|i: int| 0 <= i < chars.len() ==> chars[i] != '\\',
    ensures
        match literal_text(seq!['"'] + chars + seq!['"']) {
            Some(text) => text.seq() == chars,
            None => false,
        },
{
    let source = seq!['"'] + chars + seq!['"'];
    assert(source.subrange(1, source.len() - 1) =~= chars);
    lemma_plain(chars, 0, Chain::Empty);
    assert(chars.subrange(0, chars.len() as int) =~= chars);
    let none: Chain<char> = Chain::Empty;
    assert(none.seq() + chars =~= chars);
}

/// What is not in quotation marks denotes no text.
pub proof fn law_texts_are_quoted(source: Seq<char>)
    ensures
        literal_text(source) is Some ==> source.len() >= 2 && source[0] == '"' && source.last()
            == '"',
{
}

/// Each escape stands for one character: itself, or the control character that
/// its letter names. No other letter is an escape.
pub proof fn law_escapes(chars: Seq<char>, position: int)
    requires
        0 <= position < chars.len(),
        chars[position] != 'u',
    ensures
        ({
            let c = chars[position];
            let stands = escape(chars, position);
            &&& c == '"' ==> stands == Some(('"', position + 1))
            &&& c == '\\' ==> stands == Some(('\\', position + 1))
            &&& c == '/' ==> stands == Some(('/', position + 1))
            &&& c == 'b' ==> stands == Some(('\u{8}', position + 1))
            &&& c == 'f' ==> stands == Some(('\u{c}', position + 1))
            &&& c == 'n' ==> stands == Some(('\n', position + 1))
            &&& c == 'r' ==> stands == Some(('\r', position + 1))
            &&& c == 't' ==> stands == Some(('\t', position + 1))
            &&& c == '0' ==> stands == Some(('\0', position + 1))
            &&& stands is Some ==> c == '"' || c == '\\' || c == '/' || c == 'b' || c == 'f' || c
                == 'n' || c == 'r' || c == 't' || c == '0'
        }),
{
}

/// Four hexadecimal digits that are no surrogate stand for the character with
/// that number.
pub proof fn law_numbered_escapes(chars: Seq<char>, position: int, number: int)
    requires
        0 <= position,
        position + 5 <= chars.len(),
        chars[position] == 'u',
        chars[position + 1] != '{',
        four_digits(chars, position + 1) == Some(number as u32),
        0 <= number < 0xd800 || 0xe000 <= number <= 0xffff,
    ensures
        match escape(chars, position) {
            Some((c, next)) => c as int == number && next == position + 5,
            None => false,
        },
{
    let value = number as u32;
    assert(value == number);
    assert((value as char) as u32 == value) by {
        assert(scalar(value) == Some(value as char));
    }
}

/// The digits of base sixteen, in either case.
pub proof fn law_hex_digits(c: char)
    ensures
        match hex_digit(c) {
            Some(value) => value < 16 && (value < 10 ==> c as int == '0' as int + value) && (value
                >= 10 ==> c as int == 'a' as int + value - 10 || c as int == 'A' as int + value - 10),
            None => !('0' <= c <= '9') && !('a' <= c <= 'f') && !('A' <= c <= 'F'),
        },
{
}

} // verus!
