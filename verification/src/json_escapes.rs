//! That a written text can be read back.

use vstd::prelude::*;

#[allow(unused_imports)]
use crate::chain::Chain;
#[allow(unused_imports)]
use crate::json_stage::{escaped, escaped_text, hex_char, quoted};
#[allow(unused_imports)]
use crate::literals::{
    escape, four_digits, hex_digit, literal_text, scalar, text_of, unescaped, unicode_escape,
};

verus! {

/// The value of a lower hexadecimal digit.
pub open spec fn hex_value(digit: char) -> int {
    if digit <= '9' {
        digit as int - '0' as int
    } else {
        digit as int - 'a' as int + 10
    }
}

/// The first character that a text inside quotes stands for, and how many
/// characters it is written with.
pub open spec fn first_read(text: Seq<char>) -> (char, int) {
    if text[0] != '\\' {
        (text[0], 1)
    } else if text[1] == 'b' {
        ('\u{08}', 2)
    } else if text[1] == 'f' {
        ('\u{0c}', 2)
    } else if text[1] == 'n' {
        ('\n', 2)
    } else if text[1] == 'r' {
        ('\r', 2)
    } else if text[1] == 't' {
        ('\t', 2)
    } else if text[1] == 'u' {
        ((hex_value(text[4]) * 16 + hex_value(text[5])) as char, 6)
    } else {
        (text[1], 2)
    }
}

/// What a text inside quotes stands for.
pub open spec fn read_back(text: Seq<char>) -> Seq<char>
    decreases text.len(),
{
    let (first, length) = first_read(text);
    if text.len() == 0 || length > text.len() {
        Seq::empty()
    } else {
        seq![first] + read_back(text.skip(length))
    }
}

proof fn lemma_escaped_front(text: Seq<char>)
    requires
        text.len() > 0,
    ensures
        escaped_text(text) == escaped(text[0]) + escaped_text(text.drop_first()),
    decreases text.len(),
{
    if text.len() == 1 {
        assert(text.drop_last() =~= Seq::<char>::empty());
        assert(text.drop_first() =~= Seq::<char>::empty());
        assert(escaped_text(text.drop_last()) =~= Seq::<char>::empty());
        assert(escaped_text(text) =~= escaped(text[0]));
        assert(escaped_text(text) =~= escaped(text[0]) + escaped_text(text.drop_first()));
    } else {
        let shorter = text.drop_last();
        lemma_escaped_front(shorter);
        assert(shorter.drop_first() =~= text.drop_first().drop_last());
        assert(text.drop_first().last() == text.last());
        assert(escaped_text(text) =~= escaped(text[0]) + escaped_text(text.drop_first()));
    }
}

proof fn lemma_first_read(c: char, rest: Seq<char>)
    ensures
        escaped(c).len() > 0,
        first_read(escaped(c) + rest) == (c, escaped(c).len() as int),
{
    reveal_strlit("\\\"");
    reveal_strlit("\\\\");
    reveal_strlit("\\b");
    reveal_strlit("\\f");
    reveal_strlit("\\n");
    reveal_strlit("\\r");
    reveal_strlit("\\t");
    reveal_strlit("\\u00");
    let text = escaped(c) + rest;
    assert(text[0] == escaped(c)[0]);
    if c != '"' && c != '\\' && c != '\u{08}' && c != '\u{0c}' && c != '\n' && c != '\r' && c
        != '\t' && c <= '\u{1f}' {
        let high = c as int / 16;
        let low = c as int % 16;
        assert(0 <= high < 2);
        assert(0 <= low < 16);
        assert(escaped(c).len() == 6);
        assert(text[1] == 'u');
        assert(text[4] == hex_char(high));
        assert(text[5] == hex_char(low));
        assert(hex_value(hex_char(high)) == high);
        assert(hex_value(hex_char(low)) == low);
        assert(high * 16 + low == c as int);
    } else if escaped(c).len() == 2 {
        assert(text[1] == escaped(c)[1]);
    }
}

/// A text can be read back from how it is written inside quotes, so that two
/// texts are never written alike.
pub proof fn law_escaped_text_reads_back(text: Seq<char>)
    ensures
        read_back(escaped_text(text)) == text,
    decreases text.len(),
{
    if text.len() == 0 {
        assert(text =~= Seq::<char>::empty());
    } else {
        let rest = text.drop_first();
        let written = escaped_text(text);
        lemma_escaped_front(text);
        lemma_first_read(text[0], escaped_text(rest));
        law_escaped_text_reads_back(rest);
        let length = escaped(text[0]).len() as int;
        assert(written.skip(length) =~= escaped_text(rest));
        assert(seq![text[0]] + rest =~= text);
    }
}

proof fn lemma_escaped_is_printable(c: char)
    ensures
        forall|i: int| 0 <= i < escaped(c).len() ==> #[trigger] escaped(c)[i] >= ' ',
{
    reveal_strlit("\\\"");
    reveal_strlit("\\\\");
    reveal_strlit("\\b");
    reveal_strlit("\\f");
    reveal_strlit("\\n");
    reveal_strlit("\\r");
    reveal_strlit("\\t");
    reveal_strlit("\\u00");
    assert forall|i: int| 0 <= i < escaped(c).len() implies #[trigger] escaped(c)[i] >= ' ' by {
        if escaped(c).len() == 6 {
            if i == 4 {
                assert(escaped(c)[i] == hex_char(c as int / 16));
            } else if i == 5 {
                assert(escaped(c)[i] == hex_char(c as int % 16));
            }
        }
    }
}

/// A text inside quotes has no control characters.
pub proof fn law_escaped_text_is_printable(text: Seq<char>)
    ensures
        forall|i: int| 0 <= i < escaped_text(text).len() ==> #[trigger] escaped_text(text)[i]
            >= ' ',
    decreases text.len(),
{
    if text.len() > 0 {
        let shorter = text.drop_last();
        law_escaped_text_is_printable(shorter);
        lemma_escaped_is_printable(text.last());
        assert forall|i: int| 0 <= i < escaped_text(text).len() implies #[trigger] escaped_text(
            text,
        )[i] >= ' ' by {
            let before = escaped_text(shorter).len();
            if i < before {
                assert(escaped_text(text)[i] == escaped_text(shorter)[i]);
            } else {
                assert(escaped_text(text)[i] == escaped(text.last())[i - before]);
            }
        }
    }
}

proof fn lemma_decodes_one(chars: Seq<char>, position: int, c: char, decoded: Chain<char>)
    requires
        0 <= position,
        position + escaped(c).len() <= chars.len(),
        chars.subrange(position, position + escaped(c).len()) == escaped(c),
    ensures
        unescaped(chars, position, decoded) == unescaped(
            chars,
            position + escaped(c).len(),
            decoded.pushed(c),
        ),
{
    reveal_strlit("\\\"");
    reveal_strlit("\\\\");
    reveal_strlit("\\b");
    reveal_strlit("\\f");
    reveal_strlit("\\n");
    reveal_strlit("\\r");
    reveal_strlit("\\t");
    reveal_strlit("\\u00");
    let written = escaped(c);
    assert forall|i: int| 0 <= i < written.len() implies chars[position + i]
        == #[trigger] written[i] by {
        assert(chars.subrange(position, position + written.len())[i] == chars[position + i]);
    }
    assert(chars[position] == written[0]);
    if written.len() == 1 {
    } else if written.len() == 2 {
        assert(chars[position + 1] == written[1]);
        assert(escape(chars, position + 1) == Some((c, position + 2)));
    } else {
        let high = c as int / 16;
        let low = c as int % 16;
        assert(0 <= high < 2);
        assert(0 <= low < 16);
        assert(written.len() == 6);
        assert(chars[position + 1] == written[1]);
        assert(chars[position + 2] == written[2]);
        assert(chars[position + 3] == written[3]);
        assert(chars[position + 4] == written[4]);
        assert(chars[position + 5] == written[5]);
        assert(written[4] == hex_char(high));
        assert(written[5] == hex_char(low));
        assert(hex_digit(hex_char(high)) == Some(high as u32));
        assert(hex_digit(hex_char(low)) == Some(low as u32));
        assert(four_digits(chars, position + 2) == Some(c as u32));
        assert(scalar(c as u32) == Some(c));
        assert(unicode_escape(chars, position + 2) == Some((c, position + 6)));
        assert(escape(chars, position + 1) == Some((c, position + 6)));
    }
}

proof fn lemma_decodes_from(text: Seq<char>, count: int)
    requires
        0 <= count <= text.len(),
    ensures
        escaped_text(text.take(count)).len() <= escaped_text(text).len(),
        unescaped(
            escaped_text(text),
            escaped_text(text.take(count)).len() as int,
            text_of(text.take(count)),
        ) == Some(text_of(text)),
        escaped_text(text).take(escaped_text(text.take(count)).len() as int) == escaped_text(
            text.take(count),
        ),
    decreases text.len() - count,
{
    let written = escaped_text(text);
    if count == text.len() {
        assert(text.take(count) =~= text);
        assert(written.take(written.len() as int) =~= written);
    } else {
        let before = escaped_text(text.take(count));
        let longer = text.take(count + 1);
        lemma_decodes_from(text, count + 1);
        assert(longer.drop_last() =~= text.take(count));
        assert(longer.last() == text[count]);
        let behind = escaped_text(longer);
        assert(behind == before + escaped(text[count]));
        let start = before.len() as int;
        let end = behind.len() as int;
        assert(written.take(end) == behind);
        assert(written.take(start) =~= written.take(end).take(start));
        assert(written.take(end).take(start) =~= before);
        assert(written.subrange(start, end) =~= written.take(end).subrange(start, end));
        assert(behind.subrange(start, end) =~= escaped(text[count]));
        lemma_decodes_one(written, start, text[count], text_of(text.take(count)));
        assert(text_of(longer) == text_of(text.take(count)).pushed(text[count]));
    }
}

/// A text that is written in quotes is a literal that denotes the text.
pub proof fn law_quoted_text_is_a_literal(text: Seq<char>)
    ensures
        literal_text(quoted(text)) == Some(text_of(text)),
{
    reveal_strlit("\"");
    let written = quoted(text);
    assert(written.subrange(1, written.len() - 1) =~= escaped_text(text));
    assert(text.take(0) =~= Seq::<char>::empty());
    assert(escaped_text(text.take(0)) =~= Seq::<char>::empty());
    assert(text_of(text.take(0)) == Chain::<char>::Empty);
    lemma_decodes_from(text, 0);
}

} // verus!
