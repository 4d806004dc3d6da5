//! The text of a JSON value while it is written, within a limit of bytes.

use vstd::prelude::*;
use vstd::string::StringExecFns;
#[allow(unused_imports)]
use vstd::utf8::encode_utf8;

use crate::literals::text_chars;

verus! {

/// Why a value cannot be written.
#[derive(Clone, Copy, Debug, PartialEq, Eq, Structural)]
pub enum FormatFailure {
    InvalidValue,
    DepthLimit,
    NonFiniteNumber,
    ResourceLimit,
}

/// What a caller is told.
#[derive(Clone, Copy, Debug, PartialEq, Eq, Structural)]
pub enum FormatStatus {
    InvalidArgument,
    AbiMismatch,
    DescriptorInvalid,
    DepthLimit,
    NonFiniteNumber,
    ResourceLimit,
}

impl FormatFailure {
    pub open spec fn told(self) -> FormatStatus {
        match self {
            FormatFailure::InvalidValue => FormatStatus::InvalidArgument,
            FormatFailure::DepthLimit => FormatStatus::DepthLimit,
            FormatFailure::NonFiniteNumber => FormatStatus::NonFiniteNumber,
            FormatFailure::ResourceLimit => FormatStatus::ResourceLimit,
        }
    }

    pub fn status(self) -> (status: FormatStatus)
        ensures
            status == self.told(),
    {
        match self {
            FormatFailure::InvalidValue => FormatStatus::InvalidArgument,
            FormatFailure::DepthLimit => FormatStatus::DepthLimit,
            FormatFailure::NonFiniteNumber => FormatStatus::NonFiniteNumber,
            FormatFailure::ResourceLimit => FormatStatus::ResourceLimit,
        }
    }
}

/// How many bytes a text takes.
pub open spec fn byte_len(text: Seq<char>) -> nat {
    encode_utf8(text).len()
}

proof fn lemma_encode_concat(a: Seq<char>, b: Seq<char>)
    ensures
        encode_utf8(a + b) == encode_utf8(a) + encode_utf8(b),
    decreases a.len(),
{
    if a.len() == 0 {
        assert(a + b =~= b);
        assert(encode_utf8(a) + encode_utf8(b) =~= encode_utf8(b));
    } else {
        lemma_encode_concat(a.drop_first(), b);
        assert((a + b).drop_first() =~= a.drop_first() + b);
        assert((a + b)[0] == a[0]);
        assert(encode_utf8(a + b) =~= encode_utf8(a) + encode_utf8(b));
    }
}

/// Two texts in a row take the bytes of both.
pub proof fn law_byte_len_concat(a: Seq<char>, b: Seq<char>)
    ensures
        byte_len(a + b) == byte_len(a) + byte_len(b),
{
    lemma_encode_concat(a, b);
}

/// The text of one character, as `String::from` gives it.
#[verifier::external_body]
pub(crate) fn char_text(value: char) -> (text: String)
    ensures
        text@ == seq![value],
{
    String::from(value)
}

/// A text that may grow up to a limit of bytes.
pub struct JsonStage {
    pub output: String,
    pub maximum_bytes: usize,
}

/// A stage as contracts speak of it.
pub struct Stage {
    pub output: Seq<char>,
    pub maximum_bytes: nat,
}

impl View for JsonStage {
    type V = Stage;

    open spec fn view(&self) -> Stage {
        Stage { output: self.output@, maximum_bytes: self.maximum_bytes as nat }
    }
}

impl Stage {
    /// The text has room behind what was written.
    pub open spec fn has_room(self, text: Seq<char>) -> bool {
        byte_len(self.output) + byte_len(text) <= self.maximum_bytes
    }

    /// The text was written if there was room for it; what stands in the
    /// stage after a refusal counts for nothing.
    pub open spec fn takes(
        self,
        text: Seq<char>,
        after: Stage,
        result: Result<(), FormatFailure>,
    ) -> bool {
        &&& after.maximum_bytes == self.maximum_bytes
        &&& result is Ok == self.has_room(text)
        &&& result is Ok ==> after.output == self.output + text
        &&& result is Err ==> result == Err::<(), _>(FormatFailure::ResourceLimit)
    }
}

impl Stage {
    /// The stage after texts were written one after the other, up to the first
    /// that has no room, and whether all had.
    pub open spec fn written(self, parts: Seq<Seq<char>>) -> (Stage, bool)
        decreases parts.len(),
    {
        if parts.len() == 0 {
            (self, true)
        } else if !self.has_room(parts[0]) {
            (self, false)
        } else {
            (Stage { output: self.output + parts[0], ..self }).written(parts.skip(1))
        }
    }
}

/// Writing the texts of two lists is writing those of the first, and then those
/// of the second unless one had no room.
proof fn lemma_written_both(stage: Stage, first: Seq<Seq<char>>, second: Seq<Seq<char>>)
    ensures
        stage.written(first + second) == (if stage.written(first).1 {
            stage.written(first).0.written(second)
        } else {
            stage.written(first)
        }),
    decreases first.len(),
{
    if first.len() == 0 {
        assert(first + second =~= second);
    } else if stage.has_room(first[0]) {
        let next = Stage { output: stage.output + first[0], ..stage };
        lemma_written_both(next, first.skip(1), second);
        assert((first + second)[0] == first[0]);
        assert((first + second).skip(1) =~= first.skip(1) + second);
    } else {
        assert((first + second)[0] == first[0]);
    }
}

/// A stage keeps what was written before, and what it takes stays within its
/// limit.
pub proof fn law_stage_only_grows(stage: Stage, parts: Seq<Seq<char>>)
    ensures
        stage.output.is_prefix_of(stage.written(parts).0.output),
        stage.written(parts).0.maximum_bytes == stage.maximum_bytes,
        byte_len(stage.output) <= stage.maximum_bytes ==> byte_len(stage.written(parts).0.output)
            <= stage.maximum_bytes,
    decreases parts.len(),
{
    if parts.len() > 0 && stage.has_room(parts[0]) {
        let next = Stage { output: stage.output + parts[0], ..stage };
        law_byte_len_concat(stage.output, parts[0]);
        law_stage_only_grows(next, parts.skip(1));
        assert(stage.output.is_prefix_of(next.output));
    }
}

/// Writing two texts one after the other is writing them as one.
pub proof fn law_takes_both(
    before: Stage,
    first: Seq<char>,
    between: Stage,
    second: Seq<char>,
    after: Stage,
    result: Result<(), FormatFailure>,
)
    requires
        before.takes(first, between, Ok(())),
        between.takes(second, after, result),
    ensures
        before.takes(first + second, after, result),
{
    law_byte_len_concat(before.output, first);
    law_byte_len_concat(first, second);
    assert(before.output + (first + second) =~= before.output + first + second);
}

/// A text that has no room has none with more behind it.
pub proof fn law_refuses_longer(
    before: Stage,
    first: Seq<char>,
    after: Stage,
    second: Seq<char>,
    result: Result<(), FormatFailure>,
)
    requires
        before.takes(first, after, result),
        result is Err,
    ensures
        before.takes(first + second, after, result),
{
    law_byte_len_concat(first, second);
}

/// The lower hexadecimal digit of a value below sixteen.
pub open spec fn hex_char(value: int) -> char {
    if value == 0 {
        '0'
    } else if value == 1 {
        '1'
    } else if value == 2 {
        '2'
    } else if value == 3 {
        '3'
    } else if value == 4 {
        '4'
    } else if value == 5 {
        '5'
    } else if value == 6 {
        '6'
    } else if value == 7 {
        '7'
    } else if value == 8 {
        '8'
    } else if value == 9 {
        '9'
    } else if value == 10 {
        'a'
    } else if value == 11 {
        'b'
    } else if value == 12 {
        'c'
    } else if value == 13 {
        'd'
    } else if value == 14 {
        'e'
    } else {
        'f'
    }
}

fn hex_of(value: u32) -> (c: char)
    requires
        value < 16,
    ensures
        c == hex_char(value as int),
{
    match value {
        0 => '0',
        1 => '1',
        2 => '2',
        3 => '3',
        4 => '4',
        5 => '5',
        6 => '6',
        7 => '7',
        8 => '8',
        9 => '9',
        10 => 'a',
        11 => 'b',
        12 => 'c',
        13 => 'd',
        14 => 'e',
        _ => 'f',
    }
}

/// How a character is written inside quotes.
pub open spec fn escaped(c: char) -> Seq<char> {
    if c == '"' {
        "\\\""@
    } else if c == '\\' {
        "\\\\"@
    } else if c == '\u{08}' {
        "\\b"@
    } else if c == '\u{0c}' {
        "\\f"@
    } else if c == '\n' {
        "\\n"@
    } else if c == '\r' {
        "\\r"@
    } else if c == '\t' {
        "\\t"@
    } else if c <= '\u{1f}' {
        "\\u00"@ + seq![hex_char(c as int / 16)] + seq![hex_char(c as int % 16)]
    } else {
        seq![c]
    }
}

/// The texts that are written for a character inside quotes, one after the
/// other.
pub open spec fn escape_parts(c: char) -> Seq<Seq<char>> {
    let has_letter = c == '"' || c == '\\' || c == '\u{08}' || c == '\u{0c}' || c == '\n' || c == '\r'
        || c == '\t';
    if !has_letter && c <= '\u{1f}' {
        seq!["\\u00"@, seq![hex_char(c as int / 16)], seq![hex_char(c as int % 16)]]
    } else {
        seq![escaped(c)]
    }
}

/// The texts that are written for characters inside quotes, and for the quote
/// behind them.
pub open spec fn closing_parts(text: Seq<char>) -> Seq<Seq<char>>
    decreases text.len(),
{
    if text.len() == 0 {
        seq!["\""@]
    } else {
        escape_parts(text[0]) + closing_parts(text.skip(1))
    }
}

/// The texts that are written for a text in quotes.
pub open spec fn quoted_parts(text: Seq<char>) -> Seq<Seq<char>> {
    seq!["\""@] + closing_parts(text)
}

/// How characters are written inside quotes.
pub open spec fn escaped_text(text: Seq<char>) -> Seq<char>
    decreases text.len(),
{
    if text.len() == 0 {
        Seq::empty()
    } else {
        escaped_text(text.drop_last()) + escaped(text.last())
    }
}

/// A text in quotes.
pub open spec fn quoted(text: Seq<char>) -> Seq<char> {
    "\""@ + escaped_text(text) + "\""@
}

proof fn lemma_escaped_grows(text: Seq<char>, count: int)
    requires
        0 <= count <= text.len(),
    ensures
        byte_len(escaped_text(text.take(count))) <= byte_len(escaped_text(text)),
    decreases text.len() - count,
{
    if count < text.len() {
        lemma_escaped_grows(text, count + 1);
        let longer = text.take(count + 1);
        assert(longer.drop_last() =~= text.take(count));
        law_byte_len_concat(escaped_text(text.take(count)), escaped(longer.last()));
    } else {
        assert(text.take(count) =~= text);
    }
}

proof fn lemma_written_one(stage: Stage, text: Seq<char>)
    ensures
        stage.written(seq![text]) == (if stage.has_room(text) {
            (Stage { output: stage.output + text, ..stage }, true)
        } else {
            (stage, false)
        }),
{
    let next = Stage { output: stage.output + text, ..stage };
    assert(seq![text].skip(1) =~= Seq::<Seq<char>>::empty());
    assert(next.written(Seq::<Seq<char>>::empty()) == (next, true));
}

proof fn lemma_written_three(stage: Stage, a: Seq<char>, b: Seq<char>, c: Seq<char>)
    ensures
        stage.written(seq![a, b, c]) == (if !stage.has_room(a) {
            (stage, false)
        } else {
            let second = Stage { output: stage.output + a, ..stage };
            if !second.has_room(b) {
                (second, false)
            } else {
                let third = Stage { output: second.output + b, ..second };
                if !third.has_room(c) {
                    (third, false)
                } else {
                    (Stage { output: third.output + c, ..third }, true)
                }
            }
        }),
{
    let second = Stage { output: stage.output + a, ..stage };
    let third = Stage { output: second.output + b, ..second };
    assert(seq![a, b, c].skip(1) =~= seq![b, c]);
    assert(seq![b, c].skip(1) =~= seq![c]);
    assert(second.written(seq![b, c]) == (if second.has_room(b) {
        third.written(seq![c])
    } else {
        (second, false)
    }));
    lemma_written_one(third, c);
}

impl JsonStage {
    /// How much text an object has room for, behind its header.
    pub open spec fn text_room(object_limit: u64, text_header_size: u64) -> Option<usize> {
        if object_limit >= text_header_size && object_limit - text_header_size <= usize::MAX {
            Some((object_limit - text_header_size) as usize)
        } else {
            None
        }
    }

    fn maximum_bytes_for_object_limit(object_limit: u64, text_header_size: u64) -> (maximum: Result<
        usize,
        FormatFailure,
    >)
        ensures
            match maximum {
                Ok(bytes) => Self::text_room(object_limit, text_header_size) == Some(bytes),
                Err(failure) => Self::text_room(object_limit, text_header_size) is None && failure
                    == FormatFailure::ResourceLimit,
            },
    {
        if object_limit >= text_header_size {
            let room: u64 = object_limit - text_header_size;
            if room <= usize::MAX as u64 {
                Ok(room as usize)
            } else {
                Err(FormatFailure::ResourceLimit)
            }
        } else {
            Err(FormatFailure::ResourceLimit)
        }
    }

    /// An empty text that an object of the given size has room for.
    pub fn for_object_limit(object_limit: u64, text_header_size: u64) -> (stage: Result<
        Self,
        FormatFailure,
    >)
        ensures
            match stage {
                Ok(stage) => stage.output@ == Seq::<char>::empty() && Self::text_room(
                    object_limit,
                    text_header_size,
                ) == Some(stage.maximum_bytes),
                Err(failure) => Self::text_room(object_limit, text_header_size) is None && failure
                    == FormatFailure::ResourceLimit,
            },
    {
        match Self::maximum_bytes_for_object_limit(object_limit, text_header_size) {
            Ok(maximum_bytes) => Ok(Self::with_maximum_bytes(maximum_bytes)),
            Err(failure) => Err(failure),
        }
    }

    /// An empty text with the given limit.
    pub fn with_maximum_bytes(maximum_bytes: usize) -> (stage: Self)
        ensures
            stage.output@ == Seq::<char>::empty(),
            stage.maximum_bytes == maximum_bytes,
    {
        JsonStage { output: String::new(), maximum_bytes }
    }

    /// The length of the text with so many more bytes, if that is within the
    /// limit.
    pub fn checked_output_length(&self, additional: usize) -> (length: Result<
        usize,
        FormatFailure,
    >)
        ensures
            match length {
                Ok(length) => length == byte_len(self.output@) + additional && length
                    <= self.maximum_bytes,
                Err(failure) => byte_len(self.output@) + additional > self.maximum_bytes && failure
                    == FormatFailure::ResourceLimit,
            },
    {
        let bytes: usize = self.output.as_str().as_bytes().len();
        match bytes.checked_add(additional) {
            Some(length) => if length <= self.maximum_bytes {
                Ok(length)
            } else {
                Err(FormatFailure::ResourceLimit)
            },
            None => Err(FormatFailure::ResourceLimit),
        }
    }

    /// Writes a text.
    pub fn push_str(&mut self, value: &str) -> (result: Result<(), FormatFailure>)
        ensures
            old(self)@.takes(value@, final(self)@, result),
            result is Err ==> final(self)@ == old(self)@,
    {
        match self.checked_output_length(value.as_bytes().len()) {
            Ok(_) => {
                self.output.append(value);
                Ok(())
            },
            Err(failure) => Err(failure),
        }
    }

    /// Writes a character.
    pub fn push_char(&mut self, value: char) -> (result: Result<(), FormatFailure>)
        ensures
            old(self)@.takes(seq![value], final(self)@, result),
            result is Err ==> final(self)@ == old(self)@,
    {
        let text = char_text(value);
        self.push_str(text.as_str())
    }

    fn push_control(&mut self, value: u32) -> (result: Result<(), FormatFailure>)
        requires
            value < 256,
        ensures
            old(self)@.takes(
                "\\u00"@ + seq![hex_char(value as int / 16)] + seq![hex_char(value as int % 16)],
                final(self)@,
                result,
            ),
            (final(self)@, result is Ok) == old(self)@.written(
                seq![
                    "\\u00"@,
                    seq![hex_char(value as int / 16)],
                    seq![hex_char(value as int % 16)],
                ],
            ),
    {
        proof {
            lemma_written_three(
                self@,
                "\\u00"@,
                seq![hex_char(value as int / 16)],
                seq![hex_char(value as int % 16)],
            );
        }
        let ghost begun = self@;
        let ghost first = "\\u00"@;
        let ghost second = seq![hex_char(value as int / 16)];
        let ghost third = seq![hex_char(value as int % 16)];
        match self.push_str("\\u00") {
            Ok(()) => {},
            Err(failure) => {
                proof {
                    law_refuses_longer(begun, first, self@, second, Err(failure));
                    law_refuses_longer(begun, first + second, self@, third, Err(failure));
                }
                return Err(failure);
            },
        }
        let ghost after_first = self@;
        match self.push_char(hex_of(value / 16)) {
            Ok(()) => {
                proof {
                    law_takes_both(begun, first, after_first, second, self@, Ok(()));
                }
            },
            Err(failure) => {
                proof {
                    law_takes_both(begun, first, after_first, second, self@, Err(failure));
                    law_refuses_longer(begun, first + second, self@, third, Err(failure));
                }
                return Err(failure);
            },
        }
        let ghost after_second = self@;
        let result = self.push_char(hex_of(value % 16));
        proof {
            law_takes_both(begun, first + second, after_second, third, self@, result);
        }
        result
    }

    fn push_escaped(&mut self, c: char) -> (result: Result<(), FormatFailure>)
        ensures
            old(self)@.takes(escaped(c), final(self)@, result),
            (final(self)@, result is Ok) == old(self)@.written(escape_parts(c)),
    {
        proof {
            lemma_written_one(self@, escaped(c));
        }
        if c == '"' {
            self.push_str("\\\"")
        } else if c == '\\' {
            self.push_str("\\\\")
        } else if c == '\u{08}' {
            self.push_str("\\b")
        } else if c == '\u{0c}' {
            self.push_str("\\f")
        } else if c == '\n' {
            self.push_str("\\n")
        } else if c == '\r' {
            self.push_str("\\r")
        } else if c == '\t' {
            self.push_str("\\t")
        } else if c <= '\u{1f}' {
            self.push_control(c as u32)
        } else {
            self.push_char(c)
        }
    }

    /// Writes a text in quotes. Where there is no room for all of it, what had
    /// room stands behind what was written before.
    pub fn push_escaped_text(&mut self, value: &str) -> (result: Result<(), FormatFailure>)
        ensures
            old(self)@.takes(quoted(value@), final(self)@, result),
            (final(self)@, result is Ok) == old(self)@.written(quoted_parts(value@)),
            old(self)@.output.is_prefix_of(final(self)@.output),
            byte_len(old(self)@.output) <= old(self).maximum_bytes ==> byte_len(
                final(self)@.output,
            ) <= final(self).maximum_bytes,
    {
        proof {
            law_stage_only_grows(self@, quoted_parts(value@));
            lemma_written_one(self@, "\""@);
            lemma_written_both(self@, seq!["\""@], closing_parts(value@));
        }
        let ghost begun = self@;
        let ghost text = value@;
        let ghost quote = "\""@;
        match self.push_str("\"") {
            Ok(()) => {},
            Err(failure) => {
                proof {
                    law_refuses_longer(begun, quote, self@, escaped_text(text), Err(failure));
                    law_refuses_longer(
                        begun,
                        quote + escaped_text(text),
                        self@,
                        quote,
                        Err(failure),
                    );
                }
                return Err(failure);
            },
        }
        let chars = text_chars(value);
        let mut i: usize = 0;
        proof {
            assert(text.take(0) =~= Seq::<char>::empty());
            assert(quote + Seq::<char>::empty() =~= quote);
            assert(text.skip(0) =~= text);
        }
        while i < chars.len()
            invariant
                i <= chars@.len(),
                chars@ == text,
                text == value@,
                begun == old(self)@,
                quote == "\""@,
                begun.takes(quote + escaped_text(text.take(i as int)), self@, Ok(())),
                begun.written(quoted_parts(text)) == self@.written(
                    closing_parts(text.skip(i as int)),
                ),
                begun.output.is_prefix_of(begun.written(quoted_parts(text)).0.output),
                byte_len(begun.output) <= begun.maximum_bytes ==> byte_len(
                    begun.written(quoted_parts(text)).0.output,
                ) <= begun.maximum_bytes,
            decreases chars@.len() - i,
        {
            let ghost between = self@;
            let ghost done = quote + escaped_text(text.take(i as int));
            let c: char = chars[i];
            let ghost longer = text.take(i as int + 1);
            proof {
                assert(longer.drop_last() =~= text.take(i as int));
                assert(longer.last() == c);
                assert(done + escaped(c) =~= quote + escaped_text(longer));
                assert(text.skip(i as int)[0] == c);
                assert(text.skip(i as int).skip(1) =~= text.skip(i as int + 1));
                lemma_written_both(
                    self@,
                    escape_parts(c),
                    closing_parts(text.skip(i as int + 1)),
                );
            }
            match self.push_escaped(c) {
                Ok(()) => {
                    proof {
                        law_takes_both(begun, done, between, escaped(c), self@, Ok(()));
                    }
                },
                Err(failure) => {
                    proof {
                        law_takes_both(begun, done, between, escaped(c), self@, Err(failure));
                        lemma_escaped_grows(text, i as int + 1);
                        law_byte_len_concat(quote, escaped_text(longer));
                        law_byte_len_concat(quote, escaped_text(text));
                        law_byte_len_concat(quote + escaped_text(text), quote);
                    }
                    return Err(failure);
                },
            }
            i = i + 1;
        }
        let ghost between = self@;
        proof {
            lemma_written_one(self@, quote);
            assert(text.skip(i as int).len() == 0);
        }
        let result = self.push_str("\"");
        proof {
            assert(text.take(i as int) =~= text);
            law_takes_both(
                begun,
                quote + escaped_text(text),
                between,
                quote,
                self@,
                result,
            );
        }
        result
    }
}

} // verus!
