//! Summaries of values, which tell their types and nothing of their contents.

use vstd::prelude::*;
use vstd::string::StringExecFns;

use crate::json_stage::char_text;
use crate::literals::text_chars;
#[allow(unused_imports)]
use crate::rendering::{decimal, digit};

verus! {

/// The tags of values.
#[derive(Clone, Copy, Debug, PartialEq, Eq, Structural)]
pub struct ValueTags {
    pub unit: u64,
    pub boolean: u64,
    pub integer: u64,
    pub float: u64,
    pub text: u64,
    pub record: u64,
    pub enumeration: u64,
    pub refined: u64,
    pub constraint_error: u64,
    pub dynamic: u64,
    pub task: u64,
    pub tuple: u64,
    pub list: u64,
}

/// A value: its tag, the number of its declared type, and its contents.
#[derive(Clone, Copy, Debug)]
pub struct ValueSlot {
    pub words: [u64; 6],
}

impl ValueSlot {
    pub open spec fn tag(self) -> u64 {
        self.words@[0]
    }

    pub open spec fn type_number(self) -> u64 {
        self.words@[1]
    }
}

/// The greatest number of characters of a summary.
pub const SUMMARY_LIMIT: usize = 256;

/// How many characters a summary keeps when it is cut.
pub const SUMMARY_KEPT: usize = 253;

impl ValueTags {
    /// A value with the tag is of a declared type.
    pub open spec fn is_declared(self, tag: u64) -> bool {
        tag == self.record || tag == self.enumeration || tag == self.refined
    }

    /// The type of a value.
    pub open spec fn summary(self, value: ValueSlot) -> Seq<char> {
        let tag = value.tag();
        if tag == self.unit {
            "Unit"@
        } else if tag == self.boolean {
            "Bool"@
        } else if tag == self.integer {
            "Int"@
        } else if tag == self.float {
            "Float"@
        } else if tag == self.text {
            "Text"@
        } else if self.is_declared(tag) {
            "type#"@ + decimal(value.type_number() as nat)
        } else if tag == self.constraint_error {
            "ConstraintError"@
        } else if tag == self.dynamic {
            "dyn"@
        } else if tag == self.task {
            "Task"@
        } else if tag == self.tuple {
            "Tuple"@
        } else if tag == self.list {
            "List"@
        } else {
            "<invalid>"@
        }
    }

    /// Writes the type of a value.
    pub fn write_summary(&self, value: &ValueSlot, output: &mut String)
        ensures
            final(output)@ == old(output)@ + self.summary(*value),
    {
        let tag: u64 = value.words[0];
        if tag == self.unit {
            output.append("Unit");
        } else if tag == self.boolean {
            output.append("Bool");
        } else if tag == self.integer {
            output.append("Int");
        } else if tag == self.float {
            output.append("Float");
        } else if tag == self.text {
            output.append("Text");
        } else if tag == self.record || tag == self.enumeration || tag == self.refined {
            let ghost begun = output@;
            output.append("type#");
            append_decimal(output, value.words[1]);
            assert(output@ =~= begun + ("type#"@ + decimal(value.type_number() as nat)));
        } else if tag == self.constraint_error {
            output.append("ConstraintError");
        } else if tag == self.dynamic {
            output.append("dyn");
        } else if tag == self.task {
            output.append("Task");
        } else if tag == self.tuple {
            output.append("Tuple");
        } else if tag == self.list {
            output.append("List");
        } else {
            output.append("<invalid>");
        }
    }
}

fn digit_char(value: u64) -> (c: char)
    requires
        value < 10,
    ensures
        c == digit(value as nat),
{
    match value {
        0 => '0',
        1 => '1',
        2 => '2',
        3 => '3',
        4 => '4',
        5 => '5',
        6 => '6',
        7 => '7',
        8 => '8',
        _ => '9',
    }
}

fn append_decimal(output: &mut String, value: u64)
    ensures
        final(output)@ == old(output)@ + decimal(value as nat),
    decreases value,
{
    let ghost begun = output@;
    if value < 10 {
        output.append(char_text(digit_char(value)).as_str());
        assert(output@ =~= begun + decimal(value as nat));
    } else {
        append_decimal(output, value / 10);
        output.append(char_text(digit_char(value % 10)).as_str());
        assert(output@ =~= begun + decimal(value as nat));
    }
}

/// A summary, cut where it is too long.
pub open spec fn cut(summary: Seq<char>) -> Seq<char> {
    if summary.len() > SUMMARY_LIMIT {
        summary.take(SUMMARY_KEPT as int) + "..."@
    } else {
        summary
    }
}

fn cut_summary(summary: String) -> (result: String)
    ensures
        result@ == cut(summary@),
{
    let chars = text_chars(summary.as_str());
    if chars.len() <= SUMMARY_LIMIT {
        return summary;
    }
    let mut result = String::new();
    let mut i: usize = 0;
    while i < SUMMARY_KEPT
        invariant
            i <= SUMMARY_KEPT,
            SUMMARY_KEPT < chars@.len(),
            result@ == chars@.take(i as int),
        decreases SUMMARY_KEPT - i,
    {
        result.append(char_text(chars[i]).as_str());
        assert(chars@.take(i as int + 1) =~= chars@.take(i as int) + seq![chars@[i as int]]);
        i = i + 1;
    }
    result.append("...");
    result
}

/// The summary of a value. There is none where the value or the place for the
/// summary is missing.
pub fn value_summary(tags: &ValueTags, value: Option<&ValueSlot>, has_output: bool) -> (summary:
    Option<String>)
    ensures
        match value {
            Some(found) => if has_output {
                summary is Some && summary->0@ == cut(tags.summary(*found))
            } else {
                summary is None
            },
            None => summary is None,
        },
{
    match value {
        Some(found) => {
            if !has_output {
                return None;
            }
            let mut summary = String::new();
            tags.write_summary(found, &mut summary);
            assert(summary@ =~= tags.summary(*found));
            Some(cut_summary(summary))
        },
        None => None,
    }
}

/// A summary tells nothing of the contents of a value, and of the number of
/// its type only where that is a declared one.
pub proof fn law_summary_is_type_only(tags: ValueTags, a: ValueSlot, b: ValueSlot)
    requires
        a.tag() == b.tag(),
        tags.is_declared(a.tag()) ==> a.type_number() == b.type_number(),
    ensures
        tags.summary(a) == tags.summary(b),
{
}

} // verus!
