//! The order of texts: by their characters, first to last.

use vstd::prelude::*;

use crate::literals::text_chars;

verus! {

/// From a position on, the first text comes before the second.
pub open spec fn less_from(left: Seq<char>, right: Seq<char>, position: int) -> bool
    decreases left.len() - position,
{
    if position < 0 || position >= right.len() {
        false
    } else if position >= left.len() {
        true
    } else if left[position] != right[position] {
        left[position] < right[position]
    } else {
        less_from(left, right, position + 1)
    }
}

/// The first text comes before the second.
pub open spec fn text_less(left: Seq<char>, right: Seq<char>) -> bool {
    less_from(left, right, 0)
}

pub fn chars_less(left: &Vec<char>, right: &Vec<char>) -> (less: bool)
    ensures
        less == text_less(left@, right@),
{
    let mut i: usize = 0;
    while i < left.len() && i < right.len() && left[i] == right[i]
        invariant
            i <= left@.len(),
            i <= right@.len(),
            text_less(left@, right@) == less_from(left@, right@, i as int),
        decreases left@.len() - i,
    {
        i = i + 1;
    }
    if i >= right.len() {
        false
    } else if i >= left.len() {
        true
    } else {
        left[i] < right[i]
    }
}

/// Whether the first name comes before the second.
pub fn name_less(left: &String, right: &String) -> (less: bool)
    ensures
        less == text_less(left@, right@),
{
    chars_less(&text_chars(left.as_str()), &text_chars(right.as_str()))
}

proof fn lemma_less_asymmetric(left: Seq<char>, right: Seq<char>, position: int)
    requires
        less_from(left, right, position),
    ensures
        !less_from(right, left, position),
    decreases left.len() - position,
{
    if 0 <= position < left.len() && position < right.len() && left[position] == right[position] {
        lemma_less_asymmetric(left, right, position + 1);
    }
}

proof fn lemma_less_transitive(a: Seq<char>, b: Seq<char>, c: Seq<char>, position: int)
    requires
        less_from(a, b, position),
        less_from(b, c, position),
    ensures
        less_from(a, c, position),
    decreases a.len() - position,
{
    if 0 <= position < a.len() && position < b.len() && position < c.len() && a[position]
        == b[position] && b[position] == c[position] {
        lemma_less_transitive(a, b, c, position + 1);
    }
}

proof fn lemma_less_total(left: Seq<char>, right: Seq<char>, position: int)
    requires
        0 <= position,
        position <= left.len(),
        position <= right.len(),
        forall|i: int| 0 <= i < position ==> #[trigger] left[i] == right[i],
        !less_from(left, right, position),
        !less_from(right, left, position),
    ensures
        left == right,
    decreases left.len() - position,
{
    if position < left.len() && position < right.len() {
        lemma_less_total(left, right, position + 1);
    } else {
        assert(left =~= right);
    }
}

/// No text comes before itself, nor do two texts each before the other; the
/// order is transitive; and two texts of which neither comes first are equal.
pub proof fn law_text_order(a: Seq<char>, b: Seq<char>, c: Seq<char>)
    ensures
        text_less(a, b) ==> !text_less(b, a),
        text_less(a, b) && text_less(b, c) ==> text_less(a, c),
        !text_less(a, b) && !text_less(b, a) ==> a == b,
{
    if text_less(a, b) {
        lemma_less_asymmetric(a, b, 0);
        if text_less(b, c) {
            lemma_less_transitive(a, b, c, 0);
        }
    }
    if !text_less(a, b) && !text_less(b, a) {
        lemma_less_total(a, b, 0);
    }
}

} // verus!
