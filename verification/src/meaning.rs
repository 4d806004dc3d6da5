//! What symbolic values mean, and that the verdicts on them are right.

use std::rc::Rc;
use vstd::prelude::*;

#[allow(unused_imports)]
use crate::chain::Chain;
#[allow(unused_imports)]
use crate::symbolic::{
    fact_about, facts_shared, facts_with, float_finite, float_rank, int_value, ProofBinary,
    ProofFacts, ProofPlace, ProofResult, ProofTerm, ProofUnary,
};

verus! {

/// What a symbolic value stands for when the program runs. A float is held as
/// the bits of its double.
pub enum Meaning {
    Bool(bool),
    Int(int),
    Float(u64),
    Text(Chain<char>),
    Unit,
    Other(int),
}

impl Meaning {
    pub open spec fn truth(self) -> bool {
        self == Meaning::Bool(true)
    }

    /// The two are equal as the language compares them: a float that is not a
    /// number equals nothing, and the two zeros are equal.
    pub open spec fn equals(self, other: Meaning) -> bool {
        match (self, other) {
            (Meaning::Float(left), Meaning::Float(right)) => float_rank(left) is Some && float_rank(
                left,
            ) == float_rank(right),
            _ => self == other,
        }
    }
}

/// A comparison of two numbers for order. What is no number, or not of the same
/// kind, has none.
pub open spec fn compared(left: Meaning, right: Meaning, or_equal: bool) -> bool {
    match (left, right) {
        (Meaning::Int(a), Meaning::Int(b)) => a < b || (or_equal && a == b),
        (Meaning::Float(a), Meaning::Float(b)) => match (float_rank(a), float_rank(b)) {
            (Some(a), Some(b)) => a < b || (or_equal && a == b),
            _ => false,
        },
        _ => false,
    }
}

/// What a term stands for, where `state` says what each place holds and what
/// each part stands for that the terms do not compute.
pub open spec fn meaning(state: spec_fn(ProofTerm) -> Meaning, term: ProofTerm) -> Meaning
    decreases term,
{
    match term {
        ProofTerm::Bool(value) => Meaning::Bool(value),
        ProofTerm::Int(value) => Meaning::Int(value as int),
        ProofTerm::Float(bits) => Meaning::Float(bits),
        ProofTerm::Text(text) => Meaning::Text(text),
        ProofTerm::Unit => Meaning::Unit,
        ProofTerm::Unary(ProofUnary::Negate, operand) => match meaning(state, *operand) {
            Meaning::Int(value) => Meaning::Int(-value),
            _ => state(term),
        },
        ProofTerm::Unary(ProofUnary::Not, operand) => Meaning::Bool(
            !meaning(state, *operand).truth(),
        ),
        ProofTerm::Binary(op, left, right) => {
            let a = meaning(state, *left);
            let b = meaning(state, *right);
            match op {
                ProofBinary::And => Meaning::Bool(a.truth() && b.truth()),
                ProofBinary::Or => Meaning::Bool(a.truth() || b.truth()),
                ProofBinary::Equal => Meaning::Bool(a.equals(b)),
                ProofBinary::NotEqual => Meaning::Bool(!a.equals(b)),
                ProofBinary::Less => Meaning::Bool(compared(a, b, false)),
                ProofBinary::LessEqual => Meaning::Bool(compared(a, b, true)),
                _ => match (a, b) {
                    (Meaning::Int(a), Meaning::Int(b)) => match op {
                        ProofBinary::Add => Meaning::Int(a + b),
                        ProofBinary::Subtract => Meaning::Int(a - b),
                        ProofBinary::Multiply => Meaning::Int(a * b),
                        _ => state(term),
                    },
                    _ => state(term),
                },
            }
        },
        ProofTerm::IsFinite(operand) => match meaning(state, *operand) {
            Meaning::Float(bits) => Meaning::Bool(float_finite(bits)),
            _ => state(term),
        },
        _ => state(term),
    }
}

/// Every fact is so in `state`.
pub open spec fn facts_hold(
    state: spec_fn(ProofTerm) -> Meaning,
    facts: Chain<(Rc<ProofTerm>, bool)>,
) -> bool
    decreases facts,
{
    match facts {
        Chain::Empty => true,
        Chain::Link(link) => facts_hold(state, link.rest) && meaning(state, *link.item.0).truth()
            == link.item.1,
    }
}

/// No place of `state` holds a float that is not a number.
pub open spec fn places_are_numbers(state: spec_fn(ProofTerm) -> Meaning) -> bool {
    forall|place: ProofPlace|
        match #[trigger] state(ProofTerm::Place(place)) {
            Meaning::Float(bits) => float_rank(bits) is Some,
            _ => true,
        }
}

proof fn lemma_fact_about(
    state: spec_fn(ProofTerm) -> Meaning,
    facts: Chain<(Rc<ProofTerm>, bool)>,
    term: ProofTerm,
)
    requires
        facts_hold(state, facts),
    ensures
        match fact_about(facts, term) {
            Some(value) => meaning(state, term).truth() == value,
            None => true,
        },
    decreases facts,
{
    if facts is Link {
        lemma_fact_about(state, facts.without_last(), term);
    }
}

proof fn lemma_int_value(state: spec_fn(ProofTerm) -> Meaning, term: ProofTerm)
    ensures
        match int_value(term) {
            Some(value) => meaning(state, term) == Meaning::Int(value as int),
            None => true,
        },
    decreases term,
{
    match term {
        ProofTerm::Unary(ProofUnary::Negate, operand) => {
            let inner = *operand;
            lemma_int_value(state, inner);
        },
        ProofTerm::Binary(_, left, right) => {
            let a = *left;
            let b = *right;
            lemma_int_value(state, a);
            lemma_int_value(state, b);
        },
        _ => {},
    }
}

/// The verdicts are right: what the facts prove is so wherever the facts are
/// so, and what they disprove is not so.
pub proof fn law_verdicts_are_right(
    state: spec_fn(ProofTerm) -> Meaning,
    facts: ProofFacts,
    term: ProofTerm,
)
    requires
        facts_hold(state, facts.facts),
        places_are_numbers(state),
    ensures
        facts.verdict(term) == ProofResult::Proven ==> meaning(state, term).truth(),
        facts.verdict(term) == ProofResult::Disproven ==> !meaning(state, term).truth(),
    decreases term,
{
    reveal_with_fuel(meaning, 2);
    lemma_fact_about(state, facts.facts, term);
    match term {
        ProofTerm::Unary(ProofUnary::Not, operand) => {
            let inner = *operand;
            law_verdicts_are_right(state, facts, inner);
        },
        ProofTerm::Binary(op, left, right) => {
            let a = *left;
            let b = *right;
            if op == ProofBinary::And || op == ProofBinary::Or {
                law_verdicts_are_right(state, facts, a);
                law_verdicts_are_right(state, facts, b);
            } else {
                lemma_int_value(state, a);
                lemma_int_value(state, b);
                let less = ProofTerm::Binary(ProofBinary::Less, left, right);
                let greater = ProofTerm::Binary(ProofBinary::Less, right, left);
                let at_least = ProofTerm::Binary(ProofBinary::LessEqual, right, left);
                lemma_fact_about(state, facts.facts, less);
                lemma_fact_about(state, facts.facts, greater);
                lemma_fact_about(state, facts.facts, at_least);
                assert(meaning(state, less) == Meaning::Bool(
                    compared(meaning(state, a), meaning(state, b), false),
                ));
                assert(meaning(state, greater) == Meaning::Bool(
                    compared(meaning(state, b), meaning(state, a), false),
                ));
                assert(meaning(state, at_least) == Meaning::Bool(
                    compared(meaning(state, b), meaning(state, a), true),
                ));
                if let ProofTerm::Place(place) = a {
                    assert(meaning(state, a) == state(ProofTerm::Place(place)));
                }
            }
        },
        _ => {},
    }
}

/// A fact that is so may be added.
pub proof fn law_facts_may_be_added(
    state: spec_fn(ProofTerm) -> Meaning,
    facts: ProofFacts,
    term: ProofTerm,
    value: bool,
)
    requires
        facts_hold(state, facts.facts),
        meaning(state, term).truth() == value,
    ensures
        facts_hold(state, facts.assumed(term, value).facts),
{
    lemma_facts_with(state, facts.facts, term, value);
}

proof fn lemma_facts_with(
    state: spec_fn(ProofTerm) -> Meaning,
    facts: Chain<(Rc<ProofTerm>, bool)>,
    term: ProofTerm,
    value: bool,
)
    requires
        facts_hold(state, facts),
        meaning(state, term).truth() == value,
    ensures
        facts_hold(state, facts_with(facts, term, value)),
    decreases term,
{
    match term {
        ProofTerm::Unary(ProofUnary::Not, operand) => {
            let inner = *operand;
            lemma_facts_with(state, facts, inner, !value);
        },
        ProofTerm::Binary(op, left, right) => {
            if (op == ProofBinary::And && value) || (op == ProofBinary::Or && !value) {
                let a = *left;
                let b = *right;
                lemma_facts_with(state, facts, a, value);
                lemma_facts_with(state, facts_with(facts, a, value), b, value);
            }
        },
        _ => {},
    }
}

/// What two paths agree on is so behind either of them.
pub proof fn law_shared_facts_hold(
    state: spec_fn(ProofTerm) -> Meaning,
    facts: Chain<(Rc<ProofTerm>, bool)>,
    others: Chain<(Rc<ProofTerm>, bool)>,
)
    requires
        facts_hold(state, facts) || facts_hold(state, others),
    ensures
        facts_hold(state, facts_shared(facts, others)),
    decreases facts,
{
    if facts is Link {
        law_shared_facts_hold(state, facts.without_last(), others);
        let term = *(facts->0.item.0);
        if facts_hold(state, others) {
            lemma_fact_about(state, others, term);
        }
    }
}

proof fn lemma_untouched(
    state: spec_fn(ProofTerm) -> Meaning,
    after: spec_fn(ProofTerm) -> Meaning,
    place: ProofPlace,
    term: ProofTerm,
)
    requires
        forall|other: ProofTerm|
            !other.mentions(place) ==> #[trigger] after(other) == state(other),
        !term.mentions(place),
    ensures
        meaning(after, term) == meaning(state, term),
    decreases term,
{
    assert(after(term) == state(term));
    match term {
        ProofTerm::Unary(_, operand) => {
            let inner = *operand;
            lemma_untouched(state, after, place, inner);
        },
        ProofTerm::Binary(_, left, right) => {
            let a = *left;
            let b = *right;
            lemma_untouched(state, after, place, a);
            lemma_untouched(state, after, place, b);
        },
        ProofTerm::IsFinite(operand) => {
            let inner = *operand;
            lemma_untouched(state, after, place, inner);
        },
        _ => {},
    }
}

/// A write may change only what reads the written place: the facts that are
/// kept are still so after it.
pub proof fn law_kept_facts_survive_a_write(
    state: spec_fn(ProofTerm) -> Meaning,
    after: spec_fn(ProofTerm) -> Meaning,
    facts: ProofFacts,
    place: ProofPlace,
)
    requires
        facts_hold(state, facts.facts),
        forall|other: ProofTerm|
            !other.mentions(place) ==> #[trigger] after(other) == state(other),
    ensures
        facts_hold(after, facts.without(place).facts),
    decreases facts.facts,
{
    if facts.facts is Link {
        let before = ProofFacts { facts: facts.facts.without_last() };
        law_kept_facts_survive_a_write(state, after, before, place);
        let term = *(facts.facts->0.item.0);
        if !term.mentions(place) {
            lemma_untouched(state, after, place, term);
        }
    }
}

} // verus!
