//! What is known of values is decided, kept as long as it is so, and forgotten
//! when it may be so no more.

use std::rc::Rc;
use vstd::prelude::*;

use crate::chain::Chain;
use crate::flow::{term_dropped, term_of, term_put, terms_without};
use crate::ids::{DefId, LocalId};
use crate::proofs::symbolic_place;
use crate::semantics::{Place, PlaceRoot};
use crate::state::World;
use crate::symbolic::{
    fact_about,
    facts_with,
    facts_without,
    field_term,
    int_value,
    ProofBinary,
    ProofFacts,
    ProofPlace,
    ProofResult,
    ProofTerm,
    ProofUnary,
};

verus! {

/// The verdict says that it is so, or that it is not.
pub open spec fn says(verdict: ProofResult, value: bool) -> bool {
    verdict == if value {
        ProofResult::Proven
    } else {
        ProofResult::Disproven
    }
}

/// The term of an operation.
pub open spec fn operation(op: ProofBinary, left: ProofTerm, right: ProofTerm) -> ProofTerm {
    ProofTerm::Binary(op, Rc::new(left), Rc::new(right))
}

/// What is assumed is known from then on, whatever was known before. Of a value
/// with an unknown part nothing is assumed.
pub proof fn law_assumptions_are_known(facts: ProofFacts, term: ProofTerm, value: bool)
    ensures
        term.known() ==> says(facts.assumed(term, value).verdict(term), value),
        !term.known() ==> facts.assumed(term, value) == facts,
{
}

/// Assuming a conjunction, or the opposite of a disjunction, says something of
/// both parts, and of the second exactly that; assuming a negation says the
/// opposite of what is negated.
pub proof fn law_assumed_parts(facts: ProofFacts, left: ProofTerm, right: ProofTerm)
    requires
        left.known(),
        right.known(),
    ensures
        says(facts.assumed(operation(ProofBinary::And, left, right), true).verdict(right), true),
        says(facts.assumed(operation(ProofBinary::Or, left, right), false).verdict(right), false),
        fact_about(
            facts.assumed(operation(ProofBinary::And, left, right), true).facts,
            left,
        ) is Some,
        fact_about(
            facts.assumed(operation(ProofBinary::Or, left, right), false).facts,
            left,
        ) is Some,
        says(
            facts.assumed(ProofTerm::Unary(ProofUnary::Not, Rc::new(left)), true).verdict(left),
            false,
        ),
        says(
            facts.assumed(ProofTerm::Unary(ProofUnary::Not, Rc::new(left)), false).verdict(left),
            true,
        ),
{
    let both = operation(ProofBinary::And, left, right);
    let one = operation(ProofBinary::Or, left, right);
    let not = ProofTerm::Unary(ProofUnary::Not, Rc::new(left));
    reveal_with_fuel(ProofTerm::known, 2);
    reveal_with_fuel(facts_with, 2);
    reveal_with_fuel(fact_about, 3);
    lemma_still_about(facts_with(facts.facts, left, true), right, true, left);
    lemma_still_about(facts_with(facts.facts, left, false), right, false, left);
    lemma_bigger(left, right);
    lemma_bigger(right, left);
}

/// A term is none of the terms that are made of it.
proof fn lemma_bigger(part: ProofTerm, other: ProofTerm)
    ensures
        operation(ProofBinary::And, part, other) != part,
        operation(ProofBinary::And, other, part) != part,
        operation(ProofBinary::Or, part, other) != part,
        operation(ProofBinary::Or, other, part) != part,
        ProofTerm::Unary(ProofUnary::Not, Rc::new(part)) != part,
    decreases part,
{
    match part {
        ProofTerm::Unary(ProofUnary::Not, inner) => {
            let inside = *inner;
            lemma_bigger(inside, other);
        },
        ProofTerm::Binary(_, left, right) => {
            let a = *left;
            let b = *right;
            lemma_bigger(a, other);
            lemma_bigger(b, other);
            lemma_bigger(a, b);
            lemma_bigger(b, a);
        },
        _ => {},
    }
}

pub proof fn lemma_still_about(
    facts: Chain<(Rc<ProofTerm>, bool)>,
    term: ProofTerm,
    value: bool,
    other: ProofTerm,
)
    requires
        fact_about(facts, other) is Some,
    ensures
        fact_about(facts_with(facts, term, value), other) is Some,
    decreases term,
{
    match term {
        ProofTerm::Unary(ProofUnary::Not, operand) => {
            let inner = *operand;
            lemma_still_about(facts, inner, !value, other);
        },
        ProofTerm::Binary(op, left, right) => {
            let a = *left;
            let b = *right;
            lemma_still_about(facts, a, value, other);
            lemma_still_about(facts_with(facts, a, value), b, value, other);
        },
        _ => {},
    }
}

/// Without any facts, operations on numbers that are written down are decided
/// as arithmetic decides them.
pub proof fn law_numbers_are_compared(facts: ProofFacts, left: ProofTerm, right: ProofTerm)
    requires
        int_value(left) is Some,
        int_value(right) is Some,
        forall|op: ProofBinary| #[trigger]
            fact_about(facts.facts, operation(op, left, right)) is None,
        forall|op: ProofBinary| #[trigger]
            fact_about(facts.facts, operation(op, right, left)) is None,
    ensures
        ({
            let a = int_value(left)->0;
            let b = int_value(right)->0;
            &&& says(facts.verdict(operation(ProofBinary::Less, left, right)), a < b)
            &&& says(facts.verdict(operation(ProofBinary::LessEqual, left, right)), a <= b)
            &&& says(facts.verdict(operation(ProofBinary::Equal, left, right)), a == b)
            &&& says(facts.verdict(operation(ProofBinary::NotEqual, left, right)), a != b)
        }),
{
    let l = Rc::new(left);
    let r = Rc::new(right);
    assert(*l == left && *r == right);
    assert(fact_about(facts.facts, operation(ProofBinary::Less, left, right)) is None);
    assert(fact_about(facts.facts, operation(ProofBinary::LessEqual, left, right)) is None);
    assert(fact_about(facts.facts, operation(ProofBinary::Less, right, left)) is None);
    assert(fact_about(facts.facts, operation(ProofBinary::LessEqual, right, left)) is None);
    assert(fact_about(facts.facts, operation(ProofBinary::Equal, left, right)) is None);
    assert(fact_about(facts.facts, operation(ProofBinary::NotEqual, left, right)) is None);
}

/// The number of a sum, a difference, a product or an opposite that is written
/// down is that of arithmetic, wherever it fits.
pub proof fn law_written_numbers(left: ProofTerm, right: ProofTerm, a: i64, b: i64)
    requires
        int_value(left) == Some(a),
        int_value(right) == Some(b),
    ensures
        match int_value(operation(ProofBinary::Add, left, right)) {
            Some(c) => c == a + b,
            None => !(i64::MIN <= a + b <= i64::MAX),
        },
        match int_value(operation(ProofBinary::Subtract, left, right)) {
            Some(c) => c == a - b,
            None => !(i64::MIN <= a - b <= i64::MAX),
        },
        match int_value(operation(ProofBinary::Multiply, left, right)) {
            Some(c) => c == a * b,
            None => !(i64::MIN <= a * b <= i64::MAX),
        },
        match int_value(ProofTerm::Unary(ProofUnary::Negate, Rc::new(left))) {
            Some(c) => c + a == 0,
            None => a == i64::MIN,
        },
        int_value(ProofTerm::Int(a)) == Some(a),
{
    reveal_with_fuel(int_value, 2);
}

/// Where nothing else is known of the four relations of two values, knowing
/// that one is less than the other decides the rest.
pub proof fn law_less_decides(facts: ProofFacts, left: ProofTerm, right: ProofTerm)
    requires
        left.known(),
        right.known(),
        forall|op: ProofBinary| #[trigger]
            fact_about(facts.facts, operation(op, left, right)) is None,
        forall|op: ProofBinary| #[trigger]
            fact_about(facts.facts, operation(op, right, left)) is None,
        left != right,
    ensures
        ({
            let knowing = facts.assumed(operation(ProofBinary::Less, left, right), true);
            &&& says(knowing.verdict(operation(ProofBinary::Less, left, right)), true)
            &&& says(knowing.verdict(operation(ProofBinary::LessEqual, left, right)), true)
            &&& says(knowing.verdict(operation(ProofBinary::Less, right, left)), false)
            &&& says(knowing.verdict(operation(ProofBinary::LessEqual, right, left)), false)
        }),
        ({
            let knowing = facts.assumed(operation(ProofBinary::LessEqual, left, right), true);
            says(knowing.verdict(operation(ProofBinary::Less, right, left)), false)
        }),
{
    let l = Rc::new(left);
    let r = Rc::new(right);
    assert(*l == left && *r == right);
    assert(fact_about(facts.facts, operation(ProofBinary::Less, left, right)) is None);
    assert(fact_about(facts.facts, operation(ProofBinary::LessEqual, left, right)) is None);
    assert(fact_about(facts.facts, operation(ProofBinary::Less, right, left)) is None);
    assert(fact_about(facts.facts, operation(ProofBinary::LessEqual, right, left)) is None);
    reveal_with_fuel(ProofTerm::known, 2);
}

/// Where nothing is known of an operation itself, its parts decide it: a
/// conjunction is so if both are, and not so if one is not; a disjunction is so
/// if one is, and not so if neither is; a negation is the opposite.
pub proof fn law_parts_decide(facts: ProofFacts, left: ProofTerm, right: ProofTerm, a: bool, b: bool)
    requires
        fact_about(facts.facts, operation(ProofBinary::And, left, right)) is None,
        fact_about(facts.facts, operation(ProofBinary::Or, left, right)) is None,
        fact_about(facts.facts, ProofTerm::Unary(ProofUnary::Not, Rc::new(left))) is None,
    ensures
        says(facts.verdict(left), a) && says(facts.verdict(right), b) ==> says(
            facts.verdict(operation(ProofBinary::And, left, right)),
            a && b,
        ) && says(facts.verdict(operation(ProofBinary::Or, left, right)), a || b),
        says(facts.verdict(left), a) ==> says(
            facts.verdict(ProofTerm::Unary(ProofUnary::Not, Rc::new(left))),
            !a,
        ),
        says(facts.verdict(left), false) || says(facts.verdict(right), false) ==> says(
            facts.verdict(operation(ProofBinary::And, left, right)),
            false,
        ),
        says(facts.verdict(left), true) || says(facts.verdict(right), true) ==> says(
            facts.verdict(operation(ProofBinary::Or, left, right)),
            true,
        ),
{
}

/// After a place is written, exactly the facts that do not read it are left.
pub proof fn law_writes_forget(facts: ProofFacts, place: ProofPlace, term: ProofTerm)
    ensures
        fact_about(facts.without(place).facts, term) == if term.mentions(place) {
            None
        } else {
            fact_about(facts.facts, term)
        },
{
    lemma_facts_without(facts.facts, place, term);
}

proof fn lemma_facts_without(
    facts: Chain<(Rc<ProofTerm>, bool)>,
    place: ProofPlace,
    term: ProofTerm,
)
    ensures
        fact_about(facts_without(facts, place), term) == if term.mentions(place) {
            None
        } else {
            fact_about(facts, term)
        },
    decreases facts,
{
    if facts is Link {
        lemma_facts_without(facts.without_last(), place, term);
    }
}

/// A place is read by the terms that name it, a part of it, or what it is a
/// part of.
pub proof fn law_places_are_mentioned(place: ProofPlace, field: DefId)
    ensures
        ProofTerm::Place(place).mentions(place),
        ProofTerm::Place(
            ProofPlace { root: place.root, fields: place.fields.pushed(field) },
        ).mentions(place),
        ProofTerm::Place(place).mentions(
            ProofPlace { root: place.root, fields: place.fields.pushed(field) },
        ),
        forall|other: ProofPlace|
            other.root != place.root ==> !#[trigger] ProofTerm::Place(other).mentions(place),
        forall|op: ProofBinary, left: ProofTerm, right: ProofTerm| #[trigger]
            operation(op, left, right).mentions(place) == (left.mentions(place) || right.mentions(
                place,
            )),
{
    reveal_with_fuel(crate::symbolic::is_front, 3);
    reveal_with_fuel(ProofTerm::mentions, 2);
}

/// The value of a field of a record is the one that it was given last; a field
/// of a place is the place of that field, and a constrained value has the
/// fields of what it constrains.
pub proof fn law_field_values(
    definition: DefId,
    fields: Chain<(DefId, ProofTerm)>,
    field: DefId,
    value: ProofTerm,
    other: DefId,
    place: ProofPlace,
)
    ensures
        (ProofTerm::Record { definition, fields: fields.pushed((field, value)) }).field_of(field)
            == value,
        other != field ==> (ProofTerm::Record {
            definition,
            fields: fields.pushed((field, value)),
        }).field_of(other) == (ProofTerm::Record { definition, fields }).field_of(other),
        !(ProofTerm::Record { definition, fields: Chain::Empty }).field_of(field).known(),
        match ProofTerm::Place(place).field_of(field) {
            ProofTerm::Place(part) => part.root == place.root && part.fields == place.fields.pushed(
                field,
            ),
            _ => false,
        },
        (ProofTerm::Refined { definition, value: Rc::new(value) }).field_of(field)
            == value.field_of(field),
        !(value.unrefined() is Refined),
        !(value is Refined) ==> (ProofTerm::Refined {
            definition,
            value: Rc::new(value),
        }).unrefined() == value,
{
    reveal_with_fuel(ProofTerm::field_of, 2);
    reveal_with_fuel(ProofTerm::unrefined, 2);
    reveal_with_fuel(field_term, 2);
    lemma_bare(value);
}

proof fn lemma_bare(term: ProofTerm)
    ensures
        !(term.unrefined() is Refined),
    decreases term,
{
    match term {
        ProofTerm::Refined { definition: _, value } => {
            let inner = *value;
            lemma_bare(inner);
        },
        _ => {},
    }
}

proof fn lemma_term_put(
    terms: Chain<(u32, Rc<ProofTerm>)>,
    local: u32,
    term: ProofTerm,
    other: u32,
)
    ensures
        term_of(term_put(terms, local, term), other) == if other == local {
            Some(term)
        } else {
            term_of(terms, other)
        },
        term_of(term_dropped(terms, local), other) == if other == local {
            None
        } else {
            term_of(terms, other)
        },
    decreases terms,
{
    if terms is Link {
        lemma_term_put(terms.without_last(), local, term, other);
    }
}

proof fn lemma_terms_without(
    terms: Chain<(u32, Rc<ProofTerm>)>,
    place: ProofPlace,
    kept: Option<u32>,
    other: u32,
)
    ensures
        kept != Some(other) ==> match term_of(terms_without(terms, place, kept), other) {
            Some(term) => !term.mentions(place),
            None => true,
        },
        match term_of(terms, other) {
            Some(term) => !term.mentions(place) ==> term_of(
                terms_without(terms, place, kept),
                other,
            ) == Some(term),
            None => term_of(terms_without(terms, place, kept), other) is None,
        },
    decreases terms,
{
    if terms is Link {
        lemma_terms_without(terms.without_last(), place, kept, other);
    }
}

/// An assignment to a local is remembered: the local has the value that was
/// assigned, unless that is unknown or reads the local itself; then nothing is
/// known of it. What was known and reads the local is forgotten, and what does
/// not is kept.
pub proof fn law_assignments_are_remembered(
    w: World,
    place: Place,
    local: LocalId,
    value: ProofTerm,
    other: LocalId,
    term: ProofTerm,
)
    requires
        place.root == PlaceRoot::Local(local),
        place.projections is Empty,
    ensures
        ({
            let after = w.store_term(place, value);
            let written = symbolic_place(place);
            &&& term_of(after.st.flow.local_terms, local.0) == if value.known() && !value.mentions(
                written,
            ) {
                Some(value)
            } else {
                None
            }
            &&& other != local ==> match term_of(after.st.flow.local_terms, other.0) {
                Some(found) => !found.mentions(written),
                None => true,
            }
            &&& other != local ==> match term_of(w.st.flow.local_terms, other.0) {
                Some(found) => !found.mentions(written) ==> term_of(
                    after.st.flow.local_terms,
                    other.0,
                ) == Some(found),
                None => true,
            }
            &&& term.mentions(written) ==> fact_about(after.st.flow.proof_facts.facts, term) is None
            &&& !term.mentions(written) ==> fact_about(after.st.flow.proof_facts.facts, term)
                == fact_about(w.st.flow.proof_facts.facts, term)
            &&& after.st.diagnostics == w.st.diagnostics
            &&& after.st.flow.task_obligations == w.st.flow.task_obligations
            &&& after.st.flow.borrows == w.st.flow.borrows
        }),
{
    reveal(World::store_term);
    let written = symbolic_place(place);
    let terms = terms_without(w.st.flow.local_terms, written, Some(local.0));
    lemma_term_put(terms, local.0, value, local.0);
    lemma_term_put(terms, local.0, value, other.0);
    lemma_terms_without(w.st.flow.local_terms, written, Some(local.0), other.0);
    law_writes_forget(w.st.flow.proof_facts, written, term);
}

/// A local that is bound has the value that it is bound to, if that is known.
pub proof fn law_bindings_are_remembered(
    w: World,
    local: LocalId,
    value: ProofTerm,
    drop_unknown: bool,
    other: LocalId,
)
    ensures
        ({
            let after = w.set_local_term(local, value, drop_unknown);
            &&& value.known() ==> term_of(after.st.flow.local_terms, local.0) == Some(value)
            &&& !value.known() && drop_unknown ==> term_of(after.st.flow.local_terms, local.0) is None
            &&& other != local ==> term_of(after.st.flow.local_terms, other.0) == term_of(
                w.st.flow.local_terms,
                other.0,
            )
            &&& after.st.diagnostics == w.st.diagnostics
        }),
{
    reveal(World::set_local_term);
    lemma_term_put(w.st.flow.local_terms, local.0, value, local.0);
    lemma_term_put(w.st.flow.local_terms, local.0, value, other.0);
}

} // verus!
