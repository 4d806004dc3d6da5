//! Symbolic values and the facts that are known of them.

use std::rc::Rc;
use vstd::prelude::*;

use crate::chain::{Chain, Same};
use crate::ids::DefId;

verus! {

/// What a symbolic place starts from.
#[derive(Clone, Copy, Debug, PartialEq, Eq, Structural)]
pub enum ProofRoot {
    Param(u32),
    OldParam(u32),
    SelfValue,
    OldSelf,
    ResultValue,
    Local(u32),
    Expression { body: u32, expression: u32 },
}

/// A symbolic place: a root and the fields that lead from it.
pub struct ProofPlace {
    pub root: ProofRoot,
    pub fields: Chain<DefId>,
}

#[derive(Clone, Copy, Debug, PartialEq, Eq, Structural)]
pub enum ProofUnary {
    Negate,
    Not,
}

#[derive(Clone, Copy, Debug, PartialEq, Eq, Structural)]
pub enum ProofBinary {
    Add,
    Subtract,
    Multiply,
    Divide,
    Equal,
    NotEqual,
    Less,
    LessEqual,
    And,
    Or,
}

/// A symbolic value. A float is held as the bits of its double.
pub enum ProofTerm {
    Unknown,
    Bool(bool),
    Int(i64),
    Float(u64),
    Text(Chain<char>),
    Unit,
    Place(ProofPlace),
    Tuple(Chain<ProofTerm>),
    Variant { owner: DefId, variant: DefId, payload: Chain<ProofTerm> },
    Record { definition: DefId, fields: Chain<(DefId, ProofTerm)> },
    Refined { definition: DefId, value: Rc<ProofTerm> },
    Unary(ProofUnary, Rc<ProofTerm>),
    Binary(ProofBinary, Rc<ProofTerm>, Rc<ProofTerm>),
    IsFinite(Rc<ProofTerm>),
}

#[derive(Clone, Copy, Debug, PartialEq, Eq, Structural)]
pub enum ProofResult {
    Proven,
    Disproven,
    Unknown,
}

impl Same for char {
    fn same(&self, other: &Self) -> (equal: bool) {
        *self == *other
    }
}

impl Same for ProofPlace {
    fn same(&self, other: &Self) -> (equal: bool) {
        self.root == other.root && self.fields.same(&other.fields)
    }
}

impl Clone for ProofPlace {
    fn clone(&self) -> (copy: Self)
        ensures
            copy == *self,
    {
        ProofPlace { root: self.root, fields: self.fields.clone() }
    }
}

impl Same for ProofTerm {
    fn same(&self, other: &Self) -> (equal: bool)
        decreases self,
    {
        match (self, other) {
            (ProofTerm::Unknown, ProofTerm::Unknown) => true,
            (ProofTerm::Bool(left), ProofTerm::Bool(right)) => *left == *right,
            (ProofTerm::Int(left), ProofTerm::Int(right)) => *left == *right,
            (ProofTerm::Float(left), ProofTerm::Float(right)) => *left == *right,
            (ProofTerm::Text(left), ProofTerm::Text(right)) => left.same(right),
            (ProofTerm::Unit, ProofTerm::Unit) => true,
            (ProofTerm::Place(left), ProofTerm::Place(right)) => left.same(right),
            (ProofTerm::Tuple(left), ProofTerm::Tuple(right)) => same_terms(left, right),
            (
                ProofTerm::Variant { owner: left_owner, variant: left, payload: left_payload },
                ProofTerm::Variant { owner: right_owner, variant: right, payload: right_payload },
            ) => *left_owner == *right_owner && *left == *right && same_terms(
                left_payload,
                right_payload,
            ),
            (
                ProofTerm::Record { definition: left, fields: left_fields },
                ProofTerm::Record { definition: right, fields: right_fields },
            ) => *left == *right && same_fields(left_fields, right_fields),
            (
                ProofTerm::Refined { definition: left, value: left_value },
                ProofTerm::Refined { definition: right, value: right_value },
            ) => *left == *right && left_value.same(right_value),
            (ProofTerm::Unary(left, left_operand), ProofTerm::Unary(right, right_operand)) => *left
                == *right && left_operand.same(right_operand),
            (ProofTerm::Binary(left, left_a, left_b), ProofTerm::Binary(right, right_a, right_b)) =>
                *left == *right && left_a.same(right_a) && left_b.same(right_b),
            (ProofTerm::IsFinite(left), ProofTerm::IsFinite(right)) => left.same(right),
            _ => false,
        }
    }
}

fn same_terms(left: &Chain<ProofTerm>, right: &Chain<ProofTerm>) -> (equal: bool)
    ensures
        equal == (*left == *right),
    decreases left,
{
    match (left, right) {
        (Chain::Empty, Chain::Empty) => true,
        (Chain::Link(a), Chain::Link(b)) => same_terms(&a.rest, &b.rest) && a.item.same(&b.item),
        _ => false,
    }
}

fn same_fields(left: &Chain<(DefId, ProofTerm)>, right: &Chain<(DefId, ProofTerm)>) -> (equal: bool)
    ensures
        equal == (*left == *right),
    decreases left,
{
    match (left, right) {
        (Chain::Empty, Chain::Empty) => true,
        (Chain::Link(a), Chain::Link(b)) => same_fields(&a.rest, &b.rest) && a.item.0 == b.item.0
            && a.item.1.same(&b.item.1),
        _ => false,
    }
}

impl Clone for ProofTerm {
    fn clone(&self) -> (copy: Self)
        ensures
            copy == *self,
    {
        match self {
            ProofTerm::Unknown => ProofTerm::Unknown,
            ProofTerm::Bool(value) => ProofTerm::Bool(*value),
            ProofTerm::Int(value) => ProofTerm::Int(*value),
            ProofTerm::Float(value) => ProofTerm::Float(*value),
            ProofTerm::Text(value) => ProofTerm::Text(value.clone()),
            ProofTerm::Unit => ProofTerm::Unit,
            ProofTerm::Place(place) => ProofTerm::Place(place.clone()),
            ProofTerm::Tuple(elements) => ProofTerm::Tuple(elements.clone()),
            ProofTerm::Variant { owner, variant, payload } => ProofTerm::Variant {
                owner: *owner,
                variant: *variant,
                payload: payload.clone(),
            },
            ProofTerm::Record { definition, fields } => ProofTerm::Record {
                definition: *definition,
                fields: fields.clone(),
            },
            ProofTerm::Refined { definition, value } => ProofTerm::Refined {
                definition: *definition,
                value: value.clone(),
            },
            ProofTerm::Unary(op, operand) => ProofTerm::Unary(*op, operand.clone()),
            ProofTerm::Binary(op, left, right) => ProofTerm::Binary(
                *op,
                left.clone(),
                right.clone(),
            ),
            ProofTerm::IsFinite(operand) => ProofTerm::IsFinite(operand.clone()),
        }
    }
}

/// A place without fields.
pub open spec fn root_term(root: ProofRoot) -> ProofTerm {
    ProofTerm::Place(ProofPlace { root, fields: Chain::Empty })
}

pub fn make_root_term(root: ProofRoot) -> (term: ProofTerm)
    ensures
        term == root_term(root),
{
    ProofTerm::Place(ProofPlace { root, fields: Chain::new() })
}

/// The value of a field among the fields of a record.
pub open spec fn field_term(fields: Chain<(DefId, ProofTerm)>, field: DefId) -> ProofTerm
    decreases fields,
{
    match fields {
        Chain::Empty => ProofTerm::Unknown,
        Chain::Link(link) => if link.item.0 == field {
            link.item.1
        } else {
            field_term(link.rest, field)
        },
    }
}

fn find_field_term(fields: &Chain<(DefId, ProofTerm)>, field: DefId) -> (term: ProofTerm)
    ensures
        term == field_term(*fields, field),
    decreases fields,
{
    match fields {
        Chain::Empty => ProofTerm::Unknown,
        Chain::Link(link) => if link.item.0 == field {
            link.item.1.clone()
        } else {
            find_field_term(&link.rest, field)
        },
    }
}

impl ProofTerm {
    /// The value without the refinements around it.
    pub open spec fn unrefined(self) -> ProofTerm
        decreases self,
    {
        match self {
            ProofTerm::Refined { definition: _, value } => value.unrefined(),
            _ => self,
        }
    }

    pub fn unrefine(&self) -> (term: ProofTerm)
        ensures
            term == self.unrefined(),
        decreases self,
    {
        match self {
            ProofTerm::Refined { definition: _, value } => value.unrefine(),
            _ => self.clone(),
        }
    }

    /// The value of a field.
    pub open spec fn field_of(self, field: DefId) -> ProofTerm
        decreases self,
    {
        match self {
            ProofTerm::Record { definition: _, fields } => field_term(fields, field),
            ProofTerm::Refined { definition: _, value } => value.field_of(field),
            ProofTerm::Place(place) => ProofTerm::Place(
                ProofPlace { root: place.root, fields: place.fields.pushed(field) },
            ),
            _ => ProofTerm::Unknown,
        }
    }

    pub fn field(&self, field: DefId) -> (term: ProofTerm)
        ensures
            term == self.field_of(field),
        decreases self,
    {
        match self {
            ProofTerm::Record { definition: _, fields } => find_field_term(fields, field),
            ProofTerm::Refined { definition: _, value } => value.field(field),
            ProofTerm::Place(place) => ProofTerm::Place(
                ProofPlace { root: place.root, fields: place.fields.clone().with(field) },
            ),
            _ => ProofTerm::Unknown,
        }
    }

    /// The value has no unknown part.
    pub open spec fn known(self) -> bool
        decreases self,
    {
        match self {
            ProofTerm::Unknown => false,
            ProofTerm::Tuple(elements) => terms_known(elements),
            ProofTerm::Variant { owner: _, variant: _, payload } => terms_known(payload),
            ProofTerm::Record { definition: _, fields } => fields_known(fields),
            ProofTerm::Refined { definition: _, value } => value.known(),
            ProofTerm::Unary(_, operand) => operand.known(),
            ProofTerm::Binary(_, left, right) => left.known() && right.known(),
            ProofTerm::IsFinite(operand) => operand.known(),
            _ => true,
        }
    }

    pub fn is_known(&self) -> (known: bool)
        ensures
            known == self.known(),
        decreases self,
    {
        match self {
            ProofTerm::Unknown => false,
            ProofTerm::Tuple(elements) => check_terms_known(elements),
            ProofTerm::Variant { owner: _, variant: _, payload } => check_terms_known(payload),
            ProofTerm::Record { definition: _, fields } => check_fields_known(fields),
            ProofTerm::Refined { definition: _, value } => value.is_known(),
            ProofTerm::Unary(_, operand) => operand.is_known(),
            ProofTerm::Binary(_, left, right) => left.is_known() && right.is_known(),
            ProofTerm::IsFinite(operand) => operand.is_known(),
            _ => true,
        }
    }

    /// The value reads a place that overlaps `place`.
    pub open spec fn mentions(self, place: ProofPlace) -> bool
        decreases self,
    {
        match self {
            ProofTerm::Place(other) => proof_places_overlap(other, place),
            ProofTerm::Tuple(elements) => terms_mention(elements, place),
            ProofTerm::Variant { owner: _, variant: _, payload } => terms_mention(payload, place),
            ProofTerm::Record { definition: _, fields } => fields_mention(fields, place),
            ProofTerm::Refined { definition: _, value } => value.mentions(place),
            ProofTerm::Unary(_, operand) => operand.mentions(place),
            ProofTerm::Binary(_, left, right) => left.mentions(place) || right.mentions(place),
            ProofTerm::IsFinite(operand) => operand.mentions(place),
            _ => false,
        }
    }

    pub fn contains_place(&self, place: &ProofPlace) -> (mentions: bool)
        ensures
            mentions == self.mentions(*place),
        decreases self,
    {
        match self {
            ProofTerm::Place(other) => overlap_proof_places(other, place),
            ProofTerm::Tuple(elements) => check_terms_mention(elements, place),
            ProofTerm::Variant { owner: _, variant: _, payload } => check_terms_mention(
                payload,
                place,
            ),
            ProofTerm::Record { definition: _, fields } => check_fields_mention(fields, place),
            ProofTerm::Refined { definition: _, value } => value.contains_place(place),
            ProofTerm::Unary(_, operand) => operand.contains_place(place),
            ProofTerm::Binary(_, left, right) => left.contains_place(place)
                || right.contains_place(place),
            ProofTerm::IsFinite(operand) => operand.contains_place(place),
            _ => false,
        }
    }
}

pub open spec fn terms_known(terms: Chain<ProofTerm>) -> bool
    decreases terms,
{
    match terms {
        Chain::Empty => true,
        Chain::Link(link) => terms_known(link.rest) && link.item.known(),
    }
}

pub open spec fn fields_known(fields: Chain<(DefId, ProofTerm)>) -> bool
    decreases fields,
{
    match fields {
        Chain::Empty => true,
        Chain::Link(link) => fields_known(link.rest) && link.item.1.known(),
    }
}

fn check_terms_known(terms: &Chain<ProofTerm>) -> (known: bool)
    ensures
        known == terms_known(*terms),
    decreases terms,
{
    match terms {
        Chain::Empty => true,
        Chain::Link(link) => check_terms_known(&link.rest) && link.item.is_known(),
    }
}

fn check_fields_known(fields: &Chain<(DefId, ProofTerm)>) -> (known: bool)
    ensures
        known == fields_known(*fields),
    decreases fields,
{
    match fields {
        Chain::Empty => true,
        Chain::Link(link) => check_fields_known(&link.rest) && link.item.1.is_known(),
    }
}

pub open spec fn terms_mention(terms: Chain<ProofTerm>, place: ProofPlace) -> bool
    decreases terms,
{
    match terms {
        Chain::Empty => false,
        Chain::Link(link) => terms_mention(link.rest, place) || link.item.mentions(place),
    }
}

pub open spec fn fields_mention(fields: Chain<(DefId, ProofTerm)>, place: ProofPlace) -> bool
    decreases fields,
{
    match fields {
        Chain::Empty => false,
        Chain::Link(link) => fields_mention(link.rest, place) || link.item.1.mentions(place),
    }
}

fn check_terms_mention(terms: &Chain<ProofTerm>, place: &ProofPlace) -> (mentions: bool)
    ensures
        mentions == terms_mention(*terms, *place),
    decreases terms,
{
    match terms {
        Chain::Empty => false,
        Chain::Link(link) => check_terms_mention(&link.rest, place) || link.item.contains_place(
            place,
        ),
    }
}

fn check_fields_mention(fields: &Chain<(DefId, ProofTerm)>, place: &ProofPlace) -> (mentions: bool)
    ensures
        mentions == fields_mention(*fields, *place),
    decreases fields,
{
    match fields {
        Chain::Empty => false,
        Chain::Link(link) => check_fields_mention(&link.rest, place) || link.item.1.contains_place(
            place,
        ),
    }
}

/// Whether `prefix` is the front of `whole`.
pub open spec fn is_front(prefix: Chain<DefId>, whole: Chain<DefId>) -> bool
    decreases whole,
{
    prefix == whole || match whole {
        Chain::Empty => false,
        Chain::Link(link) => is_front(prefix, link.rest),
    }
}

pub fn check_is_front(prefix: &Chain<DefId>, whole: &Chain<DefId>) -> (front: bool)
    ensures
        front == is_front(*prefix, *whole),
    decreases whole,
{
    prefix.same(whole) || match whole {
        Chain::Empty => false,
        Chain::Link(link) => check_is_front(prefix, &link.rest),
    }
}

/// One of the places is a part of the other.
pub open spec fn proof_places_overlap(left: ProofPlace, right: ProofPlace) -> bool {
    left.root == right.root && (is_front(left.fields, right.fields) || is_front(
        right.fields,
        left.fields,
    ))
}

fn overlap_proof_places(left: &ProofPlace, right: &ProofPlace) -> (overlap: bool)
    ensures
        overlap == proof_places_overlap(*left, *right),
{
    left.root == right.root && (check_is_front(&left.fields, &right.fields) || check_is_front(
        &right.fields,
        &left.fields,
    ))
}

/// Terms that are known to be true or false, oldest first.
pub struct ProofFacts {
    pub facts: Chain<(Rc<ProofTerm>, bool)>,
}

impl Clone for ProofFacts {
    fn clone(&self) -> (copy: Self)
        ensures
            copy == *self,
    {
        ProofFacts { facts: self.facts.clone() }
    }
}

/// What the newest fact about `term` says.
pub open spec fn fact_about(facts: Chain<(Rc<ProofTerm>, bool)>, term: ProofTerm) -> Option<bool>
    decreases facts,
{
    match facts {
        Chain::Empty => None,
        Chain::Link(link) => if *link.item.0 == term {
            Some(link.item.1)
        } else {
            fact_about(link.rest, term)
        },
    }
}

fn find_fact(facts: &Chain<(Rc<ProofTerm>, bool)>, term: &ProofTerm) -> (value: Option<bool>)
    ensures
        value == fact_about(*facts, *term),
    decreases facts,
{
    match facts {
        Chain::Empty => None,
        Chain::Link(link) => if link.item.0.same(term) {
            Some(link.item.1)
        } else {
            find_fact(&link.rest, term)
        },
    }
}

/// The facts that do not read a place overlapping `place`.
pub open spec fn facts_without(
    facts: Chain<(Rc<ProofTerm>, bool)>,
    place: ProofPlace,
) -> Chain<(Rc<ProofTerm>, bool)>
    decreases facts,
{
    match facts {
        Chain::Empty => facts,
        Chain::Link(link) => if link.item.0.mentions(place) {
            facts_without(link.rest, place)
        } else {
            facts_without(link.rest, place).pushed(link.item)
        },
    }
}

fn remove_facts(facts: &Chain<(Rc<ProofTerm>, bool)>, place: &ProofPlace) -> (result: Chain<
    (Rc<ProofTerm>, bool),
>)
    ensures
        result == facts_without(*facts, *place),
    decreases facts,
{
    match facts {
        Chain::Empty => Chain::new(),
        Chain::Link(link) => if link.item.0.contains_place(place) {
            remove_facts(&link.rest, place)
        } else {
            remove_facts(&link.rest, place).with((link.item.0.clone(), link.item.1))
        },
    }
}

/// The facts that hold in `others` too.
pub open spec fn facts_shared(
    facts: Chain<(Rc<ProofTerm>, bool)>,
    others: Chain<(Rc<ProofTerm>, bool)>,
) -> Chain<(Rc<ProofTerm>, bool)>
    decreases facts,
{
    match facts {
        Chain::Empty => facts,
        Chain::Link(link) => if fact_about(others, *link.item.0) == Some(link.item.1) {
            facts_shared(link.rest, others).pushed(link.item)
        } else {
            facts_shared(link.rest, others)
        },
    }
}

pub fn share_facts(
    facts: &Chain<(Rc<ProofTerm>, bool)>,
    others: &Chain<(Rc<ProofTerm>, bool)>,
) -> (result: Chain<(Rc<ProofTerm>, bool)>)
    ensures
        result == facts_shared(*facts, *others),
    decreases facts,
{
    match facts {
        Chain::Empty => Chain::new(),
        Chain::Link(link) => {
            let holds = match find_fact(others, &link.item.0) {
                Some(value) => value == link.item.1,
                None => false,
            };
            if holds {
                share_facts(&link.rest, others).with((link.item.0.clone(), link.item.1))
            } else {
                share_facts(&link.rest, others)
            }
        },
    }
}

pub open spec fn negated(result: ProofResult) -> ProofResult {
    match result {
        ProofResult::Proven => ProofResult::Disproven,
        ProofResult::Disproven => ProofResult::Proven,
        ProofResult::Unknown => ProofResult::Unknown,
    }
}

pub open spec fn both(left: ProofResult, right: ProofResult) -> ProofResult {
    if left == ProofResult::Disproven || right == ProofResult::Disproven {
        ProofResult::Disproven
    } else if left == ProofResult::Proven && right == ProofResult::Proven {
        ProofResult::Proven
    } else {
        ProofResult::Unknown
    }
}

pub open spec fn decided(value: bool) -> ProofResult {
    if value {
        ProofResult::Proven
    } else {
        ProofResult::Disproven
    }
}

fn negate_result(result: ProofResult) -> (negation: ProofResult)
    ensures
        negation == negated(result),
{
    match result {
        ProofResult::Proven => ProofResult::Disproven,
        ProofResult::Disproven => ProofResult::Proven,
        ProofResult::Unknown => ProofResult::Unknown,
    }
}

fn join_results(left: ProofResult, right: ProofResult) -> (result: ProofResult)
    ensures
        result == both(left, right),
{
    if left == ProofResult::Disproven || right == ProofResult::Disproven {
        ProofResult::Disproven
    } else if left == ProofResult::Proven && right == ProofResult::Proven {
        ProofResult::Proven
    } else {
        ProofResult::Unknown
    }
}

fn decide(value: bool) -> (result: ProofResult)
    ensures
        result == decided(value),
{
    if value {
        ProofResult::Proven
    } else {
        ProofResult::Disproven
    }
}

/// The integer if it is in the range of `i64`.
pub open spec fn in_range(value: int) -> Option<i64> {
    if i64::MIN <= value <= i64::MAX {
        Some(value as i64)
    } else {
        None
    }
}

/// The value of a closed integer term that does not overflow.
pub open spec fn int_value(term: ProofTerm) -> Option<i64>
    decreases term,
{
    match term {
        ProofTerm::Int(value) => Some(value),
        ProofTerm::Unary(ProofUnary::Negate, operand) => match int_value(*operand) {
            Some(value) => in_range(-value),
            None => None,
        },
        ProofTerm::Binary(op, left, right) => match (int_value(*left), int_value(*right)) {
            (Some(left), Some(right)) => match op {
                ProofBinary::Add => in_range(left + right),
                ProofBinary::Subtract => in_range(left - right),
                ProofBinary::Multiply => in_range(left * right),
                _ => None,
            },
            _ => None,
        },
        _ => None,
    }
}

fn evaluate_int(term: &ProofTerm) -> (value: Option<i64>)
    ensures
        value == int_value(*term),
    decreases term,
{
    match term {
        ProofTerm::Int(value) => Some(*value),
        ProofTerm::Unary(ProofUnary::Negate, operand) => match evaluate_int(operand) {
            Some(value) => if value == i64::MIN {
                None
            } else {
                Some(-value)
            },
            None => None,
        },
        ProofTerm::Binary(op, left, right) => match (evaluate_int(left), evaluate_int(right)) {
            (Some(left), Some(right)) => match op {
                ProofBinary::Add => left.checked_add(right),
                ProofBinary::Subtract => left.checked_sub(right),
                ProofBinary::Multiply => left.checked_mul(right),
                _ => None,
            },
            _ => None,
        },
        _ => None,
    }
}

/// The bits of a double as a number: doubles that are not NaN are ordered as
/// these numbers are.
pub open spec fn float_rank(bits: u64) -> Option<int> {
    let magnitude = bits as int % 0x8000_0000_0000_0000;
    if magnitude > 0x7ff0_0000_0000_0000 {
        None
    } else if bits as int >= 0x8000_0000_0000_0000 {
        Some(-magnitude)
    } else {
        Some(magnitude)
    }
}

fn rank_float(bits: u64) -> (rank: Option<i64>)
    ensures
        match rank {
            Some(value) => float_rank(bits) == Some(value as int),
            None => float_rank(bits) is None,
        },
{
    let magnitude: u64 = bits % 0x8000_0000_0000_0000;
    if magnitude > 0x7ff0_0000_0000_0000 {
        None
    } else if bits >= 0x8000_0000_0000_0000 {
        Some(-(magnitude as i64))
    } else {
        Some(magnitude as i64)
    }
}

/// The double is finite.
pub open spec fn float_finite(bits: u64) -> bool {
    bits as int % 0x8000_0000_0000_0000 < 0x7ff0_0000_0000_0000
}

/// What comparing two closed terms for equality gives.
pub open spec fn equality(left: ProofTerm, right: ProofTerm) -> ProofResult {
    match (int_value(left), int_value(right)) {
        (Some(a), Some(b)) => decided(a == b),
        _ => match (left, right) {
            (ProofTerm::Bool(a), ProofTerm::Bool(b)) => decided(a == b),
            (ProofTerm::Text(a), ProofTerm::Text(b)) => decided(a == b),
            (ProofTerm::Unit, ProofTerm::Unit) => ProofResult::Proven,
            (ProofTerm::Float(a), ProofTerm::Float(b)) => match (float_rank(a), float_rank(b)) {
                (Some(a), Some(b)) => decided(a == b),
                _ => ProofResult::Disproven,
            },
            (ProofTerm::Place(a), ProofTerm::Place(b)) => if a == b {
                ProofResult::Proven
            } else {
                ProofResult::Unknown
            },
            _ => ProofResult::Unknown,
        },
    }
}

fn compare_equal(left: &ProofTerm, right: &ProofTerm) -> (result: ProofResult)
    ensures
        result == equality(*left, *right),
{
    match (evaluate_int(left), evaluate_int(right)) {
        (Some(a), Some(b)) => decide(a == b),
        _ => match (left, right) {
            (ProofTerm::Bool(a), ProofTerm::Bool(b)) => decide(*a == *b),
            (ProofTerm::Text(a), ProofTerm::Text(b)) => decide(a.same(b)),
            (ProofTerm::Unit, ProofTerm::Unit) => ProofResult::Proven,
            (ProofTerm::Float(a), ProofTerm::Float(b)) => match (rank_float(*a), rank_float(*b)) {
                (Some(a), Some(b)) => decide(a == b),
                _ => ProofResult::Disproven,
            },
            (ProofTerm::Place(a), ProofTerm::Place(b)) => if a.same(b) {
                ProofResult::Proven
            } else {
                ProofResult::Unknown
            },
            _ => ProofResult::Unknown,
        },
    }
}

/// What comparing two closed numbers for order gives.
pub open spec fn order(left: ProofTerm, right: ProofTerm, or_equal: bool) -> ProofResult {
    match (int_value(left), int_value(right)) {
        (Some(a), Some(b)) => decided(a < b || (or_equal && a == b)),
        _ => match (left, right) {
            (ProofTerm::Float(a), ProofTerm::Float(b)) => match (float_rank(a), float_rank(b)) {
                (Some(a), Some(b)) => decided(a < b || (or_equal && a == b)),
                _ => ProofResult::Disproven,
            },
            _ => ProofResult::Unknown,
        },
    }
}

fn compare_order(left: &ProofTerm, right: &ProofTerm, or_equal: bool) -> (result: ProofResult)
    ensures
        result == order(*left, *right, or_equal),
{
    match (evaluate_int(left), evaluate_int(right)) {
        (Some(a), Some(b)) => decide(a < b || (or_equal && a == b)),
        _ => match (left, right) {
            (ProofTerm::Float(a), ProofTerm::Float(b)) => match (rank_float(*a), rank_float(*b)) {
                (Some(a), Some(b)) => decide(a < b || (or_equal && a == b)),
                _ => ProofResult::Disproven,
            },
            _ => ProofResult::Unknown,
        },
    }
}

/// What the facts say of one number being less than another, apart from a fact
/// that says so. What is less is not greater or equal the other way round.
pub open spec fn less_by_facts(
    facts: Chain<(Rc<ProofTerm>, bool)>,
    left: Rc<ProofTerm>,
    right: Rc<ProofTerm>,
) -> ProofResult {
    if fact_about(facts, ProofTerm::Binary(ProofBinary::Less, right, left)) == Some(true)
        || fact_about(facts, ProofTerm::Binary(ProofBinary::LessEqual, right, left)) == Some(
        true,
    ) {
        ProofResult::Disproven
    } else {
        order(*left, *right, false)
    }
}

/// What the facts say of one number being at most another, apart from a fact
/// that says so. What is less is also at most.
pub open spec fn at_most_by_facts(
    facts: Chain<(Rc<ProofTerm>, bool)>,
    left: Rc<ProofTerm>,
    right: Rc<ProofTerm>,
) -> ProofResult {
    if fact_about(facts, ProofTerm::Binary(ProofBinary::Less, left, right)) == Some(true) {
        ProofResult::Proven
    } else if fact_about(facts, ProofTerm::Binary(ProofBinary::Less, right, left)) == Some(true) {
        ProofResult::Disproven
    } else {
        order(*left, *right, true)
    }
}

fn holds(
    facts: &Chain<(Rc<ProofTerm>, bool)>,
    op: ProofBinary,
    left: &Rc<ProofTerm>,
    right: &Rc<ProofTerm>,
) -> (result: bool)
    ensures
        result == (fact_about(*facts, ProofTerm::Binary(op, *left, *right)) == Some(true)),
{
    match find_fact(facts, &ProofTerm::Binary(op, left.clone(), right.clone())) {
        Some(value) => value,
        None => false,
    }
}

fn prove_less(
    facts: &Chain<(Rc<ProofTerm>, bool)>,
    left: &Rc<ProofTerm>,
    right: &Rc<ProofTerm>,
) -> (result: ProofResult)
    ensures
        result == less_by_facts(*facts, *left, *right),
{
    if holds(facts, ProofBinary::Less, right, left) || holds(
        facts,
        ProofBinary::LessEqual,
        right,
        left,
    ) {
        ProofResult::Disproven
    } else {
        compare_order(left, right, false)
    }
}

fn prove_at_most(
    facts: &Chain<(Rc<ProofTerm>, bool)>,
    left: &Rc<ProofTerm>,
    right: &Rc<ProofTerm>,
) -> (result: ProofResult)
    ensures
        result == at_most_by_facts(*facts, *left, *right),
{
    if holds(facts, ProofBinary::Less, left, right) {
        ProofResult::Proven
    } else if holds(facts, ProofBinary::Less, right, left) {
        ProofResult::Disproven
    } else {
        compare_order(left, right, true)
    }
}

/// What the facts say of `term`: a fact about the term itself first, then what
/// follows from its parts.
pub open spec fn proved(facts: Chain<(Rc<ProofTerm>, bool)>, term: ProofTerm) -> ProofResult
    decreases term,
{
    match fact_about(facts, term) {
        Some(value) => decided(value),
        None => match term {
            ProofTerm::Bool(value) => decided(value),
            ProofTerm::Unary(ProofUnary::Not, operand) => negated(proved(facts, *operand)),
            ProofTerm::Binary(op, left, right) => match op {
                ProofBinary::And => both(proved(facts, *left), proved(facts, *right)),
                ProofBinary::Or => negated(
                    both(negated(proved(facts, *left)), negated(proved(facts, *right))),
                ),
                ProofBinary::Equal => equality(*left, *right),
                ProofBinary::NotEqual => negated(equality(*left, *right)),
                ProofBinary::Less => less_by_facts(facts, left, right),
                ProofBinary::LessEqual => at_most_by_facts(facts, left, right),
                _ => ProofResult::Unknown,
            },
            ProofTerm::IsFinite(operand) => match *operand {
                ProofTerm::Float(bits) => decided(float_finite(bits)),
                _ => ProofResult::Unknown,
            },
            _ => ProofResult::Unknown,
        },
    }
}

fn prove_term(facts: &Chain<(Rc<ProofTerm>, bool)>, term: &ProofTerm) -> (result: ProofResult)
    ensures
        result == proved(*facts, *term),
    decreases term,
{
    match find_fact(facts, term) {
        Some(value) => decide(value),
        None => match term {
            ProofTerm::Bool(value) => decide(*value),
            ProofTerm::Unary(ProofUnary::Not, operand) => negate_result(prove_term(facts, operand)),
            ProofTerm::Binary(op, left, right) => match op {
                ProofBinary::And => join_results(prove_term(facts, left), prove_term(facts, right)),
                ProofBinary::Or => negate_result(
                    join_results(
                        negate_result(prove_term(facts, left)),
                        negate_result(prove_term(facts, right)),
                    ),
                ),
                ProofBinary::Equal => compare_equal(left, right),
                ProofBinary::NotEqual => negate_result(compare_equal(left, right)),
                ProofBinary::Less => prove_less(facts, left, right),
                ProofBinary::LessEqual => prove_at_most(facts, left, right),
                _ => ProofResult::Unknown,
            },
            ProofTerm::IsFinite(operand) => match &**operand {
                ProofTerm::Float(bits) => decide(
                    *bits % 0x8000_0000_0000_0000 < 0x7ff0_0000_0000_0000,
                ),
                _ => ProofResult::Unknown,
            },
            _ => ProofResult::Unknown,
        },
    }
}

/// The facts with one more. What is true of the parts of a conjunction that
/// holds, of a disjunction that fails and of a negation comes before it.
pub open spec fn facts_with(
    facts: Chain<(Rc<ProofTerm>, bool)>,
    term: ProofTerm,
    value: bool,
) -> Chain<(Rc<ProofTerm>, bool)>
    decreases term,
{
    let parts = match term {
        ProofTerm::Unary(ProofUnary::Not, operand) => facts_with(facts, *operand, !value),
        ProofTerm::Binary(op, left, right) => if (op == ProofBinary::And && value) || (op
            == ProofBinary::Or && !value) {
            facts_with(facts_with(facts, *left, value), *right, value)
        } else {
            facts
        },
        _ => facts,
    };
    parts.pushed((Rc::new(term), value))
}

fn add_facts(facts: Chain<(Rc<ProofTerm>, bool)>, term: &ProofTerm, value: bool) -> (result: Chain<
    (Rc<ProofTerm>, bool),
>)
    ensures
        result == facts_with(facts, *term, value),
    decreases term,
{
    let parts = match term {
        ProofTerm::Unary(ProofUnary::Not, operand) => add_facts(facts, operand, !value),
        ProofTerm::Binary(op, left, right) => if (*op == ProofBinary::And && value) || (*op
            == ProofBinary::Or && !value) {
            add_facts(add_facts(facts, left, value), right, value)
        } else {
            facts
        },
        _ => facts,
    };
    parts.with((Rc::new(term.clone()), value))
}

impl ProofFacts {
    pub open spec fn none() -> ProofFacts {
        ProofFacts { facts: Chain::Empty }
    }

    /// The facts after a term was found true or false. A term with an unknown
    /// part adds none: another
    /// unknown part may stand for another value.
    pub open spec fn assumed(self, term: ProofTerm, value: bool) -> ProofFacts {
        if term.known() {
            ProofFacts { facts: facts_with(self.facts, term, value) }
        } else {
            self
        }
    }

    pub open spec fn without(self, place: ProofPlace) -> ProofFacts {
        ProofFacts { facts: facts_without(self.facts, place) }
    }

    pub open spec fn verdict(self, term: ProofTerm) -> ProofResult {
        proved(self.facts, term)
    }

    pub fn new() -> (facts: Self)
        ensures
            facts == ProofFacts::none(),
    {
        ProofFacts { facts: Chain::new() }
    }

    /// Adds a fact.
    pub fn assume_fact(&mut self, term: ProofTerm, value: bool)
        ensures
            *final(self) == old(self).assumed(term, value),
    {
        if term.is_known() {
            self.facts = add_facts(self.facts.clone(), &term, value);
        }
    }

    /// Forgets what was known of a place that is written.
    pub fn invalidate(&mut self, place: &ProofPlace)
        ensures
            *final(self) == old(self).without(*place),
    {
        self.facts = remove_facts(&self.facts, place);
    }

    pub fn prove(&self, term: &ProofTerm) -> (result: ProofResult)
        ensures
            result == self.verdict(*term),
    {
        prove_term(&self.facts, term)
    }
}

} // verus!
