//! Symbolic values of expressions, and what is known when a body starts.

use std::rc::Rc;
use vstd::prelude::*;

use crate::chain::Chain;
#[allow(unused_imports)]
use crate::constants::{float_negated, float_value};
use crate::constants::{find_float_value, negate_float};
#[allow(unused_imports)]
use crate::diagnostics::{adds_to, lemma_adds_nothing, lemma_adds_one, lemma_adds_through};
use crate::flow::{drop_term, find_term, remove_terms};
#[allow(unused_imports)]
use crate::flow::{term_dropped, term_of, terms_without, FlowState};
#[allow(unused_imports)]
use crate::growth::{later, lemma_later_itself, lemma_later_through};
use crate::hir::{
    get, BinaryOp, DefinitionKind, Expr, ExprKind, Literal, RecordFieldValue, Resolved, UnaryOp,
};
#[allow(unused_imports)]
use crate::hir::at;
use crate::ids::{BodyId, DefId, ExprId, ParamId, TyId};
use crate::literals::{decode_constant_text, parse_int};
#[allow(unused_imports)]
use crate::literals::{literal_int, literal_text};
use crate::semantics::{
    BodySemantics, BuiltinValue, CallTarget, Coercion, ConstantValue, ConstructionCheck, FloatFact,
    FloatOperation, Place, PlaceRoot, Resolution, Signature,
};
#[allow(unused_imports)]
use crate::state::World;
use crate::state::{BodyChecker, CheckState, Context};
use crate::symbolic::{
    make_root_term, ProofBinary, ProofPlace, ProofResult, ProofRoot, ProofTerm, ProofUnary,
};
#[allow(unused_imports)]
use crate::symbolic::root_term;
use crate::ty::TyData;

verus! {

broadcast use {
    lemma_adds_nothing,
    lemma_adds_one,
    lemma_adds_through,
    lemma_later_itself,
    lemma_later_through,
};

/// The symbolic root of a place.
pub open spec fn root_of(root: PlaceRoot) -> ProofRoot {
    match root {
        PlaceRoot::Param(parameter) => ProofRoot::Param(parameter.0),
        PlaceRoot::Local(local) => ProofRoot::Local(local.0),
        PlaceRoot::SelfValue => ProofRoot::SelfValue,
    }
}

/// The symbolic place of a place.
pub open spec fn symbolic_place(place: Place) -> ProofPlace {
    ProofPlace { root: root_of(place.root), fields: place.projections }
}

pub fn proof_place(place: &Place) -> (result: ProofPlace)
    ensures
        result == symbolic_place(*place),
{
    let root = match place.root {
        PlaceRoot::Param(parameter) => ProofRoot::Param(parameter.0),
        PlaceRoot::Local(local) => ProofRoot::Local(local.0),
        PlaceRoot::SelfValue => ProofRoot::SelfValue,
    };
    ProofPlace { root, fields: place.projections.clone() }
}

/// The symbolic value of a constant.
pub open spec fn constant_term(value: ConstantValue) -> ProofTerm {
    match value {
        ConstantValue::Bool(value) => ProofTerm::Bool(value),
        ConstantValue::Int(value) => ProofTerm::Int(value),
        ConstantValue::Float(value) => ProofTerm::Float(value),
        ConstantValue::Text(value) => ProofTerm::Text(value),
    }
}

pub fn constant_proof_term(value: &ConstantValue) -> (term: ProofTerm)
    ensures
        term == constant_term(*value),
{
    match value {
        ConstantValue::Bool(value) => ProofTerm::Bool(*value),
        ConstantValue::Int(value) => ProofTerm::Int(*value),
        ConstantValue::Float(value) => ProofTerm::Float(*value),
        ConstantValue::Text(value) => ProofTerm::Text(value.clone()),
    }
}

/// A unary operation. The negation of a float is computed.
pub open spec fn unary_term(op: UnaryOp, operand: ProofTerm) -> ProofTerm {
    match (op, operand) {
        (UnaryOp::Negate, ProofTerm::Float(bits)) => ProofTerm::Float(float_negated(bits)),
        (UnaryOp::Negate, _) => ProofTerm::Unary(ProofUnary::Negate, Rc::new(operand)),
        (UnaryOp::Not, _) => ProofTerm::Unary(ProofUnary::Not, Rc::new(operand)),
    }
}

fn proof_unary_term(op: UnaryOp, operand: ProofTerm) -> (term: ProofTerm)
    ensures
        term == unary_term(op, operand),
{
    match op {
        UnaryOp::Negate => match operand {
            ProofTerm::Float(bits) => ProofTerm::Float(negate_float(bits)),
            other => ProofTerm::Unary(ProofUnary::Negate, Rc::new(other)),
        },
        UnaryOp::Not => ProofTerm::Unary(ProofUnary::Not, Rc::new(operand)),
    }
}

pub open spec fn plain_binary(op: ProofBinary, left: ProofTerm, right: ProofTerm) -> ProofTerm {
    ProofTerm::Binary(op, Rc::new(left), Rc::new(right))
}

/// The arithmetic operation of a symbolic one.
pub open spec fn arithmetic_of(op: ProofBinary) -> Option<BinaryOp> {
    match op {
        ProofBinary::Add => Some(BinaryOp::Add),
        ProofBinary::Subtract => Some(BinaryOp::Subtract),
        ProofBinary::Multiply => Some(BinaryOp::Multiply),
        ProofBinary::Divide => Some(BinaryOp::Divide),
        _ => None,
    }
}

fn find_arithmetic(op: ProofBinary) -> (result: Option<BinaryOp>)
    ensures
        result == arithmetic_of(op),
{
    match op {
        ProofBinary::Add => Some(BinaryOp::Add),
        ProofBinary::Subtract => Some(BinaryOp::Subtract),
        ProofBinary::Multiply => Some(BinaryOp::Multiply),
        ProofBinary::Divide => Some(BinaryOp::Divide),
        _ => None,
    }
}

/// An operation on two floats, which is computed where its result is known.
pub open spec fn arithmetic_term(
    floats: Chain<FloatFact>,
    op: BinaryOp,
    plain: ProofBinary,
    left: ProofTerm,
    right: ProofTerm,
) -> ProofTerm {
    match (left, right) {
        (ProofTerm::Float(a), ProofTerm::Float(b)) => match float_value(
            floats,
            FloatOperation { op, left: a, right: b },
        ) {
            Some(bits) => ProofTerm::Float(bits),
            None => plain_binary(plain, left, right),
        },
        _ => plain_binary(plain, left, right),
    }
}

fn make_arithmetic(
    floats: &Chain<FloatFact>,
    op: BinaryOp,
    plain: ProofBinary,
    left: ProofTerm,
    right: ProofTerm,
) -> (term: ProofTerm)
    ensures
        term == arithmetic_term(*floats, op, plain, left, right),
{
    match (&left, &right) {
        (ProofTerm::Float(a), ProofTerm::Float(b)) => match find_float_value(
            floats,
            FloatOperation { op, left: *a, right: *b },
        ) {
            Some(bits) => ProofTerm::Float(bits),
            None => make_binary(plain, left, right),
        },
        _ => make_binary(plain, left, right),
    }
}

/// The operations on floats in a term whose results are not known.
pub open spec fn unknown_operations(term: ProofTerm) -> Chain<FloatOperation>
    decreases term,
{
    match term {
        ProofTerm::Unary(_, operand) => unknown_operations(*operand),
        ProofTerm::IsFinite(operand) => unknown_operations(*operand),
        ProofTerm::Refined { definition: _, value } => unknown_operations(*value),
        ProofTerm::Binary(op, left, right) => match (arithmetic_of(op), *left, *right) {
            (Some(op), ProofTerm::Float(a), ProofTerm::Float(b)) => Chain::Empty.pushed(
                FloatOperation { op, left: a, right: b },
            ),
            _ => unknown_operations(*left).joined(unknown_operations(*right)),
        },
        _ => Chain::Empty,
    }
}

fn find_unknown_operations(term: &ProofTerm) -> (operations: Chain<FloatOperation>)
    ensures
        operations == unknown_operations(*term),
    decreases term,
{
    match term {
        ProofTerm::Unary(_, operand) => find_unknown_operations(operand),
        ProofTerm::IsFinite(operand) => find_unknown_operations(operand),
        ProofTerm::Refined { definition: _, value } => find_unknown_operations(value),
        ProofTerm::Binary(op, left, right) => match (find_arithmetic(*op), &**left, &**right) {
            (Some(op), ProofTerm::Float(a), ProofTerm::Float(b)) => Chain::new().with(
                FloatOperation { op, left: *a, right: *b },
            ),
            _ => find_unknown_operations(left).join(&find_unknown_operations(right)),
        },
        _ => Chain::new(),
    }
}

/// A binary operation. `a > b` is `b < a`.
pub open spec fn binary_term(
    floats: Chain<FloatFact>,
    op: BinaryOp,
    left: ProofTerm,
    right: ProofTerm,
) -> ProofTerm {
    match op {
        BinaryOp::Add => arithmetic_term(floats, op, ProofBinary::Add, left, right),
        BinaryOp::Subtract => arithmetic_term(floats, op, ProofBinary::Subtract, left, right),
        BinaryOp::Multiply => arithmetic_term(floats, op, ProofBinary::Multiply, left, right),
        BinaryOp::Divide => arithmetic_term(floats, op, ProofBinary::Divide, left, right),
        BinaryOp::Equal => plain_binary(ProofBinary::Equal, left, right),
        BinaryOp::NotEqual => plain_binary(ProofBinary::NotEqual, left, right),
        BinaryOp::Less => plain_binary(ProofBinary::Less, left, right),
        BinaryOp::LessEqual => plain_binary(ProofBinary::LessEqual, left, right),
        BinaryOp::Greater => plain_binary(ProofBinary::Less, right, left),
        BinaryOp::GreaterEqual => plain_binary(ProofBinary::LessEqual, right, left),
        BinaryOp::And => plain_binary(ProofBinary::And, left, right),
        BinaryOp::Or => plain_binary(ProofBinary::Or, left, right),
    }
}

fn make_binary(op: ProofBinary, left: ProofTerm, right: ProofTerm) -> (term: ProofTerm)
    ensures
        term == plain_binary(op, left, right),
{
    ProofTerm::Binary(op, Rc::new(left), Rc::new(right))
}

fn proof_binary_term(
    floats: &Chain<FloatFact>,
    op: BinaryOp,
    left: ProofTerm,
    right: ProofTerm,
) -> (term: ProofTerm)
    ensures
        term == binary_term(*floats, op, left, right),
{
    match op {
        BinaryOp::Add => make_arithmetic(floats, op, ProofBinary::Add, left, right),
        BinaryOp::Subtract => make_arithmetic(floats, op, ProofBinary::Subtract, left, right),
        BinaryOp::Multiply => make_arithmetic(floats, op, ProofBinary::Multiply, left, right),
        BinaryOp::Divide => make_arithmetic(floats, op, ProofBinary::Divide, left, right),
        BinaryOp::Equal => make_binary(ProofBinary::Equal, left, right),
        BinaryOp::NotEqual => make_binary(ProofBinary::NotEqual, left, right),
        BinaryOp::Less => make_binary(ProofBinary::Less, left, right),
        BinaryOp::LessEqual => make_binary(ProofBinary::LessEqual, left, right),
        BinaryOp::Greater => make_binary(ProofBinary::Less, right, left),
        BinaryOp::GreaterEqual => make_binary(ProofBinary::LessEqual, right, left),
        BinaryOp::And => make_binary(ProofBinary::And, left, right),
        BinaryOp::Or => make_binary(ProofBinary::Or, left, right),
    }
}

/// The symbolic value of a literal.
pub open spec fn literal_term(literal: Literal) -> ProofTerm {
    match literal {
        Literal::Bool(value) => ProofTerm::Bool(value),
        Literal::Int(text) => match literal_int(text@) {
            Some(value) => ProofTerm::Int(value),
            None => ProofTerm::Unknown,
        },
        Literal::Float(_, Some(bits)) => ProofTerm::Float(bits),
        Literal::Float(_, None) => ProofTerm::Unknown,
        Literal::Text(text) => match literal_text(text@) {
            Some(value) => ProofTerm::Text(value),
            None => ProofTerm::Unknown,
        },
        Literal::Unit => ProofTerm::Unit,
    }
}

fn proof_literal(literal: &Literal) -> (term: ProofTerm)
    ensures
        term == literal_term(*literal),
{
    match literal {
        Literal::Bool(value) => ProofTerm::Bool(*value),
        Literal::Int(text) => match parse_int(text.as_str()) {
            Some(value) => ProofTerm::Int(value),
            None => ProofTerm::Unknown,
        },
        Literal::Float(_, Some(bits)) => ProofTerm::Float(*bits),
        Literal::Float(_, None) => ProofTerm::Unknown,
        Literal::Text(text) => match decode_constant_text(text.as_str()) {
            Ok(value) => ProofTerm::Text(value),
            Err(()) => ProofTerm::Unknown,
        },
        Literal::Unit => ProofTerm::Unit,
    }
}

/// How deep an expression is followed symbolically.
pub const TERM_DEPTH_LIMIT: u16 = 256;

/// The value of a definition: a constant, or a variant without payload.
pub open spec fn definition_term(cx: &Context, definition: DefId) -> ProofTerm {
    match cx.constants.lookup(definition.0) {
        Some(value) => constant_term(value),
        None => match cx.program.kind_of(definition) {
            Some(DefinitionKind::Variant { owner, payload: _ }) => ProofTerm::Variant {
                owner,
                variant: definition,
                payload: Chain::Empty,
            },
            _ => ProofTerm::Unknown,
        },
    }
}

fn proof_definition(cx: &Context, definition: DefId) -> (term: ProofTerm)
    ensures
        term == definition_term(cx, definition),
{
    match cx.constants.get(definition.0) {
        Some(value) => constant_proof_term(value),
        None => match cx.program.kind(definition) {
            Some(DefinitionKind::Variant { owner, payload: _ }) => ProofTerm::Variant {
                owner: *owner,
                variant: definition,
                payload: Chain::new(),
            },
            _ => ProofTerm::Unknown,
        },
    }
}

/// The argument that stands for a parameter.
pub open spec fn argument_term(
    arguments: Chain<(ParamId, ProofTerm)>,
    parameter: ParamId,
) -> Option<ProofTerm>
    decreases arguments,
{
    match arguments {
        Chain::Empty => None,
        Chain::Link(link) => if link.item.0 == parameter {
            Some(link.item.1)
        } else {
            argument_term(link.rest, parameter)
        },
    }
}

fn find_argument(arguments: &Chain<(ParamId, ProofTerm)>, parameter: ParamId) -> (term: Option<
    ProofTerm,
>)
    ensures
        term == argument_term(*arguments, parameter),
    decreases arguments,
{
    match arguments {
        Chain::Empty => None,
        Chain::Link(link) => if link.item.0 == parameter {
            Some(link.item.1.clone())
        } else {
            find_argument(&link.rest, parameter)
        },
    }
}

/// The last field of a place.
pub open spec fn last_field(place: Option<Place>) -> Option<DefId> {
    match place {
        Some(place) => match place.projections {
            Chain::Link(link) => Some(link.item),
            Chain::Empty => None,
        },
        None => None,
    }
}

fn place_field(semantics: &BodySemantics, expression: ExprId) -> (field: Option<DefId>)
    ensures
        field == last_field(semantics.expression_places.lookup(expression.0)),
{
    match semantics.expression_places.get(expression.0) {
        Some(place) => match &place.projections {
            Chain::Link(link) => Some(link.item),
            Chain::Empty => None,
        },
        None => None,
    }
}

/// The target of a resolved call.
pub open spec fn call_target(semantics: BodySemantics, expression: ExprId) -> Option<CallTarget> {
    match semantics.calls.lookup(expression.0) {
        Some(call) => Some(call.target),
        None => None,
    }
}

pub(crate) fn find_call_target(semantics: &BodySemantics, expression: ExprId) -> (target: Option<
    CallTarget,
>)
    ensures
        target == call_target(*semantics, expression),
{
    match semantics.calls.get(expression.0) {
        Some(call) => Some(call.target),
        None => None,
    }
}

/// A call reaches the standard test for finite floats.
pub open spec fn tests_finite(cx: &Context, target: Option<CallTarget>) -> bool {
    match target {
        Some(CallTarget::Function(definition)) => cx.canonical_std_items.is_finite == Some(
            definition,
        ),
        _ => false,
    }
}

fn is_finite_test(cx: &Context, target: Option<CallTarget>) -> (tests: bool)
    ensures
        tests == tests_finite(cx, target),
{
    match target {
        Some(CallTarget::Function(definition)) => cx.canonical_std_items.is_finite == Some(
            definition,
        ),
        _ => false,
    }
}

/// The symbolic value of a contract, with `self` and the parameters standing
/// for the given values.
pub open spec fn contract_term(
    cx: &Context,
    semantics: BodySemantics,
    e: Expr,
    self_value: Option<ProofTerm>,
    arguments: Chain<(ParamId, ProofTerm)>,
    in_old: bool,
    depth: u16,
) -> ProofTerm
    decreases e,
{
    if depth >= TERM_DEPTH_LIMIT {
        ProofTerm::Unknown
    } else {
        let next = (depth + 1) as u16;
        match e.kind {
            ExprKind::Literal(literal) => literal_term(literal),
            ExprKind::Path(_) => match semantics.expression_resolutions.lookup(e.id.0) {
                Some(Resolution::Param(parameter)) => match argument_term(arguments, parameter) {
                    Some(term) => term,
                    None => root_term(
                        if in_old {
                            ProofRoot::OldParam(parameter.0)
                        } else {
                            ProofRoot::Param(parameter.0)
                        },
                    ),
                },
                Some(Resolution::Builtin(BuiltinValue::Unit)) => ProofTerm::Unit,
                Some(Resolution::Definition(definition)) => definition_term(cx, definition),
                _ => ProofTerm::Unknown,
            },
            ExprKind::SelfValue => match self_value {
                Some(value) => value,
                None => root_term(
                    if in_old {
                        ProofRoot::OldSelf
                    } else {
                        ProofRoot::SelfValue
                    },
                ),
            },
            ExprKind::ResultValue => root_term(ProofRoot::ResultValue),
            ExprKind::Old(value) => contract_term(
                cx,
                semantics,
                *value,
                self_value,
                arguments,
                true,
                next,
            ),
            ExprKind::Field { receiver, name: _ } => match last_field(
                semantics.expression_places.lookup(e.id.0),
            ) {
                Some(field) => contract_term(
                    cx,
                    semantics,
                    *receiver,
                    self_value,
                    arguments,
                    in_old,
                    next,
                ).field_of(field),
                None => ProofTerm::Unknown,
            },
            ExprKind::Unary { op, operand } => unary_term(
                op,
                contract_term(
                    cx,
                    semantics,
                    *operand,
                    self_value,
                    arguments,
                    in_old,
                    next,
                ).unrefined(),
            ),
            ExprKind::Binary { op, left, right } => binary_term(
                *cx.floats,
                op,
                contract_term(
                    cx,
                    semantics,
                    *left,
                    self_value,
                    arguments,
                    in_old,
                    next,
                ).unrefined(),
                contract_term(
                    cx,
                    semantics,
                    *right,
                    self_value,
                    arguments,
                    in_old,
                    next,
                ).unrefined(),
            ),
            ExprKind::Call { callee: _, type_arguments: _, arguments: values } => if tests_finite(
                cx,
                call_target(semantics, e.id),
            ) {
                match values {
                    Chain::Link(link) => match link.rest {
                        Chain::Empty => ProofTerm::IsFinite(
                            Rc::new(
                                contract_term(
                                    cx,
                                    semantics,
                                    link.item,
                                    self_value,
                                    arguments,
                                    in_old,
                                    next,
                                ).unrefined(),
                            ),
                        ),
                        Chain::Link(_) => ProofTerm::Unknown,
                    },
                    Chain::Empty => ProofTerm::Unknown,
                }
            } else {
                ProofTerm::Unknown
            },
            ExprKind::Block { statements, tail } => match statements {
                Chain::Empty => match tail {
                    Some(tail) => contract_term(
                        cx,
                        semantics,
                        *tail,
                        self_value,
                        arguments,
                        in_old,
                        next,
                    ),
                    None => ProofTerm::Unit,
                },
                Chain::Link(_) => ProofTerm::Unknown,
            },
            _ => ProofTerm::Unknown,
        }
    }
}

fn contract_proof_term_inner(
    cx: &Context,
    semantics: &BodySemantics,
    e: &Expr,
    self_value: Option<&ProofTerm>,
    arguments: &Chain<(ParamId, ProofTerm)>,
    in_old: bool,
    depth: u16,
) -> (term: ProofTerm)
    ensures
        term == contract_term(
            cx,
            *semantics,
            *e,
            match self_value {
                Some(value) => Some(*value),
                None => None,
            },
            *arguments,
            in_old,
            depth,
        ),
    decreases e,
{
    if depth >= TERM_DEPTH_LIMIT {
        return ProofTerm::Unknown;
    }
    let next: u16 = depth + 1;
    match &e.kind {
        ExprKind::Literal(literal) => proof_literal(literal),
        ExprKind::Path(_) => match semantics.expression_resolutions.get(e.id.0) {
            Some(Resolution::Param(parameter)) => match find_argument(arguments, *parameter) {
                Some(term) => term,
                None => make_root_term(
                    if in_old {
                        ProofRoot::OldParam(parameter.0)
                    } else {
                        ProofRoot::Param(parameter.0)
                    },
                ),
            },
            Some(Resolution::Builtin(BuiltinValue::Unit)) => ProofTerm::Unit,
            Some(Resolution::Definition(definition)) => proof_definition(cx, *definition),
            _ => ProofTerm::Unknown,
        },
        ExprKind::SelfValue => match self_value {
            Some(value) => value.clone(),
            None => make_root_term(
                if in_old {
                    ProofRoot::OldSelf
                } else {
                    ProofRoot::SelfValue
                },
            ),
        },
        ExprKind::ResultValue => make_root_term(ProofRoot::ResultValue),
        ExprKind::Old(value) => contract_proof_term_inner(
            cx,
            semantics,
            value,
            self_value,
            arguments,
            true,
            next,
        ),
        ExprKind::Field { receiver, name: _ } => match place_field(semantics, e.id) {
            Some(field) => contract_proof_term_inner(
                cx,
                semantics,
                receiver,
                self_value,
                arguments,
                in_old,
                next,
            ).field(field),
            None => ProofTerm::Unknown,
        },
        ExprKind::Unary { op, operand } => proof_unary_term(
            *op,
            contract_proof_term_inner(
                cx,
                semantics,
                operand,
                self_value,
                arguments,
                in_old,
                next,
            ).unrefine(),
        ),
        ExprKind::Binary { op, left, right } => proof_binary_term(
            cx.floats,
            *op,
            contract_proof_term_inner(
                cx,
                semantics,
                left,
                self_value,
                arguments,
                in_old,
                next,
            ).unrefine(),
            contract_proof_term_inner(
                cx,
                semantics,
                right,
                self_value,
                arguments,
                in_old,
                next,
            ).unrefine(),
        ),
        ExprKind::Call { callee: _, type_arguments: _, arguments: values } => if is_finite_test(
            cx,
            find_call_target(semantics, e.id),
        ) {
            match values {
                Chain::Link(link) => match &link.rest {
                    Chain::Empty => ProofTerm::IsFinite(
                        Rc::new(
                            contract_proof_term_inner(
                                cx,
                                semantics,
                                &link.item,
                                self_value,
                                arguments,
                                in_old,
                                next,
                            ).unrefine(),
                        ),
                    ),
                    Chain::Link(_) => ProofTerm::Unknown,
                },
                Chain::Empty => ProofTerm::Unknown,
            }
        } else {
            ProofTerm::Unknown
        },
        ExprKind::Block { statements, tail } => match statements {
            Chain::Empty => match tail {
                Some(tail) => contract_proof_term_inner(
                    cx,
                    semantics,
                    tail,
                    self_value,
                    arguments,
                    in_old,
                    next,
                ),
                None => ProofTerm::Unit,
            },
            Chain::Link(_) => ProofTerm::Unknown,
        },
        // A match stays checked at run time.
        _ => ProofTerm::Unknown,
    }
}

/// The symbolic value of the contract in a body.
pub open spec fn contract_of(
    cx: &Context,
    semantics: BodySemantics,
    body: BodyId,
    self_value: Option<ProofTerm>,
    arguments: Chain<(ParamId, ProofTerm)>,
) -> ProofTerm {
    match at(cx.program.bodies@, body.0) {
        None => ProofTerm::Unknown,
        Some(source) => if body == cx.body {
            contract_term(cx, semantics, source.root, self_value, arguments, false, 0)
        } else {
            match cx.bodies.lookup(body.0) {
                None => ProofTerm::Unknown,
                Some(other) => contract_term(
                    cx,
                    other,
                    source.root,
                    self_value,
                    arguments,
                    false,
                    0,
                ),
            }
        },
    }
}

pub(crate) fn contract_proof_term(
    cx: &Context,
    semantics: &BodySemantics,
    body: BodyId,
    self_value: Option<&ProofTerm>,
    arguments: &Chain<(ParamId, ProofTerm)>,
) -> (term: ProofTerm)
    ensures
        term == contract_of(
            cx,
            *semantics,
            body,
            match self_value {
                Some(value) => Some(*value),
                None => None,
            },
            *arguments,
        ),
{
    match get(&cx.program.bodies, body.0) {
        None => ProofTerm::Unknown,
        Some(source) => if body == cx.body {
            contract_proof_term_inner(cx, semantics, &source.root, self_value, arguments, false, 0)
        } else {
            match cx.bodies.get(body.0) {
                None => ProofTerm::Unknown,
                Some(other) => contract_proof_term_inner(
                    cx,
                    other,
                    &source.root,
                    self_value,
                    arguments,
                    false,
                    0,
                ),
            }
        },
    }
}

/// The value that a name in the body stands for.
pub open spec fn resolution_term(cx: &Context, st: CheckState, expression: ExprId) -> ProofTerm {
    match st.semantics.expression_resolutions.lookup(expression.0) {
        Some(Resolution::Param(parameter)) => root_term(ProofRoot::Param(parameter.0)),
        Some(Resolution::Local(local)) => match term_of(st.flow.local_terms, local.0) {
            Some(term) => term,
            None => root_term(ProofRoot::Local(local.0)),
        },
        Some(Resolution::SelfValue) => root_term(ProofRoot::SelfValue),
        Some(Resolution::ResultValue) => root_term(ProofRoot::ResultValue),
        Some(Resolution::Builtin(BuiltinValue::Unit)) => ProofTerm::Unit,
        Some(Resolution::Definition(definition)) => definition_term(cx, definition),
        _ => ProofTerm::Unknown,
    }
}

fn proof_resolution_term(cx: &Context, st: &CheckState, expression: ExprId) -> (term: ProofTerm)
    ensures
        term == resolution_term(cx, *st, expression),
{
    match st.semantics.expression_resolutions.get(expression.0) {
        Some(Resolution::Param(parameter)) => make_root_term(ProofRoot::Param(parameter.0)),
        Some(Resolution::Local(local)) => match find_term(&st.flow.local_terms, local.0) {
            Some(term) => term.clone(),
            None => make_root_term(ProofRoot::Local(local.0)),
        },
        Some(Resolution::SelfValue) => make_root_term(ProofRoot::SelfValue),
        Some(Resolution::ResultValue) => make_root_term(ProofRoot::ResultValue),
        Some(Resolution::Builtin(BuiltinValue::Unit)) => ProofTerm::Unit,
        Some(Resolution::Definition(definition)) => proof_definition(cx, *definition),
        _ => ProofTerm::Unknown,
    }
}

/// The term of the value with the given id.
pub open spec fn value_term(values: Chain<(ExprId, ProofTerm)>, id: ExprId) -> ProofTerm
    decreases values,
{
    match values {
        Chain::Empty => ProofTerm::Unknown,
        Chain::Link(link) => if link.item.0 == id {
            link.item.1
        } else {
            value_term(link.rest, id)
        },
    }
}

fn find_value_term(values: &Chain<(ExprId, ProofTerm)>, id: ExprId) -> (term: ProofTerm)
    ensures
        term == value_term(*values, id),
    decreases values,
{
    match values {
        Chain::Empty => ProofTerm::Unknown,
        Chain::Link(link) => if link.item.0 == id {
            link.item.1.clone()
        } else {
            find_value_term(&link.rest, id)
        },
    }
}

/// The fields of a record with the terms of their values.
pub open spec fn fields_with_terms(
    fields: Chain<(DefId, ExprId)>,
    values: Chain<(ExprId, ProofTerm)>,
) -> Chain<(DefId, ProofTerm)>
    decreases fields,
{
    match fields {
        Chain::Empty => Chain::Empty,
        Chain::Link(link) => fields_with_terms(link.rest, values).pushed(
            (link.item.0, value_term(values, link.item.1)),
        ),
    }
}

fn attach_terms(fields: &Chain<(DefId, ExprId)>, values: &Chain<(ExprId, ProofTerm)>) -> (result:
    Chain<(DefId, ProofTerm)>)
    ensures
        result == fields_with_terms(*fields, *values),
    decreases fields,
{
    match fields {
        Chain::Empty => Chain::new(),
        Chain::Link(link) => attach_terms(&link.rest, values).with(
            (link.item.0, find_value_term(values, link.item.1)),
        ),
    }
}

/// The symbolic value of an expression of the body.
pub open spec fn expr_term(cx: &Context, st: CheckState, e: Expr, depth: u16) -> ProofTerm
    decreases e,
{
    if depth >= TERM_DEPTH_LIMIT {
        ProofTerm::Unknown
    } else {
        let next = (depth + 1) as u16;
        let coerced = match st.semantics.expression_coercions.lookup(e.id.0) {
            Some(Coercion::RefinedToBase { refined: _ }) => true,
            _ => false,
        };
        let term = match e.kind {
            ExprKind::Literal(literal) => literal_term(literal),
            ExprKind::Tuple(elements) => ProofTerm::Tuple(expr_terms(cx, st, elements, next)),
            ExprKind::Path(_) => resolution_term(cx, st, e.id),
            ExprKind::SelfValue => root_term(ProofRoot::SelfValue),
            ExprKind::ResultValue => root_term(ProofRoot::ResultValue),
            ExprKind::Old(value) => expr_term(cx, st, *value, next),
            ExprKind::Block { statements, tail } => match statements {
                Chain::Empty => match tail {
                    Some(tail) => expr_term(cx, st, *tail, next),
                    None => ProofTerm::Unit,
                },
                Chain::Link(_) => ProofTerm::Unknown,
            },
            ExprKind::If { condition, then_branch, else_branch } =>
                match st.flow.proof_facts.verdict(expr_term(cx, st, *condition, next)) {
                    ProofResult::Proven => expr_term(cx, st, *then_branch, next),
                    ProofResult::Disproven => match else_branch {
                        Some(branch) => expr_term(cx, st, *branch, next),
                        None => ProofTerm::Unit,
                    },
                    ProofResult::Unknown => ProofTerm::Unknown,
                },
            ExprKind::Call { callee: _, type_arguments: _, arguments } => {
                let values = expr_terms(cx, st, arguments, next);
                match call_target(st.semantics, e.id) {
                    Some(CallTarget::Function(definition)) => if cx.canonical_std_items.is_finite
                        == Some(definition) {
                        match values {
                            Chain::Link(link) => match link.rest {
                                Chain::Empty => ProofTerm::IsFinite(
                                    Rc::new(link.item.unrefined()),
                                ),
                                Chain::Link(_) => ProofTerm::Unknown,
                            },
                            Chain::Empty => ProofTerm::Unknown,
                        }
                    } else {
                        ProofTerm::Unknown
                    },
                    Some(CallTarget::Builtin(BuiltinValue::Unit)) => ProofTerm::Unit,
                    Some(CallTarget::EnumVariant(variant)) => match cx.program.kind_of(variant) {
                        Some(DefinitionKind::Variant { owner, payload: _ }) => ProofTerm::Variant {
                            owner,
                            variant,
                            payload: values,
                        },
                        _ => ProofTerm::Unknown,
                    },
                    Some(CallTarget::RefinedConstructor(definition)) =>
                        if st.semantics.construction_checks.lookup(e.id.0) == Some(
                            ConstructionCheck::Proven,
                        ) {
                            match values {
                                Chain::Link(link) => match link.rest {
                                    Chain::Empty => ProofTerm::Refined {
                                        definition,
                                        value: Rc::new(link.item.unrefined()),
                                    },
                                    Chain::Link(_) => ProofTerm::Unknown,
                                },
                                Chain::Empty => ProofTerm::Unknown,
                            }
                        } else {
                            ProofTerm::Unknown
                        },
                    _ => ProofTerm::Unknown,
                }
            },
            ExprKind::Field { receiver, name: _ } => match last_field(
                st.semantics.expression_places.lookup(e.id.0),
            ) {
                Some(field) => expr_term(cx, st, *receiver, next).field_of(field),
                None => ProofTerm::Unknown,
            },
            ExprKind::Unary { op, operand } => unary_term(
                op,
                expr_term(cx, st, *operand, next).unrefined(),
            ),
            ExprKind::Binary { op, left, right } => binary_term(
                *cx.floats,
                op,
                expr_term(cx, st, *left, next).unrefined(),
                expr_term(cx, st, *right, next).unrefined(),
            ),
            ExprKind::RecordLiteral { ty, fields } => {
                let values = field_value_terms(cx, st, fields, next);
                match (st.semantics.record_fields.lookup(e.id.0), ty.ty) {
                    (Some(canonical), Resolved::Found(definition)) =>
                        if st.semantics.construction_checks.lookup(e.id.0) == Some(
                            ConstructionCheck::Runtime,
                        ) {
                            ProofTerm::Unknown
                        } else {
                            ProofTerm::Record {
                                definition,
                                fields: fields_with_terms(canonical, values),
                            }
                        },
                    _ => ProofTerm::Unknown,
                }
            },
            _ => ProofTerm::Unknown,
        };
        if coerced {
            term.unrefined()
        } else {
            term
        }
    }
}

pub open spec fn expr_terms(
    cx: &Context,
    st: CheckState,
    list: Chain<Expr>,
    depth: u16,
) -> Chain<ProofTerm>
    decreases list,
{
    match list {
        Chain::Empty => Chain::Empty,
        Chain::Link(link) => expr_terms(cx, st, link.rest, depth).pushed(
            expr_term(cx, st, link.item, depth),
        ),
    }
}

pub open spec fn field_value_terms(
    cx: &Context,
    st: CheckState,
    fields: Chain<RecordFieldValue>,
    depth: u16,
) -> Chain<(ExprId, ProofTerm)>
    decreases fields,
{
    match fields {
        Chain::Empty => Chain::Empty,
        Chain::Link(link) => field_value_terms(cx, st, link.rest, depth).pushed(
            (link.item.value.id, expr_term(cx, st, link.item.value, depth)),
        ),
    }
}

fn proof_term_inner(cx: &Context, st: &CheckState, e: &Expr, depth: u16) -> (result: ProofTerm)
    ensures
        result == expr_term(cx, *st, *e, depth),
    decreases e,
{
    if depth >= TERM_DEPTH_LIMIT {
        return ProofTerm::Unknown;
    }
    let next: u16 = depth + 1;
    let coerced = match st.semantics.expression_coercions.get(e.id.0) {
        Some(Coercion::RefinedToBase { refined: _ }) => true,
        _ => false,
    };
    let term = match &e.kind {
        ExprKind::Literal(literal) => proof_literal(literal),
        ExprKind::Tuple(elements) => ProofTerm::Tuple(proof_terms(cx, st, elements, next)),
        ExprKind::Path(_) => proof_resolution_term(cx, st, e.id),
        ExprKind::SelfValue => make_root_term(ProofRoot::SelfValue),
        ExprKind::ResultValue => make_root_term(ProofRoot::ResultValue),
        ExprKind::Old(value) => proof_term_inner(cx, st, value, next),
        ExprKind::Block { statements, tail } => match statements {
            Chain::Empty => match tail {
                Some(tail) => proof_term_inner(cx, st, tail, next),
                None => ProofTerm::Unit,
            },
            Chain::Link(_) => ProofTerm::Unknown,
        },
        ExprKind::If { condition, then_branch, else_branch } => {
            let condition = proof_term_inner(cx, st, condition, next);
            match st.flow.proof_facts.prove(&condition) {
                ProofResult::Proven => proof_term_inner(cx, st, then_branch, next),
                ProofResult::Disproven => match else_branch {
                    Some(branch) => proof_term_inner(cx, st, branch, next),
                    None => ProofTerm::Unit,
                },
                ProofResult::Unknown => ProofTerm::Unknown,
            }
        },
        ExprKind::Call { callee: _, type_arguments: _, arguments } => {
            let values = proof_terms(cx, st, arguments, next);
            match find_call_target(&st.semantics, e.id) {
                Some(CallTarget::Function(definition)) => if cx.canonical_std_items.is_finite
                    == Some(definition) {
                    match &values {
                        Chain::Link(link) => match &link.rest {
                            Chain::Empty => ProofTerm::IsFinite(Rc::new(link.item.unrefine())),
                            Chain::Link(_) => ProofTerm::Unknown,
                        },
                        Chain::Empty => ProofTerm::Unknown,
                    }
                } else {
                    ProofTerm::Unknown
                },
                Some(CallTarget::Builtin(BuiltinValue::Unit)) => ProofTerm::Unit,
                Some(CallTarget::EnumVariant(variant)) => match cx.program.kind(variant) {
                    Some(DefinitionKind::Variant { owner, payload: _ }) => ProofTerm::Variant {
                        owner: *owner,
                        variant,
                        payload: values,
                    },
                    _ => ProofTerm::Unknown,
                },
                Some(CallTarget::RefinedConstructor(definition)) => {
                    let proven = match st.semantics.construction_checks.get(e.id.0) {
                        Some(check) => *check == ConstructionCheck::Proven,
                        None => false,
                    };
                    if proven {
                        match &values {
                            Chain::Link(link) => match &link.rest {
                                Chain::Empty => ProofTerm::Refined {
                                    definition,
                                    value: Rc::new(link.item.unrefine()),
                                },
                                Chain::Link(_) => ProofTerm::Unknown,
                            },
                            Chain::Empty => ProofTerm::Unknown,
                        }
                    } else {
                        ProofTerm::Unknown
                    }
                },
                _ => ProofTerm::Unknown,
            }
        },
        ExprKind::Field { receiver, name: _ } => match place_field(&st.semantics, e.id) {
            Some(field) => proof_term_inner(cx, st, receiver, next).field(field),
            None => ProofTerm::Unknown,
        },
        ExprKind::Unary { op, operand } => proof_unary_term(
            *op,
            proof_term_inner(cx, st, operand, next).unrefine(),
        ),
        ExprKind::Binary { op, left, right } => proof_binary_term(
            cx.floats,
            *op,
            proof_term_inner(cx, st, left, next).unrefine(),
            proof_term_inner(cx, st, right, next).unrefine(),
        ),
        ExprKind::RecordLiteral { ty, fields } => {
            let values = proof_field_values(cx, st, fields, next);
            match (st.semantics.record_fields.get(e.id.0), &ty.ty) {
                (Some(canonical), Resolved::Found(definition)) => {
                    let runtime = match st.semantics.construction_checks.get(e.id.0) {
                        Some(check) => *check == ConstructionCheck::Runtime,
                        None => false,
                    };
                    if runtime {
                        ProofTerm::Unknown
                    } else {
                        ProofTerm::Record {
                            definition: *definition,
                            fields: attach_terms(canonical, &values),
                        }
                    }
                },
                _ => ProofTerm::Unknown,
            }
        },
        _ => ProofTerm::Unknown,
    };
    if coerced {
        term.unrefine()
    } else {
        term
    }
}

fn proof_terms(cx: &Context, st: &CheckState, list: &Chain<Expr>, depth: u16) -> (result: Chain<
    ProofTerm,
>)
    ensures
        result == expr_terms(cx, *st, *list, depth),
    decreases list,
{
    match list {
        Chain::Empty => Chain::new(),
        Chain::Link(link) => proof_terms(cx, st, &link.rest, depth).with(
            proof_term_inner(cx, st, &link.item, depth),
        ),
    }
}

fn proof_field_values(
    cx: &Context,
    st: &CheckState,
    fields: &Chain<RecordFieldValue>,
    depth: u16,
) -> (result: Chain<(ExprId, ProofTerm)>)
    ensures
        result == field_value_terms(cx, *st, *fields, depth),
    decreases fields,
{
    match fields {
        Chain::Empty => Chain::new(),
        Chain::Link(link) => proof_field_values(cx, st, &link.rest, depth).with(
            (link.item.value.id, proof_term_inner(cx, st, &link.item.value, depth)),
        ),
    }
}

pub(crate) fn proof_term(cx: &Context, st: &CheckState, e: &Expr) -> (term: ProofTerm)
    ensures
        term == expr_term(cx, *st, *e, 0),
{
    proof_term_inner(cx, st, e, 0)
}

/// The contract that every value of a nominal type meets.
pub open spec fn type_contract(cx: &Context, definition: DefId) -> Option<BodyId> {
    match cx.program.kind_of(definition) {
        Some(DefinitionKind::RefinedType { base: _, predicate }) => Some(predicate),
        Some(DefinitionKind::Record { generic_params: _, fields: _, invariant_body }) => invariant_body,
        _ => None,
    }
}

fn find_type_contract(cx: &Context, definition: DefId) -> (contract: Option<BodyId>)
    ensures
        contract == type_contract(cx, definition),
{
    match cx.program.kind(definition) {
        Some(DefinitionKind::RefinedType { base: _, predicate }) => Some(*predicate),
        Some(DefinitionKind::Record { generic_params: _, fields: _, invariant_body }) => *invariant_body,
        _ => None,
    }
}

/// That a value meets the contract of its nominal type.
pub open spec fn established_definition(
    cx: &Context,
    semantics: BodySemantics,
    definition: DefId,
    value: ProofTerm,
) -> Option<ProofTerm> {
    match type_contract(cx, definition) {
        Some(contract) => Some(contract_of(cx, semantics, contract, Some(value), Chain::Empty)),
        None => None,
    }
}

pub(crate) fn established_definition_term(
    cx: &Context,
    semantics: &BodySemantics,
    definition: DefId,
    value: &ProofTerm,
) -> (term: Option<ProofTerm>)
    ensures
        term == established_definition(cx, *semantics, definition, *value),
{
    match find_type_contract(cx, definition) {
        Some(contract) => Some(
            contract_proof_term(cx, semantics, contract, Some(value), &Chain::new()),
        ),
        None => None,
    }
}

/// That a value meets the contract of its type.
pub open spec fn established_type(
    cx: &Context,
    semantics: BodySemantics,
    data: TyData,
    value: ProofTerm,
) -> Option<ProofTerm> {
    match data {
        TyData::Nominal { definition, arguments: _ } => established_definition(
            cx,
            semantics,
            definition,
            value,
        ),
        _ => None,
    }
}

pub(crate) fn established_type_term(
    cx: &Context,
    semantics: &BodySemantics,
    data: &TyData,
    value: &ProofTerm,
) -> (term: Option<ProofTerm>)
    ensures
        term == established_type(cx, *semantics, *data, *value),
{
    match data {
        TyData::Nominal { definition, arguments: _ } => established_definition_term(
            cx,
            semantics,
            *definition,
            value,
        ),
        _ => None,
    }
}

impl World {
    /// The results of float operations that a proof of the term lacks are
    /// asked for.
    #[verifier::opaque]
    pub open spec fn ask(self, term: ProofTerm) -> World {
        World {
            st: CheckState {
                float_requests: self.st.float_requests.joined(unknown_operations(term)),
                ..self.st
            },
            ..self
        }
    }

    #[verifier::opaque]
    pub open spec fn assume_fact(self, term: ProofTerm, value: bool) -> World {
        self.with_flow(
            FlowState {
                proof_facts: self.st.flow.proof_facts.assumed(term, value),
                ..self.st.flow
            },
        )
    }

    #[verifier::opaque]
    pub open spec fn assume_maybe(self, term: Option<ProofTerm>) -> World {
        match term {
            Some(term) => self.assume_fact(term, true),
            None => self,
        }
    }

    /// The fields of a record meet the contracts of their types.
    #[verifier::opaque]
    pub open spec fn assume_fields(
        self,
        cx: &Context,
        fields: Chain<DefId>,
        value: ProofTerm,
    ) -> World
        decreases fields,
    {
        match fields {
            Chain::Empty => self,
            Chain::Link(link) => {
                let w = self.assume_fields(cx, link.rest, value);
                match cx.signature_of(link.item) {
                    Some(Signature::Field { owner: _, ty }) => w.assume_maybe(
                        established_type(
                            cx,
                            w.st.semantics,
                            w.data(ty),
                            value.field_of(link.item),
                        ),
                    ),
                    _ => w,
                }
            },
        }
    }

    #[verifier::opaque]
    pub open spec fn assume_established_record_fields(
        self,
        cx: &Context,
        ty: TyId,
        value: ProofTerm,
    ) -> World {
        match self.data(ty) {
            TyData::Nominal { definition, arguments: _ } => match cx.program.kind_of(definition) {
                Some(DefinitionKind::Record { generic_params: _, fields, invariant_body: _ }) =>
                    self.assume_fields(cx, fields, value),
                _ => self,
            },
            _ => self,
        }
    }

    /// A value of a type meets the contract of the type, and its fields those
    /// of theirs.
    #[verifier::opaque]
    pub open spec fn assume_established_type(
        self,
        cx: &Context,
        ty: TyId,
        value: ProofTerm,
    ) -> World {
        self.assume_maybe(
            established_type(cx, self.st.semantics, self.data(ty), value),
        ).assume_established_record_fields(cx, ty, value)
    }

    /// A place is written: what was known of it is forgotten, except what its
    /// type promises.
    #[verifier::opaque]
    pub open spec fn invalidate_mutated_place(self, cx: &Context, place: Place, ty: TyId) -> World {
        let symbolic = symbolic_place(place);
        let terms = terms_without(self.st.flow.local_terms, symbolic, None);
        let terms = match place.root {
            PlaceRoot::Local(local) => term_dropped(terms, local.0),
            _ => terms,
        };
        self.with_flow(
            FlowState {
                proof_facts: self.st.flow.proof_facts.without(symbolic),
                local_terms: terms,
                ..self.st.flow
            },
        ).assume_established_type(cx, ty, ProofTerm::Place(symbolic))
    }

    /// The receiver is found to meet its invariant again.
    #[verifier::opaque]
    pub open spec fn recover_receiver_invariant(self, cx: &Context) -> (World, bool) {
        if !self.st.flow.self_dirty {
            (self, false)
        } else {
            match cx.environment.self_ty {
                None => (self, false),
                Some(self_ty) => match established_type(
                    cx,
                    self.st.semantics,
                    self.data(self_ty),
                    root_term(ProofRoot::SelfValue),
                ) {
                    None => (self, false),
                    Some(promise) => {
                        let w = self.ask(promise);
                        if w.st.flow.proof_facts.verdict(promise) == ProofResult::Proven {
                            (w.with_flow(FlowState { self_dirty: false, ..w.st.flow }), true)
                        } else {
                            (w, false)
                        }
                    },
                },
            }
        }
    }
}

impl BodyChecker {
    pub fn ask(&mut self, term: &ProofTerm)
        ensures
            adds_to(old(self)@.st.diagnostics, final(self)@.st.diagnostics),
            final(self)@.types == old(self)@.types,
            final(self)@ == old(self)@.ask(*term),
    {
        proof {
            reveal(World::ask);
        }
        self.st.float_requests = self.st.float_requests.join(&find_unknown_operations(term));
    }

    pub fn assume_fact(&mut self, term: ProofTerm, value: bool)
        ensures
            adds_to(old(self)@.st.diagnostics, final(self)@.st.diagnostics),
            final(self)@.types == old(self)@.types,
            final(self)@ == old(self)@.assume_fact(term, value),
    {
        proof {
            reveal(World::assume_fact);
        }
        self.st.flow.proof_facts.assume_fact(term, value);
    }

    fn assume_maybe(&mut self, term: Option<ProofTerm>)
        ensures
            adds_to(old(self)@.st.diagnostics, final(self)@.st.diagnostics),
            final(self)@.types == old(self)@.types,
            final(self)@ == old(self)@.assume_maybe(term),
    {
        proof {
            reveal(World::assume_maybe);
        }
        match term {
            Some(term) => self.assume_fact(term, true),
            None => {},
        }
    }

    fn assume_fields(&mut self, cx: &Context, fields: &Chain<DefId>, value: &ProofTerm)
        requires
            old(self).wf(),
        ensures
            adds_to(old(self)@.st.diagnostics, final(self)@.st.diagnostics),
            final(self).wf(),
            later(old(self)@.types, final(self)@.types),
            final(self)@ == old(self)@.assume_fields(cx, *fields, *value),
        decreases fields,
    {
        proof {
            reveal(World::assume_fields);
        }
        match fields {
            Chain::Empty => {},
            Chain::Link(link) => {
                self.assume_fields(cx, &link.rest, value);
                match cx.signature(link.item) {
                    Some(Signature::Field { owner: _, ty }) => {
                        let data = self.data(*ty);
                        let field = value.field(link.item);
                        let term = established_type_term(cx, &self.st.semantics, &data, &field);
                        self.assume_maybe(term);
                    },
                    _ => {},
                }
            },
        }
    }

    pub fn assume_established_record_fields(&mut self, cx: &Context, ty: TyId, value: &ProofTerm)
        requires
            old(self).wf(),
        ensures
            adds_to(old(self)@.st.diagnostics, final(self)@.st.diagnostics),
            final(self).wf(),
            later(old(self)@.types, final(self)@.types),
            final(self)@ == old(self)@.assume_established_record_fields(cx, ty, *value),
    {
        proof {
            reveal(World::assume_established_record_fields);
        }
        match self.data(ty) {
            TyData::Nominal { definition, arguments: _ } => match cx.program.kind(definition) {
                Some(DefinitionKind::Record { generic_params: _, fields, invariant_body: _ }) =>
                    self.assume_fields(cx, fields, value),
                _ => {},
            },
            _ => {},
        }
    }

    pub fn assume_established_type(&mut self, cx: &Context, ty: TyId, value: &ProofTerm)
        requires
            old(self).wf(),
        ensures
            adds_to(old(self)@.st.diagnostics, final(self)@.st.diagnostics),
            final(self).wf(),
            later(old(self)@.types, final(self)@.types),
            final(self)@ == old(self)@.assume_established_type(cx, ty, *value),
    {
        proof {
            reveal(World::assume_established_type);
        }
        let data = self.data(ty);
        let term = established_type_term(cx, &self.st.semantics, &data, value);
        self.assume_maybe(term);
        self.assume_established_record_fields(cx, ty, value);
    }

    pub fn invalidate_mutated_place(&mut self, cx: &Context, place: &Place, ty: TyId)
        requires
            old(self).wf(),
        ensures
            adds_to(old(self)@.st.diagnostics, final(self)@.st.diagnostics),
            final(self).wf(),
            later(old(self)@.types, final(self)@.types),
            final(self)@ == old(self)@.invalidate_mutated_place(cx, *place, ty),
    {
        proof {
            reveal(World::invalidate_mutated_place);
        }
        let symbolic = proof_place(place);
        self.st.flow.proof_facts.invalidate(&symbolic);
        self.st.flow.local_terms = remove_terms(&self.st.flow.local_terms, &symbolic, None);
        match place.root {
            PlaceRoot::Local(local) => {
                self.st.flow.local_terms = drop_term(&self.st.flow.local_terms, local.0);
            },
            _ => {},
        }
        self.assume_established_type(cx, ty, &ProofTerm::Place(symbolic));
    }

    pub fn recover_receiver_invariant(&mut self, cx: &Context) -> (recovered: bool)
        requires
            old(self).wf(),
        ensures
            adds_to(old(self)@.st.diagnostics, final(self)@.st.diagnostics),
            final(self).wf(),
            later(old(self)@.types, final(self)@.types),
            (final(self)@, recovered) == old(self)@.recover_receiver_invariant(cx),
    {
        proof {
            reveal(World::recover_receiver_invariant);
        }
        if !self.st.flow.self_dirty {
            return false;
        }
        match cx.environment.self_ty {
            None => false,
            Some(self_ty) => {
                let data = self.data(self_ty);
                let value = make_root_term(ProofRoot::SelfValue);
                match established_type_term(cx, &self.st.semantics, &data, &value) {
                    None => false,
                    Some(promise) => {
                        self.ask(&promise);
                        if self.st.flow.proof_facts.prove(&promise) == ProofResult::Proven {
                            self.st.flow.self_dirty = false;
                            true
                        } else {
                            false
                        }
                    },
                }
            },
        }
    }
}

} // verus!
