//! The symbolic value of an expression stands for what the expression
//! evaluates to.

use std::rc::Rc;
use vstd::prelude::*;

use crate::arithmetic::is_quotient;
use crate::chain::Chain;
use crate::constants::{float_rank, float_value, is_nan};
use crate::hir::{BinaryOp, Expr, ExprKind, Literal, UnaryOp};
use crate::ids::ParamId;
use crate::literals::{literal_int, literal_text};
use crate::meaning::{meaning, Meaning};
use crate::proofs::{
    argument_term, binary_term, constant_term, contract_term, expr_term, literal_term,
    resolution_term, unary_term,
};
use crate::semantics::{
    BodySemantics, BuiltinValue, ConstantValue, FloatFact, FloatOperation, Place, Resolution,
};
use crate::state::{CheckState, Context};
use crate::symbolic::{ProofBinary, ProofPlace, ProofRoot, ProofTerm};

verus! {

/// `result` is what the operation makes of two values when the program runs.
pub open spec fn computes(op: BinaryOp, left: Meaning, right: Meaning, result: Meaning) -> bool {
    match (left, right) {
        (Meaning::Int(a), Meaning::Int(b)) => match op {
            BinaryOp::Add => result == Meaning::Int(a + b),
            BinaryOp::Subtract => result == Meaning::Int(a - b),
            BinaryOp::Multiply => result == Meaning::Int(a * b),
            BinaryOp::Divide => b != 0 ==> (result is Int && is_quotient(a, b, result->Int_0)),
            BinaryOp::Less => result == Meaning::Bool(a < b),
            BinaryOp::LessEqual => result == Meaning::Bool(a <= b),
            BinaryOp::Greater => result == Meaning::Bool(a > b),
            BinaryOp::GreaterEqual => result == Meaning::Bool(a >= b),
            BinaryOp::Equal => result == Meaning::Bool(a == b),
            BinaryOp::NotEqual => result == Meaning::Bool(a != b),
            BinaryOp::And => true,
            BinaryOp::Or => true,
        },
        (Meaning::Bool(a), Meaning::Bool(b)) => match op {
            BinaryOp::And => result == Meaning::Bool(a && b),
            BinaryOp::Or => result == Meaning::Bool(a || b),
            BinaryOp::Equal => result == Meaning::Bool(a == b),
            BinaryOp::NotEqual => result == Meaning::Bool(a != b),
            _ => true,
        },
        (Meaning::Float(a), Meaning::Float(b)) => {
            let ordered = !is_nan(a) && !is_nan(b);
            match op {
                BinaryOp::Less => result == Meaning::Bool(
                    ordered && float_rank(a) < float_rank(b),
                ),
                BinaryOp::LessEqual => result == Meaning::Bool(
                    ordered && float_rank(a) <= float_rank(b),
                ),
                BinaryOp::Greater => result == Meaning::Bool(
                    ordered && float_rank(a) > float_rank(b),
                ),
                BinaryOp::GreaterEqual => result == Meaning::Bool(
                    ordered && float_rank(a) >= float_rank(b),
                ),
                BinaryOp::Equal => result == Meaning::Bool(
                    ordered && float_rank(a) == float_rank(b),
                ),
                BinaryOp::NotEqual => result == Meaning::Bool(
                    !(ordered && float_rank(a) == float_rank(b)),
                ),
                _ => true,
            }
        },
        (Meaning::Text(a), Meaning::Text(b)) => match op {
            BinaryOp::Equal => result == Meaning::Bool(a == b),
            BinaryOp::NotEqual => result == Meaning::Bool(a != b),
            _ => true,
        },
        _ => true,
    }
}

/// `result` is the opposite of a value.
pub open spec fn opposes(op: UnaryOp, operand: Meaning, result: Meaning) -> bool {
    match (op, operand) {
        (UnaryOp::Negate, Meaning::Int(a)) => match result {
            Meaning::Int(b) => a + b == 0,
            _ => false,
        },
        (UnaryOp::Not, Meaning::Bool(a)) => result == Meaning::Bool(!a),
        _ => true,
    }
}

/// In `state` a division gives the quotient, rounded towards zero.
pub open spec fn divides(state: spec_fn(ProofTerm) -> Meaning) -> bool {
    forall|left: Rc<ProofTerm>, right: Rc<ProofTerm>|
        match (meaning(state, *left), meaning(state, *right)) {
            (Meaning::Int(a), Meaning::Int(b)) => b != 0 ==> match #[trigger] state(
                ProofTerm::Binary(ProofBinary::Divide, left, right),
            ) {
                Meaning::Int(c) => is_quotient(a, b, c),
                _ => false,
            },
            _ => true,
        }
}

/// Whatever the places hold, the term of an operation stands for what the
/// operation makes of what its operands stand for: the term of `a < b` is true
/// exactly where the number of `a` is strictly less than that of `b`, and so
/// with every other relation and operation.
pub proof fn law_binary_terms_compute(
    state: spec_fn(ProofTerm) -> Meaning,
    floats: Chain<FloatFact>,
    op: BinaryOp,
    left: ProofTerm,
    right: ProofTerm,
)
    requires
        divides(state),
    ensures
        computes(
            op,
            meaning(state, left),
            meaning(state, right),
            meaning(state, binary_term(floats, op, left, right)),
        ),
        match (left, right) {
            (ProofTerm::Float(a), ProofTerm::Float(b)) => match float_value(
                floats,
                FloatOperation { op, left: a, right: b },
            ) {
                Some(bits) => op == BinaryOp::Add || op == BinaryOp::Subtract || op
                    == BinaryOp::Multiply || op == BinaryOp::Divide ==> meaning(
                    state,
                    binary_term(floats, op, left, right),
                ) == Meaning::Float(bits),
                None => true,
            },
            _ => true,
        },
{
    let a = Rc::new(left);
    let b = Rc::new(right);
    let x = meaning(state, left);
    let y = meaning(state, right);
    reveal_with_fuel(meaning, 2);
    assert(*a == left && *b == right);
    if op == BinaryOp::Divide {
        match (x, y) {
            (Meaning::Int(m), Meaning::Int(n)) => {
                let quotient = state(ProofTerm::Binary(ProofBinary::Divide, a, b));
                assert(n != 0 ==> match quotient {
                    Meaning::Int(c) => is_quotient(m, n, c),
                    _ => false,
                });
            },
            _ => {},
        }
    }
}

/// The term of `-a` stands for the opposite of the number of `a`, and that of
/// `!a` for the opposite truth; the opposite of a float has the other sign.
pub proof fn law_unary_terms_oppose(
    state: spec_fn(ProofTerm) -> Meaning,
    op: UnaryOp,
    operand: ProofTerm,
)
    ensures
        opposes(op, meaning(state, operand), meaning(state, unary_term(op, operand))),
        match (op, operand) {
            (UnaryOp::Negate, ProofTerm::Float(bits)) => match meaning(
                state,
                unary_term(op, operand),
            ) {
                Meaning::Float(other) => float_rank(other) == -float_rank(bits) && other != bits,
                _ => false,
            },
            _ => true,
        },
{
    reveal_with_fuel(meaning, 2);
}

/// The term of a constant stands for its value, and so does that of a literal:
/// the number that its digits write, the truth, the text.
pub proof fn law_values_stand_for_themselves(
    state: spec_fn(ProofTerm) -> Meaning,
    value: ConstantValue,
    literal: Literal,
)
    ensures
        match (value, meaning(state, constant_term(value))) {
            (ConstantValue::Bool(a), Meaning::Bool(b)) => a == b,
            (ConstantValue::Int(a), Meaning::Int(b)) => a == b,
            (ConstantValue::Float(a), Meaning::Float(b)) => a == b,
            (ConstantValue::Text(a), Meaning::Text(b)) => a == b,
            _ => false,
        },
        match literal {
            Literal::Bool(a) => meaning(state, literal_term(literal)) == Meaning::Bool(a),
            Literal::Int(text) => match literal_int(text@) {
                Some(a) => meaning(state, literal_term(literal)) == Meaning::Int(a as int),
                None => !literal_term(literal).known(),
            },
            Literal::Float(_, Some(bits)) => meaning(state, literal_term(literal))
                == Meaning::Float(bits),
            Literal::Float(_, None) => !literal_term(literal).known(),
            Literal::Text(text) => match literal_text(text@) {
                Some(a) => meaning(state, literal_term(literal)) == Meaning::Text(a),
                None => !literal_term(literal).known(),
            },
            Literal::Unit => meaning(state, literal_term(literal)) == Meaning::Unit,
        },
{
}

/// The expression is written as an operation on two others.
pub open spec fn operands(e: Expr) -> Option<(BinaryOp, Expr, Expr)> {
    match e.kind {
        ExprKind::Binary { op, left, right } => Some((op, *left, *right)),
        _ => None,
    }
}

/// What an operand of an operation stands for: of a constrained value, the
/// value that it constrains.
pub open spec fn operand_value(state: spec_fn(ProofTerm) -> Meaning, term: ProofTerm) -> Meaning {
    meaning(state, term.unrefined())
}

proof fn lemma_bare_binary(floats: Chain<FloatFact>, op: BinaryOp, left: ProofTerm, right: ProofTerm)
    ensures
        binary_term(floats, op, left, right).unrefined() == binary_term(floats, op, left, right),
{
}

proof fn lemma_bare_unary(op: UnaryOp, operand: ProofTerm)
    ensures
        unary_term(op, operand).unrefined() == unary_term(op, operand),
{
}

/// In a body, whatever the places hold, the term of `left op right` stands for
/// what the operation makes of what the two operands stand for.
pub proof fn law_expressions_compute(
    state: spec_fn(ProofTerm) -> Meaning,
    cx: &Context,
    st: CheckState,
    e: Expr,
    depth: u16,
)
    requires
        divides(state),
        depth < 256,
    ensures
        match operands(e) {
            Some((op, left, right)) => computes(
                op,
                operand_value(state, expr_term(cx, st, left, (depth + 1) as u16)),
                operand_value(state, expr_term(cx, st, right, (depth + 1) as u16)),
                operand_value(state, expr_term(cx, st, e, depth)),
            ),
            None => true,
        },
        match e.kind {
            ExprKind::Unary { op, operand } => opposes(
                op,
                operand_value(state, expr_term(cx, st, *operand, (depth + 1) as u16)),
                operand_value(state, expr_term(cx, st, e, depth)),
            ),
            _ => true,
        },
{
    let next = (depth + 1) as u16;
    match e.kind {
        ExprKind::Binary { op, left, right } => {
            let a = expr_term(cx, st, *left, next).unrefined();
            let b = expr_term(cx, st, *right, next).unrefined();
            law_binary_terms_compute(state, *cx.floats, op, a, b);
            lemma_bare_binary(*cx.floats, op, a, b);
        },
        ExprKind::Unary { op, operand } => {
            let a = expr_term(cx, st, *operand, next).unrefined();
            law_unary_terms_oppose(state, op, a);
            lemma_bare_unary(op, a);
        },
        _ => {},
    }
}

/// In a contract, whatever the places hold, the term of `left op right` stands
/// for what the operation makes of what the two operands stand for.
pub proof fn law_contracts_compute(
    state: spec_fn(ProofTerm) -> Meaning,
    cx: &Context,
    semantics: BodySemantics,
    e: Expr,
    self_value: Option<ProofTerm>,
    arguments: Chain<(ParamId, ProofTerm)>,
    in_old: bool,
    depth: u16,
)
    requires
        divides(state),
        depth < 256,
    ensures
        match operands(e) {
            Some((op, left, right)) => computes(
                op,
                operand_value(
                    state,
                    contract_term(
                        cx,
                        semantics,
                        left,
                        self_value,
                        arguments,
                        in_old,
                        (depth + 1) as u16,
                    ),
                ),
                operand_value(
                    state,
                    contract_term(
                        cx,
                        semantics,
                        right,
                        self_value,
                        arguments,
                        in_old,
                        (depth + 1) as u16,
                    ),
                ),
                meaning(
                    state,
                    contract_term(cx, semantics, e, self_value, arguments, in_old, depth),
                ),
            ),
            None => true,
        },
        match e.kind {
            ExprKind::Unary { op, operand } => opposes(
                op,
                operand_value(
                    state,
                    contract_term(
                        cx,
                        semantics,
                        *operand,
                        self_value,
                        arguments,
                        in_old,
                        (depth + 1) as u16,
                    ),
                ),
                meaning(
                    state,
                    contract_term(cx, semantics, e, self_value, arguments, in_old, depth),
                ),
            ),
            _ => true,
        },
{
    let next = (depth + 1) as u16;
    match e.kind {
        ExprKind::Binary { op, left, right } => {
            let a = contract_term(cx, semantics, *left, self_value, arguments, in_old, next);
            let b = contract_term(cx, semantics, *right, self_value, arguments, in_old, next);
            law_binary_terms_compute(state, *cx.floats, op, a.unrefined(), b.unrefined());
        },
        ExprKind::Unary { op, operand } => {
            let a = contract_term(cx, semantics, *operand, self_value, arguments, in_old, next);
            law_unary_terms_oppose(state, op, a.unrefined());
        },
        _ => {},
    }
}

/// What the place with this root holds in `state`.
pub open spec fn held(state: spec_fn(ProofTerm) -> Meaning, root: ProofRoot) -> Meaning {
    state(ProofTerm::Place(ProofPlace { root, fields: Chain::Empty }))
}

/// A name in a contract stands for the argument that is given for it, for what
/// the parameter held when the function was entered if it is within `old`, and
/// for what it holds otherwise; so it is with `self`, and `result` stands for
/// what the function returns. The name of a constant stands for its value.
pub proof fn law_names_in_contracts(
    state: spec_fn(ProofTerm) -> Meaning,
    cx: &Context,
    semantics: BodySemantics,
    e: Expr,
    self_value: Option<ProofTerm>,
    arguments: Chain<(ParamId, ProofTerm)>,
    in_old: bool,
    depth: u16,
)
    requires
        depth < 256,
    ensures
        ({
            let value = meaning(
                state,
                contract_term(cx, semantics, e, self_value, arguments, in_old, depth),
            );
            match e.kind {
                ExprKind::Path(_) => match semantics.expression_resolutions.lookup(e.id.0) {
                    Some(Resolution::Param(parameter)) => match argument_term(
                        arguments,
                        parameter,
                    ) {
                        Some(term) => value == meaning(state, term),
                        None => value == held(
                            state,
                            if in_old {
                                ProofRoot::OldParam(parameter.0)
                            } else {
                                ProofRoot::Param(parameter.0)
                            },
                        ),
                    },
                    Some(Resolution::Definition(definition)) => match cx.constants.lookup(
                        definition.0,
                    ) {
                        Some(ConstantValue::Int(a)) => value == Meaning::Int(a as int),
                        Some(ConstantValue::Bool(a)) => value == Meaning::Bool(a),
                        Some(ConstantValue::Float(a)) => value == Meaning::Float(a),
                        Some(ConstantValue::Text(a)) => value == Meaning::Text(a),
                        None => true,
                    },
                    Some(Resolution::Builtin(BuiltinValue::Unit)) => value == Meaning::Unit,
                    _ => true,
                },
                ExprKind::SelfValue => match self_value {
                    Some(term) => value == meaning(state, term),
                    None => value == held(
                        state,
                        if in_old {
                            ProofRoot::OldSelf
                        } else {
                            ProofRoot::SelfValue
                        },
                    ),
                },
                ExprKind::ResultValue => value == held(state, ProofRoot::ResultValue),
                ExprKind::Old(inner) => value == meaning(
                    state,
                    contract_term(
                        cx,
                        semantics,
                        *inner,
                        self_value,
                        arguments,
                        true,
                        (depth + 1) as u16,
                    ),
                ),
                ExprKind::Literal(Literal::Bool(a)) => value == Meaning::Bool(a),
                ExprKind::Literal(Literal::Int(text)) => match literal_int(text@) {
                    Some(a) => value == Meaning::Int(a as int),
                    None => true,
                },
                _ => true,
            }
        }),
{
}

/// A name in a body stands for what its place holds: a parameter for the
/// parameter, `self` for the receiver, and a local whose value is known for
/// that value.
pub proof fn law_names_in_bodies(
    state: spec_fn(ProofTerm) -> Meaning,
    cx: &Context,
    st: CheckState,
    id: crate::ids::ExprId,
)
    ensures
        ({
            let value = meaning(state, resolution_term(cx, st, id));
            match st.semantics.expression_resolutions.lookup(id.0) {
                Some(Resolution::Param(parameter)) => value == held(
                    state,
                    ProofRoot::Param(parameter.0),
                ),
                Some(Resolution::SelfValue) => value == held(state, ProofRoot::SelfValue),
                Some(Resolution::ResultValue) => value == held(state, ProofRoot::ResultValue),
                Some(Resolution::Local(local)) => match crate::flow::term_of(
                    st.flow.local_terms,
                    local.0,
                ) {
                    Some(term) => value == meaning(state, term),
                    None => value == held(state, ProofRoot::Local(local.0)),
                },
                Some(Resolution::Definition(definition)) => match cx.constants.lookup(
                    definition.0,
                ) {
                    Some(ConstantValue::Int(a)) => value == Meaning::Int(a as int),
                    Some(ConstantValue::Bool(a)) => value == Meaning::Bool(a),
                    Some(ConstantValue::Float(a)) => value == Meaning::Float(a),
                    Some(ConstantValue::Text(a)) => value == Meaning::Text(a),
                    None => true,
                },
                _ => true,
            }
        }),
{
}

} // verus!
