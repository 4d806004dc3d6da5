//! What the operations of constants compute, in terms of whole numbers, truth
//! and order.

use vstd::prelude::*;

use crate::chain::{law_equal_elements_equal_lists, Chain};
use crate::constants::{
    binary_operation,
    decided,
    float_rank,
    float_test,
    is_least_magnitude,
    is_nan,
    unary_operation,
    Computed,
    ConstantEvaluationState,
    Evaluation,
};
use crate::diagnostics::reported;
use crate::hir::{BinaryOp, Expr, UnaryOp};
use crate::ids::BodyId;
use crate::resolve::Names;
use crate::semantics::{ConstantValue, FloatFact};
use crate::survey::Survey;
use crate::table::Table;

verus! {

/// The result is the whole number `value` if that fits, and nothing otherwise.
pub open spec fn is_number(computed: Computed, value: int) -> bool {
    match computed {
        Computed::Value(ConstantValue::Int(result)) => result == value,
        Computed::Impossible => value < i64::MIN || value > i64::MAX,
        _ => false,
    }
}

/// The result is the truth value `value`.
pub open spec fn is_truth(computed: Computed, value: bool) -> bool {
    computed == Computed::Value(ConstantValue::Bool(value))
}

/// `quotient` is `dividend` divided by `divisor`, without the part behind the
/// point: what remains is smaller than the divisor and on the side of zero
/// that the dividend is on.
pub open spec fn is_quotient(dividend: int, divisor: int, quotient: int) -> bool {
    let rest = dividend - quotient * divisor;
    &&& divisor != 0
    &&& -rest < divisor && rest < divisor || divisor < rest && divisor < -rest
    &&& dividend >= 0 ==> rest >= 0
    &&& dividend <= 0 ==> rest <= 0
}

/// The sum, the difference and the product of two integers are those of
/// arithmetic wherever they fit, and there is no value otherwise.
pub proof fn law_constant_arithmetic(facts: Chain<FloatFact>, a: i64, b: i64)
    ensures
        is_number(
            binary_operation(facts, BinaryOp::Add, ConstantValue::Int(a), ConstantValue::Int(b)),
            a + b,
        ),
        is_number(
            binary_operation(
                facts,
                BinaryOp::Subtract,
                ConstantValue::Int(a),
                ConstantValue::Int(b),
            ),
            a - b,
        ),
        is_number(
            binary_operation(
                facts,
                BinaryOp::Multiply,
                ConstantValue::Int(a),
                ConstantValue::Int(b),
            ),
            a * b,
        ),
{
}

proof fn lemma_quotient(a: int, b: int, q: int)
    requires
        a >= 0,
        b > 0,
        q == a / b,
    ensures
        0 <= a - q * b < b,
        0 <= q <= a,
        b > 1 && a > 0 ==> q < a,
        b == 1 ==> q == a,
{
    vstd::arithmetic::div_mod::lemma_fundamental_div_mod(a, b);
    vstd::arithmetic::div_mod::lemma_mod_bound(a, b);
    assert(q * b == b * (a / b)) by (nonlinear_arith)
        requires
            q == a / b,
    ;
    vstd::arithmetic::div_mod::lemma_div_pos_is_pos(a, b);
    vstd::arithmetic::div_mod::lemma_div_is_ordered_by_denominator(a, 1, b);
    assert(a / 1 == a);
    if b > 1 && a > 0 {
        vstd::arithmetic::div_mod::lemma_div_decreases(a, b);
    }
}

/// The quotient of two integers is rounded towards zero. There is none by
/// zero, nor of the least integer by minus one, which does not fit.
pub proof fn law_constant_quotient(facts: Chain<FloatFact>, a: i64, b: i64)
    ensures
        match binary_operation(
            facts,
            BinaryOp::Divide,
            ConstantValue::Int(a),
            ConstantValue::Int(b),
        ) {
            Computed::Value(ConstantValue::Int(c)) => is_quotient(a as int, b as int, c as int),
            Computed::Impossible => b == 0 || a == i64::MIN && b == -1,
            _ => false,
        },
        b == 0 ==> binary_operation(
            facts,
            BinaryOp::Divide,
            ConstantValue::Int(a),
            ConstantValue::Int(b),
        ) is Impossible,
{
    let x = a as int;
    let d = b as int;
    if d != 0 {
        let size = if x < 0 {
            -x
        } else {
            x
        };
        let by = if d < 0 {
            -d
        } else {
            d
        };
        let q = size / by;
        lemma_quotient(size, by, q);
        assert(x * -1 == -x && d * -1 == -d);
        assert((-q) * by == -(q * by)) by (nonlinear_arith);
        assert(q * (-by) == -(q * by)) by (nonlinear_arith);
        assert((-q) * (-by) == q * by) by (nonlinear_arith);
        assert((-x) / by * -1 == -((-x) / by));
        assert(x / (-d) * -1 == -(x / (-d)));
        if x == 0 {
            assert(q == 0);
            assert(0 * d == 0);
        }
    }
}

/// Integers are compared as numbers.
pub proof fn law_constant_comparisons(facts: Chain<FloatFact>, a: i64, b: i64)
    ensures
        is_truth(
            binary_operation(facts, BinaryOp::Less, ConstantValue::Int(a), ConstantValue::Int(b)),
            a < b,
        ),
        is_truth(
            binary_operation(
                facts,
                BinaryOp::LessEqual,
                ConstantValue::Int(a),
                ConstantValue::Int(b),
            ),
            a <= b,
        ),
        is_truth(
            binary_operation(
                facts,
                BinaryOp::Greater,
                ConstantValue::Int(a),
                ConstantValue::Int(b),
            ),
            a > b,
        ),
        is_truth(
            binary_operation(
                facts,
                BinaryOp::GreaterEqual,
                ConstantValue::Int(a),
                ConstantValue::Int(b),
            ),
            a >= b,
        ),
        is_truth(
            binary_operation(facts, BinaryOp::Equal, ConstantValue::Int(a), ConstantValue::Int(b)),
            a == b,
        ),
        is_truth(
            binary_operation(
                facts,
                BinaryOp::NotEqual,
                ConstantValue::Int(a),
                ConstantValue::Int(b),
            ),
            a != b,
        ),
        binary_operation(
            facts,
            BinaryOp::And,
            ConstantValue::Int(a),
            ConstantValue::Int(b),
        ) is Impossible,
        binary_operation(
            facts,
            BinaryOp::Or,
            ConstantValue::Int(a),
            ConstantValue::Int(b),
        ) is Impossible,
{
}

/// `&&` and `||` are conjunction and disjunction. Where the first operand
/// settles the result, it is the one that the second would give, whatever the
/// second is; where it does not, the result is the second operand.
pub proof fn law_constant_logic(facts: Chain<FloatFact>, a: bool, b: bool)
    ensures
        is_truth(
            binary_operation(facts, BinaryOp::And, ConstantValue::Bool(a), ConstantValue::Bool(b)),
            a && b,
        ),
        is_truth(
            binary_operation(facts, BinaryOp::Or, ConstantValue::Bool(a), ConstantValue::Bool(b)),
            a || b,
        ),
        is_truth(
            binary_operation(
                facts,
                BinaryOp::Equal,
                ConstantValue::Bool(a),
                ConstantValue::Bool(b),
            ),
            a <==> b,
        ),
        is_truth(
            binary_operation(
                facts,
                BinaryOp::NotEqual,
                ConstantValue::Bool(a),
                ConstantValue::Bool(b),
            ),
            !(a <==> b),
        ),
        unary_operation(UnaryOp::Not, ConstantValue::Bool(a)) == Some(ConstantValue::Bool(!a)),
        decided(BinaryOp::And, ConstantValue::Bool(a)) == (if a {
            None
        } else {
            Some(ConstantValue::Bool(false))
        }),
        decided(BinaryOp::Or, ConstantValue::Bool(a)) == (if a {
            Some(ConstantValue::Bool(true))
        } else {
            None
        }),
{
}

/// Only `&&` on false and `||` on true are settled by their first operand.
pub proof fn law_only_logic_is_settled_early(op: BinaryOp, left: ConstantValue)
    ensures
        decided(op, left) is Some ==> op == BinaryOp::And && left == ConstantValue::Bool(false) || op
            == BinaryOp::Or && left == ConstantValue::Bool(true),
{
}

/// The negation of an integer is its opposite, which the least integer has
/// not; negating twice gives the value back, and so it is with floats, whose
/// order negation reverses.
pub proof fn law_constant_negation(a: i64, bits: u64, other: u64)
    ensures
        a == i64::MIN ==> unary_operation(UnaryOp::Negate, ConstantValue::Int(a)) is None,
        a != i64::MIN ==> match unary_operation(UnaryOp::Negate, ConstantValue::Int(a)) {
            Some(ConstantValue::Int(b)) => a + b == 0,
            _ => false,
        },
        match (
            unary_operation(UnaryOp::Negate, ConstantValue::Float(bits)),
            unary_operation(UnaryOp::Negate, ConstantValue::Float(other)),
        ) {
            (Some(ConstantValue::Float(b)), Some(ConstantValue::Float(c))) => {
                &&& b != bits
                &&& unary_operation(UnaryOp::Negate, ConstantValue::Float(b)) == Some(
                    ConstantValue::Float(bits),
                )
                &&& is_nan(b) == is_nan(bits)
                &&& float_rank(b) == -float_rank(bits)
                &&& float_test(BinaryOp::Less, bits, other) == float_test(BinaryOp::Less, c, b)
            },
            _ => false,
        },
{
}

/// A float that is not a number is unequal to every float and stands before
/// and behind none; of any two others exactly one is less, or they are equal,
/// and the comparisons agree with each other.
pub proof fn law_constant_floats(facts: Chain<FloatFact>, a: u64, b: u64)
    ensures
        ({
            let left = ConstantValue::Float(a);
            let right = ConstantValue::Float(b);
            let unordered = is_nan(a) || is_nan(b);
            let less = float_rank(a) < float_rank(b);
            let equal = float_rank(a) == float_rank(b);
            &&& is_truth(binary_operation(facts, BinaryOp::Less, left, right), !unordered && less)
            &&& is_truth(
                binary_operation(facts, BinaryOp::LessEqual, left, right),
                !unordered && (less || equal),
            )
            &&& is_truth(
                binary_operation(facts, BinaryOp::Greater, left, right),
                !unordered && !less && !equal,
            )
            &&& is_truth(
                binary_operation(facts, BinaryOp::GreaterEqual, left, right),
                !unordered && !less,
            )
            &&& is_truth(
                binary_operation(facts, BinaryOp::Equal, left, right),
                !unordered && equal,
            )
            &&& is_truth(
                binary_operation(facts, BinaryOp::NotEqual, left, right),
                unordered || !equal,
            )
        }),
        float_rank(a) == float_rank(b) <==> a == b || float_rank(a) == 0 && float_rank(b) == 0,
        a < 0x8000_0000_0000_0000 && b < 0x8000_0000_0000_0000 ==> (float_rank(a) < float_rank(b)
            <==> a < b),
        a >= 0x8000_0000_0000_0000 ==> float_rank(a) <= 0,
        a < 0x8000_0000_0000_0000 ==> float_rank(a) >= 0,
        is_nan(a) <==> float_rank(a) > 0x7ff0_0000_0000_0000 || float_rank(a) < -0x7ff0_0000_0000_0000,
{
}

/// Texts can only be tested for being the same text, and values of different
/// kinds cannot be operated on together.
pub proof fn law_constant_texts(facts: Chain<FloatFact>, op: BinaryOp, a: Chain<char>, b: Chain<
    char,
>, value: ConstantValue)
    ensures
        ({
            let computed = binary_operation(
                facts,
                op,
                ConstantValue::Text(a),
                ConstantValue::Text(b),
            );
            match op {
                BinaryOp::Equal => is_truth(computed, a.seq() == b.seq()),
                BinaryOp::NotEqual => is_truth(computed, a.seq() != b.seq()),
                _ => computed is Impossible,
            }
        }),
        !(value is Text) ==> binary_operation(facts, op, ConstantValue::Text(a), value) is Impossible,
        !(value is Int) ==> forall|n: i64|
            binary_operation(facts, op, ConstantValue::Int(n), value) is Impossible,
        !(value is Bool) ==> forall|n: bool|
            binary_operation(facts, op, ConstantValue::Bool(n), value) is Impossible,
        !(value is Float) ==> forall|n: u64|
            binary_operation(facts, op, ConstantValue::Float(n), value) is Impossible,
{
    if a.seq() == b.seq() {
        law_equal_elements_equal_lists(a, b);
    }
}

/// The value of `left op right` is what the operation makes of the values of
/// the two operands: with integers `a` and `b` it is their sum, difference or
/// product wherever that fits, their quotient, or the truth of their relation;
/// and where it has no value an error is reported.
pub proof fn law_constant_expression(
    s: Survey,
    cx: &Evaluation,
    body: BodyId,
    e: Expr,
    states: Table<ConstantEvaluationState>,
    budget: u32,
)
    requires
        e.kind is Binary,
    ensures
        ({
            let (op, left, right) = (e.kind->Binary_op, *e.kind->Binary_left, *e.kind->Binary_right);
            let (s1, states1, first) = s.evaluate_constant_expr(cx, body, left, states, budget);
            let (s2, states2, second) = s1.evaluate_constant_expr(
                cx,
                body,
                right,
                states1,
                budget,
            );
            let (s3, _, value) = s.evaluate_constant_expr(cx, body, e, states, budget);
            match (first, second) {
                (Some(ConstantValue::Int(a)), Some(ConstantValue::Int(b))) => {
                    &&& match value {
                        Some(ConstantValue::Int(c)) => match op {
                            BinaryOp::Add => c == a + b,
                            BinaryOp::Subtract => c == a - b,
                            BinaryOp::Multiply => c == a * b,
                            BinaryOp::Divide => is_quotient(a as int, b as int, c as int),
                            _ => false,
                        },
                        Some(ConstantValue::Bool(c)) => match op {
                            BinaryOp::Less => c == (a < b),
                            BinaryOp::LessEqual => c == (a <= b),
                            BinaryOp::Greater => c == (a > b),
                            BinaryOp::GreaterEqual => c == (a >= b),
                            BinaryOp::Equal => c == (a == b),
                            BinaryOp::NotEqual => c == (a != b),
                            _ => false,
                        },
                        Some(_) => false,
                        None => {
                            &&& reported(
                                s2.names.diagnostics,
                                s3.names.diagnostics,
                                "ConstantEvaluationFailed",
                                e.span,
                            )
                            &&& match op {
                                BinaryOp::Add => !(i64::MIN <= a + b <= i64::MAX),
                                BinaryOp::Subtract => !(i64::MIN <= a - b <= i64::MAX),
                                BinaryOp::Multiply => !(i64::MIN <= a * b <= i64::MAX),
                                BinaryOp::Divide => b == 0 || a == i64::MIN && b == -1,
                                BinaryOp::And => true,
                                BinaryOp::Or => true,
                                _ => false,
                            }
                        },
                    }
                    &&& value is Some ==> s3 == s2
                },
                (Some(ConstantValue::Bool(a)), Some(ConstantValue::Bool(b))) => match op {
                    BinaryOp::And => value == Some(ConstantValue::Bool(a && b)),
                    BinaryOp::Or => value == Some(ConstantValue::Bool(a || b)),
                    BinaryOp::Equal => value == Some(ConstantValue::Bool(a == b)),
                    BinaryOp::NotEqual => value == Some(ConstantValue::Bool(a != b)),
                    _ => value is None,
                },
                (None, _) => value is None && s3 == s1,
                (Some(ConstantValue::Bool(false)), None) => op != BinaryOp::And ==> value is None,
                (Some(ConstantValue::Bool(true)), None) => op != BinaryOp::Or ==> value is None,
                (Some(_), None) => value is None,
                _ => true,
            }
        }),
{
    reveal(Survey::evaluate_constant_binary);
    reveal(Survey::error);
    reveal(Names::report);
    let (op, left, right) = (e.kind->Binary_op, *e.kind->Binary_left, *e.kind->Binary_right);
    let (s1, states1, first) = s.evaluate_constant_expr(cx, body, left, states, budget);
    let (s2, states2, second) = s1.evaluate_constant_expr(cx, body, right, states1, budget);
    match (first, second) {
        (Some(ConstantValue::Int(a)), Some(ConstantValue::Int(b))) => {
            law_constant_quotient(*cx.floats, a, b);
            law_constant_arithmetic(*cx.floats, a, b);
            law_constant_comparisons(*cx.floats, a, b);
            let (s3, value) = s2.evaluate_constant_binary(cx, e, op, first->0, second->0);
            assert(decided(op, first->0) is None);
            assert(s.evaluate_constant_expr(cx, body, e, states, budget) == (s3, states2, value));
        },
        _ => {},
    }
}

/// The value of `-operand` or `!operand` is the opposite of the operand's. The
/// least integer can only be written as a negation.
pub proof fn law_constant_opposite(
    s: Survey,
    cx: &Evaluation,
    body: BodyId,
    e: Expr,
    states: Table<ConstantEvaluationState>,
    budget: u32,
)
    requires
        e.kind is Unary,
    ensures
        ({
            let (op, operand) = (e.kind->Unary_op, *e.kind->Unary_operand);
            let (s1, _, inner) = s.evaluate_constant_expr(cx, body, operand, states, budget);
            let (s2, _, value) = s.evaluate_constant_expr(cx, body, e, states, budget);
            if op == UnaryOp::Negate && is_least_magnitude(operand) {
                &&& s2 == s
                &&& match value {
                    Some(ConstantValue::Int(least)) => least == -0x8000_0000_0000_0000,
                    _ => false,
                }
            } else {
                match (op, inner) {
                    (UnaryOp::Negate, Some(ConstantValue::Int(a))) => match value {
                        Some(ConstantValue::Int(c)) => a + c == 0,
                        Some(_) => false,
                        None => a == -0x8000_0000_0000_0000,
                    },
                    (UnaryOp::Not, Some(ConstantValue::Bool(a))) => value == Some(
                        ConstantValue::Bool(!a),
                    ),
                    (UnaryOp::Not, _) => value is None,
                    (UnaryOp::Negate, Some(ConstantValue::Float(a))) => match value {
                        Some(ConstantValue::Float(c)) => float_rank(c) == -float_rank(a) && c != a,
                        _ => false,
                    },
                    (UnaryOp::Negate, _) => value is None,
                }
            }
        }),
{
    reveal(Survey::finish_unary);
}

} // verus!
