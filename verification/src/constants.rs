//! The values of constants.
//!
//! Arithmetic on floats is not done here: an evaluation is given the results
//! that are known, and names the operations whose results it lacks.

use vstd::prelude::*;

use crate::chain::{Chain, Same};
#[allow(unused_imports)]
use crate::diagnostics::{adds_to, lemma_adds_nothing, lemma_adds_one, lemma_adds_through};
use crate::hir::{get, text_is, BinaryOp, DefinitionKind, Expr, ExprKind, Literal, Program, UnaryOp};
#[allow(unused_imports)]
use crate::hir::at;
use crate::ids::{BodyId, DefId};
#[allow(unused_imports)]
use crate::literals::{literal_int, literal_text};
use crate::literals::{decode_constant_text, parse_int};
use crate::semantics::{ConstantValue, FloatFact, FloatOperation, Resolution};
use crate::survey::Analyzer;
#[allow(unused_imports)]
use crate::survey::Survey;
use crate::table::{contains_id, insert_id, remove_id, Table};
#[allow(unused_imports)]
use crate::table::{has_id, id_inserted, id_removed};

verus! {

broadcast use {lemma_adds_nothing, lemma_adds_one, lemma_adds_through};

/// How deep the expressions of a constant may nest, through the constants
/// that it uses.
pub const CONSTANT_EVALUATION_DEPTH_LIMIT: usize = 256;

/// How many expressions the evaluation of a constant may look at.
pub const CONSTANT_EVALUATION_WORK_LIMIT: usize = 65_536;

/// How deep the evaluation of constants by constants is followed.
pub const EVALUATION_LIMIT: u32 = u32::MAX;

/// What an evaluation is given.
pub struct Evaluation<'a> {
    pub program: &'a Program,
    /// The results of float operations that are known.
    pub floats: &'a Chain<FloatFact>,
}

/// How far the evaluation of a constant has come.
#[derive(Clone, Copy, Debug, PartialEq, Eq, Structural)]
pub enum ConstantEvaluationState {
    Evaluating,
    Complete,
    Failed,
}

/// The limit that an evaluation exceeds.
#[derive(Clone, Copy, Debug, PartialEq, Eq, Structural)]
pub enum ConstantLimit {
    Depth,
    Work,
}

/// The state of measuring an evaluation.
pub struct LimitState {
    /// The constants that are being looked at.
    pub active: Chain<u32>,
    /// The greatest depth at which each constant was looked at.
    pub max_seen_depth: Table<usize>,
    pub work: usize,
    pub exceeded: Option<ConstantLimit>,
}

/// What an operation on two values gives.
pub enum Computed {
    Value(ConstantValue),
    /// The operation has no value.
    Impossible,
    /// The value depends on an unknown result.
    Unknown(FloatOperation),
}

/// The known result of a float operation.
pub open spec fn float_value(facts: Chain<FloatFact>, operation: FloatOperation) -> Option<u64>
    decreases facts,
{
    match facts {
        Chain::Empty => None,
        Chain::Link(link) => if link.item.operation == operation {
            Some(link.item.value)
        } else {
            float_value(link.rest, operation)
        },
    }
}

pub(crate) fn find_float_value(
    facts: &Chain<FloatFact>,
    operation: FloatOperation,
) -> (value: Option<u64>)
    ensures
        value == float_value(*facts, operation),
    decreases facts,
{
    match facts {
        Chain::Empty => None,
        Chain::Link(link) => if link.item.operation == operation {
            Some(link.item.value)
        } else {
            find_float_value(&link.rest, operation)
        },
    }
}

/// The sign bit of a double.
pub const SIGN_BIT: u64 = 0x8000_0000_0000_0000;

/// The bits of positive infinity.
pub const INFINITY_BITS: u64 = 0x7ff0_0000_0000_0000;

/// The bits of a double without its sign.
pub open spec fn magnitude(bits: u64) -> int {
    if bits >= SIGN_BIT {
        bits - SIGN_BIT
    } else {
        bits as int
    }
}

/// The bits are those of a value that is not a number.
pub open spec fn is_nan(bits: u64) -> bool {
    magnitude(bits) > INFINITY_BITS
}

/// The position of a double among the doubles; both zeros have the same.
pub open spec fn float_rank(bits: u64) -> int {
    if bits >= SIGN_BIT {
        -magnitude(bits)
    } else {
        magnitude(bits)
    }
}

fn rank_of(bits: u64) -> (rank: Option<i64>)
    ensures
        rank is None == is_nan(bits),
        rank is Some ==> rank->0 == float_rank(bits),
{
    let size: u64 = if bits >= SIGN_BIT {
        bits - SIGN_BIT
    } else {
        bits
    };
    if size > INFINITY_BITS {
        None
    } else if bits >= SIGN_BIT {
        Some(-(size as i64))
    } else {
        Some(size as i64)
    }
}

/// The double with the other sign.
pub open spec fn float_negated(bits: u64) -> u64 {
    if bits >= SIGN_BIT {
        (bits - SIGN_BIT) as u64
    } else {
        (bits + SIGN_BIT) as u64
    }
}

pub(crate) fn negate_float(bits: u64) -> (negated: u64)
    ensures
        negated == float_negated(bits),
{
    if bits >= SIGN_BIT {
        bits - SIGN_BIT
    } else {
        bits + SIGN_BIT
    }
}

/// Two values are unordered, or the first is before, at or behind the second.
pub open spec fn order_test(op: BinaryOp, left: int, right: int) -> Option<bool> {
    match op {
        BinaryOp::Equal => Some(left == right),
        BinaryOp::NotEqual => Some(left != right),
        BinaryOp::Less => Some(left < right),
        BinaryOp::LessEqual => Some(left <= right),
        BinaryOp::Greater => Some(left > right),
        BinaryOp::GreaterEqual => Some(left >= right),
        _ => None,
    }
}

fn test_order(op: BinaryOp, left: i64, right: i64) -> (result: Option<bool>)
    ensures
        result == order_test(op, left as int, right as int),
{
    match op {
        BinaryOp::Equal => Some(left == right),
        BinaryOp::NotEqual => Some(left != right),
        BinaryOp::Less => Some(left < right),
        BinaryOp::LessEqual => Some(left <= right),
        BinaryOp::Greater => Some(left > right),
        BinaryOp::GreaterEqual => Some(left >= right),
        _ => None,
    }
}

pub open spec fn float_test(op: BinaryOp, left: u64, right: u64) -> Option<bool> {
    if is_nan(left) || is_nan(right) {
        match order_test(op, 0, 0) {
            Some(_) => Some(op == BinaryOp::NotEqual),
            None => None,
        }
    } else {
        order_test(op, float_rank(left), float_rank(right))
    }
}

fn test_floats(op: BinaryOp, left: u64, right: u64) -> (result: Option<bool>)
    ensures
        result == float_test(op, left, right),
{
    match (rank_of(left), rank_of(right)) {
        (Some(a), Some(b)) => test_order(op, a, b),
        _ => match test_order(op, 0, 0) {
            Some(_) => Some(op == BinaryOp::NotEqual),
            None => None,
        },
    }
}

pub open spec fn computed_bool(value: Option<bool>) -> Computed {
    match value {
        Some(found) => Computed::Value(ConstantValue::Bool(found)),
        None => Computed::Impossible,
    }
}

fn compute_bool(value: Option<bool>) -> (computed: Computed)
    ensures
        computed == computed_bool(value),
{
    match value {
        Some(found) => Computed::Value(ConstantValue::Bool(found)),
        None => Computed::Impossible,
    }
}

pub open spec fn computed_int(value: Option<i64>) -> Computed {
    match value {
        Some(found) => Computed::Value(ConstantValue::Int(found)),
        None => Computed::Impossible,
    }
}

fn compute_int(value: Option<i64>) -> (computed: Computed)
    ensures
        computed == computed_int(value),
{
    match value {
        Some(found) => Computed::Value(ConstantValue::Int(found)),
        None => Computed::Impossible,
    }
}

pub open spec fn bool_operation(op: BinaryOp, left: bool, right: bool) -> Computed {
    match op {
        BinaryOp::And => Computed::Value(ConstantValue::Bool(left && right)),
        BinaryOp::Or => Computed::Value(ConstantValue::Bool(left || right)),
        BinaryOp::Equal => Computed::Value(ConstantValue::Bool(left == right)),
        BinaryOp::NotEqual => Computed::Value(ConstantValue::Bool(left != right)),
        _ => Computed::Impossible,
    }
}

fn compute_bools(op: BinaryOp, left: bool, right: bool) -> (computed: Computed)
    ensures
        computed == bool_operation(op, left, right),
{
    match op {
        BinaryOp::And => Computed::Value(ConstantValue::Bool(left && right)),
        BinaryOp::Or => Computed::Value(ConstantValue::Bool(left || right)),
        BinaryOp::Equal => Computed::Value(ConstantValue::Bool(left == right)),
        BinaryOp::NotEqual => Computed::Value(ConstantValue::Bool(left != right)),
        _ => Computed::Impossible,
    }
}

/// An operation on two integers; it has no value where it overflows or
/// divides by zero. A quotient is rounded towards zero.
pub open spec fn int_operation(op: BinaryOp, left: i64, right: i64) -> Computed {
    match op {
        BinaryOp::Add => computed_int(left.checked_add(right)),
        BinaryOp::Subtract => computed_int(left.checked_sub(right)),
        BinaryOp::Multiply => computed_int(left.checked_mul(right)),
        BinaryOp::Divide => computed_int(left.checked_div(right)),
        _ => computed_bool(order_test(op, left as int, right as int)),
    }
}

fn compute_ints(op: BinaryOp, left: i64, right: i64) -> (computed: Computed)
    ensures
        computed == int_operation(op, left, right),
{
    match op {
        BinaryOp::Add => compute_int(left.checked_add(right)),
        BinaryOp::Subtract => compute_int(left.checked_sub(right)),
        BinaryOp::Multiply => compute_int(left.checked_mul(right)),
        BinaryOp::Divide => compute_int(left.checked_div(right)),
        _ => compute_bool(test_order(op, left, right)),
    }
}

pub open spec fn is_arithmetic(op: BinaryOp) -> bool {
    op == BinaryOp::Add || op == BinaryOp::Subtract || op == BinaryOp::Multiply || op
        == BinaryOp::Divide
}

pub open spec fn float_operation(
    facts: Chain<FloatFact>,
    op: BinaryOp,
    left: u64,
    right: u64,
) -> Computed {
    if is_arithmetic(op) {
        let operation = FloatOperation { op, left, right };
        match float_value(facts, operation) {
            Some(value) => Computed::Value(ConstantValue::Float(value)),
            None => Computed::Unknown(operation),
        }
    } else {
        computed_bool(float_test(op, left, right))
    }
}

fn compute_floats(facts: &Chain<FloatFact>, op: BinaryOp, left: u64, right: u64) -> (computed:
    Computed)
    ensures
        computed == float_operation(*facts, op, left, right),
{
    if op == BinaryOp::Add || op == BinaryOp::Subtract || op == BinaryOp::Multiply || op
        == BinaryOp::Divide {
        let operation = FloatOperation { op, left, right };
        match find_float_value(facts, operation) {
            Some(value) => Computed::Value(ConstantValue::Float(value)),
            None => Computed::Unknown(operation),
        }
    } else {
        compute_bool(test_floats(op, left, right))
    }
}

pub open spec fn text_operation(op: BinaryOp, left: Chain<char>, right: Chain<char>) -> Computed {
    match op {
        BinaryOp::Equal => Computed::Value(ConstantValue::Bool(left == right)),
        BinaryOp::NotEqual => Computed::Value(ConstantValue::Bool(left != right)),
        _ => Computed::Impossible,
    }
}

fn compute_texts(op: BinaryOp, left: &Chain<char>, right: &Chain<char>) -> (computed: Computed)
    ensures
        computed == text_operation(op, *left, *right),
{
    match op {
        BinaryOp::Equal => Computed::Value(ConstantValue::Bool(left.same(right))),
        BinaryOp::NotEqual => Computed::Value(ConstantValue::Bool(!left.same(right))),
        _ => Computed::Impossible,
    }
}

/// What a binary operation gives on two values.
pub open spec fn binary_operation(
    facts: Chain<FloatFact>,
    op: BinaryOp,
    left: ConstantValue,
    right: ConstantValue,
) -> Computed {
    match (left, right) {
        (ConstantValue::Bool(a), ConstantValue::Bool(b)) => bool_operation(op, a, b),
        (ConstantValue::Int(a), ConstantValue::Int(b)) => int_operation(op, a, b),
        (ConstantValue::Float(a), ConstantValue::Float(b)) => float_operation(facts, op, a, b),
        (ConstantValue::Text(a), ConstantValue::Text(b)) => text_operation(op, a, b),
        _ => Computed::Impossible,
    }
}

/// Computes a binary operation on two values.
pub fn constant_binary(
    facts: &Chain<FloatFact>,
    op: BinaryOp,
    left: &ConstantValue,
    right: &ConstantValue,
) -> (computed: Computed)
    ensures
        computed == binary_operation(*facts, op, *left, *right),
{
    match (left, right) {
        (ConstantValue::Bool(a), ConstantValue::Bool(b)) => compute_bools(op, *a, *b),
        (ConstantValue::Int(a), ConstantValue::Int(b)) => compute_ints(op, *a, *b),
        (ConstantValue::Float(a), ConstantValue::Float(b)) => compute_floats(facts, op, *a, *b),
        (ConstantValue::Text(a), ConstantValue::Text(b)) => compute_texts(op, a, b),
        _ => Computed::Impossible,
    }
}

/// What a unary operation gives on a value.
pub open spec fn unary_operation(op: UnaryOp, operand: ConstantValue) -> Option<ConstantValue> {
    match (op, operand) {
        (UnaryOp::Not, ConstantValue::Bool(value)) => Some(ConstantValue::Bool(!value)),
        (UnaryOp::Negate, ConstantValue::Int(value)) => if value == i64::MIN {
            None
        } else {
            Some(ConstantValue::Int((-value) as i64))
        },
        (UnaryOp::Negate, ConstantValue::Float(value)) => Some(
            ConstantValue::Float(float_negated(value)),
        ),
        _ => None,
    }
}

/// Computes a unary operation on a value.
pub fn constant_unary(op: UnaryOp, operand: &ConstantValue) -> (result: Option<ConstantValue>)
    ensures
        result == unary_operation(op, *operand),
{
    match (op, operand) {
        (UnaryOp::Not, ConstantValue::Bool(value)) => Some(ConstantValue::Bool(!*value)),
        (UnaryOp::Negate, ConstantValue::Int(value)) => if *value == i64::MIN {
            None
        } else {
            Some(ConstantValue::Int(-*value))
        },
        (UnaryOp::Negate, ConstantValue::Float(value)) => Some(
            ConstantValue::Float(negate_float(*value)),
        ),
        _ => None,
    }
}

/// The left value decides the operation without the right one.
pub open spec fn decided(op: BinaryOp, left: ConstantValue) -> Option<ConstantValue> {
    match (op, left) {
        (BinaryOp::And, ConstantValue::Bool(false)) => Some(ConstantValue::Bool(false)),
        (BinaryOp::Or, ConstantValue::Bool(true)) => Some(ConstantValue::Bool(true)),
        _ => None,
    }
}

fn decide(op: BinaryOp, left: &ConstantValue) -> (value: Option<ConstantValue>)
    ensures
        value == decided(op, *left),
{
    match (op, left) {
        (BinaryOp::And, ConstantValue::Bool(false)) => Some(ConstantValue::Bool(false)),
        (BinaryOp::Or, ConstantValue::Bool(true)) => Some(ConstantValue::Bool(true)),
        _ => None,
    }
}

/// The expression is the literal whose negation is the least integer.
pub open spec fn is_least_magnitude(e: Expr) -> bool {
    match e.kind {
        ExprKind::Literal(Literal::Int(text)) => text@ == "9223372036854775808"@,
        _ => false,
    }
}

fn check_least_magnitude(e: &Expr) -> (result: bool)
    ensures
        result == is_least_magnitude(*e),
{
    match &e.kind {
        ExprKind::Literal(Literal::Int(text)) => text_is(text, "9223372036854775808"),
        _ => false,
    }
}

impl Program {
    /// The body that gives a constant its value.
    pub open spec fn constant_body(self, definition: DefId) -> Option<BodyId> {
        match self.kind_of(definition) {
            Some(DefinitionKind::Constant { ty: _, value }) => Some(value),
            _ => None,
        }
    }

    fn find_constant_body(&self, definition: DefId) -> (body: Option<BodyId>)
        ensures
            body == self.constant_body(definition),
    {
        match self.kind(definition) {
            Some(DefinitionKind::Constant { ty: _, value }) => Some(*value),
            _ => None,
        }
    }

    /// The expression that a body consists of.
    pub open spec fn root_of(self, body: BodyId) -> Option<Expr> {
        match at(self.bodies@, body.0) {
            Some(found) => Some(found.root),
            None => None,
        }
    }

    fn find_root(&self, body: BodyId) -> (root: Option<&Expr>)
        ensures
            match root {
                Some(found) => self.root_of(body) == Some(*found),
                None => self.root_of(body) is None,
            },
    {
        match get(&self.bodies, body.0) {
            Some(found) => Some(&found.root),
            None => None,
        }
    }
}

impl LimitState {
    pub open spec fn start(definition: DefId) -> LimitState {
        LimitState {
            active: Chain::Empty.pushed(definition.0),
            max_seen_depth: Table::empty().inserted(definition.0, 1usize),
            work: 0,
            exceeded: None,
        }
    }

    /// Another expression is looked at, at the given depth.
    pub open spec fn counted(self, depth: usize) -> LimitState {
        if depth > CONSTANT_EVALUATION_DEPTH_LIMIT {
            LimitState { exceeded: Some(ConstantLimit::Depth), ..self }
        } else if self.work >= CONSTANT_EVALUATION_WORK_LIMIT {
            LimitState { exceeded: Some(ConstantLimit::Work), ..self }
        } else {
            LimitState { work: (self.work + 1) as usize, ..self }
        }
    }

    /// A constant need not be looked at, at the given depth.
    pub open spec fn skips(self, target: DefId, depth: usize) -> bool {
        has_id(self.active, target.0) || match self.max_seen_depth.lookup(target.0) {
            Some(seen) => seen >= depth,
            None => false,
        }
    }

    pub open spec fn entered(self, target: DefId, depth: usize) -> LimitState {
        LimitState {
            active: id_inserted(self.active, target.0),
            max_seen_depth: self.max_seen_depth.inserted(target.0, depth),
            ..self
        }
    }

    pub open spec fn left(self, target: DefId) -> LimitState {
        LimitState { active: id_removed(self.active, target.0), ..self }
    }

    fn new(definition: DefId) -> (state: Self)
        ensures
            state == LimitState::start(definition),
    {
        let mut max_seen_depth: Table<usize> = Table::new();
        max_seen_depth.insert(definition.0, 1);
        LimitState {
            active: Chain::new().with(definition.0),
            max_seen_depth,
            work: 0,
            exceeded: None,
        }
    }

    fn count(&mut self, depth: usize)
        ensures
            *final(self) == old(self).counted(depth),
    {
        if depth > CONSTANT_EVALUATION_DEPTH_LIMIT {
            self.exceeded = Some(ConstantLimit::Depth);
        } else if self.work >= CONSTANT_EVALUATION_WORK_LIMIT {
            self.exceeded = Some(ConstantLimit::Work);
        } else {
            self.work = self.work + 1;
        }
    }

    fn check_skips(&self, target: DefId, depth: usize) -> (result: bool)
        ensures
            result == self.skips(target, depth),
    {
        contains_id(&self.active, target.0) || match self.max_seen_depth.get(target.0) {
            Some(seen) => *seen >= depth,
            None => false,
        }
    }

    fn enter(&mut self, target: DefId, depth: usize)
        ensures
            *final(self) == old(self).entered(target, depth),
    {
        self.active = insert_id(&self.active, target.0);
        self.max_seen_depth.insert(target.0, depth);
    }

    fn leave(&mut self, target: DefId)
        ensures
            *final(self) == old(self).left(target),
    {
        self.active = remove_id(&self.active, target.0);
    }
}

impl Survey {
    /// The constant that a path in a checked body stands for.
    pub open spec fn constant_target(
        self,
        program: &Program,
        body: BodyId,
        e: Expr,
    ) -> Option<DefId> {
        match self.st.bodies.lookup(body.0) {
            Some(semantics) => match semantics.expression_resolutions.lookup(e.id.0) {
                Some(Resolution::Definition(target)) => if program.constant_body(target) is Some {
                    Some(target)
                } else {
                    None
                },
                _ => None,
            },
            None => None,
        }
    }

    /// How far the limits are used up by an expression of a constant: its
    /// operands are looked at first to last, and behind a path the constant
    /// that it stands for, unless that is being looked at or has been at
    /// least as deep.
    pub open spec fn measured(
        self,
        program: &Program,
        body: BodyId,
        e: Expr,
        depth: usize,
        limits: LimitState,
    ) -> LimitState
        decreases CONSTANT_EVALUATION_DEPTH_LIMIT + 1 - depth,
    {
        if limits.exceeded is Some {
            limits
        } else {
            let counted = limits.counted(depth);
            if counted.exceeded is Some || depth > CONSTANT_EVALUATION_DEPTH_LIMIT {
                counted
            } else {
                let next = (depth + 1) as usize;
                match e.kind {
                    ExprKind::Path(_) => match self.constant_target(program, body, e) {
                        Some(target) => if counted.skips(target, next) {
                            counted
                        } else {
                            let value = program.constant_body(target)->0;
                            match program.root_of(value) {
                                Some(root) => self.measured(
                                    program,
                                    value,
                                    root,
                                    next,
                                    counted.entered(target, next),
                                ).left(target),
                                None => counted,
                            }
                        },
                        None => counted,
                    },
                    ExprKind::Unary { op: _, operand } => self.measured(
                        program,
                        body,
                        *operand,
                        next,
                        counted,
                    ),
                    ExprKind::Binary { op: _, left, right } => self.measured(
                        program,
                        body,
                        *right,
                        next,
                        self.measured(program, body, *left, next, counted),
                    ),
                    _ => counted,
                }
            }
        }
    }

    /// The limit that a constant exceeds.
    pub open spec fn exceeded_limit(self, program: &Program, definition: DefId) -> Option<
        ConstantLimit,
    > {
        match program.constant_body(definition) {
            Some(value) => match program.root_of(value) {
                Some(root) => self.measured(
                    program,
                    value,
                    root,
                    1usize,
                    LimitState::start(definition),
                ).exceeded,
                None => None,
            },
            None => None,
        }
    }

    /// A constant that exceeds a limit is reported.
    #[verifier::opaque]
    pub open spec fn constant_evaluation_within_limits(
        self,
        program: &Program,
        definition: DefId,
    ) -> (Survey, bool) {
        match self.exceeded_limit(program, definition) {
            Some(ConstantLimit::Depth) => (
                self.text_error(
                    "ConstantEvaluationLimit",
                    "constant evaluation exceeds the maximum expression depth of 256",
                    program.span_of(definition),
                ),
                false,
            ),
            Some(ConstantLimit::Work) => (
                self.text_error(
                    "ConstantEvaluationLimit",
                    "constant evaluation exceeds the maximum work of 65536 expressions",
                    program.span_of(definition),
                ),
                false,
            ),
            None => (self, true),
        }
    }

    pub open spec fn invalid_constant_expression(self, e: Expr) -> Survey {
        self.text_error(
            "InvalidConstantExpression",
            "a constant initializer may contain only primitive literals, constant references, and unary or binary constant operations",
            e.span,
        )
    }

    pub open spec fn constant_evaluation_error(self, e: Expr, text: &'static str) -> Survey {
        self.text_error("ConstantEvaluationFailed", text, e.span)
    }

    /// The value of a literal.
    #[verifier::opaque]
    pub open spec fn evaluate_literal(self, e: Expr, literal: Literal) -> (
        Survey,
        Option<ConstantValue>,
    ) {
        match literal {
            Literal::Bool(value) => (self, Some(ConstantValue::Bool(value))),
            Literal::Int(text) => match literal_int(text@) {
                Some(value) => (self, Some(ConstantValue::Int(value))),
                None => (self.constant_evaluation_error(e, "invalid Int constant"), None),
            },
            Literal::Float(_, bits) => match bits {
                Some(value) => (self, Some(ConstantValue::Float(value))),
                None => (self.constant_evaluation_error(e, "invalid Float constant"), None),
            },
            Literal::Text(text) => match literal_text(text@) {
                Some(value) => (self, Some(ConstantValue::Text(value))),
                None => (self.constant_evaluation_error(e, "invalid Text constant"), None),
            },
            Literal::Unit => (self.invalid_constant_expression(e), None),
        }
    }

    /// The value of a unary operation on a value.
    #[verifier::opaque]
    pub open spec fn finish_unary(self, e: Expr, op: UnaryOp, operand: ConstantValue) -> (
        Survey,
        Option<ConstantValue>,
    ) {
        match unary_operation(op, operand) {
            Some(value) => (self, Some(value)),
            None => (
                self.constant_evaluation_error(e, "constant unary operation cannot be evaluated"),
                None,
            ),
        }
    }

    /// The value of a binary operation on two values.
    #[verifier::opaque]
    pub open spec fn evaluate_constant_binary(
        self,
        cx: &Evaluation,
        e: Expr,
        op: BinaryOp,
        left: ConstantValue,
        right: ConstantValue,
    ) -> (Survey, Option<ConstantValue>) {
        match binary_operation(*cx.floats, op, left, right) {
            Computed::Value(value) => (self, Some(value)),
            Computed::Impossible => (
                self.constant_evaluation_error(e, "constant binary operation cannot be evaluated"),
                None,
            ),
            Computed::Unknown(operation) => (self.request(operation), None),
        }
    }

    /// The value of a constant is entered, or that it has none.
    #[verifier::opaque]
    pub open spec fn finish_constant(
        self,
        definition: DefId,
        states: Table<ConstantEvaluationState>,
        value: Option<ConstantValue>,
    ) -> (Survey, Table<ConstantEvaluationState>, Option<ConstantValue>) {
        match value {
            Some(found) => (
                self.set_constant(definition, found),
                states.inserted(definition.0, ConstantEvaluationState::Complete),
                Some(found),
            ),
            None => (
                self,
                states.inserted(definition.0, ConstantEvaluationState::Failed),
                None,
            ),
        }
    }

    /// The answer for a constant whose evaluation has begun.
    #[verifier::opaque]
    pub open spec fn known_constant(
        self,
        program: &Program,
        definition: DefId,
        states: Table<ConstantEvaluationState>,
        state: ConstantEvaluationState,
    ) -> (Survey, Table<ConstantEvaluationState>, Option<ConstantValue>) {
        match state {
            ConstantEvaluationState::Complete => (
                self,
                states,
                self.st.constants.lookup(definition.0),
            ),
            ConstantEvaluationState::Failed => (self, states, None),
            ConstantEvaluationState::Evaluating => (
                self.text_error(
                    "ConstantCycle",
                    "constant definitions form an evaluation cycle",
                    program.span_of(definition),
                ),
                states.inserted(definition.0, ConstantEvaluationState::Failed),
                None,
            ),
        }
    }

    /// The value of a constant, which is computed once.
    pub open spec fn evaluate_constant(
        self,
        cx: &Evaluation,
        definition: DefId,
        states: Table<ConstantEvaluationState>,
        budget: u32,
    ) -> (Survey, Table<ConstantEvaluationState>, Option<ConstantValue>)
        decreases budget, 1nat, definition,
    {
        match states.lookup(definition.0) {
            Some(state) => self.known_constant(cx.program, definition, states, state),
            None => match cx.program.constant_body(definition) {
                Some(value) => match cx.program.root_of(value) {
                    Some(root) => {
                        let (s, states, value) = self.evaluate_constant_expr(
                            cx,
                            value,
                            root,
                            states.inserted(definition.0, ConstantEvaluationState::Evaluating),
                            budget,
                        );
                        s.finish_constant(definition, states, value)
                    },
                    None => (self, states, None),
                },
                None => (self, states, None),
            },
        }
    }

    /// The value of an expression of a constant.
    pub open spec fn evaluate_constant_expr(
        self,
        cx: &Evaluation,
        body: BodyId,
        e: Expr,
        states: Table<ConstantEvaluationState>,
        budget: u32,
    ) -> (Survey, Table<ConstantEvaluationState>, Option<ConstantValue>)
        decreases budget, 0nat, e,
    {
        match e.kind {
            ExprKind::Literal(literal) => {
                let (s, value) = self.evaluate_literal(e, literal);
                (s, states, value)
            },
            ExprKind::Path(_) => match self.constant_target(cx.program, body, e) {
                Some(target) => if budget > 0 {
                    self.evaluate_constant(cx, target, states, (budget - 1) as u32)
                } else {
                    (self, states, None)
                },
                None => (self.invalid_constant_expression(e), states, None),
            },
            ExprKind::Unary { op, operand } => if op == UnaryOp::Negate && is_least_magnitude(
                *operand,
            ) {
                (self, states, Some(ConstantValue::Int(i64::MIN)))
            } else {
                let (s, states, value) = self.evaluate_constant_expr(
                    cx,
                    body,
                    *operand,
                    states,
                    budget,
                );
                match value {
                    Some(found) => {
                        let (s, value) = s.finish_unary(e, op, found);
                        (s, states, value)
                    },
                    None => (s, states, None),
                }
            },
            ExprKind::Binary { op, left, right } => {
                let (s, states, first) = self.evaluate_constant_expr(
                    cx,
                    body,
                    *left,
                    states,
                    budget,
                );
                match first {
                    Some(a) => match decided(op, a) {
                        Some(value) => (s, states, Some(value)),
                        None => {
                            let (s, states, second) = s.evaluate_constant_expr(
                                cx,
                                body,
                                *right,
                                states,
                                budget,
                            );
                            match second {
                                Some(b) => {
                                    let (s, value) = s.evaluate_constant_binary(cx, e, op, a, b);
                                    (s, states, value)
                                },
                                None => (s, states, None),
                            }
                        },
                    },
                    None => (s, states, None),
                }
            },
            _ => (self.invalid_constant_expression(e), states, None),
        }
    }

    /// The constants below `count` are measured, and those that exceed a
    /// limit have failed.
    pub open spec fn constants_measured(self, program: &Program, count: nat) -> (
        Survey,
        Table<ConstantEvaluationState>,
    )
        decreases count,
    {
        if count == 0 {
            (self, Table::empty())
        } else {
            let (s, states) = self.constants_measured(program, (count - 1) as nat);
            let definition = DefId((count - 1) as u32);
            let (s, within) = s.constant_evaluation_within_limits(program, definition);
            (
                s,
                if within {
                    states
                } else {
                    states.inserted(definition.0, ConstantEvaluationState::Failed)
                },
            )
        }
    }

    /// The constants below `count` are evaluated.
    pub open spec fn constants_evaluated(
        self,
        cx: &Evaluation,
        states: Table<ConstantEvaluationState>,
        count: nat,
    ) -> (Survey, Table<ConstantEvaluationState>)
        decreases count,
    {
        if count == 0 {
            (self, states)
        } else {
            let (s, states) = self.constants_evaluated(cx, states, (count - 1) as nat);
            let definition = DefId((count - 1) as u32);
            let (s, states, _) = s.evaluate_constant(cx, definition, states, EVALUATION_LIMIT);
            (s, states)
        }
    }

    /// Every constant within the limits is evaluated.
    pub open spec fn evaluate_constants(self, cx: &Evaluation) -> Survey {
        let (s, states) = self.constants_measured(cx.program, cx.program.definitions@.len());
        s.constants_evaluated(cx, states, cx.program.definitions@.len()).0
    }
}

impl Analyzer {
    fn constant_target(&self, program: &Program, body: BodyId, e: &Expr) -> (target: Option<DefId>)
        ensures
            target == self@.constant_target(program, body, *e),
    {
        match self.st.bodies.get(body.0) {
            Some(semantics) => match semantics.expression_resolutions.get(e.id.0) {
                Some(Resolution::Definition(target)) => if program.find_constant_body(
                    *target,
                ).is_some() {
                    Some(*target)
                } else {
                    None
                },
                _ => None,
            },
            None => None,
        }
    }

    fn measure(
        &self,
        program: &Program,
        body: BodyId,
        e: &Expr,
        depth: usize,
        limits: LimitState,
    ) -> (result: LimitState)
        ensures
            result == self@.measured(program, body, *e, depth, limits),
        decreases CONSTANT_EVALUATION_DEPTH_LIMIT + 1 - depth,
    {
        if limits.exceeded.is_some() {
            return limits;
        }
        let mut counted = limits;
        counted.count(depth);
        if counted.exceeded.is_some() || depth > CONSTANT_EVALUATION_DEPTH_LIMIT {
            return counted;
        }
        let next: usize = depth + 1;
        match &e.kind {
            ExprKind::Path(_) => match self.constant_target(program, body, e) {
                Some(target) => if counted.check_skips(target, next) {
                    counted
                } else {
                    match program.find_constant_body(target) {
                        Some(value) => match program.find_root(value) {
                            Some(root) => {
                                counted.enter(target, next);
                                let mut after = self.measure(program, value, root, next, counted);
                                after.leave(target);
                                after
                            },
                            None => counted,
                        },
                        None => counted,
                    }
                },
                None => counted,
            },
            ExprKind::Unary { op: _, operand } => self.measure(
                program,
                body,
                operand,
                next,
                counted,
            ),
            ExprKind::Binary { op: _, left, right } => {
                let between = self.measure(program, body, left, next, counted);
                self.measure(program, body, right, next, between)
            },
            _ => counted,
        }
    }

    fn exceeded_limit(&self, program: &Program, definition: DefId) -> (limit: Option<
        ConstantLimit,
    >)
        ensures
            limit == self@.exceeded_limit(program, definition),
    {
        match program.find_constant_body(definition) {
            Some(value) => match program.find_root(value) {
                Some(root) => self.measure(
                    program,
                    value,
                    root,
                    1,
                    LimitState::new(definition),
                ).exceeded,
                None => None,
            },
            None => None,
        }
    }

    /// Whether a constant keeps within the limits; one that does not is
    /// reported.
    pub fn constant_evaluation_within_limits(&mut self, program: &Program, definition: DefId) -> (
    within: bool)
        ensures
            adds_to(old(self)@.names.diagnostics, final(self)@.names.diagnostics),
            final(self)@.names.types == old(self)@.names.types,
            (final(self)@, within) == old(self)@.constant_evaluation_within_limits(
                program,
                definition,
            ),
    {
        proof {
            reveal(Survey::constant_evaluation_within_limits);
        }
        match self.exceeded_limit(program, definition) {
            Some(ConstantLimit::Depth) => {
                self.text_error(
                    "ConstantEvaluationLimit",
                    "constant evaluation exceeds the maximum expression depth of 256",
                    program.definition_span(definition),
                );
                false
            },
            Some(ConstantLimit::Work) => {
                self.text_error(
                    "ConstantEvaluationLimit",
                    "constant evaluation exceeds the maximum work of 65536 expressions",
                    program.definition_span(definition),
                );
                false
            },
            None => true,
        }
    }

    fn invalid_constant_expression(&mut self, e: &Expr)
        ensures
            adds_to(old(self)@.names.diagnostics, final(self)@.names.diagnostics),
            final(self)@.names.types == old(self)@.names.types,
            final(self)@ == old(self)@.invalid_constant_expression(*e),
    {
        self.text_error(
            "InvalidConstantExpression",
            "a constant initializer may contain only primitive literals, constant references, and unary or binary constant operations",
            e.span,
        );
    }

    fn constant_evaluation_error(&mut self, e: &Expr, text: &'static str)
        ensures
            adds_to(old(self)@.names.diagnostics, final(self)@.names.diagnostics),
            final(self)@.names.types == old(self)@.names.types,
            final(self)@ == old(self)@.constant_evaluation_error(*e, text),
    {
        self.text_error("ConstantEvaluationFailed", text, e.span);
    }

    fn evaluate_literal(&mut self, e: &Expr, literal: &Literal) -> (value: Option<ConstantValue>)
        ensures
            adds_to(old(self)@.names.diagnostics, final(self)@.names.diagnostics),
            final(self)@.names.types == old(self)@.names.types,
            (final(self)@, value) == old(self)@.evaluate_literal(*e, *literal),
    {
        proof {
            reveal(Survey::evaluate_literal);
        }
        match literal {
            Literal::Bool(value) => Some(ConstantValue::Bool(*value)),
            Literal::Int(text) => match parse_int(text.as_str()) {
                Some(value) => Some(ConstantValue::Int(value)),
                None => {
                    self.constant_evaluation_error(e, "invalid Int constant");
                    None
                },
            },
            Literal::Float(_, bits) => match bits {
                Some(value) => Some(ConstantValue::Float(*value)),
                None => {
                    self.constant_evaluation_error(e, "invalid Float constant");
                    None
                },
            },
            Literal::Text(text) => match decode_constant_text(text.as_str()) {
                Ok(value) => Some(ConstantValue::Text(value)),
                Err(_) => {
                    self.constant_evaluation_error(e, "invalid Text constant");
                    None
                },
            },
            Literal::Unit => {
                self.invalid_constant_expression(e);
                None
            },
        }
    }

    fn finish_unary(&mut self, e: &Expr, op: UnaryOp, operand: &ConstantValue) -> (value: Option<
        ConstantValue,
    >)
        ensures
            adds_to(old(self)@.names.diagnostics, final(self)@.names.diagnostics),
            final(self)@.names.types == old(self)@.names.types,
            (final(self)@, value) == old(self)@.finish_unary(*e, op, *operand),
    {
        proof {
            reveal(Survey::finish_unary);
        }
        match constant_unary(op, operand) {
            Some(value) => Some(value),
            None => {
                self.constant_evaluation_error(e, "constant unary operation cannot be evaluated");
                None
            },
        }
    }

    fn evaluate_constant_binary(
        &mut self,
        cx: &Evaluation,
        e: &Expr,
        op: BinaryOp,
        left: &ConstantValue,
        right: &ConstantValue,
    ) -> (value: Option<ConstantValue>)
        ensures
            adds_to(old(self)@.names.diagnostics, final(self)@.names.diagnostics),
            final(self)@.names.types == old(self)@.names.types,
            (final(self)@, value) == old(self)@.evaluate_constant_binary(
                cx,
                *e,
                op,
                *left,
                *right,
            ),
    {
        proof {
            reveal(Survey::evaluate_constant_binary);
        }
        match constant_binary(cx.floats, op, left, right) {
            Computed::Value(value) => Some(value),
            Computed::Impossible => {
                self.constant_evaluation_error(e, "constant binary operation cannot be evaluated");
                None
            },
            Computed::Unknown(operation) => {
                self.request(operation);
                None
            },
        }
    }

    fn finish_constant(
        &mut self,
        definition: DefId,
        states: &mut Table<ConstantEvaluationState>,
        value: Option<ConstantValue>,
    ) -> (result: Option<ConstantValue>)
        ensures
            adds_to(old(self)@.names.diagnostics, final(self)@.names.diagnostics),
            final(self)@.names.types == old(self)@.names.types,
            (final(self)@, *final(states), result) == old(self)@.finish_constant(
                definition,
                *old(states),
                value,
            ),
    {
        proof {
            reveal(Survey::finish_constant);
        }
        match value {
            Some(found) => {
                self.set_constant(definition, found.clone());
                states.insert(definition.0, ConstantEvaluationState::Complete);
                Some(found)
            },
            None => {
                states.insert(definition.0, ConstantEvaluationState::Failed);
                None
            },
        }
    }

    fn known_constant(
        &mut self,
        program: &Program,
        definition: DefId,
        states: &mut Table<ConstantEvaluationState>,
        state: ConstantEvaluationState,
    ) -> (result: Option<ConstantValue>)
        ensures
            adds_to(old(self)@.names.diagnostics, final(self)@.names.diagnostics),
            final(self)@.names.types == old(self)@.names.types,
            (final(self)@, *final(states), result) == old(self)@.known_constant(
                program,
                definition,
                *old(states),
                state,
            ),
    {
        proof {
            reveal(Survey::known_constant);
        }
        match state {
            ConstantEvaluationState::Complete => match self.st.constants.get(definition.0) {
                Some(value) => Some(value.clone()),
                None => None,
            },
            ConstantEvaluationState::Failed => None,
            ConstantEvaluationState::Evaluating => {
                self.text_error(
                    "ConstantCycle",
                    "constant definitions form an evaluation cycle",
                    program.definition_span(definition),
                );
                states.insert(definition.0, ConstantEvaluationState::Failed);
                None
            },
        }
    }

    fn evaluate_constant(
        &mut self,
        cx: &Evaluation,
        definition: DefId,
        states: &mut Table<ConstantEvaluationState>,
        budget: u32,
    ) -> (result: Option<ConstantValue>)
        ensures
            adds_to(old(self)@.names.diagnostics, final(self)@.names.diagnostics),
            final(self)@.names.types == old(self)@.names.types,
            (final(self)@, *final(states), result) == old(self)@.evaluate_constant(
                cx,
                definition,
                *old(states),
                budget,
            ),
        decreases budget, 1nat, definition,
    {
        let known = match states.get(definition.0) {
            Some(state) => Some(*state),
            None => None,
        };
        match known {
            Some(state) => self.known_constant(cx.program, definition, states, state),
            None => match cx.program.find_constant_body(definition) {
                Some(value) => match cx.program.find_root(value) {
                    Some(root) => {
                        states.insert(definition.0, ConstantEvaluationState::Evaluating);
                        let found = self.evaluate_constant_expr(cx, value, root, states, budget);
                        self.finish_constant(definition, states, found)
                    },
                    None => None,
                },
                None => None,
            },
        }
    }

    fn evaluate_constant_expr(
        &mut self,
        cx: &Evaluation,
        body: BodyId,
        e: &Expr,
        states: &mut Table<ConstantEvaluationState>,
        budget: u32,
    ) -> (result: Option<ConstantValue>)
        ensures
            adds_to(old(self)@.names.diagnostics, final(self)@.names.diagnostics),
            final(self)@.names.types == old(self)@.names.types,
            (final(self)@, *final(states), result) == old(self)@.evaluate_constant_expr(
                cx,
                body,
                *e,
                *old(states),
                budget,
            ),
        decreases budget, 0nat, e,
    {
        match &e.kind {
            ExprKind::Literal(literal) => self.evaluate_literal(e, literal),
            ExprKind::Path(_) => match self.constant_target(cx.program, body, e) {
                Some(target) => if budget > 0 {
                    self.evaluate_constant(cx, target, states, budget - 1)
                } else {
                    None
                },
                None => {
                    self.invalid_constant_expression(e);
                    None
                },
            },
            ExprKind::Unary { op, operand } => if *op == UnaryOp::Negate && check_least_magnitude(
                operand,
            ) {
                Some(ConstantValue::Int(i64::MIN))
            } else {
                match self.evaluate_constant_expr(cx, body, operand, states, budget) {
                    Some(found) => self.finish_unary(e, *op, &found),
                    None => None,
                }
            },
            ExprKind::Binary { op, left, right } => match self.evaluate_constant_expr(
                cx,
                body,
                left,
                states,
                budget,
            ) {
                Some(a) => match decide(*op, &a) {
                    Some(value) => Some(value),
                    None => match self.evaluate_constant_expr(cx, body, right, states, budget) {
                        Some(b) => self.evaluate_constant_binary(cx, e, *op, &a, &b),
                        None => None,
                    },
                },
                None => None,
            },
            _ => {
                self.invalid_constant_expression(e);
                None
            },
        }
    }

    /// Evaluates every constant within the limits.
    pub fn evaluate_constants(&mut self, cx: &Evaluation)
        requires
            cx.program.fits(),
        ensures
            adds_to(old(self)@.names.diagnostics, final(self)@.names.diagnostics),
            final(self)@.names.types == old(self)@.names.types,
            final(self)@ == old(self)@.evaluate_constants(cx),
    {
        let ghost begun = self@;
        let count: u32 = cx.program.definitions.len() as u32;
        let mut states: Table<ConstantEvaluationState> = Table::new();
        let mut i: u32 = 0;
        while i < count
            invariant
                adds_to(old(self)@.names.diagnostics, self@.names.diagnostics),
                i <= count,
                self@.names.types == begun.names.types,
                (self@, states) == begun.constants_measured(cx.program, i as nat),
            decreases count - i,
        {
            if !self.constant_evaluation_within_limits(cx.program, DefId(i)) {
                states.insert(i, ConstantEvaluationState::Failed);
            }
            i = i + 1;
        }
        let ghost measured = self@;
        let ghost first_states = states;
        let mut j: u32 = 0;
        while j < count
            invariant
                adds_to(old(self)@.names.diagnostics, self@.names.diagnostics),
                j <= count,
                self@.names.types == begun.names.types,
                (self@, states) == measured.constants_evaluated(cx, first_states, j as nat),
            decreases count - j,
        {
            self.evaluate_constant(cx, DefId(j), &mut states, EVALUATION_LIMIT);
            j = j + 1;
        }
    }
}

} // verus!
