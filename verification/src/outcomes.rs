//! What holds of a whole analysis: its limits, its constants and its bodies.

use vstd::prelude::*;

#[allow(unused_imports)]
use crate::analysis::{surveyed, Analysis};
#[allow(unused_imports)]
use crate::bodies::{body_rank, BodySources, CONSTANT_RANK};
#[allow(unused_imports)]
use crate::chain::Chain;
#[allow(unused_imports)]
use crate::constants::{
    decided, is_least_magnitude, ConstantEvaluationState, Evaluation, LimitState,
    CONSTANT_EVALUATION_DEPTH_LIMIT, EVALUATION_LIMIT,
};
#[allow(unused_imports)]
use crate::hir::{at, BodyKind, Expr, ExprKind, Program, UnaryOp};
#[allow(unused_imports)]
use crate::ids::{BodyId, DefId, Span};
#[allow(unused_imports)]
use crate::rendering::{in_order, law_diagnostics_sorted};
#[allow(unused_imports)]
use crate::resolve::{Names, Sources};
#[allow(unused_imports)]
use crate::semantics::{BodySemantics, FloatFact};
#[allow(unused_imports)]
use crate::state::World;
#[allow(unused_imports)]
use crate::survey::Survey;
#[allow(unused_imports)]
use crate::table::{has_id, law_table_reads_last_insert, Table};
#[allow(unused_imports)]
use crate::ty::TyData;

verus! {

proof fn lemma_measured_alike(
    one: Survey,
    other: Survey,
    program: &Program,
    body: BodyId,
    e: Expr,
    depth: usize,
    limits: LimitState,
)
    requires
        one.st.bodies == other.st.bodies,
    ensures
        one.measured(program, body, e, depth, limits) == other.measured(
            program,
            body,
            e,
            depth,
            limits,
        ),
    decreases CONSTANT_EVALUATION_DEPTH_LIMIT + 1 - depth,
{
    let counted = limits.counted(depth);
    if limits.exceeded is None && counted.exceeded is None && depth
        <= CONSTANT_EVALUATION_DEPTH_LIMIT {
        let next = (depth + 1) as usize;
        assert(one.constant_target(program, body, e) == other.constant_target(program, body, e));
        match e.kind {
            ExprKind::Path(_) => match one.constant_target(program, body, e) {
                Some(target) => {
                    let value = program.constant_body(target)->0;
                    match program.root_of(value) {
                        Some(root) => lemma_measured_alike(
                            one,
                            other,
                            program,
                            value,
                            root,
                            next,
                            counted.entered(target, next),
                        ),
                        None => {},
                    }
                },
                None => {},
            },
            ExprKind::Unary { operand, .. } => {
                let inner = *operand;
                lemma_measured_alike(one, other, program, body, inner, next, counted);
            },
            ExprKind::Binary { left, right, .. } => {
                let first = *left;
                let second = *right;
                lemma_measured_alike(one, other, program, body, first, next, counted);
                let between = one.measured(program, body, first, next, counted);
                lemma_measured_alike(one, other, program, body, second, next, between);
            },
            _ => {},
        }
    }
}

/// Whether a constant exceeds a limit is decided by the checked bodies alone,
/// and not by which constants have been evaluated.
pub proof fn law_limits_ignore_evaluation(
    one: Survey,
    other: Survey,
    program: &Program,
    definition: DefId,
)
    requires
        one.st.bodies == other.st.bodies,
    ensures
        one.exceeded_limit(program, definition) == other.exceeded_limit(program, definition),
{
    match program.constant_body(definition) {
        Some(value) => match program.root_of(value) {
            Some(root) => lemma_measured_alike(
                one,
                other,
                program,
                value,
                root,
                1usize,
                LimitState::start(definition),
            ),
            None => {},
        },
        None => {},
    }
}

/// Before any constant is evaluated, exactly the constants that exceed a limit
/// have failed, whatever order they are declared in.
pub proof fn law_limits_come_first(s: Survey, program: &Program, count: nat, definition: DefId)
    requires
        count <= u32::MAX,
    ensures
        s.constants_measured(program, count).0.st == s.st,
        s.constants_measured(program, count).1.lookup(definition.0) == (if definition.0 < count
            && s.exceeded_limit(program, definition) is Some {
            Some(ConstantEvaluationState::Failed)
        } else {
            None
        }),
    decreases count,
{
    if count > 0 {
        let before = (count - 1) as nat;
        let current = DefId(before as u32);
        law_limits_come_first(s, program, before, definition);
        let (between, states) = s.constants_measured(program, before);
        reveal(Survey::constant_evaluation_within_limits);
        lemma_error_keeps(between);
        law_limits_ignore_evaluation(between, s, program, current);
        law_table_reads_last_insert(states, current.0, ConstantEvaluationState::Failed);
    }
}

/// Reporting an error changes nothing but the diagnostics.
proof fn lemma_error_keeps(s: Survey)
    ensures
        forall|code: &'static str, text: &'static str, span: Span|
            (#[trigger] s.text_error(code, text, span)).st == s.st && s.text_error(
                code,
                text,
                span,
            ).names.types == s.names.types && s.text_error(code, text, span).names.type_refs
                == s.names.type_refs,
{
    reveal(Survey::report);
    reveal(Survey::error);
    reveal(Names::report);
}

/// The survey after a part of the evaluation: only constants, requests and
/// diagnostics may have changed.
pub open spec fn only_constants_changed(before: Survey, after: Survey) -> bool {
    &&& after.st.bodies == before.st.bodies
    &&& after.st.signatures == before.st.signatures
    &&& after.st.conformances == before.st.conformances
    &&& after.st.impl_index == before.st.impl_index
    &&& after.names.types == before.names.types
    &&& after.names.type_refs == before.names.type_refs
}

proof fn lemma_evaluate_constant(
    s: Survey,
    cx: &Evaluation,
    definition: DefId,
    states: Table<ConstantEvaluationState>,
    budget: u32,
)
    ensures
        only_constants_changed(s, s.evaluate_constant(cx, definition, states, budget).0),
    decreases budget, 1nat, definition,
{
    reveal(Survey::known_constant);
    reveal(Survey::finish_constant);
    reveal(Survey::set_constant);
    lemma_error_keeps(s);
    if states.lookup(definition.0) is None {
        match cx.program.constant_body(definition) {
            Some(value) => match cx.program.root_of(value) {
                Some(root) => lemma_evaluate_expr(
                    s,
                    cx,
                    value,
                    root,
                    states.inserted(definition.0, ConstantEvaluationState::Evaluating),
                    budget,
                ),
                None => {},
            },
            None => {},
        }
    }
}

proof fn lemma_evaluate_expr(
    s: Survey,
    cx: &Evaluation,
    body: BodyId,
    e: Expr,
    states: Table<ConstantEvaluationState>,
    budget: u32,
)
    ensures
        only_constants_changed(s, s.evaluate_constant_expr(cx, body, e, states, budget).0),
    decreases budget, 0nat, e,
{
    lemma_error_keeps(s);
    match e.kind {
        ExprKind::Literal(_) => {
            reveal(Survey::evaluate_literal);
        },
        ExprKind::Path(_) => match s.constant_target(cx.program, body, e) {
            Some(target) => {
                if budget > 0 {
                    lemma_evaluate_constant(s, cx, target, states, (budget - 1) as u32);
                }
            },
            None => {},
        },
        ExprKind::Unary { op, operand } => {
            let inner = *operand;
            if !(op == UnaryOp::Negate && is_least_magnitude(inner)) {
                lemma_evaluate_expr(s, cx, body, inner, states, budget);
                let after = s.evaluate_constant_expr(cx, body, inner, states, budget).0;
                lemma_error_keeps(after);
                reveal(Survey::finish_unary);
            }
        },
        ExprKind::Binary { op, left, right } => {
            let a = *left;
            let b = *right;
            lemma_evaluate_expr(s, cx, body, a, states, budget);
            let (between, middle, first) = s.evaluate_constant_expr(cx, body, a, states, budget);
            match first {
                Some(value) => {
                    if decided(op, value) is None {
                        lemma_evaluate_expr(between, cx, body, b, middle, budget);
                        let after = between.evaluate_constant_expr(cx, body, b, middle, budget).0;
                        lemma_error_keeps(after);
                        reveal(Survey::evaluate_constant_binary);
                        reveal(Survey::request);
                    }
                },
                None => {},
            }
        },
        _ => {},
    }
}

proof fn lemma_constants_evaluated(
    s: Survey,
    cx: &Evaluation,
    states: Table<ConstantEvaluationState>,
    count: nat,
)
    ensures
        only_constants_changed(s, s.constants_evaluated(cx, states, count).0),
    decreases count,
{
    if count > 0 {
        let before = (count - 1) as nat;
        lemma_constants_evaluated(s, cx, states, before);
        let (between, middle) = s.constants_evaluated(cx, states, before);
        lemma_evaluate_constant(between, cx, DefId(before as u32), middle, EVALUATION_LIMIT);
    }
}

proof fn lemma_constants_measured(s: Survey, program: &Program, count: nat)
    ensures
        only_constants_changed(s, s.constants_measured(program, count).0),
    decreases count,
{
    if count > 0 {
        lemma_constants_measured(s, program, (count - 1) as nat);
        lemma_error_keeps(s.constants_measured(program, (count - 1) as nat).0);
        reveal(Survey::constant_evaluation_within_limits);
    }
}

/// The evaluation of the constants leaves the types, the signatures, the
/// conformances and the checked bodies as they are.
pub proof fn law_evaluation_changes_only_constants(s: Survey, cx: &Evaluation)
    ensures
        only_constants_changed(s, s.evaluate_constants(cx)),
{
    let count = cx.program.definitions@.len();
    lemma_constants_measured(s, cx.program, count);
    let (between, states) = s.constants_measured(cx.program, count);
    lemma_constants_evaluated(between, cx, states, count);
}

/// What was found of the bodies below `count` that `wanted` names.
spec fn found_below(s: Survey, program: &Program, rank: u32, count: nat) -> bool {
    forall|b: u32|
        #![trigger s.st.bodies.lookup(b)]
        b < count && b < program.bodies@.len() && body_rank(program.bodies@[b as int].kind) == rank
            ==> s.st.bodies.lookup(b) is Some
}

/// Nothing that was found of a body is forgotten.
spec fn finds_as_much(before: Survey, after: Survey) -> bool {
    forall|b: u32|
        #![trigger after.st.bodies.lookup(b)]
        before.st.bodies.lookup(b) is Some ==> after.st.bodies.lookup(b) is Some
}

proof fn lemma_set_body(s: Survey, body: BodyId, semantics: BodySemantics)
    ensures
        finds_as_much(s, s.set_body(body, semantics)),
        s.set_body(body, semantics).st.bodies.lookup(body.0) is Some,
{
    reveal(Survey::set_body);
    law_table_reads_last_insert(s.st.bodies, body.0, semantics);
}

proof fn lemma_check_body(s: Survey, cx: &BodySources, body: BodyId)
    ensures
        finds_as_much(s, s.check_body(cx, body)),
        body.0 < cx.sources.program.bodies@.len() ==> s.check_body(cx, body).st.bodies.lookup(
            body.0,
        ) is Some,
{
    match at(cx.sources.program.bodies@, body.0) {
        Some(source) => {
            reveal(Survey::body_environment);
            reveal(Survey::body_frame);
            let (between, environment) = s.body_environment(cx.sources, source);
            assert(between.st == s.st);
            let w = World::start(between.names, environment.contract).check(
                &between.body_context(cx, body, &source, environment),
            );
            reveal(Survey::request_all);
            lemma_set_body(between.with_names(w.names()), body, w.st.semantics);
        },
        None => {},
    }
}

proof fn lemma_constant_bodies(s: Survey, cx: &BodySources, count: nat)
    requires
        count <= cx.sources.program.bodies@.len() <= u32::MAX,
    ensures
        found_below(
            s.constant_bodies_checked(cx, count),
            cx.sources.program,
            CONSTANT_RANK,
            count,
        ),
    decreases count,
{
    if count > 0 {
        let before = (count - 1) as nat;
        lemma_constant_bodies(s, cx, before);
        lemma_check_body(s.constant_bodies_checked(cx, before), cx, BodyId(before as u32));
    }
}

proof fn lemma_ranked_bodies(s: Survey, cx: &BodySources, rank: u32, count: nat)
    requires
        count <= cx.sources.program.bodies@.len() <= u32::MAX,
    ensures
        finds_as_much(s, s.ranked_bodies_checked(cx, rank, count)),
        found_below(s.ranked_bodies_checked(cx, rank, count), cx.sources.program, rank, count),
    decreases count,
{
    if count > 0 {
        let before = (count - 1) as nat;
        lemma_ranked_bodies(s, cx, rank, before);
        let between = s.ranked_bodies_checked(cx, rank, before);
        let body = BodyId(before as u32);
        lemma_check_body(between, cx, body);
        match cx.previous.lookup(body.0) {
            Some(semantics) => lemma_set_body(between, body, semantics),
            None => {},
        }
    }
}

proof fn lemma_ranks(s: Survey, cx: &BodySources, ranks: nat)
    requires
        cx.sources.program.bodies@.len() <= u32::MAX,
        ranks <= CONSTANT_RANK,
    ensures
        finds_as_much(s, s.ranks_checked(cx, ranks)),
        forall|rank: u32|
            rank < ranks ==> #[trigger] found_below(
                s.ranks_checked(cx, ranks),
                cx.sources.program,
                rank,
                cx.sources.program.bodies@.len(),
            ),
    decreases ranks,
{
    if ranks > 0 {
        let before = (ranks - 1) as nat;
        let count = cx.sources.program.bodies@.len();
        lemma_ranks(s, cx, before);
        let between = s.ranks_checked(cx, before);
        lemma_ranked_bodies(between, cx, before as u32, count);
        let after = s.ranks_checked(cx, ranks);
        assert(after == between.ranked_bodies_checked(cx, before as u32, count));
        assert forall|rank: u32| rank < ranks implies #[trigger] found_below(
            after,
            cx.sources.program,
            rank,
            count,
        ) by {
            if rank < before {
                assert(found_below(between, cx.sources.program, rank, count));
                assert forall|b: u32|
                    #![trigger after.st.bodies.lookup(b)]
                    b < count && body_rank(cx.sources.program.bodies@[b as int].kind)
                        == rank implies after.st.bodies.lookup(b) is Some by {
                    assert(between.st.bodies.lookup(b) is Some);
                }
            }
        }
    }
}

/// Something was found of every body of an analysed program, whether the
/// program has errors or not.
pub proof fn law_every_body_is_checked(s: Survey, cx: &BodySources, body: BodyId)
    requires
        cx.sources.program.bodies@.len() <= u32::MAX,
        body.0 < cx.sources.program.bodies@.len(),
    ensures
        s.check_bodies(cx).st.bodies.lookup(body.0) is Some,
{
    let program = cx.sources.program;
    let count = program.bodies@.len();
    let evaluation = Evaluation { program, floats: cx.floats };
    let first = s.constant_bodies_checked(cx, count);
    lemma_constant_bodies(s, cx, count);
    law_evaluation_changes_only_constants(first, &evaluation);
    let second = first.evaluate_constants(&evaluation);
    lemma_ranks(second, cx, CONSTANT_RANK as nat);
    let rank = body_rank(program.bodies@[body.0 as int].kind);
    let last = s.check_bodies(cx);
    assert(last == second.ranks_checked(cx, CONSTANT_RANK as nat));
    if rank == CONSTANT_RANK {
        assert(first.st.bodies.lookup(body.0) is Some);
        assert(second.st.bodies.lookup(body.0) is Some);
    } else {
        assert(found_below(last, program, rank, count));
    }
}

/// Two checks with the same sources, that reuse nothing.
spec fn alike(one: &BodySources, other: &BodySources) -> bool {
    &&& one.sources == other.sources
    &&& one.canonical_concepts == other.canonical_concepts
    &&& one.floats == other.floats
    &&& one.reusable is Empty
    &&& other.reusable is Empty
}

proof fn lemma_bodies_alike(
    s: Survey,
    one: &BodySources,
    other: &BodySources,
    rank: u32,
    count: nat,
)
    requires
        alike(one, other),
    ensures
        s.constant_bodies_checked(one, count) == s.constant_bodies_checked(other, count),
        s.ranked_bodies_checked(one, rank, count) == s.ranked_bodies_checked(other, rank, count),
    decreases count,
{
    if count > 0 {
        lemma_bodies_alike(s, one, other, rank, (count - 1) as nat);
    }
}

proof fn lemma_ranks_alike(s: Survey, one: &BodySources, other: &BodySources, ranks: nat)
    requires
        alike(one, other),
    ensures
        s.ranks_checked(one, ranks) == s.ranks_checked(other, ranks),
    decreases ranks,
{
    if ranks > 0 {
        let before = (ranks - 1) as nat;
        lemma_ranks_alike(s, one, other, before);
        lemma_bodies_alike(
            s.ranks_checked(one, before),
            one,
            other,
            before as u32,
            one.sources.program.bodies@.len(),
        );
    }
}

/// An analysis that may reuse no body finds what it would find without an
/// earlier analysis.
pub proof fn law_nothing_reused(
    program: &Program,
    types: Seq<TyData>,
    floats: Chain<FloatFact>,
    previous: Table<BodySemantics>,
)
    ensures
        surveyed(program, types, floats, previous, Chain::Empty) == surveyed(
            program,
            types,
            floats,
            Table::empty(),
            Chain::Empty,
        ),
{
    let sources = Sources { program, items: program.canonical_std_items() };
    let nothing = Table::<BodySemantics>::empty();
    let reusable = Chain::<u32>::Empty;
    let one = BodySources {
        sources: &sources,
        canonical_concepts: program.canonical_concepts(),
        floats: &floats,
        previous: &previous,
        reusable: &reusable,
    };
    let other = BodySources { previous: &nothing, ..one };
    let start = Survey::start(program, types).declarations_analyzed(&sources);
    let count = program.bodies@.len();
    lemma_bodies_alike(start, &one, &other, 0, count);
    let evaluation = Evaluation { program, floats: &floats };
    let between = start.constant_bodies_checked(&one, count).evaluate_constants(&evaluation);
    lemma_ranks_alike(between, &one, &other, CONSTANT_RANK as nat);
}

proof fn lemma_check_other_body(s: Survey, cx: &BodySources, body: BodyId, other: u32)
    requires
        other != body.0,
    ensures
        s.check_body(cx, body).st.bodies.lookup(other) == s.st.bodies.lookup(other),
{
    match at(cx.sources.program.bodies@, body.0) {
        Some(source) => {
            reveal(Survey::body_environment);
            reveal(Survey::body_frame);
            reveal(Survey::request_all);
            reveal(Survey::set_body);
            let (between, environment) = s.body_environment(cx.sources, source);
            assert(between.st == s.st);
        },
        None => {},
    }
}

proof fn lemma_ranked_reused(
    s: Survey,
    cx: &BodySources,
    rank: u32,
    count: nat,
    body: BodyId,
    semantics: BodySemantics,
)
    requires
        count <= cx.sources.program.bodies@.len() <= u32::MAX,
        has_id(*cx.reusable, body.0),
        cx.previous.lookup(body.0) == Some(semantics),
    ensures
        s.ranked_bodies_checked(cx, rank, count).st.bodies.lookup(body.0) == (if body.0 < count
            && body_rank(cx.sources.program.bodies@[body.0 as int].kind) == rank {
            Some(semantics)
        } else {
            s.st.bodies.lookup(body.0)
        }),
    decreases count,
{
    if count > 0 {
        let before = (count - 1) as nat;
        let current = BodyId(before as u32);
        lemma_ranked_reused(s, cx, rank, before, body, semantics);
        let between = s.ranked_bodies_checked(cx, rank, before);
        reveal(Survey::set_body);
        if current.0 != body.0 {
            lemma_check_other_body(between, cx, current, body.0);
        }
    }
}

proof fn lemma_ranks_reused(
    s: Survey,
    cx: &BodySources,
    ranks: nat,
    body: BodyId,
    semantics: BodySemantics,
)
    requires
        body.0 < cx.sources.program.bodies@.len() <= u32::MAX,
        ranks <= CONSTANT_RANK,
        has_id(*cx.reusable, body.0),
        cx.previous.lookup(body.0) == Some(semantics),
    ensures
        body_rank(cx.sources.program.bodies@[body.0 as int].kind) < ranks ==> s.ranks_checked(
            cx,
            ranks,
        ).st.bodies.lookup(body.0) == Some(semantics),
    decreases ranks,
{
    if ranks > 0 {
        let before = (ranks - 1) as nat;
        lemma_ranks_reused(s, cx, before, body, semantics);
        lemma_ranked_reused(
            s.ranks_checked(cx, before),
            cx,
            before as u32,
            cx.sources.program.bodies@.len(),
            body,
            semantics,
        );
    }
}

/// Of a body that may be reused and that an earlier analysis found something
/// of, what it found stands, unless the body is the value of a constant: those
/// are always checked.
pub proof fn law_reused_bodies_stay(
    program: &Program,
    types: Seq<TyData>,
    floats: Chain<FloatFact>,
    previous: Table<BodySemantics>,
    reusable: Chain<u32>,
    body: BodyId,
    semantics: BodySemantics,
)
    requires
        body.0 < program.bodies@.len() <= u32::MAX,
        program.bodies@[body.0 as int].kind != BodyKind::Constant,
        has_id(reusable, body.0),
        previous.lookup(body.0) == Some(semantics),
    ensures
        surveyed(program, types, floats, previous, reusable).st.bodies.lookup(body.0) == Some(
            semantics,
        ),
{
    let sources = Sources { program, items: program.canonical_std_items() };
    let cx = BodySources {
        sources: &sources,
        canonical_concepts: program.canonical_concepts(),
        floats: &floats,
        previous: &previous,
        reusable: &reusable,
    };
    let start = Survey::start(program, types).declarations_analyzed(&sources);
    let evaluation = Evaluation { program, floats: &floats };
    let between = start.constant_bodies_checked(&cx, program.bodies@.len()).evaluate_constants(
        &evaluation,
    );
    lemma_ranks_reused(between, &cx, CONSTANT_RANK as nat, body, semantics);
}

/// The diagnostics of an analysis come in order, and they are those that the
/// analysis found.
pub proof fn law_analysis_is_in_order(program: &Program, analysis: Analysis, survey: Survey)
    requires
        analysis.is_of(program, survey),
    ensures
        in_order(program, analysis.typed.types@, analysis.diagnostics),
        analysis.diagnostics.seq().to_multiset() == survey.names.diagnostics.seq().to_multiset(),
{
    law_diagnostics_sorted(program, survey.names.types, survey.names.diagnostics);
}

} // verus!
