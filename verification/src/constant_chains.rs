//! Constants that refer to each other in a line.

use vstd::prelude::*;

#[allow(unused_imports)]
use crate::chain::Chain;
#[allow(unused_imports)]
use crate::constants::{
    ConstantEvaluationState, ConstantLimit, Evaluation, LimitState,
    CONSTANT_EVALUATION_DEPTH_LIMIT, EVALUATION_LIMIT,
};
#[allow(unused_imports)]
use crate::diagnostics::{plain, Diagnostic, Message};
#[allow(unused_imports)]
use crate::hir::{Expr, ExprKind, Literal, Program};
#[allow(unused_imports)]
use crate::ids::DefId;
#[allow(unused_imports)]
use crate::outcomes::{law_limits_come_first, law_limits_ignore_evaluation};
#[allow(unused_imports)]
use crate::resolve::Names;
#[allow(unused_imports)]
use crate::semantics::ConstantValue;
#[allow(unused_imports)]
use crate::survey::Survey;
#[allow(unused_imports)]
use crate::table::{has_id, law_insert_id, law_table_reads_last_insert, Table};

verus! {

/// The expression that gives a constant its value.
pub open spec fn value_of(program: &Program, definition: DefId) -> Option<Expr> {
    match program.constant_body(definition) {
        Some(body) => program.root_of(body),
        None => None,
    }
}

/// The value of one constant is another constant.
pub open spec fn refers(s: Survey, program: &Program, from: DefId, to: DefId) -> bool {
    match (program.constant_body(from), value_of(program, from)) {
        (Some(body), Some(root)) => root.kind is Path && s.constant_target(program, body, root)
            == Some(to),
        _ => false,
    }
}

/// The value of a constant is a literal that denotes the value.
pub open spec fn denotes(
    s: Survey,
    program: &Program,
    definition: DefId,
    value: ConstantValue,
) -> bool {
    match value_of(program, definition) {
        Some(root) => match root.kind {
            ExprKind::Literal(literal) => s.evaluate_literal(root, literal) == (s, Some(value)),
            _ => false,
        },
        None => false,
    }
}

/// Different constants of which each refers to the next, and the last to none.
pub open spec fn is_chain(
    s: Survey,
    program: &Program,
    chain: Seq<DefId>,
    value: ConstantValue,
) -> bool {
    &&& chain.len() > 0
    &&& chain.no_duplicates()
    &&& forall|i: int|
        0 <= i < chain.len() - 1 ==> refers(s, program, #[trigger] chain[i], chain[i + 1])
    &&& denotes(s, program, chain.last(), value)
}

/// None of the constants behind a position of the chain has been met.
spec fn ahead(limits: LimitState, chain: Seq<DefId>, position: int) -> bool {
    forall|j: int|
        position < j < chain.len() ==> !has_id(limits.active, (#[trigger] chain[j]).0)
            && limits.max_seen_depth.lookup(chain[j].0) is None
}

proof fn lemma_chain_measured(
    s: Survey,
    program: &Program,
    chain: Seq<DefId>,
    value: ConstantValue,
    position: int,
    depth: usize,
    limits: LimitState,
)
    requires
        is_chain(s, program, chain, value),
        0 <= position < chain.len(),
        1 <= depth <= CONSTANT_EVALUATION_DEPTH_LIMIT + 1,
        limits.exceeded is None,
        limits.work == depth - 1,
        ahead(limits, chain, position),
    ensures
        s.measured(
            program,
            program.constant_body(chain[position])->0,
            value_of(program, chain[position])->0,
            depth,
            limits,
        ).exceeded == (if depth + (chain.len() - 1 - position) > CONSTANT_EVALUATION_DEPTH_LIMIT {
            Some(ConstantLimit::Depth)
        } else {
            None
        }),
    decreases CONSTANT_EVALUATION_DEPTH_LIMIT + 1 - depth,
{
    let here = chain[position];
    if position < chain.len() - 1 {
        assert(refers(s, program, chain[position], chain[position + 1]));
        if depth <= CONSTANT_EVALUATION_DEPTH_LIMIT {
            let target = chain[position + 1];
            let next = (depth + 1) as usize;
            let counted = limits.counted(depth);
            assert(!counted.skips(target, next));
            if position + 1 < chain.len() - 1 {
                assert(refers(s, program, chain[position + 1], chain[position + 2]));
            } else {
                assert(target == chain.last());
            }
            assert(value_of(program, target) is Some);
            let entered = counted.entered(target, next);
            assert forall|j: int| position + 1 < j < chain.len() implies !has_id(
                entered.active,
                (#[trigger] chain[j]).0,
            ) && entered.max_seen_depth.lookup(chain[j].0) is None by {
                assert(chain[j] != chain[position + 1]);
                law_insert_id(counted.active, target.0, chain[j].0);
            }
            lemma_chain_measured(s, program, chain, value, position + 1, next, entered);
        }
    } else {
        assert(here == chain.last());
    }
}

/// A constant of a chain exceeds a limit exactly where more constants than the
/// limit on the depth allows stand from it to the end of the chain. This does
/// not depend on the order in which the constants are declared.
pub proof fn law_chain_limit(
    s: Survey,
    program: &Program,
    chain: Seq<DefId>,
    value: ConstantValue,
    position: int,
)
    requires
        is_chain(s, program, chain, value),
        0 <= position < chain.len(),
    ensures
        s.exceeded_limit(program, chain[position]) == (if chain.len() - position
            > CONSTANT_EVALUATION_DEPTH_LIMIT {
            Some(ConstantLimit::Depth)
        } else {
            None
        }),
{
    let here = chain[position];
    let limits = LimitState::start(here);
    assert forall|j: int| position < j < chain.len() implies !has_id(
        limits.active,
        (#[trigger] chain[j]).0,
    ) && limits.max_seen_depth.lookup(chain[j].0) is None by {
        assert(chain[j] != chain[position]);
        let none: Chain<u32> = Chain::Empty;
        assert(limits.active == none.pushed(here.0));
        assert(!has_id(none, chain[j].0));
        assert(limits.max_seen_depth == Table::<usize>::empty().inserted(here.0, 1usize));
        assert(Table::<usize>::empty().lookup(chain[j].0) is None);
    }
    if position < chain.len() - 1 {
        assert(refers(s, program, chain[position], chain[position + 1]));
    } else {
        assert(here == chain.last());
    }
    lemma_chain_measured(s, program, chain, value, position, 1usize, limits);
}

/// The constant stands so far from the end of the chain that it exceeds the
/// limit.
pub open spec fn too_far(chain: Seq<DefId>, definition: DefId) -> bool {
    exists|i: int|
        0 <= i < chain.len() && #[trigger] chain[i] == definition && chain.len() - i
            > CONSTANT_EVALUATION_DEPTH_LIMIT
}

/// One report for each of the constants below `count` that stand too far from
/// the end of the chain, behind what was reported.
pub open spec fn chain_reports(
    program: &Program,
    chain: Seq<DefId>,
    reported: Chain<Diagnostic>,
    count: nat,
) -> Chain<Diagnostic>
    decreases count,
{
    if count == 0 {
        reported
    } else {
        let before = chain_reports(program, chain, reported, (count - 1) as nat);
        let definition = DefId((count - 1) as u32);
        if too_far(chain, definition) {
            before.pushed(
                plain(
                    "ConstantEvaluationLimit",
                    Message::Text(
                        "constant evaluation exceeds the maximum expression depth of 256",
                    ),
                    program.span_of(definition),
                ),
            )
        } else {
            before
        }
    }
}

/// All constants of the program stand in the chain.
pub open spec fn only_constants(program: &Program, chain: Seq<DefId>) -> bool {
    forall|definition: DefId| #[trigger]
        program.constant_body(definition) is Some ==> chain.contains(definition)
}

proof fn lemma_chain_measured_all(
    s: Survey,
    program: &Program,
    chain: Seq<DefId>,
    value: ConstantValue,
    count: nat,
)
    requires
        is_chain(s, program, chain, value),
        only_constants(program, chain),
        count <= u32::MAX,
    ensures
        s.constants_measured(program, count).0.names.diagnostics == chain_reports(
            program,
            chain,
            s.names.diagnostics,
            count,
        ),
    decreases count,
{
    if count > 0 {
        let less = (count - 1) as nat;
        let definition = DefId(less as u32);
        lemma_chain_measured_all(s, program, chain, value, less);
        law_limits_come_first(s, program, less, definition);
        let between = s.constants_measured(program, less).0;
        law_limits_ignore_evaluation(between, s, program, definition);
        reveal(Survey::constant_evaluation_within_limits);
        reveal(Survey::error);
        reveal(Names::report);
        if program.constant_body(definition) is Some {
            let i = chain.index_of(definition);
            assert(chain[i] == definition);
            law_chain_limit(s, program, chain, value, i);
            if too_far(chain, definition) {
                let k = choose|k: int|
                    0 <= k < chain.len() && #[trigger] chain[k] == definition && chain.len() - k
                        > CONSTANT_EVALUATION_DEPTH_LIMIT;
                assert(k == i);
            }
        } else if too_far(chain, definition) {
            let k = choose|k: int|
                0 <= k < chain.len() && #[trigger] chain[k] == definition && chain.len() - k
                    > CONSTANT_EVALUATION_DEPTH_LIMIT;
            assert(refers(s, program, chain[k], chain[k + 1]));
        }
    }
}

/// How far the evaluation of a chain has come: what stands too far has failed,
/// the rest has its value or has not been looked at.
spec fn evaluated_so_far(
    s: Survey,
    states: Table<ConstantEvaluationState>,
    chain: Seq<DefId>,
    value: ConstantValue,
    from: int,
) -> bool {
    forall|j: int|
        from <= j < chain.len() ==> match #[trigger] states.lookup(chain[j].0) {
            Some(ConstantEvaluationState::Failed) => chain.len() - j
                > CONSTANT_EVALUATION_DEPTH_LIMIT,
            Some(ConstantEvaluationState::Complete) => chain.len() - j
                <= CONSTANT_EVALUATION_DEPTH_LIMIT && s.st.constants.lookup(chain[j].0) == Some(
                value,
            ),
            Some(ConstantEvaluationState::Evaluating) => false,
            None => chain.len() - j <= CONSTANT_EVALUATION_DEPTH_LIMIT,
        }
}

proof fn lemma_chain_evaluated(
    s: Survey,
    now: Survey,
    cx: &Evaluation,
    states: Table<ConstantEvaluationState>,
    chain: Seq<DefId>,
    value: ConstantValue,
    position: int,
    budget: u32,
)
    requires
        is_chain(s, cx.program, chain, value),
        now.st.bodies == s.st.bodies,
        0 <= position < chain.len(),
        chain.len() - position <= CONSTANT_EVALUATION_DEPTH_LIMIT,
        chain.len() - position <= budget + 1,
        evaluated_so_far(now, states, chain, value, position),
    ensures
        ({
            let (after, known, result) = now.evaluate_constant(
                cx,
                chain[position],
                states,
                budget,
            );
            &&& result == Some(value)
            &&& after.names == now.names
            &&& after.st.bodies == now.st.bodies
            &&& evaluated_so_far(after, known, chain, value, position)
            &&& known.lookup(chain[position].0) == Some(ConstantEvaluationState::Complete)
            &&& forall|id: u32|
                (forall|j: int| position <= j < chain.len() ==> (#[trigger] chain[j]).0 != id)
                    ==> #[trigger] known.lookup(id) == states.lookup(id)
                    && after.st.constants.lookup(id) == now.st.constants.lookup(id)
            &&& forall|id: u32|
                states.lookup(id) == Some(ConstantEvaluationState::Complete)
                    ==> #[trigger] known.lookup(id) == Some(ConstantEvaluationState::Complete)
        }),
    decreases chain.len() - position,
{
    let here = chain[position];
    reveal(Survey::known_constant);
    reveal(Survey::finish_constant);
    reveal(Survey::set_constant);
    assert(evaluated_so_far(now, states, chain, value, position));
    match states.lookup(here.0) {
        Some(_) => {},
        None => {
            let begun = states.inserted(here.0, ConstantEvaluationState::Evaluating);
            law_table_reads_last_insert(states, here.0, ConstantEvaluationState::Evaluating);
            let body = cx.program.constant_body(here)->0;
            let root = value_of(cx.program, here)->0;
            if position < chain.len() - 1 {
                let target = chain[position + 1];
                assert(refers(s, cx.program, chain[position], chain[position + 1]));
                assert(now.constant_target(cx.program, body, root) == Some(target));
                assert forall|j: int| position + 1 <= j < chain.len() implies match #[trigger] begun.lookup(
                    chain[j].0,
                ) {
                    Some(ConstantEvaluationState::Failed) => chain.len() - j
                        > CONSTANT_EVALUATION_DEPTH_LIMIT,
                    Some(ConstantEvaluationState::Complete) => chain.len() - j
                        <= CONSTANT_EVALUATION_DEPTH_LIMIT && now.st.constants.lookup(chain[j].0)
                        == Some(value),
                    Some(ConstantEvaluationState::Evaluating) => false,
                    None => chain.len() - j <= CONSTANT_EVALUATION_DEPTH_LIMIT,
                } by {
                    assert(chain[j] != chain[position]);
                    assert(states.lookup(chain[j].0) == begun.lookup(chain[j].0));
                }
                let less = (budget - 1) as u32;
                lemma_chain_evaluated(
                    s,
                    now,
                    cx,
                    begun,
                    chain,
                    value,
                    position + 1,
                    less,
                );
                let (between, middle, _) = now.evaluate_constant(cx, target, begun, less);
                assert(now.evaluate_constant_expr(cx, body, root, begun, budget) == (
                    between,
                    middle,
                    Some(value),
                ));
                lemma_chain_finished(
                    now,
                    between,
                    states,
                    middle,
                    chain,
                    value,
                    position,
                );
            } else {
                assert(here == chain.last());
                reveal(Survey::evaluate_literal);
                assert(now.evaluate_constant_expr(cx, body, root, begun, budget) == (
                    now,
                    begun,
                    Some(value),
                ));
                lemma_chain_finished(now, now, states, begun, chain, value, position);
            }
        },
    }
}

/// The value of a constant of the chain is entered, when those behind it are
/// done.
proof fn lemma_chain_finished(
    now: Survey,
    between: Survey,
    states: Table<ConstantEvaluationState>,
    middle: Table<ConstantEvaluationState>,
    chain: Seq<DefId>,
    value: ConstantValue,
    position: int,
)
    requires
        chain.no_duplicates(),
        0 <= position < chain.len(),
        chain.len() - position <= CONSTANT_EVALUATION_DEPTH_LIMIT,
        between.names == now.names,
        between.st.bodies == now.st.bodies,
        states.lookup(chain[position].0) is None,
        evaluated_so_far(between, middle, chain, value, position + 1),
        forall|id: u32|
            (forall|j: int| position + 1 <= j < chain.len() ==> (#[trigger] chain[j]).0 != id)
                && id != chain[position].0 ==> #[trigger] middle.lookup(id) == states.lookup(id)
                && between.st.constants.lookup(id) == now.st.constants.lookup(id),
        forall|id: u32|
            states.lookup(id) == Some(ConstantEvaluationState::Complete)
                ==> #[trigger] middle.lookup(id) == Some(ConstantEvaluationState::Complete),
    ensures
        ({
            let (after, known, result) = between.finish_constant(
                chain[position],
                middle,
                Some(value),
            );
            &&& result == Some(value)
            &&& after.names == now.names
            &&& after.st.bodies == now.st.bodies
            &&& evaluated_so_far(after, known, chain, value, position)
            &&& known.lookup(chain[position].0) == Some(ConstantEvaluationState::Complete)
            &&& forall|id: u32|
                (forall|j: int| position <= j < chain.len() ==> (#[trigger] chain[j]).0 != id)
                    ==> #[trigger] known.lookup(id) == states.lookup(id)
                    && after.st.constants.lookup(id) == now.st.constants.lookup(id)
            &&& forall|id: u32|
                states.lookup(id) == Some(ConstantEvaluationState::Complete)
                    ==> #[trigger] known.lookup(id) == Some(ConstantEvaluationState::Complete)
        }),
{
    reveal(Survey::finish_constant);
    reveal(Survey::set_constant);
    let here = chain[position];
    let (after, known, _) = between.finish_constant(here, middle, Some(value));
    assert(known == middle.inserted(here.0, ConstantEvaluationState::Complete));
    assert(after.st.constants == between.st.constants.inserted(here.0, value));
    assert forall|j: int| position <= j < chain.len() implies match #[trigger] known.lookup(
        chain[j].0,
    ) {
        Some(ConstantEvaluationState::Failed) => chain.len() - j > CONSTANT_EVALUATION_DEPTH_LIMIT,
        Some(ConstantEvaluationState::Complete) => chain.len() - j
            <= CONSTANT_EVALUATION_DEPTH_LIMIT && after.st.constants.lookup(chain[j].0) == Some(
            value,
        ),
        Some(ConstantEvaluationState::Evaluating) => false,
        None => chain.len() - j <= CONSTANT_EVALUATION_DEPTH_LIMIT,
    } by {
        if j != position {
            assert(chain[j] != chain[position]);
            assert(known.lookup(chain[j].0) == middle.lookup(chain[j].0));
        }
    }
    assert forall|id: u32|
        (forall|j: int| position <= j < chain.len() ==> (#[trigger] chain[j]).0
            != id) implies #[trigger] known.lookup(id) == states.lookup(id)
        && after.st.constants.lookup(id) == now.st.constants.lookup(id) by {
        assert(chain[position].0 != id);
        assert(forall|j: int| position + 1 <= j < chain.len() ==> (#[trigger] chain[j]).0 != id);
        assert(middle.lookup(id) == states.lookup(id));
    }
    assert forall|id: u32|
        states.lookup(id) == Some(
            ConstantEvaluationState::Complete,
        ) implies #[trigger] known.lookup(id) == Some(ConstantEvaluationState::Complete) by {
        assert(middle.lookup(id) == Some(ConstantEvaluationState::Complete));
    }
}

/// The constants of a chain below `count` are evaluated: those near its end
/// have the value, and the others and what is no constant are as they were.
#[verifier::opaque]
spec fn settled(
    now: Survey,
    after: Survey,
    known: Table<ConstantEvaluationState>,
    chain: Seq<DefId>,
    value: ConstantValue,
    count: nat,
) -> bool {
    &&& after.names == now.names
    &&& after.st.bodies == now.st.bodies
    &&& evaluated_so_far(after, known, chain, value, 0)
    &&& forall|id: u32|
        #![trigger known.lookup(id)]
        !chain.contains(DefId(id)) ==> known.lookup(id) is None
    &&& forall|j: int|
        0 <= j < chain.len() && (#[trigger] chain[j]).0 < count && chain.len() - j
            <= CONSTANT_EVALUATION_DEPTH_LIMIT ==> known.lookup(chain[j].0) == Some(
            ConstantEvaluationState::Complete,
        )
    &&& forall|j: int|
        0 <= j < chain.len() && chain.len() - j > CONSTANT_EVALUATION_DEPTH_LIMIT
            ==> after.st.constants.lookup((#[trigger] chain[j]).0) == now.st.constants.lookup(
            chain[j].0,
        )
}

/// The evaluation of one constant, which changes nothing of those before it in
/// the chain.
proof fn lemma_settled_near(
    now: Survey,
    between: Survey,
    middle: Table<ConstantEvaluationState>,
    after: Survey,
    known: Table<ConstantEvaluationState>,
    chain: Seq<DefId>,
    value: ConstantValue,
    position: int,
    count: nat,
)
    requires
        chain.no_duplicates(),
        0 <= position < chain.len(),
        chain.len() - position <= CONSTANT_EVALUATION_DEPTH_LIMIT,
        count == chain[position].0 + 1,
        settled(now, between, middle, chain, value, (count - 1) as nat),
        after.names == between.names,
        after.st.bodies == between.st.bodies,
        evaluated_so_far(after, known, chain, value, position),
        known.lookup(chain[position].0) == Some(ConstantEvaluationState::Complete),
        forall|id: u32|
            (forall|j: int| position <= j < chain.len() ==> (#[trigger] chain[j]).0 != id)
                ==> #[trigger] known.lookup(id) == middle.lookup(id)
                && after.st.constants.lookup(id) == between.st.constants.lookup(id),
        forall|id: u32|
            middle.lookup(id) == Some(ConstantEvaluationState::Complete)
                ==> #[trigger] known.lookup(id) == Some(ConstantEvaluationState::Complete),
    ensures
        settled(now, after, known, chain, value, count),
{
    reveal(settled);
    assert forall|j: int| 0 <= j < position implies known.lookup((#[trigger] chain[j]).0)
        == middle.lookup(chain[j].0) && after.st.constants.lookup(chain[j].0)
        == between.st.constants.lookup(chain[j].0) by {
        assert forall|k: int| position <= k < chain.len() implies (#[trigger] chain[k]).0
            != chain[j].0 by {
            assert(chain[k] != chain[j]);
        }
    }
    assert forall|j: int| 0 <= j < chain.len() implies match #[trigger] known.lookup(chain[j].0) {
        Some(ConstantEvaluationState::Failed) => chain.len() - j > CONSTANT_EVALUATION_DEPTH_LIMIT,
        Some(ConstantEvaluationState::Complete) => chain.len() - j
            <= CONSTANT_EVALUATION_DEPTH_LIMIT && after.st.constants.lookup(chain[j].0) == Some(
            value,
        ),
        Some(ConstantEvaluationState::Evaluating) => false,
        None => chain.len() - j <= CONSTANT_EVALUATION_DEPTH_LIMIT,
    } by {
        if j < position {
            assert(known.lookup(chain[j].0) == middle.lookup(chain[j].0));
        }
    }
    assert forall|id: u32|
        #![trigger known.lookup(id)]
        !chain.contains(DefId(id)) implies known.lookup(id) is None by {
        assert forall|k: int| position <= k < chain.len() implies (#[trigger] chain[k]).0 != id by {
            assert(chain.contains(chain[k]));
            assert(chain[k] == DefId(chain[k].0));
        }
        assert(known.lookup(id) == middle.lookup(id));
    }
    assert forall|j: int|
        0 <= j < chain.len() && (#[trigger] chain[j]).0 < count && chain.len() - j
            <= CONSTANT_EVALUATION_DEPTH_LIMIT implies known.lookup(chain[j].0) == Some(
        ConstantEvaluationState::Complete,
    ) by {
        if chain[j].0 == chain[position].0 {
            assert(chain[j] == chain[position]);
        } else {
            assert(middle.lookup(chain[j].0) == Some(ConstantEvaluationState::Complete));
        }
    }
}

proof fn lemma_chain_evaluated_all(
    s: Survey,
    now: Survey,
    cx: &Evaluation,
    states: Table<ConstantEvaluationState>,
    chain: Seq<DefId>,
    value: ConstantValue,
    count: nat,
)
    requires
        is_chain(s, cx.program, chain, value),
        only_constants(cx.program, chain),
        now.st == s.st,
        count <= u32::MAX,
        settled(now, now, states, chain, value, 0),
    ensures
        settled(
            now,
            now.constants_evaluated(cx, states, count).0,
            now.constants_evaluated(cx, states, count).1,
            chain,
            value,
            count,
        ),
    decreases count,
{
    if count > 0 {
        let less = (count - 1) as nat;
        let definition = DefId(less as u32);
        lemma_chain_evaluated_all(s, now, cx, states, chain, value, less);
        let (between, middle) = now.constants_evaluated(cx, states, less);
        let (after, known, _) = between.evaluate_constant(
            cx,
            definition,
            middle,
            EVALUATION_LIMIT,
        );
        let i = chain.index_of(definition);
        if chain.contains(definition) && chain.len() - i <= CONSTANT_EVALUATION_DEPTH_LIMIT {
            assert(chain[i] == definition);
            assert(between.st.bodies == s.st.bodies && evaluated_so_far(
                between,
                middle,
                chain,
                value,
                i,
            )) by {
                reveal(settled);
            }
            lemma_chain_evaluated(s, between, cx, middle, chain, value, i, EVALUATION_LIMIT);
            lemma_settled_near(now, between, middle, after, known, chain, value, i, count);
        } else {
            lemma_settled_far(now, between, cx, middle, chain, value, less);
        }
    }
}

/// A constant that stands too far from the end has failed already, and what is
/// no constant is not evaluated.
proof fn lemma_settled_far(
    now: Survey,
    between: Survey,
    cx: &Evaluation,
    middle: Table<ConstantEvaluationState>,
    chain: Seq<DefId>,
    value: ConstantValue,
    number: nat,
)
    requires
        only_constants(cx.program, chain),
        number < u32::MAX,
        chain.no_duplicates(),
        chain.contains(DefId(number as u32)) ==> chain.len() - chain.index_of(
            DefId(number as u32),
        ) > CONSTANT_EVALUATION_DEPTH_LIMIT,
        settled(now, between, middle, chain, value, number),
    ensures
        ({
            let (after, known, _) = between.evaluate_constant(
                cx,
                DefId(number as u32),
                middle,
                EVALUATION_LIMIT,
            );
            settled(now, after, known, chain, value, number + 1)
        }),
{
    let definition = DefId(number as u32);
    let (after, known, _) = between.evaluate_constant(cx, definition, middle, EVALUATION_LIMIT);
    reveal(Survey::known_constant);
    assert(after == between && known == middle) by {
        reveal(settled);
        if chain.contains(definition) {
            let i = chain.index_of(definition);
            assert(chain[i] == definition);
            assert(middle.lookup(chain[i].0) == Some(ConstantEvaluationState::Failed));
        } else {
            assert(middle.lookup(definition.0) is None);
            assert(cx.program.constant_body(definition) is None);
        }
    }
    assert(settled(now, between, middle, chain, value, number + 1)) by {
        reveal(settled);
        assert forall|j: int|
            0 <= j < chain.len() && (#[trigger] chain[j]).0 < number + 1 && chain.len() - j
                <= CONSTANT_EVALUATION_DEPTH_LIMIT implies middle.lookup(chain[j].0) == Some(
            ConstantEvaluationState::Complete,
        ) by {
            if chain[j].0 == number {
                assert(chain.contains(chain[j]));
                assert(chain[j] == definition);
                let i = chain.index_of(definition);
                assert(chain[i] == definition);
            }
        }
    }
}

proof fn lemma_chain_in_range(
    s: Survey,
    program: &Program,
    chain: Seq<DefId>,
    value: ConstantValue,
    position: int,
)
    requires
        is_chain(s, program, chain, value),
        0 <= position < chain.len(),
    ensures
        chain[position].0 < program.definitions@.len(),
{
    if position < chain.len() - 1 {
        assert(refers(s, program, chain[position], chain[position + 1]));
    } else {
        assert(chain[position] == chain.last());
    }
    assert(program.constant_body(chain[position]) is Some);
}

proof fn lemma_settled_start(
    s: Survey,
    program: &Program,
    chain: Seq<DefId>,
    value: ConstantValue,
    count: nat,
)
    requires
        is_chain(s, program, chain, value),
        only_constants(program, chain),
        count == program.definitions@.len(),
        count <= u32::MAX,
    ensures
        settled(
            s.constants_measured(program, count).0,
            s.constants_measured(program, count).0,
            s.constants_measured(program, count).1,
            chain,
            value,
            0,
        ),
{
    let (now, states) = s.constants_measured(program, count);
    assert forall|j: int| 0 <= j < chain.len() implies match #[trigger] states.lookup(chain[j].0) {
        Some(ConstantEvaluationState::Failed) => chain.len() - j > CONSTANT_EVALUATION_DEPTH_LIMIT,
        Some(ConstantEvaluationState::Complete) => chain.len() - j
            <= CONSTANT_EVALUATION_DEPTH_LIMIT && now.st.constants.lookup(chain[j].0) == Some(
            value,
        ),
        Some(ConstantEvaluationState::Evaluating) => false,
        None => chain.len() - j <= CONSTANT_EVALUATION_DEPTH_LIMIT,
    } by {
        law_limits_come_first(s, program, count, chain[j]);
        law_chain_limit(s, program, chain, value, j);
        lemma_chain_in_range(s, program, chain, value, j);
    }
    assert(evaluated_so_far(now, states, chain, value, 0));
    assert forall|id: u32|
        #![trigger states.lookup(id)]
        !chain.contains(DefId(id)) implies states.lookup(id) is None by {
        law_limits_come_first(s, program, count, DefId(id));
        assert(program.constant_body(DefId(id)) is None);
    }
    assert(settled(now, now, states, chain, value, 0)) by {
        reveal(settled);
    }
}

proof fn lemma_settled_value(
    now: Survey,
    after: Survey,
    known: Table<ConstantEvaluationState>,
    chain: Seq<DefId>,
    value: ConstantValue,
    count: nat,
    position: int,
)
    requires
        settled(now, after, known, chain, value, count),
        0 <= position < chain.len(),
        chain[position].0 < count,
    ensures
        after.names == now.names,
        after.st.constants.lookup(chain[position].0) == (if chain.len() - position
            > CONSTANT_EVALUATION_DEPTH_LIMIT {
            now.st.constants.lookup(chain[position].0)
        } else {
            Some(value)
        }),
{
    reveal(settled);
    if chain.len() - position <= CONSTANT_EVALUATION_DEPTH_LIMIT {
        assert(known.lookup(chain[position].0) == Some(ConstantEvaluationState::Complete));
    }
}

/// In a program whose constants form a chain, the evaluation reports one
/// exceeded limit for each constant that stands too far from the end, and
/// nothing else: no cycle. Those constants get no value, and the others have
/// that of the last. The order of the declarations plays no part but in the
/// order of the reports.
pub proof fn law_chain_evaluation(
    s: Survey,
    cx: &Evaluation,
    chain: Seq<DefId>,
    value: ConstantValue,
    position: int,
)
    requires
        is_chain(s, cx.program, chain, value),
        only_constants(cx.program, chain),
        cx.program.definitions@.len() <= u32::MAX,
        0 <= position < chain.len(),
    ensures
        s.evaluate_constants(cx).names.diagnostics == chain_reports(
            cx.program,
            chain,
            s.names.diagnostics,
            cx.program.definitions@.len(),
        ),
        s.evaluate_constants(cx).st.constants.lookup(chain[position].0) == (if chain.len()
            - position > CONSTANT_EVALUATION_DEPTH_LIMIT {
            s.st.constants.lookup(chain[position].0)
        } else {
            Some(value)
        }),
{
    let program = cx.program;
    let count = program.definitions@.len();
    lemma_chain_measured_all(s, program, chain, value, count);
    let (now, states) = s.constants_measured(program, count);
    law_limits_come_first(s, program, count, chain[position]);
    lemma_settled_start(s, program, chain, value, count);
    lemma_chain_evaluated_all(s, now, cx, states, chain, value, count);
    let (after, known) = now.constants_evaluated(cx, states, count);
    lemma_chain_in_range(s, program, chain, value, position);
    lemma_settled_value(now, after, known, chain, value, count, position);
}

} // verus!
