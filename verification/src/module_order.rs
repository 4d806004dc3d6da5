//! What the order of modules promises.

use vstd::prelude::*;

#[allow(unused_imports)]
use crate::chain::Chain;
#[allow(unused_imports)]
use crate::diagnostics::Diagnostic;
#[allow(unused_imports)]
use crate::graph::{connected, edge, law_connected_reflexive, path};
#[allow(unused_imports)]
use crate::hir::{at, Import, Program};
#[allow(unused_imports)]
use crate::ids::ModuleId;
#[allow(unused_imports)]
use crate::module_graph::{
    canonical_cycle, has_cycle_list, import_fault, import_faults, leads_to, module_faults, on_stack,
    outgoing_of, stack_from, state_set, visit_state, CycleWalk, ImportEdge, ModuleGraph, OrderWalk,
    VisitState, IMPORT_LIMIT,
};
#[allow(unused_imports)]
use crate::table::has_id;

verus! {

/// The modules that edges lead to.
pub open spec fn targets(edges: Chain<ImportEdge>) -> Chain<u32>
    decreases edges,
{
    match edges {
        Chain::Empty => Chain::Empty,
        Chain::Link(link) => targets(link.rest).pushed(link.item.to.0),
    }
}

/// The graph of the imports.
pub open spec fn import_edges(outgoing: Seq<Chain<ImportEdge>>) -> Seq<Chain<u32>> {
    Seq::new(outgoing.len(), |i: int| targets(outgoing[i]))
}

/// Every import leads to one of the modules.
pub open spec fn imports_exist(outgoing: Seq<Chain<ImportEdge>>) -> bool {
    outgoing.len() <= u32::MAX && forall|a: ModuleId, b: ModuleId| #[trigger]
        leads_to(outgoing_of(outgoing, a), b) ==> b.0 < outgoing.len()
}

/// One module imports another, directly or through others.
pub open spec fn depends(outgoing: Seq<Chain<ImportEdge>>, a: ModuleId, b: ModuleId) -> bool {
    exists|c: u32|
        #![trigger edge(import_edges(outgoing), a.0, c)]
        edge(import_edges(outgoing), a.0, c) && connected(import_edges(outgoing), c, b.0)
}

/// Some module imports itself, directly or through others.
pub open spec fn cyclic(outgoing: Seq<Chain<ImportEdge>>) -> bool {
    exists|m: ModuleId| #[trigger] depends(outgoing, m, m)
}

/// Every module of the list stands behind those that it imports, and none
/// occurs twice.
pub open spec fn dependency_first(outgoing: Seq<Chain<ImportEdge>>, order: Chain<ModuleId>) -> bool
    decreases order,
{
    match order {
        Chain::Empty => true,
        Chain::Link(link) => dependency_first(outgoing, link.rest) && !on_stack(
            link.rest,
            link.item,
        ) && forall|to: ModuleId| #[trigger]
            leads_to(outgoing_of(outgoing, link.item), to) ==> on_stack(link.rest, to),
    }
}

/// How many modules are new.
pub open spec fn count_new(states: Seq<VisitState>) -> nat
    decreases states.len(),
{
    if states.len() == 0 {
        0
    } else if states.last() == VisitState::New {
        count_new(states.drop_last()) + 1
    } else {
        count_new(states.drop_last())
    }
}

proof fn lemma_count_update(states: Seq<VisitState>, position: int, state: VisitState)
    requires
        0 <= position < states.len(),
        state != VisitState::New,
    ensures
        count_new(states.update(position, state)) == (if states[position] == VisitState::New {
            count_new(states) - 1
        } else {
            count_new(states) as int
        }),
    decreases states.len(),
{
    let after = states.update(position, state);
    if position == states.len() - 1 {
        assert(after.drop_last() =~= states.drop_last());
    } else {
        lemma_count_update(states.drop_last(), position, state);
        assert(after.drop_last() =~= states.drop_last().update(position, state));
    }
}

proof fn lemma_count_bound(states: Seq<VisitState>)
    ensures
        count_new(states) <= states.len(),
    decreases states.len(),
{
    if states.len() > 0 {
        lemma_count_bound(states.drop_last());
    }
}

proof fn lemma_targets(edges: Chain<ImportEdge>, to: ModuleId)
    ensures
        has_id(targets(edges), to.0) == leads_to(edges, to),
    decreases edges,
{
    if edges is Link {
        lemma_targets(edges.without_last(), to);
    }
}

proof fn lemma_edge(outgoing: Seq<Chain<ImportEdge>>, a: ModuleId, b: ModuleId)
    requires
        a.0 < outgoing.len(),
    ensures
        edge(import_edges(outgoing), a.0, b.0) == leads_to(outgoing_of(outgoing, a), b),
{
    lemma_targets(outgoing_of(outgoing, a), b);
}

proof fn lemma_depends_edge(outgoing: Seq<Chain<ImportEdge>>, a: ModuleId, b: ModuleId)
    requires
        a.0 < outgoing.len(),
        leads_to(outgoing_of(outgoing, a), b),
    ensures
        depends(outgoing, a, b),
{
    lemma_edge(outgoing, a, b);
    law_connected_reflexive(import_edges(outgoing), b.0);
    assert(edge(import_edges(outgoing), a.0, b.0));
}

proof fn lemma_depends_further(
    outgoing: Seq<Chain<ImportEdge>>,
    a: ModuleId,
    b: ModuleId,
    c: ModuleId,
)
    requires
        b.0 < outgoing.len(),
        depends(outgoing, a, b),
        leads_to(outgoing_of(outgoing, b), c),
    ensures
        depends(outgoing, a, c),
{
    let graph = import_edges(outgoing);
    let first = choose|first: u32|
        #![trigger edge(graph, a.0, first)]
        edge(graph, a.0, first) && connected(graph, first, b.0);
    lemma_edge(outgoing, b, c);
    let length = choose|length: nat| path(graph, first, b.0, length);
    assert(edge(graph, b.0, c.0));
    assert(path(graph, first, c.0, length + 1));
    assert(edge(graph, a.0, first));
}

/// What holds of a walk that has found no cycle.
pub open spec fn walk_wf(walk: OrderWalk, outgoing: Seq<Chain<ImportEdge>>) -> bool {
    &&& walk.acyclic
    &&& walk.states.len() == outgoing.len()
    &&& dependency_first(outgoing, walk.order)
    &&& forall|m: ModuleId|
        m.0 < outgoing.len() ==> (#[trigger] on_stack(walk.order, m) <==> visit_state(
            walk.states,
            m,
        ) == VisitState::Done)
    &&& forall|m: ModuleId| #[trigger] on_stack(walk.order, m) ==> m.0 < outgoing.len()
}

/// The modules that are being visited depend on `module`.
pub open spec fn led_to(
    walk: OrderWalk,
    outgoing: Seq<Chain<ImportEdge>>,
    module: ModuleId,
) -> bool {
    forall|v: ModuleId|
        visit_state(walk.states, v) == VisitState::Visiting ==> #[trigger] depends(
            outgoing,
            v,
            module,
        )
}

/// The second walk goes on from the first.
pub open spec fn walk_extends(before: OrderWalk, after: OrderWalk) -> bool {
    &&& count_new(after.states) <= count_new(before.states)
    &&& forall|m: ModuleId|
        #![trigger visit_state(after.states, m)]
        #![trigger visit_state(before.states, m)]
        (visit_state(after.states, m) == VisitState::Visiting <==> visit_state(before.states, m)
            == VisitState::Visiting) && (visit_state(before.states, m) == VisitState::Done
            ==> visit_state(after.states, m) == VisitState::Done)
}

proof fn lemma_visit(
    walk: OrderWalk,
    outgoing: Seq<Chain<ImportEdge>>,
    module: ModuleId,
    budget: u32,
)
    requires
        imports_exist(outgoing),
        walk_wf(walk, outgoing),
        module.0 < outgoing.len(),
        led_to(walk, outgoing, module),
        count_new(walk.states) <= budget,
    ensures
        ({
            let after = walk.visit(outgoing, module, budget);
            if after.acyclic {
                walk_wf(after, outgoing) && walk_extends(walk, after) && visit_state(
                    after.states,
                    module,
                ) == VisitState::Done
            } else {
                cyclic(outgoing)
            }
        }),
    decreases budget, 0nat,
{
    match visit_state(walk.states, module) {
        VisitState::Done => {},
        VisitState::Visiting => {
            assert(depends(outgoing, module, module));
        },
        VisitState::New => {
            lemma_count_update(walk.states, module.0 as int, VisitState::Visiting);
            let begun = OrderWalk {
                states: state_set(walk.states, module, VisitState::Visiting),
                ..walk
            };
            let edges = outgoing_of(outgoing, module);
            assert(count_new(walk.states) >= 1);
            let less = (budget - 1) as u32;
            assert forall|m: ModuleId|
                m.0 < outgoing.len() implies (#[trigger] on_stack(begun.order, m) <==> visit_state(
                begun.states,
                m,
            ) == VisitState::Done) by {
                assert(on_stack(walk.order, m) <==> visit_state(walk.states, m)
                    == VisitState::Done);
            }
            assert forall|to: ModuleId| #[trigger] leads_to(edges, to) implies to.0
                < outgoing.len() && led_to(begun, outgoing, to) by {
                assert forall|v: ModuleId|
                    visit_state(begun.states, v) == VisitState::Visiting implies #[trigger] depends(
                    outgoing,
                    v,
                    to,
                ) by {
                    if v == module {
                        lemma_depends_edge(outgoing, module, to);
                    } else {
                        assert(visit_state(walk.states, v) == VisitState::Visiting);
                        assert(depends(outgoing, v, module));
                        lemma_depends_further(outgoing, v, module, to);
                    }
                }
            }
            lemma_visit_edges(begun, outgoing, edges, less);
            let walked = begun.visit_edges(outgoing, edges, less);
            if walked.acyclic {
                let after = walk.visit(outgoing, module, budget);
                assert(visit_state(begun.states, module) == VisitState::Visiting);
                assert(visit_state(walked.states, module) == VisitState::Visiting);
                lemma_count_update(walked.states, module.0 as int, VisitState::Done);
                assert(!on_stack(walked.order, module));
                assert forall|to: ModuleId| #[trigger] leads_to(edges, to) implies on_stack(
                    walked.order,
                    to,
                ) by {
                    assert(visit_state(walked.states, to) == VisitState::Done);
                }
                assert forall|m: ModuleId|
                    m.0 < outgoing.len() implies (#[trigger] on_stack(after.order, m)
                    <==> visit_state(after.states, m) == VisitState::Done) by {
                    assert(on_stack(walked.order, m) <==> visit_state(walked.states, m)
                        == VisitState::Done);
                }
                assert forall|m: ModuleId| #[trigger] on_stack(after.order, m) implies m.0
                    < outgoing.len() by {
                    assert(m == module || on_stack(walked.order, m));
                }
                assert forall|m: ModuleId|
                    #![trigger visit_state(after.states, m)]
                    #![trigger visit_state(walk.states, m)]
                    (visit_state(after.states, m) == VisitState::Visiting <==> visit_state(
                        walk.states,
                        m,
                    ) == VisitState::Visiting) && (visit_state(walk.states, m) == VisitState::Done
                        ==> visit_state(after.states, m) == VisitState::Done) by {
                    assert(visit_state(walked.states, m) == VisitState::Visiting <==> visit_state(
                        begun.states,
                        m,
                    ) == VisitState::Visiting);
                }
            }
        },
    }
}

proof fn lemma_visit_edges(
    walk: OrderWalk,
    outgoing: Seq<Chain<ImportEdge>>,
    edges: Chain<ImportEdge>,
    budget: u32,
)
    requires
        imports_exist(outgoing),
        walk_wf(walk, outgoing),
        forall|to: ModuleId| #[trigger]
            leads_to(edges, to) ==> to.0 < outgoing.len() && led_to(walk, outgoing, to),
        count_new(walk.states) <= budget,
    ensures
        ({
            let after = walk.visit_edges(outgoing, edges, budget);
            if after.acyclic {
                walk_wf(after, outgoing) && walk_extends(walk, after) && forall|to: ModuleId|
                    #[trigger]
                    leads_to(edges, to) ==> visit_state(after.states, to) == VisitState::Done
            } else {
                cyclic(outgoing)
            }
        }),
    decreases budget, 1nat + edges.spec_len(),
{
    if edges is Link {
        let rest = edges.without_last();
        let to = edges->0.item.to;
        assert forall|other: ModuleId| #[trigger] leads_to(rest, other) implies other.0
            < outgoing.len() && led_to(walk, outgoing, other) by {
            assert(leads_to(edges, other));
        }
        lemma_visit_edges(walk, outgoing, rest, budget);
        let between = walk.visit_edges(outgoing, rest, budget);
        if between.acyclic {
            assert(leads_to(edges, to));
            assert(led_to(between, outgoing, to)) by {
                assert forall|v: ModuleId|
                    visit_state(between.states, v)
                        == VisitState::Visiting implies #[trigger] depends(outgoing, v, to) by {
                    assert(visit_state(walk.states, v) == VisitState::Visiting);
                }
            }
            lemma_visit(between, outgoing, to, budget);
            let after = between.visit(outgoing, to, budget);
            if after.acyclic {
                assert forall|other: ModuleId| #[trigger] leads_to(
                    edges,
                    other,
                ) implies visit_state(after.states, other) == VisitState::Done by {
                    if other != to {
                        assert(leads_to(rest, other));
                        assert(visit_state(between.states, other) == VisitState::Done);
                    }
                }
                assert forall|m: ModuleId|
                    #![trigger visit_state(after.states, m)]
                    #![trigger visit_state(walk.states, m)]
                    (visit_state(after.states, m) == VisitState::Visiting <==> visit_state(
                        walk.states,
                        m,
                    ) == VisitState::Visiting) && (visit_state(walk.states, m) == VisitState::Done
                        ==> visit_state(after.states, m) == VisitState::Done) by {
                    assert(visit_state(between.states, m) == VisitState::Visiting <==> visit_state(
                        walk.states,
                        m,
                    ) == VisitState::Visiting);
                }
            }
        }
    }
}

/// No module is being visited.
pub open spec fn at_rest(walk: OrderWalk) -> bool {
    forall|m: ModuleId| #[trigger] visit_state(walk.states, m) != VisitState::Visiting
}

proof fn lemma_visit_all(
    walk: OrderWalk,
    outgoing: Seq<Chain<ImportEdge>>,
    modules: Chain<ModuleId>,
)
    requires
        imports_exist(outgoing),
        walk_wf(walk, outgoing),
        at_rest(walk),
        forall|m: ModuleId| #[trigger] on_stack(modules, m) ==> m.0 < outgoing.len(),
    ensures
        ({
            let after = walk.visit_all(outgoing, modules);
            if after.acyclic {
                walk_wf(after, outgoing) && at_rest(after) && walk_extends(walk, after) && forall|
                    m: ModuleId,
                | #[trigger]
                    on_stack(modules, m) ==> visit_state(after.states, m) == VisitState::Done
            } else {
                cyclic(outgoing)
            }
        }),
    decreases modules,
{
    if modules is Link {
        let rest = modules.without_last();
        let module = modules->0.item;
        assert forall|m: ModuleId| #[trigger] on_stack(rest, m) implies m.0 < outgoing.len() by {
            assert(on_stack(modules, m));
        }
        lemma_visit_all(walk, outgoing, rest);
        let between = walk.visit_all(outgoing, rest);
        if between.acyclic {
            assert(on_stack(modules, module));
            lemma_count_bound(between.states);
            assert(led_to(between, outgoing, module)) by {
                assert forall|v: ModuleId|
                    visit_state(between.states, v)
                        == VisitState::Visiting implies #[trigger] depends(outgoing, v, module) by {
                    assert(visit_state(between.states, v) != VisitState::Visiting);
                }
            }
            lemma_visit(between, outgoing, module, IMPORT_LIMIT);
            let after = between.visit(outgoing, module, IMPORT_LIMIT);
            if after.acyclic {
                assert forall|m: ModuleId| #[trigger] visit_state(after.states, m)
                    != VisitState::Visiting by {
                    assert(visit_state(between.states, m) != VisitState::Visiting);
                }
                assert forall|m: ModuleId| #[trigger] on_stack(modules, m) implies visit_state(
                    after.states,
                    m,
                ) == VisitState::Done by {
                    if m != module {
                        assert(on_stack(rest, m));
                        assert(visit_state(between.states, m) == VisitState::Done);
                    }
                }
                assert forall|m: ModuleId|
                    #![trigger visit_state(after.states, m)]
                    #![trigger visit_state(walk.states, m)]
                    (visit_state(after.states, m) == VisitState::Visiting <==> visit_state(
                        walk.states,
                        m,
                    ) == VisitState::Visiting) && (visit_state(walk.states, m) == VisitState::Done
                        ==> visit_state(after.states, m) == VisitState::Done) by {
                    assert(visit_state(between.states, m) == VisitState::Visiting <==> visit_state(
                        walk.states,
                        m,
                    ) == VisitState::Visiting);
                }
            }
        }
    }
}

proof fn lemma_placed(program: &Program, list: Chain<ModuleId>, module: ModuleId, other: ModuleId)
    ensures
        on_stack(program.module_placed(list, module), other) == (other == module || on_stack(
            list,
            other,
        )),
    decreases list,
{
    if list is Link {
        lemma_placed(program, list.without_last(), module, other);
    }
}

proof fn lemma_by_name(program: &Program, count: nat, module: ModuleId)
    requires
        count <= u32::MAX,
    ensures
        on_stack(program.modules_by_name(count), module) == (module.0 < count),
    decreases count,
{
    if count > 0 {
        lemma_by_name(program, (count - 1) as nat, module);
        lemma_placed(
            program,
            program.modules_by_name((count - 1) as nat),
            ModuleId((count - 1) as u32),
            module,
        );
    }
}

/// The order by name has every module.
pub proof fn law_ordered_modules(program: &Program, module: ModuleId)
    requires
        program.modules_fit(),
    ensures
        on_stack(program.ordered_modules(), module) == (module.0 < program.modules@.len()),
{
    lemma_by_name(program, program.modules@.len(), module);
}

proof fn lemma_start(outgoing: Seq<Chain<ImportEdge>>)
    ensures
        walk_wf(OrderWalk::start(outgoing.len()), outgoing),
        at_rest(OrderWalk::start(outgoing.len())),
{
    let walk = OrderWalk::start(outgoing.len());
    assert forall|m: ModuleId| m.0 < outgoing.len() implies (#[trigger] on_stack(walk.order, m)
        <==> visit_state(walk.states, m) == VisitState::Done) by {}
}

proof fn lemma_order(graph: ModuleGraph, program: &Program)
    requires
        program.modules_fit(),
        graph.outgoing@.len() == program.modules@.len(),
        imports_exist(graph.outgoing@),
    ensures
        match graph.order(program) {
            Some(order) => dependency_first(graph.outgoing@, order) && forall|m: ModuleId|
                #[trigger]
                on_stack(order, m) <==> m.0 < program.modules@.len(),
            None => cyclic(graph.outgoing@),
        },
{
    let outgoing = graph.outgoing@;
    let modules = program.ordered_modules();
    lemma_start(outgoing);
    assert forall|m: ModuleId| #[trigger] on_stack(modules, m) implies m.0 < outgoing.len() by {
        law_ordered_modules(program, m);
    }
    lemma_visit_all(OrderWalk::start(outgoing.len()), outgoing, modules);
    let after = OrderWalk::start(outgoing.len()).visit_all(outgoing, modules);
    if after.acyclic {
        assert forall|m: ModuleId| #[trigger] on_stack(after.order, m) <==> m.0
            < program.modules@.len() by {
            law_ordered_modules(program, m);
        }
    }
}

proof fn lemma_ordered_path(
    outgoing: Seq<Chain<ImportEdge>>,
    order: Chain<ModuleId>,
    a: u32,
    b: u32,
    length: nat,
)
    requires
        dependency_first(outgoing, order),
        on_stack(order, ModuleId(a)),
        forall|m: ModuleId| #[trigger] on_stack(order, m) ==> m.0 < outgoing.len(),
        path(import_edges(outgoing), a, b, length),
    ensures
        on_stack(order, ModuleId(b)),
    decreases length,
{
    if length > 0 {
        let graph = import_edges(outgoing);
        let c = choose|c: u32|
            path(graph, a, c, (length - 1) as nat) && #[trigger] edge(graph, c, b);
        lemma_ordered_path(outgoing, order, a, c, (length - 1) as nat);
        lemma_edge(outgoing, ModuleId(c), ModuleId(b));
        lemma_closed(outgoing, order, ModuleId(c), ModuleId(b));
    }
}

/// A list that has a module has what it imports.
proof fn lemma_closed(
    outgoing: Seq<Chain<ImportEdge>>,
    order: Chain<ModuleId>,
    a: ModuleId,
    b: ModuleId,
)
    requires
        dependency_first(outgoing, order),
        on_stack(order, a),
        leads_to(outgoing_of(outgoing, a), b),
    ensures
        on_stack(order, b),
    decreases order,
{
    let rest = order.without_last();
    if order->0.item == a {
        assert(leads_to(outgoing_of(outgoing, order->0.item), b));
    } else {
        lemma_closed(outgoing, rest, a, b);
    }
}

/// Nothing in an order depends on itself.
proof fn lemma_ordered_acyclic(
    outgoing: Seq<Chain<ImportEdge>>,
    order: Chain<ModuleId>,
    module: ModuleId,
)
    requires
        dependency_first(outgoing, order),
        on_stack(order, module),
        forall|m: ModuleId| #[trigger] on_stack(order, m) ==> m.0 < outgoing.len(),
    ensures
        !depends(outgoing, module, module),
    decreases order,
{
    let rest = order.without_last();
    assert forall|m: ModuleId| #[trigger] on_stack(rest, m) implies m.0 < outgoing.len() by {
        assert(on_stack(order, m));
    }
    if order->0.item != module {
        lemma_ordered_acyclic(outgoing, rest, module);
    } else if depends(outgoing, module, module) {
        let graph = import_edges(outgoing);
        let c = choose|c: u32|
            #![trigger edge(graph, module.0, c)]
            edge(graph, module.0, c) && connected(graph, c, module.0);
        lemma_edge(outgoing, module, ModuleId(c));
        assert(leads_to(outgoing_of(outgoing, order->0.item), ModuleId(c)));
        assert(on_stack(rest, ModuleId(c)));
        let length = choose|length: nat| path(graph, c, module.0, length);
        lemma_ordered_path(outgoing, rest, c, module.0, length);
        assert(on_stack(rest, module));
    }
}

/// There is an order exactly when no module depends on itself, and then every
/// module stands in it once, behind those that it imports.
pub proof fn law_dependency_order(graph: ModuleGraph, program: &Program)
    requires
        program.modules_fit(),
        graph.outgoing@.len() == program.modules@.len(),
        imports_exist(graph.outgoing@),
    ensures
        graph.order(program) is None <==> cyclic(graph.outgoing@),
        match graph.order(program) {
            Some(order) => dependency_first(graph.outgoing@, order) && forall|m: ModuleId|
                #[trigger]
                on_stack(order, m) <==> m.0 < program.modules@.len(),
            None => true,
        },
{
    lemma_order(graph, program);
    let outgoing = graph.outgoing@;
    if let Some(order) = graph.order(program) {
        if cyclic(outgoing) {
            let m = choose|m: ModuleId| #[trigger] depends(outgoing, m, m);
            let edges = import_edges(outgoing);
            let c = choose|c: u32|
                #![trigger edge(edges, m.0, c)]
                edge(edges, m.0, c) && connected(edges, c, m.0);
            assert(edge(edges, m.0, c));
            assert(m.0 < outgoing.len());
            assert(on_stack(order, m));
            lemma_ordered_acyclic(outgoing, order, m);
        }
    }
}

proof fn lemma_reported_stays(
    walk: CycleWalk,
    program: &Program,
    outgoing: Seq<Chain<ImportEdge>>,
    module: ModuleId,
    budget: u32,
)
    requires
        walk.reported is Link,
    ensures
        walk.visit(program, outgoing, module, budget).reported is Link,
    decreases budget, 0nat,
{
    if visit_state(walk.states, module) == VisitState::New && budget > 0 {
        let begun = CycleWalk {
            states: state_set(walk.states, module, VisitState::Visiting),
            stack: walk.stack.pushed(module),
            ..walk
        };
        lemma_reported_stays_edges(
            begun,
            program,
            outgoing,
            outgoing_of(outgoing, module),
            (budget - 1) as u32,
        );
    }
}

proof fn lemma_reported_stays_edges(
    walk: CycleWalk,
    program: &Program,
    outgoing: Seq<Chain<ImportEdge>>,
    edges: Chain<ImportEdge>,
    budget: u32,
)
    requires
        walk.reported is Link,
    ensures
        walk.visit_edges(program, outgoing, edges, budget).reported is Link,
    decreases budget, 1nat + edges.spec_len(),
{
    if edges is Link {
        let rest = edges.without_last();
        lemma_reported_stays_edges(walk, program, outgoing, rest, budget);
        lemma_reported_stays(
            walk.visit_edges(program, outgoing, rest, budget),
            program,
            outgoing,
            edges->0.item.to,
            budget,
        );
    }
}

/// The search for cycles goes along with the walk for the order.
pub open spec fn in_step(search: CycleWalk, walk: OrderWalk) -> bool {
    search.states == walk.states && search.reported is Empty
}

/// What the search found, where the walk came through or did not.
pub open spec fn kept_step(before: CycleWalk, search: CycleWalk, walk: OrderWalk) -> bool {
    if walk.acyclic {
        in_step(search, walk) && search.diagnostics == before.diagnostics
    } else {
        search.reported is Link
    }
}

proof fn lemma_step(
    search: CycleWalk,
    walk: OrderWalk,
    program: &Program,
    outgoing: Seq<Chain<ImportEdge>>,
    module: ModuleId,
    budget: u32,
)
    requires
        imports_exist(outgoing),
        walk_wf(walk, outgoing),
        module.0 < outgoing.len(),
        led_to(walk, outgoing, module),
        count_new(walk.states) <= budget,
        in_step(search, walk),
        visit_state(walk.states, module) != VisitState::Visiting,
    ensures
        kept_step(
            search,
            search.visit(program, outgoing, module, budget),
            walk.visit(outgoing, module, budget),
        ),
    decreases budget, 0nat,
{
    if visit_state(walk.states, module) == VisitState::New {
        lemma_count_update(walk.states, module.0 as int, VisitState::Visiting);
        let begun = OrderWalk {
            states: state_set(walk.states, module, VisitState::Visiting),
            ..walk
        };
        let search_begun = CycleWalk {
            states: state_set(search.states, module, VisitState::Visiting),
            stack: search.stack.pushed(module),
            ..search
        };
        let edges = outgoing_of(outgoing, module);
        let less = (budget - 1) as u32;
        assert forall|m: ModuleId|
            m.0 < outgoing.len() implies (#[trigger] on_stack(begun.order, m) <==> visit_state(
            begun.states,
            m,
        ) == VisitState::Done) by {
            assert(on_stack(walk.order, m) <==> visit_state(walk.states, m) == VisitState::Done);
        }
        assert forall|to: ModuleId| #[trigger] leads_to(edges, to) implies to.0 < outgoing.len()
            && led_to(begun, outgoing, to) by {
            assert forall|v: ModuleId|
                visit_state(begun.states, v) == VisitState::Visiting implies #[trigger] depends(
                outgoing,
                v,
                to,
            ) by {
                if v == module {
                    lemma_depends_edge(outgoing, module, to);
                } else {
                    assert(visit_state(walk.states, v) == VisitState::Visiting);
                    assert(depends(outgoing, v, module));
                    lemma_depends_further(outgoing, v, module, to);
                }
            }
        }
        lemma_step_edges(search_begun, begun, program, outgoing, edges, less);
    }
}

proof fn lemma_step_edges(
    search: CycleWalk,
    walk: OrderWalk,
    program: &Program,
    outgoing: Seq<Chain<ImportEdge>>,
    edges: Chain<ImportEdge>,
    budget: u32,
)
    requires
        imports_exist(outgoing),
        walk_wf(walk, outgoing),
        forall|to: ModuleId| #[trigger]
            leads_to(edges, to) ==> to.0 < outgoing.len() && led_to(walk, outgoing, to),
        count_new(walk.states) <= budget,
        in_step(search, walk),
    ensures
        kept_step(
            search,
            search.visit_edges(program, outgoing, edges, budget),
            walk.visit_edges(outgoing, edges, budget),
        ),
    decreases budget, 1nat + edges.spec_len(),
{
    if edges is Link {
        let rest = edges.without_last();
        let to = edges->0.item.to;
        assert forall|other: ModuleId| #[trigger] leads_to(rest, other) implies other.0
            < outgoing.len() && led_to(walk, outgoing, other) by {
            assert(leads_to(edges, other));
        }
        lemma_step_edges(search, walk, program, outgoing, rest, budget);
        lemma_visit_edges(walk, outgoing, rest, budget);
        let between = walk.visit_edges(outgoing, rest, budget);
        let search_between = search.visit_edges(program, outgoing, rest, budget);
        if between.acyclic {
            assert(leads_to(edges, to));
            if visit_state(between.states, to) != VisitState::Visiting {
                assert(led_to(between, outgoing, to)) by {
                    assert forall|v: ModuleId|
                        visit_state(between.states, v)
                            == VisitState::Visiting implies #[trigger] depends(outgoing, v, to) by {
                        assert(visit_state(walk.states, v) == VisitState::Visiting);
                    }
                }
                lemma_step(search_between, between, program, outgoing, to, budget);
            } else {
                assert(!between.visit(outgoing, to, budget).acyclic);
                assert(search_between.close_cycle(program, edges->0.item).reported is Link);
            }
        } else {
            assert(!between.visit(outgoing, to, budget).acyclic);
            lemma_reported_stays(search_between, program, outgoing, to, budget);
        }
    }
}

proof fn lemma_step_all(
    search: CycleWalk,
    walk: OrderWalk,
    program: &Program,
    outgoing: Seq<Chain<ImportEdge>>,
    modules: Chain<ModuleId>,
)
    requires
        imports_exist(outgoing),
        walk_wf(walk, outgoing),
        at_rest(walk),
        forall|m: ModuleId| #[trigger] on_stack(modules, m) ==> m.0 < outgoing.len(),
        in_step(search, walk),
    ensures
        kept_step(
            search,
            search.visit_all(program, outgoing, modules),
            walk.visit_all(outgoing, modules),
        ),
    decreases modules,
{
    if modules is Link {
        let rest = modules.without_last();
        let module = modules->0.item;
        assert forall|m: ModuleId| #[trigger] on_stack(rest, m) implies m.0 < outgoing.len() by {
            assert(on_stack(modules, m));
        }
        lemma_step_all(search, walk, program, outgoing, rest);
        lemma_visit_all(walk, outgoing, rest);
        let between = walk.visit_all(outgoing, rest);
        let search_between = search.visit_all(program, outgoing, rest);
        if between.acyclic {
            assert(on_stack(modules, module));
            lemma_count_bound(between.states);
            assert(led_to(between, outgoing, module)) by {
                assert forall|v: ModuleId|
                    visit_state(between.states, v)
                        == VisitState::Visiting implies #[trigger] depends(outgoing, v, module) by {
                    assert(visit_state(between.states, v) != VisitState::Visiting);
                }
            }
            assert(visit_state(between.states, module) != VisitState::Visiting);
            lemma_step(search_between, between, program, outgoing, module, IMPORT_LIMIT);
        } else {
            lemma_reported_stays(search_between, program, outgoing, module, IMPORT_LIMIT);
        }
    }
}

/// A cycle of imports is reported exactly when some module depends on itself;
/// otherwise the search reports nothing.
pub proof fn law_cycles_reported(program: &Program)
    requires
        program.modules_fit(),
        imports_exist(program.import_graph()),
    ensures
        program.cycle_walk().reported is Link <==> cyclic(program.import_graph()),
        program.cycle_walk().reported is Empty ==> program.cycle_walk().diagnostics
            == module_faults(program, program.ordered_modules()),
{
    let outgoing = program.import_graph();
    let modules = program.ordered_modules();
    let walk = OrderWalk::start(outgoing.len());
    let search = CycleWalk::start(outgoing.len(), module_faults(program, modules));
    lemma_start(outgoing);
    assert forall|m: ModuleId| #[trigger] on_stack(modules, m) implies m.0 < outgoing.len() by {
        law_ordered_modules(program, m);
    }
    lemma_step_all(search, walk, program, outgoing, modules);
    lemma_visit_all(walk, outgoing, modules);
    let after = walk.visit_all(outgoing, modules);
    if after.acyclic && cyclic(outgoing) {
        let m = choose|m: ModuleId| #[trigger] depends(outgoing, m, m);
        let edges = import_edges(outgoing);
        let c = choose|c: u32|
            #![trigger edge(edges, m.0, c)]
            edge(edges, m.0, c) && connected(edges, c, m.0);
        assert(edge(edges, m.0, c));
        law_ordered_modules(program, m);
        assert(on_stack(modules, m));
        assert(visit_state(after.states, m) == VisitState::Done);
        assert(on_stack(after.order, m));
        lemma_ordered_acyclic(outgoing, after.order, m);
    }
}

/// One of the diagnostics has the code.
pub open spec fn has_code(list: Chain<Diagnostic>, code: Seq<char>) -> bool
    decreases list,
{
    match list {
        Chain::Empty => false,
        Chain::Link(link) => link.item.code@ == code || has_code(link.rest, code),
    }
}

proof fn lemma_import_faults(imports: Seq<Import>, count: nat, reported: Chain<Diagnostic>)
    requires
        count <= imports.len(),
        !has_code(reported, "ModuleCycle"@),
    ensures
        !has_code(import_faults(imports, count, reported), "ModuleCycle"@),
    decreases count,
{
    if count > 0 {
        lemma_import_faults(imports, (count - 1) as nat, reported);
        reveal_strlit("ModuleCycle");
        reveal_strlit("UnexpectedToken");
        reveal_strlit("UndeclaredDependency");
        reveal_strlit("UnknownName");
        if let Some(fault) = import_fault(imports[count - 1]) {
            assert("ModuleCycle"@[0] == 'M');
            assert(fault.code@[0] == 'U');
        }
    }
}

proof fn lemma_module_faults(program: &Program, modules: Chain<ModuleId>)
    ensures
        !has_code(module_faults(program, modules), "ModuleCycle"@),
    decreases modules,
{
    if modules is Link {
        let rest = modules.without_last();
        let module = modules->0.item;
        lemma_module_faults(program, rest);
        if let Some(found) = at(program.modules@, module.0) {
            lemma_import_faults(
                found.imports@,
                found.imports@.len(),
                module_faults(program, rest),
            );
        }
    }
}

/// Cycles were found exactly if one was reported.
spec fn says_cycles(walk: CycleWalk) -> bool {
    has_code(walk.diagnostics, "ModuleCycle"@) <==> walk.reported is Link
}

proof fn lemma_says_cycles(
    walk: CycleWalk,
    program: &Program,
    outgoing: Seq<Chain<ImportEdge>>,
    module: ModuleId,
    budget: u32,
)
    requires
        says_cycles(walk),
    ensures
        says_cycles(walk.visit(program, outgoing, module, budget)),
    decreases budget, 0nat,
{
    if visit_state(walk.states, module) == VisitState::New && budget > 0 {
        let begun = CycleWalk {
            states: state_set(walk.states, module, VisitState::Visiting),
            stack: walk.stack.pushed(module),
            ..walk
        };
        lemma_edges_say_cycles(
            begun,
            program,
            outgoing,
            outgoing_of(outgoing, module),
            (budget - 1) as u32,
        );
    }
}

proof fn lemma_edges_say_cycles(
    walk: CycleWalk,
    program: &Program,
    outgoing: Seq<Chain<ImportEdge>>,
    edges: Chain<ImportEdge>,
    budget: u32,
)
    requires
        says_cycles(walk),
    ensures
        says_cycles(walk.visit_edges(program, outgoing, edges, budget)),
    decreases budget, 1nat + edges.spec_len(),
{
    if edges is Link {
        let rest = edges.without_last();
        let last = edges->0.item;
        lemma_edges_say_cycles(walk, program, outgoing, rest, budget);
        let between = walk.visit_edges(program, outgoing, rest, budget);
        lemma_says_cycles(between, program, outgoing, last.to, budget);
        let cycle = canonical_cycle(program, stack_from(between.stack, last.to));
        assert(has_cycle_list(between.reported, cycle) ==> between.reported is Link);
    }
}

proof fn lemma_all_say_cycles(
    walk: CycleWalk,
    program: &Program,
    outgoing: Seq<Chain<ImportEdge>>,
    modules: Chain<ModuleId>,
)
    requires
        says_cycles(walk),
    ensures
        says_cycles(walk.visit_all(program, outgoing, modules)),
    decreases modules,
{
    if modules is Link {
        let rest = modules.without_last();
        let module = modules->0.item;
        lemma_all_say_cycles(walk, program, outgoing, rest);
        let between = walk.visit_all(program, outgoing, rest);
        lemma_says_cycles(between, program, outgoing, module, IMPORT_LIMIT);
    }
}

/// There is no order of the modules exactly where a cycle is among what the
/// graph of the imports reports.
pub proof fn law_no_order_is_reported(graph: ModuleGraph, program: &Program)
    requires
        program.modules_fit(),
        graph.outgoing@ == program.import_graph(),
        imports_exist(program.import_graph()),
    ensures
        graph.order(program) is None <==> has_code(
            program.cycle_walk().diagnostics,
            "ModuleCycle"@,
        ),
{
    law_dependency_order(graph, program);
    law_cycles_reported(program);
    let modules = program.ordered_modules();
    let outgoing = program.import_graph();
    lemma_module_faults(program, modules);
    let start = CycleWalk::start(program.modules@.len(), module_faults(program, modules));
    assert(says_cycles(start));
    lemma_all_say_cycles(start, program, outgoing, modules);
}

} // verus!
