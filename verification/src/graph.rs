//! Directed graphs, and which of their nodes reach each other.

use vstd::prelude::*;

use crate::chain::Chain;
#[allow(unused_imports)]
use crate::table::has_id;

verus! {

/// There is an edge from `a` to `b`.
pub open spec fn edge(graph: Seq<Chain<u32>>, a: u32, b: u32) -> bool {
    a < graph.len() && has_id(graph[a as int], b)
}

/// The edges lead to nodes.
pub open spec fn graph_wf(graph: Seq<Chain<u32>>) -> bool {
    graph.len() <= u32::MAX && forall|a: u32, b: u32| #[trigger]
        edge(graph, a, b) ==> b < graph.len()
}

/// A path of `length` edges leads from `a` to `b`.
pub open spec fn path(graph: Seq<Chain<u32>>, a: u32, b: u32, length: nat) -> bool
    decreases length,
{
    if length == 0 {
        a == b
    } else {
        exists|c: u32|
            path(graph, a, c, (length - 1) as nat) && #[trigger] edge(graph, c, b)
    }
}

/// Some path leads from `a` to `b`.
pub open spec fn connected(graph: Seq<Chain<u32>>, a: u32, b: u32) -> bool {
    exists|length: nat| path(graph, a, b, length)
}

/// Paths lead from `a` to `b` and back.
pub open spec fn mutual(graph: Seq<Chain<u32>>, a: u32, b: u32) -> bool {
    connected(graph, a, b) && connected(graph, b, a)
}

/// Each node is connected to itself.
pub proof fn law_connected_reflexive(graph: Seq<Chain<u32>>, a: u32)
    ensures
        connected(graph, a, a),
{
    assert(path(graph, a, a, 0));
}

proof fn lemma_path_extend(graph: Seq<Chain<u32>>, a: u32, b: u32, c: u32)
    requires
        connected(graph, a, b),
        edge(graph, b, c),
    ensures
        connected(graph, a, c),
{
    let length = choose|length: nat| path(graph, a, b, length);
    assert(path(graph, a, c, length + 1));
}

proof fn lemma_paths_join(graph: Seq<Chain<u32>>, a: u32, b: u32, c: u32, length: nat)
    requires
        connected(graph, a, b),
        path(graph, b, c, length),
    ensures
        connected(graph, a, c),
    decreases length,
{
    if length > 0 {
        let d = choose|d: u32|
            path(graph, b, d, (length - 1) as nat) && #[trigger] edge(graph, d, c);
        lemma_paths_join(graph, a, b, d, (length - 1) as nat);
        lemma_path_extend(graph, a, d, c);
    }
}

/// What a node is connected to is connected further on.
pub proof fn law_connected_transitive(graph: Seq<Chain<u32>>, a: u32, b: u32, c: u32)
    requires
        connected(graph, a, b),
        connected(graph, b, c),
    ensures
        connected(graph, a, c),
{
    let length = choose|length: nat| path(graph, b, c, length);
    lemma_paths_join(graph, a, b, c, length);
}

/// Being connected in both directions is an equivalence.
pub proof fn law_mutual_is_equivalence(graph: Seq<Chain<u32>>, a: u32, b: u32, c: u32)
    ensures
        mutual(graph, a, a),
        mutual(graph, a, b) == mutual(graph, b, a),
        mutual(graph, a, b) && mutual(graph, b, c) ==> mutual(graph, a, c),
{
    law_connected_reflexive(graph, a);
    if mutual(graph, a, b) && mutual(graph, b, c) {
        law_connected_transitive(graph, a, b, c);
        law_connected_transitive(graph, c, b, a);
    }
}

/// How many of the nodes are not visited.
pub open spec fn unvisited(visited: Seq<bool>) -> nat
    decreases visited.len(),
{
    if visited.len() == 0 {
        0
    } else if visited.last() {
        unvisited(visited.drop_last())
    } else {
        unvisited(visited.drop_last()) + 1
    }
}

proof fn lemma_visit(visited: Seq<bool>, at: int)
    requires
        0 <= at < visited.len(),
        !visited[at],
    ensures
        unvisited(visited) == unvisited(visited.update(at, true)) + 1,
    decreases visited.len(),
{
    let after = visited.update(at, true);
    if at == visited.len() - 1 {
        assert(after.drop_last() =~= visited.drop_last());
    } else {
        lemma_visit(visited.drop_last(), at);
        assert(after.drop_last() =~= visited.drop_last().update(at, true));
    }
}

/// A set of nodes that holds a node and is closed under edges holds what the
/// node is connected to.
proof fn lemma_closed(graph: Seq<Chain<u32>>, visited: Seq<bool>, a: u32, b: u32, length: nat)
    requires
        graph_wf(graph),
        visited.len() == graph.len(),
        a < graph.len(),
        visited[a as int],
        forall|x: u32, y: u32|
            x < graph.len() && visited[x as int] && #[trigger] edge(graph, x, y) ==> visited[y as int],
        path(graph, a, b, length),
    ensures
        b < graph.len(),
        visited[b as int],
    decreases length,
{
    if length > 0 {
        let c = choose|c: u32|
            path(graph, a, c, (length - 1) as nat) && #[trigger] edge(graph, c, b);
        lemma_closed(graph, visited, a, c, (length - 1) as nat);
        assert(edge(graph, c, b));
    }
}

/// Visits the nodes of a list that were not, and has them followed later.
fn visit_new(list: &Chain<u32>, visited: &mut Vec<bool>, pending: &mut Vec<u32>)
    requires
        forall|y: u32| #[trigger] has_id(*list, y) ==> y < old(visited)@.len(),
    ensures
        final(visited)@.len() == old(visited)@.len(),
        forall|x: int|
            0 <= x < old(visited)@.len() && old(visited)@[x] ==> #[trigger] final(visited)@[x],
        forall|y: u32| #[trigger] has_id(*list, y) ==> final(visited)@[y as int],
        forall|x: u32|
            x < old(visited)@.len() && #[trigger] final(visited)@[x as int]
                && !old(visited)@[x as int] ==> has_id(*list, x) && final(pending)@.contains(x),
        old(pending)@.len() <= final(pending)@.len(),
        forall|i: int|
            0 <= i < old(pending)@.len() ==> #[trigger] final(pending)@[i] == old(pending)@[i],
        forall|i: int|
            old(pending)@.len() <= i < final(pending)@.len() ==> (#[trigger] final(pending)@[i])
                < old(visited)@.len() && final(visited)@[final(pending)@[i] as int],
        unvisited(old(visited)@) + old(pending)@.len() == unvisited(final(visited)@)
            + final(pending)@.len(),
    decreases list,
{
    match list {
        Chain::Empty => {},
        Chain::Link(link) => {
            assert forall|y: u32| #[trigger] has_id(link.rest, y) implies y < visited@.len() by {
                assert(has_id(*list, y));
            }
            visit_new(&link.rest, visited, pending);
            let node: usize = link.item as usize;
            assert(has_id(*list, link.item));
            if !visited[node] {
                proof {
                    lemma_visit(visited@, node as int);
                }
                let ghost before = pending@;
                visited.set(node, true);
                pending.push(link.item);
                assert(pending@[before.len() as int] == link.item);
                assert forall|x: u32|
                    x < old(visited)@.len() && #[trigger] visited@[x as int]
                        && !old(visited)@[x as int] implies has_id(*list, x)
                    && pending@.contains(x) by {
                    if x != link.item {
                        assert(before.contains(x));
                        let i = choose|i: int| 0 <= i < before.len() && before[i] == x;
                        assert(pending@[i] == x);
                    }
                }
            }
            assert forall|y: u32| #[trigger] has_id(*list, y) implies visited@[y as int] by {
                assert(y == link.item || has_id(link.rest, y));
            }
        },
    }
}

/// The nodes that a node is connected to.
pub fn reach(graph: &Vec<Chain<u32>>, start: u32) -> (visited: Vec<bool>)
    requires
        graph_wf(graph@),
        start < graph@.len(),
    ensures
        visited@.len() == graph@.len(),
        forall|x: u32|
            x < graph@.len() ==> (#[trigger] visited@[x as int] <==> connected(graph@, start, x)),
{
    let count: usize = graph.len();
    let mut visited: Vec<bool> = Vec::new();
    let mut i: usize = 0;
    while i < count
        invariant
            i <= count,
            visited@.len() == i,
            forall|x: int| 0 <= x < i ==> !(#[trigger] visited@[x]),
        decreases count - i,
    {
        visited.push(false);
        i = i + 1;
    }
    visited.set(start as usize, true);
    let mut pending: Vec<u32> = Vec::new();
    pending.push(start);
    proof {
        law_connected_reflexive(graph@, start);
    }
    assert(pending@[0] == start);
    while pending.len() > 0
        invariant
            count == graph@.len(),
            graph_wf(graph@),
            start < count,
            visited@.len() == count,
            visited@[start as int],
            forall|x: u32|
                x < count && #[trigger] visited@[x as int] ==> connected(graph@, start, x),
            forall|i: int|
                0 <= i < pending@.len() ==> (#[trigger] pending@[i]) < count
                    && visited@[pending@[i] as int],
            forall|x: u32, y: u32|
                x < count && visited@[x as int] && #[trigger] edge(graph@, x, y) ==> visited@[y as int]
                    || pending@.contains(x),
        decreases unvisited(visited@), pending@.len(),
    {
        let ghost pending_before = pending@;
        let ghost visited_before = visited@;
        let node: u32 = match pending.pop() {
            Some(found) => found,
            None => start,
        };
        assert(pending_before[pending_before.len() - 1] == node);
        let list = &graph[node as usize];
        assert forall|y: u32| #[trigger] has_id(*list, y) implies y < visited@.len() by {
            assert(edge(graph@, node, y));
        }
        let ghost popped = pending@;
        visit_new(list, &mut visited, &mut pending);
        proof {
            assert forall|x: u32| x < count && #[trigger] visited@[x as int] implies connected(
                graph@,
                start,
                x,
            ) by {
                if !visited_before[x as int] {
                    assert(edge(graph@, node, x));
                    assert(visited_before[node as int]);
                    lemma_path_extend(graph@, start, node, x);
                }
            }
            assert forall|i: int| 0 <= i < pending@.len() implies (#[trigger] pending@[i]) < count
                && visited@[pending@[i] as int] by {
                if i < popped.len() {
                    assert(pending@[i] == popped[i]);
                    assert(popped[i] == pending_before[i]);
                }
            }
            assert forall|x: u32, y: u32|
                x < count && visited@[x as int] && #[trigger] edge(
                    graph@,
                    x,
                    y,
                ) implies visited@[y as int] || pending@.contains(x) by {
                if x == node {
                    assert(has_id(*list, y));
                } else if visited_before[x as int] {
                    if !visited_before[y as int] {
                        assert(pending_before.contains(x));
                        let i = choose|i: int|
                            0 <= i < pending_before.len() && pending_before[i] == x;
                        assert(i < popped.len());
                        assert(pending@[i] == popped[i]);
                    }
                }
            }
        }
    }
    proof {
        assert forall|x: u32| x < graph@.len() implies (#[trigger] visited@[x as int]
            <==> connected(graph@, start, x)) by {
            if connected(graph@, start, x) {
                let length = choose|length: nat| path(graph@, start, x, length);
                lemma_closed(graph@, visited@, start, x, length);
            }
        }
    }
    visited
}

/// The graph with its edges turned round: of the first `count` nodes the
/// incoming edges are the outgoing ones.
pub open spec fn is_turned(graph: Seq<Chain<u32>>, turned: Seq<Chain<u32>>) -> bool {
    turned.len() == graph.len() && forall|a: u32, b: u32|
        a < graph.len() && b < graph.len() ==> (#[trigger] edge(turned, b, a) <==> edge(
            graph,
            a,
            b,
        ))
}

proof fn lemma_turned_path(
    graph: Seq<Chain<u32>>,
    turned: Seq<Chain<u32>>,
    a: u32,
    b: u32,
    length: nat,
)
    requires
        graph_wf(graph),
        is_turned(graph, turned),
        a < graph.len(),
        path(turned, a, b, length),
        graph_wf(turned),
    ensures
        b < graph.len(),
        connected(graph, b, a),
    decreases length,
{
    if length == 0 {
        law_connected_reflexive(graph, a);
    } else {
        let c = choose|c: u32|
            path(turned, a, c, (length - 1) as nat) && #[trigger] edge(turned, c, b);
        lemma_turned_path(graph, turned, a, c, (length - 1) as nat);
        assert(b < turned.len());
        assert(edge(graph, b, c));
        law_connected_reflexive(graph, b);
        lemma_path_extend(graph, b, b, c);
        law_connected_transitive(graph, b, c, a);
    }
}

/// Turning the edges of a graph round turns its connections round.
pub proof fn law_turned(graph: Seq<Chain<u32>>, turned: Seq<Chain<u32>>, a: u32, b: u32)
    requires
        graph_wf(graph),
        graph_wf(turned),
        is_turned(graph, turned),
        a < graph.len(),
        b < graph.len(),
    ensures
        connected(turned, a, b) == connected(graph, b, a),
{
    if connected(turned, a, b) {
        let length = choose|length: nat| path(turned, a, b, length);
        lemma_turned_path(graph, turned, a, b, length);
    }
    if connected(graph, b, a) {
        assert(is_turned(turned, graph)) by {
            assert forall|x: u32, y: u32|
                x < turned.len() && y < turned.len() implies (#[trigger] edge(graph, y, x)
                <==> edge(turned, x, y)) by {}
        }
        let length = choose|length: nat| path(graph, b, a, length);
        lemma_turned_path(turned, graph, b, a, length);
    }
}

/// Adds `node` to the incoming edges of each node of a list.
fn turn_list(list: &Chain<u32>, node: u32, turned: &mut Vec<Chain<u32>>)
    requires
        forall|y: u32| #[trigger] has_id(*list, y) ==> y < old(turned)@.len(),
    ensures
        final(turned)@.len() == old(turned)@.len(),
        forall|b: u32, a: u32|
            b < old(turned)@.len() ==> (#[trigger] has_id(final(turned)@[b as int], a) <==> has_id(
                old(turned)@[b as int],
                a,
            ) || (a == node && has_id(*list, b))),
    decreases list,
{
    match list {
        Chain::Empty => {},
        Chain::Link(link) => {
            assert forall|y: u32| #[trigger] has_id(link.rest, y) implies y < turned@.len() by {
                assert(has_id(*list, y));
            }
            turn_list(&link.rest, node, turned);
            assert(has_id(*list, link.item));
            let place: usize = link.item as usize;
            let longer = turned[place].clone().with(node);
            let ghost before = turned@;
            turned.set(place, longer);
            assert forall|b: u32, a: u32| b < old(turned)@.len() implies (#[trigger] has_id(
                turned@[b as int],
                a,
            ) <==> has_id(old(turned)@[b as int], a) || (a == node && has_id(*list, b))) by {
                assert(has_id(before[b as int], a) <==> has_id(old(turned)@[b as int], a) || (a
                    == node && has_id(link.rest, b)));
            }
        },
    }
}

/// The graph with its edges turned round.
pub fn turn(graph: &Vec<Chain<u32>>) -> (turned: Vec<Chain<u32>>)
    requires
        graph_wf(graph@),
    ensures
        is_turned(graph@, turned@),
        graph_wf(turned@),
{
    let count: usize = graph.len();
    let mut turned: Vec<Chain<u32>> = Vec::new();
    let mut i: usize = 0;
    while i < count
        invariant
            i <= count,
            turned@.len() == i,
            forall|x: int| 0 <= x < i ==> (#[trigger] turned@[x]) is Empty,
        decreases count - i,
    {
        turned.push(Chain::new());
        i = i + 1;
    }
    let mut j: usize = 0;
    while j < count
        invariant
            j <= count,
            count == graph@.len(),
            graph_wf(graph@),
            turned@.len() == count,
            forall|b: u32, a: u32|
                b < count ==> (#[trigger] has_id(turned@[b as int], a) <==> a < j && edge(
                    graph@,
                    a,
                    b,
                )),
        decreases count - j,
    {
        let list = &graph[j];
        assert forall|y: u32| #[trigger] has_id(*list, y) implies y < turned@.len() by {
            assert(edge(graph@, j as u32, y));
        }
        turn_list(list, j as u32, &mut turned);
        assert forall|b: u32, a: u32| b < count implies (#[trigger] has_id(turned@[b as int], a)
            <==> a < j + 1 && edge(graph@, a, b)) by {}
        j = j + 1;
    }
    assert forall|a: u32, b: u32| a < graph@.len() && b < graph@.len() implies (#[trigger] edge(
        turned@,
        b,
        a,
    ) <==> edge(graph@, a, b)) by {
        assert(has_id(turned@[b as int], a) <==> edge(graph@, a, b));
    }
    assert forall|b: u32, a: u32| #[trigger] edge(turned@, b, a) implies a < turned@.len() by {
        assert(has_id(turned@[b as int], a));
    }
    turned
}

} // verus!
