//! What holds of the index of implementations and of the search through it.

use vstd::prelude::*;

#[allow(unused_imports)]
use crate::chain::{lemma_len, Chain};
#[allow(unused_imports)]
use crate::conformance::{
    bucket_headers, bucket_inserted, bucket_overlaps, buckets_ordered, buckets_sorted,
    header_placed, headers_ordered, headers_sorted, index_overlaps, matched, may_unify,
    overlaps_with, pair_le, pair_placed, Bucket, Goal, ImplHeader, ImplIndex, ParamEnv,
    SolveFailure, WitnessSelection, WitnessSource,
};
#[allow(unused_imports)]
use crate::ids::DefId;
#[allow(unused_imports)]
use crate::solver::{
    bindings_checked, bound_position, goal_substituted, has_goal, search, search_conditions,
    search_header, search_headers, solution, SEARCH_LIMIT,
};
#[allow(unused_imports)]
use crate::substitution::Substitution;
#[allow(unused_imports)]
use crate::ty::TyData;

verus! {

/// Every bucket is of a concept before `concept`.
spec fn buckets_before(buckets: Chain<Bucket>, concept: DefId) -> bool
    decreases buckets,
{
    match buckets {
        Chain::Empty => true,
        Chain::Link(link) => buckets_before(link.rest, concept) && link.item.concept.0 < concept.0,
    }
}

proof fn lemma_ordered_before(buckets: Chain<Bucket>, concept: DefId)
    requires
        buckets_ordered(buckets),
        buckets is Link ==> buckets->0.item.concept.0 < concept.0,
    ensures
        buckets_before(buckets, concept),
        bucket_headers(buckets, concept) == Chain::<ImplHeader>::Empty,
    decreases buckets,
{
    if buckets is Link {
        lemma_ordered_before(buckets.without_last(), concept);
    }
}

/// An implementation that enters the index stands behind the others of its
/// concept. Nothing else changes, and each concept still has one bucket.
pub proof fn law_insert(buckets: Chain<Bucket>, header: ImplHeader, concept: DefId)
    requires
        buckets_ordered(buckets),
    ensures
        buckets_ordered(bucket_inserted(buckets, header)),
        bucket_headers(bucket_inserted(buckets, header), concept) == (if concept
            == header.concept {
            bucket_headers(buckets, concept).pushed(header)
        } else {
            bucket_headers(buckets, concept)
        }),
    decreases buckets,
{
    if buckets is Link {
        let rest = buckets.without_last();
        law_insert(rest, header, concept);
        if buckets->0.item.concept.0 < header.concept.0 {
            lemma_ordered_before(buckets, header.concept);
        }
    }
}

proof fn lemma_header_placed(headers: Chain<ImplHeader>, header: ImplHeader)
    requires
        headers_ordered(headers),
    ensures
        headers_ordered(header_placed(headers, header)),
        header_placed(headers, header).seq().to_multiset() == headers.seq().to_multiset().insert(
            header,
        ),
    decreases headers,
{
    broadcast use vstd::seq_lib::group_to_multiset_ensures;

    if headers is Link && !(headers->0.item.definition.0 <= header.definition.0) {
        let rest = headers.without_last();
        lemma_header_placed(rest, header);
        assert(header_placed(headers, header).seq() == header_placed(rest, header).seq().push(
            headers->0.item,
        ));
        assert(headers.seq() == rest.seq().push(headers->0.item));
        assert(rest.seq().to_multiset().insert(header).insert(headers->0.item)
            =~= rest.seq().to_multiset().insert(headers->0.item).insert(header));
    } else {
        assert(header_placed(headers, header).seq() == headers.seq().push(header));
    }
}

/// Sorting headers gives the same headers, in the order of their definitions.
pub proof fn law_headers_sorted(headers: Chain<ImplHeader>)
    ensures
        headers_ordered(headers_sorted(headers)),
        headers_sorted(headers).seq().to_multiset() == headers.seq().to_multiset(),
    decreases headers,
{
    broadcast use vstd::seq_lib::group_to_multiset_ensures;

    if headers is Link {
        let rest = headers.without_last();
        let last = headers->0.item;
        law_headers_sorted(rest);
        lemma_header_placed(headers_sorted(rest), last);
        assert(headers.seq() == rest.seq().push(last));
    }
}

/// The order in which the headers of a finished index came does not show in
/// the order of their definitions: each concept has its own headers, sorted,
/// and each concept has one bucket.
pub proof fn law_finish(buckets: Chain<Bucket>, concept: DefId)
    ensures
        bucket_headers(buckets_sorted(buckets), concept) == headers_sorted(
            bucket_headers(buckets, concept),
        ),
        buckets_ordered(buckets) ==> buckets_ordered(buckets_sorted(buckets)),
    decreases buckets,
{
    if buckets is Link {
        law_finish(buckets.without_last(), concept);
    }
}

proof fn lemma_placed_last(headers: Chain<ImplHeader>, header: ImplHeader)
    requires
        headers_ordered(headers),
        headers is Link ==> headers->0.item.definition.0 <= header.definition.0,
    ensures
        header_placed(headers, header) == headers.pushed(header),
{
}

proof fn lemma_places_commute(headers: Chain<ImplHeader>, a: ImplHeader, b: ImplHeader)
    requires
        headers_ordered(headers),
        a.definition.0 < b.definition.0,
    ensures
        header_placed(header_placed(headers, a), b) == header_placed(header_placed(headers, b), a),
    decreases headers,
{
    if headers is Link {
        let rest = headers.without_last();
        let last = headers->0.item;
        if last.definition.0 <= a.definition.0 {
            lemma_placed_last(headers, a);
        } else if last.definition.0 <= b.definition.0 {
            lemma_placed_last(headers, b);
            lemma_header_placed(rest, a);
        } else {
            lemma_places_commute(rest, a, b);
        }
    }
}

/// A finished index does not depend on the order in which two implementations
/// came.
pub proof fn law_order_of_headers(headers: Chain<ImplHeader>, a: ImplHeader, b: ImplHeader)
    requires
        a.definition != b.definition,
    ensures
        headers_sorted(headers.pushed(a).pushed(b)) == headers_sorted(headers.pushed(b).pushed(a)),
{
    law_headers_sorted(headers);
    let sorted = headers_sorted(headers);
    assert(headers_sorted(headers.pushed(a)) == header_placed(sorted, a));
    assert(headers_sorted(headers.pushed(b)) == header_placed(sorted, b));
    assert(headers_sorted(headers.pushed(a).pushed(b)) == header_placed(
        header_placed(sorted, a),
        b,
    ));
    assert(headers_sorted(headers.pushed(b).pushed(a)) == header_placed(
        header_placed(sorted, b),
        a,
    ));
    if a.definition.0 < b.definition.0 {
        lemma_places_commute(sorted, a, b);
    } else {
        lemma_places_commute(sorted, b, a);
    }
}

/// The pairs are in order.
pub open spec fn pairs_ordered(pairs: Chain<(DefId, DefId)>) -> bool
    decreases pairs,
{
    match pairs {
        Chain::Empty => true,
        Chain::Link(link) => pairs_ordered(link.rest) && match link.rest {
            Chain::Empty => true,
            Chain::Link(before) => pair_le(before.item, link.item),
        },
    }
}

proof fn lemma_pair_placed(pairs: Chain<(DefId, DefId)>, pair: (DefId, DefId))
    requires
        pairs_ordered(pairs),
    ensures
        pairs_ordered(pair_placed(pairs, pair)),
        forall|other: (DefId, DefId)|
            pair_placed(pairs, pair).seq().contains(other) <==> pairs.seq().contains(other) || other
                == pair,
    decreases pairs,
{
    if pairs is Link && !pair_le(pairs->0.item, pair) {
        let rest = pairs.without_last();
        let last = pairs->0.item;
        lemma_pair_placed(rest, pair);
        lemma_contains_pushed(rest, last);
        lemma_contains_pushed(pair_placed(rest, pair), last);
        assert(pairs == rest.pushed(last));
        let placed = pair_placed(rest, pair);
        assert(pair_placed(pairs, pair) == placed.pushed(last));
        assert forall|other: (DefId, DefId)|
            placed.pushed(last).seq().contains(other) <==> rest.pushed(last).seq().contains(other)
                || other == pair by {
            assert(placed.seq().contains(other) <==> rest.seq().contains(other) || other == pair);
        }
    } else {
        lemma_contains_pushed(pairs, pair);
        assert(pair_placed(pairs, pair) == pairs.pushed(pair));
    }
}

proof fn lemma_contains_pushed<T>(list: Chain<T>, item: T)
    ensures
        forall|other: T|
            list.pushed(item).seq().contains(other) <==> list.seq().contains(other) || other
                == item,
{
    assert forall|other: T|
        list.pushed(item).seq().contains(other) <==> list.seq().contains(other) || other
            == item by {
        let longer = list.seq().push(item);
        assert(list.pushed(item).seq() == longer);
        if list.seq().contains(other) {
            let position = choose|i: int| 0 <= i < list.seq().len() && list.seq()[i] == other;
            assert(longer[position] == other);
        }
        if other == item {
            assert(longer[longer.len() - 1] == other);
        }
        if longer.contains(other) && other != item {
            let position = choose|i: int| 0 <= i < longer.len() && longer[i] == other;
            assert(list.seq()[position] == other);
        }
    }
}

/// Two headers, an earlier and a later one, whose targets may meet.
pub open spec fn meet(types: Seq<TyData>, headers: Seq<ImplHeader>, i: int, j: int) -> bool {
    0 <= i < j < headers.len() && may_unify(types, headers[i].target, headers[j].target)
}

/// The definitions of two headers.
pub open spec fn definitions(headers: Seq<ImplHeader>, i: int, j: int) -> (DefId, DefId) {
    (headers[i].definition, headers[j].definition)
}

/// A pair of definitions whose headers stand in one list and may meet.
pub open spec fn meets_in(
    types: Seq<TyData>,
    headers: Seq<ImplHeader>,
    pair: (DefId, DefId),
) -> bool {
    exists|i: int, j: int|
        #[trigger] meet(types, headers, i, j) && definitions(headers, i, j) == pair
}

/// A pair of definitions whose headers stand in one bucket and may meet.
pub open spec fn meets_in_bucket(
    types: Seq<TyData>,
    buckets: Chain<Bucket>,
    pair: (DefId, DefId),
) -> bool {
    exists|b: int|
        0 <= b < buckets.seq().len() && #[trigger] meets_in(
            types,
            buckets.seq()[b].headers.seq(),
            pair,
        )
}

proof fn lemma_overlaps_with(
    types: Seq<TyData>,
    earlier: Chain<ImplHeader>,
    right: ImplHeader,
    pairs: Chain<(DefId, DefId)>,
    pair: (DefId, DefId),
)
    requires
        pairs_ordered(pairs),
    ensures
        pairs_ordered(overlaps_with(types, earlier, right, pairs)),
        overlaps_with(types, earlier, right, pairs).seq().contains(pair) <==> pairs.seq().contains(
            pair,
        ) || exists|i: int|
            0 <= i < earlier.seq().len() && may_unify(
                types,
                (#[trigger] earlier.seq()[i]).target,
                right.target,
            ) && (earlier.seq()[i].definition, right.definition) == pair,
    decreases earlier,
{
    if earlier is Link {
        let rest = earlier.without_last();
        let last = earlier->0.item;
        lemma_overlaps_with(types, rest, right, pairs, pair);
        let before = overlaps_with(types, rest, right, pairs);
        assert(earlier.seq() == rest.seq().push(last));
        if may_unify(types, last.target, right.target) {
            lemma_pair_placed(before, (last.definition, right.definition));
        }
        assert(earlier.seq()[earlier.seq().len() - 1] == last);
        assert(forall|i: int| 0 <= i < rest.seq().len() ==> rest.seq()[i] == earlier.seq()[i]);
        if pairs.seq().contains(pair) || (exists|i: int|
            0 <= i < rest.seq().len() && may_unify(
                types,
                (#[trigger] rest.seq()[i]).target,
                right.target,
            ) && (rest.seq()[i].definition, right.definition) == pair) {
            if !pairs.seq().contains(pair) {
                let i = choose|i: int|
                    0 <= i < rest.seq().len() && may_unify(
                        types,
                        (#[trigger] rest.seq()[i]).target,
                        right.target,
                    ) && (rest.seq()[i].definition, right.definition) == pair;
                assert(earlier.seq()[i] == rest.seq()[i]);
            }
        }
    }
}

proof fn lemma_bucket_overlaps(
    types: Seq<TyData>,
    headers: Chain<ImplHeader>,
    pairs: Chain<(DefId, DefId)>,
    pair: (DefId, DefId),
)
    requires
        pairs_ordered(pairs),
    ensures
        pairs_ordered(bucket_overlaps(types, headers, pairs)),
        bucket_overlaps(types, headers, pairs).seq().contains(pair) <==> pairs.seq().contains(pair)
            || meets_in(types, headers.seq(), pair),
    decreases headers,
{
    if headers is Link {
        let rest = headers.without_last();
        let last = headers->0.item;
        lemma_bucket_overlaps(types, rest, pairs, pair);
        let before = bucket_overlaps(types, rest, pairs);
        lemma_overlaps_with(types, rest, last, before, pair);
        assert(headers.seq() == rest.seq().push(last));
        let end = headers.seq().len() - 1;
        assert(forall|i: int| 0 <= i < rest.seq().len() ==> rest.seq()[i] == headers.seq()[i]);
        if meets_in(types, rest.seq(), pair) {
            let (i, j) = choose|i: int, j: int|
                #[trigger] meet(types, rest.seq(), i, j) && definitions(rest.seq(), i, j) == pair;
            assert(meet(types, headers.seq(), i, j));
        }
        if exists|i: int|
            0 <= i < rest.seq().len() && may_unify(
                types,
                (#[trigger] rest.seq()[i]).target,
                last.target,
            ) && (rest.seq()[i].definition, last.definition) == pair {
            let i = choose|i: int|
                0 <= i < rest.seq().len() && may_unify(
                    types,
                    (#[trigger] rest.seq()[i]).target,
                    last.target,
                ) && (rest.seq()[i].definition, last.definition) == pair;
            assert(meet(types, headers.seq(), i, end));
            assert(definitions(headers.seq(), i, end) == pair);
        }
        if meets_in(types, headers.seq(), pair) {
            let (i, j) = choose|i: int, j: int|
                #[trigger] meet(types, headers.seq(), i, j) && definitions(headers.seq(), i, j)
                    == pair;
            if j < end {
                assert(meet(types, rest.seq(), i, j));
                assert(definitions(rest.seq(), i, j) == pair);
            } else {
                assert(rest.seq()[i] == headers.seq()[i]);
            }
        }
    }
}

/// The overlapping pairs are exactly those whose headers are of one concept
/// and may meet, and they come in order.
pub proof fn law_overlaps(types: Seq<TyData>, buckets: Chain<Bucket>, pair: (DefId, DefId))
    ensures
        pairs_ordered(index_overlaps(types, buckets)),
        index_overlaps(types, buckets).seq().contains(pair) <==> meets_in_bucket(
            types,
            buckets,
            pair,
        ),
    decreases buckets,
{
    if buckets is Link {
        let rest = buckets.without_last();
        let last = buckets->0.item;
        law_overlaps(types, rest, pair);
        lemma_bucket_overlaps(types, last.headers, index_overlaps(types, rest), pair);
        assert(buckets.seq() == rest.seq().push(last));
        let end = buckets.seq().len() - 1;
        assert(buckets.seq()[end] == last);
        if meets_in_bucket(types, rest, pair) {
            let b = choose|b: int|
                0 <= b < rest.seq().len() && #[trigger] meets_in(
                    types,
                    rest.seq()[b].headers.seq(),
                    pair,
                );
            assert(meets_in(types, buckets.seq()[b].headers.seq(), pair));
        }
        if meets_in_bucket(types, buckets, pair) {
            let b = choose|b: int|
                0 <= b < buckets.seq().len() && #[trigger] meets_in(
                    types,
                    buckets.seq()[b].headers.seq(),
                    pair,
                );
            if b < end {
                assert(meets_in(types, rest.seq()[b].headers.seq(), pair));
            }
        }
    }
}

pub proof fn lemma_bound_position(bounds: Chain<Goal>, goal: Goal)
    requires
        bounds.spec_len() <= usize::MAX,
    ensures
        match bound_position(bounds, goal) {
            Some(position) => position < bounds.seq().len() && bounds.seq()[position as int]
                == goal && forall|i: int| 0 <= i < position ==> bounds.seq()[i] != goal,
            None => !bounds.seq().contains(goal),
        },
    decreases bounds,
{
    if bounds is Link {
        let rest = bounds.without_last();
        let last = bounds->0.item;
        lemma_bound_position(rest, goal);
        lemma_len(rest);
        lemma_contains_pushed(rest, last);
        assert(bounds == rest.pushed(last));
        assert(bounds.seq() == rest.seq().push(last));
        if bound_position(rest, goal) is None {
            assert forall|i: int| 0 <= i < rest.seq().len() implies bounds.seq()[i] != goal by {
                assert(rest.seq()[i] == bounds.seq()[i]);
                assert(rest.seq().contains(rest.seq()[i]));
            }
        }
    }
}

/// A bound in scope is taken before any implementation: a goal that is one of
/// the bounds is solved by the first of them, whatever the index holds.
pub proof fn law_bounds_come_first(
    index: ImplIndex,
    environment: ParamEnv,
    types: Seq<TyData>,
    goal: Goal,
)
    requires
        environment.bounds.spec_len() <= usize::MAX,
        environment.bounds.seq().contains(goal),
    ensures
        ({
            let (after, result) = solution(index, environment, types, Chain::Empty, goal);
            after == types && match result {
                Ok(witness) => match witness.source {
                    WitnessSource::ParamBound(position) => {
                        &&& position < environment.bounds.seq().len()
                        &&& environment.bounds.seq()[position as int] == goal
                        &&& forall|i: int|
                            0 <= i < position ==> environment.bounds.seq()[i] != goal
                        &&& witness.associated_types == goal.concept.bindings
                        &&& witness.prerequisites is Empty
                    },
                    WitnessSource::Implementation(_) => false,
                },
                Err(_) => false,
            }
        }),
{
    lemma_bound_position(environment.bounds, goal);
}

/// A list of witnesses that all come from headers of a list and give the
/// associated types that a goal asks for.
spec fn witnesses_from(
    witnesses: Chain<WitnessSelection>,
    headers: Chain<ImplHeader>,
    goal: Goal,
) -> bool
    decreases witnesses,
{
    match witnesses {
        Chain::Empty => true,
        Chain::Link(link) => witnesses_from(link.rest, headers, goal) && witness_from(
            link.item,
            headers,
            goal,
        ),
    }
}

/// The witness is one of the implementations, and it gives every associated
/// type that the goal asks for.
pub open spec fn witness_from(
    witness: WitnessSelection,
    headers: Chain<ImplHeader>,
    goal: Goal,
) -> bool {
    &&& bindings_checked(goal.concept.bindings, witness.associated_types) == Ok::<
        (),
        SolveFailure,
    >(())
    &&& exists|i: int|
        0 <= i < headers.seq().len() && witness.source == WitnessSource::Implementation(
            (#[trigger] headers.seq()[i]).definition,
        )
}

proof fn lemma_witness_from_more(
    witnesses: Chain<WitnessSelection>,
    headers: Chain<ImplHeader>,
    header: ImplHeader,
    goal: Goal,
)
    requires
        witnesses_from(witnesses, headers, goal),
    ensures
        witnesses_from(witnesses, headers.pushed(header), goal),
    decreases witnesses,
{
    if witnesses is Link {
        lemma_witness_from_more(witnesses.without_last(), headers, header, goal);
        let longer = headers.pushed(header);
        let last = witnesses->0.item;
        let i = choose|i: int|
            0 <= i < headers.seq().len() && last.source == WitnessSource::Implementation(
                (#[trigger] headers.seq()[i]).definition,
            );
        assert(longer.seq() == headers.seq().push(header));
        assert(longer.seq()[i] == headers.seq()[i]);
    }
}

proof fn lemma_search_headers_sound(
    index: ImplIndex,
    environment: ParamEnv,
    types: Seq<TyData>,
    stack: Chain<Goal>,
    goal: Goal,
    headers: Chain<ImplHeader>,
    fuel: nat,
)
    ensures
        match search_headers(index, environment, types, stack, goal, headers, fuel).1 {
            Some(Ok(witnesses)) => witnesses_from(witnesses, headers, goal),
            _ => true,
        },
    decreases headers,
{
    if headers is Link {
        let rest = headers.without_last();
        let last = headers->0.item;
        lemma_search_headers_sound(index, environment, types, stack, goal, rest, fuel);
        match search_headers(index, environment, types, stack, goal, rest, fuel) {
            (between, Some(Ok(witnesses))) => {
                lemma_witness_from_more(witnesses, rest, last, goal);
                assert(headers == rest.pushed(last));
                assert(headers.seq() == rest.seq().push(last));
                match search_header(index, environment, between, stack, goal, last, fuel) {
                    (_, Some(Ok(Some(witness)))) => {
                        assert(headers.seq()[headers.seq().len() - 1] == last);
                        assert(witness_from(witness, headers, goal));
                    },
                    _ => {},
                }
            },
            _ => {},
        }
    }
}

/// The search through the implementations of the concept finds the witness and
/// no other.
pub open spec fn only_witness(
    index: ImplIndex,
    environment: ParamEnv,
    types: Seq<TyData>,
    goal: Goal,
    witness: WitnessSelection,
) -> bool {
    search_headers(
        index,
        environment,
        types,
        Chain::Empty.pushed(goal),
        goal,
        bucket_headers(index.buckets, goal.concept.concept),
        (SEARCH_LIMIT - 1) as nat,
    ).1 == Some(Ok::<Chain<WitnessSelection>, SolveFailure>(Chain::Empty.pushed(witness)))
}

/// A solved goal has a reason: a bound that is the goal itself, or the only
/// implementation of the concept that applies, which gives every associated
/// type asked for.
pub proof fn law_solution_is_sound(
    index: ImplIndex,
    environment: ParamEnv,
    types: Seq<TyData>,
    goal: Goal,
)
    requires
        environment.bounds.spec_len() <= usize::MAX,
    ensures
        match solution(index, environment, types, Chain::Empty, goal).1 {
            Ok(witness) => match witness.source {
                WitnessSource::ParamBound(position) => position < environment.bounds.seq().len()
                    && environment.bounds.seq()[position as int] == goal,
                WitnessSource::Implementation(_) => {
                    &&& witness_from(
                        witness,
                        bucket_headers(index.buckets, goal.concept.concept),
                        goal,
                    )
                    &&& only_witness(index, environment, types, goal, witness)
                },
            },
            Err(_) => true,
        },
{
    lemma_bound_position(environment.bounds, goal);
    if bound_position(environment.bounds, goal) is None {
        let stack = Chain::Empty.pushed(goal);
        let headers = bucket_headers(index.buckets, goal.concept.concept);
        let fuel = (SEARCH_LIMIT - 1) as nat;
        lemma_search_headers_sound(index, environment, types, stack, goal, headers, fuel);
        match search_headers(index, environment, types, stack, goal, headers, fuel).1 {
            Some(Ok(witnesses)) => {
                if witnesses is Link {
                    assert(witness_from(witnesses->0.item, headers, goal));
                }
            },
            _ => {},
        }
    }
}

/// A concept that nothing implements has no evidence but a bound.
pub proof fn law_nothing_implements(
    index: ImplIndex,
    environment: ParamEnv,
    types: Seq<TyData>,
    goal: Goal,
)
    requires
        environment.bounds.spec_len() <= usize::MAX,
        !environment.bounds.seq().contains(goal),
        bucket_headers(index.buckets, goal.concept.concept) is Empty,
    ensures
        solution(index, environment, types, Chain::Empty, goal) == (
            types,
            Err::<WitnessSelection, SolveFailure>(SolveFailure::Missing),
        ),
{
    lemma_bound_position(environment.bounds, goal);
    let stack = Chain::Empty.pushed(goal);
    let fuel = (SEARCH_LIMIT - 1) as nat;
    assert(search_headers(
        index,
        environment,
        types,
        stack,
        goal,
        Chain::Empty,
        fuel,
    ) == (types, Some(Ok::<Chain<WitnessSelection>, SolveFailure>(Chain::Empty))));
}

/// An answer of the search does not depend on its limit: once a limit gives
/// one, every larger limit gives the same.
pub proof fn law_limit_changes_no_answer(
    index: ImplIndex,
    environment: ParamEnv,
    types: Seq<TyData>,
    stack: Chain<Goal>,
    goal: Goal,
    fuel: nat,
    more: nat,
)
    requires
        fuel <= more,
        search(index, environment, types, stack, goal, fuel).1 is Some,
    ensures
        search(index, environment, types, stack, goal, more) == search(
            index,
            environment,
            types,
            stack,
            goal,
            fuel,
        ),
    decreases fuel, 0nat, 0nat,
{
    if !has_goal(stack, goal) && bound_position(environment.bounds, goal) is None {
        assert(fuel > 0);
        lemma_limit_headers(
            index,
            environment,
            types,
            stack.pushed(goal),
            goal,
            bucket_headers(index.buckets, goal.concept.concept),
            (fuel - 1) as nat,
            (more - 1) as nat,
        );
    }
}

proof fn lemma_limit_headers(
    index: ImplIndex,
    environment: ParamEnv,
    types: Seq<TyData>,
    stack: Chain<Goal>,
    goal: Goal,
    headers: Chain<ImplHeader>,
    fuel: nat,
    more: nat,
)
    requires
        fuel <= more,
        search_headers(index, environment, types, stack, goal, headers, fuel).1 is Some,
    ensures
        search_headers(index, environment, types, stack, goal, headers, more) == search_headers(
            index,
            environment,
            types,
            stack,
            goal,
            headers,
            fuel,
        ),
    decreases fuel, 3nat, headers.spec_len(),
{
    if headers is Link {
        let rest = headers.without_last();
        let last = headers->0.item;
        lemma_limit_headers(index, environment, types, stack, goal, rest, fuel, more);
        match search_headers(index, environment, types, stack, goal, rest, fuel) {
            (between, Some(Ok(_))) => {
                lemma_limit_header(index, environment, between, stack, goal, last, fuel, more);
            },
            _ => {},
        }
    }
}

proof fn lemma_limit_header(
    index: ImplIndex,
    environment: ParamEnv,
    types: Seq<TyData>,
    stack: Chain<Goal>,
    goal: Goal,
    header: ImplHeader,
    fuel: nat,
    more: nat,
)
    requires
        fuel <= more,
        search_header(index, environment, types, stack, goal, header, fuel).1 is Some,
    ensures
        search_header(index, environment, types, stack, goal, header, more) == search_header(
            index,
            environment,
            types,
            stack,
            goal,
            header,
            fuel,
        ),
    decreases fuel, 2nat, 0nat,
{
    let (substitution, applies) = matched(types, header.target, goal.self_ty, Substitution::empty());
    if applies {
        lemma_limit_conditions(
            index,
            environment,
            types,
            stack,
            header.conditions,
            substitution,
            fuel,
            more,
        );
    }
}

proof fn lemma_limit_conditions(
    index: ImplIndex,
    environment: ParamEnv,
    types: Seq<TyData>,
    stack: Chain<Goal>,
    conditions: Chain<Goal>,
    substitution: Substitution,
    fuel: nat,
    more: nat,
)
    requires
        fuel <= more,
        search_conditions(
            index,
            environment,
            types,
            stack,
            conditions,
            substitution,
            fuel,
        ).1 is Some,
    ensures
        search_conditions(index, environment, types, stack, conditions, substitution, more)
            == search_conditions(
            index,
            environment,
            types,
            stack,
            conditions,
            substitution,
            fuel,
        ),
    decreases fuel, 1nat, conditions.spec_len(),
{
    if conditions is Link {
        let rest = conditions.without_last();
        let last = conditions->0.item;
        lemma_limit_conditions(
            index,
            environment,
            types,
            stack,
            rest,
            substitution,
            fuel,
            more,
        );
        match search_conditions(index, environment, types, stack, rest, substitution, fuel) {
            (first, Some(Ok(_))) => {
                let (between, condition) = goal_substituted(first, last, substitution);
                law_limit_changes_no_answer(
                    index,
                    environment,
                    between,
                    stack,
                    condition,
                    fuel,
                    more,
                );
            },
            _ => {},
        }
    }
}

} // verus!
