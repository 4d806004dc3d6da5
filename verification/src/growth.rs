//! Types keep their places as more are made.

use vstd::prelude::*;

#[allow(unused_imports)]
use crate::chain::Chain;
#[allow(unused_imports)]
use crate::ids::{GenericParamId, TyId};
#[allow(unused_imports)]
use crate::substitution::{
    rebuilt, substituted, substituted_bindings, substituted_list, Substitution,
};
#[allow(unused_imports)]
use crate::ty::{
    all_below, bindings_below, first_types, interned, interned_ty, lemma_all_below_more,
    lemma_bindings_below_more, lemma_parts_below_more, parts_below, ty_data, types_wf,
    AssociatedTypeBinding, ConceptInstance, TyData,
};

verus! {

/// The types of `before` keep their places in `after`.
pub open spec fn grows(before: Seq<TyData>, after: Seq<TyData>) -> bool {
    before.len() <= after.len() && forall|i: int|
        0 <= i < before.len() ==> #[trigger] before[i] == after[i]
}

/// `grows`, as contracts speak of it.
#[verifier::opaque]
pub open spec fn later(before: Seq<TyData>, after: Seq<TyData>) -> bool {
    grows(before, after)
}

/// A table of types comes after itself.
pub broadcast proof fn lemma_later_itself(types: Seq<TyData>)
    requires
        #[trigger] types_wf(types),
    ensures
        later(types, types),
{
    reveal(later);
}

/// A table of types comes after those that an earlier one comes after.
pub broadcast proof fn lemma_later_through(
    first: Seq<TyData>,
    second: Seq<TyData>,
    third: Seq<TyData>,
)
    requires
        #[trigger] later(first, second),
        #[trigger] later(second, third),
    ensures
        later(first, third),
{
    reveal(later);
}

pub proof fn lemma_interned(types: Seq<TyData>, data: TyData)
    requires
        types_wf(types),
    ensures
        types_wf(interned(types, data)),
        grows(types, interned(types, data)),
{
    let after = interned(types, data);
    if after.len() > types.len() {
        assert(after == types.push(data));
        assert forall|i: int| 0 <= i < first_types().len() implies #[trigger] after[i]
            == first_types()[i] by {
            assert(types[i] == first_types()[i]);
        }
        assert forall|i: int, j: int| 0 <= i < j < after.len() implies after[i] != after[j] by {
            assert(types[i] == after[i]);
            assert(types.contains(types[i]));
            if j < types.len() {
                assert(types[j] == after[j]);
            }
        }
        assert forall|i: int| 0 <= i < after.len() implies parts_below(
            #[trigger] after[i],
            i,
        ) by {
            if i < types.len() {
                assert(parts_below(types[i], i));
            }
        }
    }
}

pub proof fn lemma_substituted(types: Seq<TyData>, ty: TyId, substitution: Substitution)
    requires
        types_wf(types),
    ensures
        types_wf(substituted(types, ty, substitution).0),
        grows(types, substituted(types, ty, substitution).0),
    decreases ty.0, 1nat, 0nat,
{
    if ty.0 < types.len() {
        assert(parts_below(types[ty.0 as int], ty.0 as int));
        match ty_data(types, ty) {
            TyData::Nominal { definition, arguments } => {
                lemma_substituted_list(types, arguments, substitution, ty.0);
                let (after, arguments) = substituted_list(types, arguments, substitution, ty.0);
                lemma_interned(after, TyData::Nominal { definition, arguments });
            },
            TyData::Tuple(elements) => {
                lemma_substituted_list(types, elements, substitution, ty.0);
                let (after, elements) = substituted_list(types, elements, substitution, ty.0);
                lemma_interned(after, TyData::Tuple(elements));
            },
            TyData::Option(element) => {
                lemma_substituted(types, element, substitution);
                let (after, element) = substituted(types, element, substitution);
                lemma_interned(after, TyData::Option(element));
            },
            TyData::Result { ok, error } => {
                lemma_substituted(types, ok, substitution);
                let (between, ok) = substituted(types, ok, substitution);
                lemma_substituted(between, error, substitution);
                let (after, error) = substituted(between, error, substitution);
                lemma_interned(after, TyData::Result { ok, error });
            },
            TyData::List(element) => {
                lemma_substituted(types, element, substitution);
                let (after, element) = substituted(types, element, substitution);
                lemma_interned(after, TyData::List(element));
            },
            TyData::TextMap(value) => {
                lemma_substituted(types, value, substitution);
                let (after, value) = substituted(types, value, substitution);
                lemma_interned(after, TyData::TextMap(value));
            },
            TyData::Task(output) => {
                lemma_substituted(types, output, substitution);
                let (after, output) = substituted(types, output, substitution);
                lemma_interned(after, TyData::Task(output));
            },
            TyData::TaskOutcome(output) => {
                lemma_substituted(types, output, substitution);
                let (after, output) = substituted(types, output, substitution);
                lemma_interned(after, TyData::TaskOutcome(output));
            },
            TyData::Projection { self_ty, concept, associated_type } => {
                lemma_substituted(types, self_ty, substitution);
                let (after, self_ty) = substituted(types, self_ty, substitution);
                lemma_interned(after, TyData::Projection { self_ty, concept, associated_type });
            },
            TyData::DynTarget(instance) => {
                lemma_substituted_bindings(types, instance.bindings, substitution, ty.0);
                let (after, bindings) = substituted_bindings(
                    types,
                    instance.bindings,
                    substitution,
                    ty.0,
                );
                lemma_interned(
                    after,
                    TyData::DynTarget(ConceptInstance { concept: instance.concept, bindings }),
                );
            },
            TyData::View { mutability, target } => {
                lemma_substituted(types, target, substitution);
                let (after, target) = substituted(types, target, substitution);
                lemma_interned(after, TyData::View { mutability, target });
            },
            _ => {},
        }
    }
}

pub proof fn lemma_substituted_list(
    types: Seq<TyData>,
    list: Chain<TyId>,
    substitution: Substitution,
    limit: u32,
)
    requires
        types_wf(types),
        all_below(list, limit as int),
    ensures
        types_wf(substituted_list(types, list, substitution, limit).0),
        grows(types, substituted_list(types, list, substitution, limit).0),
    decreases limit, 0nat, list.spec_len(),
{
    if list is Link {
        let rest = list.without_last();
        let last = list->0.item;
        lemma_substituted_list(types, rest, substitution, limit);
        let between = substituted_list(types, rest, substitution, limit).0;
        lemma_substituted(between, last, substitution);
    }
}

pub proof fn lemma_substituted_bindings(
    types: Seq<TyData>,
    list: Chain<AssociatedTypeBinding>,
    substitution: Substitution,
    limit: u32,
)
    requires
        types_wf(types),
        bindings_below(list, limit as int),
    ensures
        types_wf(substituted_bindings(types, list, substitution, limit).0),
        grows(types, substituted_bindings(types, list, substitution, limit).0),
    decreases limit, 0nat, list.spec_len(),
{
    if list is Link {
        let rest = list.without_last();
        let ty = list->0.item.ty;
        lemma_substituted_bindings(types, rest, substitution, limit);
        let between = substituted_bindings(types, rest, substitution, limit).0;
        lemma_substituted(between, ty, substitution);
    }
}

/// Making a shape again changes nothing, however many types came since.
proof fn lemma_interned_again(types: Seq<TyData>, data: TyData, more: Seq<TyData>)
    requires
        types_wf(types),
        types_wf(more),
        parts_below(data, types.len() as int),
        grows(interned(types, data), more),
    ensures
        interned_ty(types, data).0 < interned(types, data).len(),
        rebuilt(more, data) == (more, interned_ty(types, data)),
{
    let after = interned(types, data);
    lemma_parts_below_more(data, types.len() as int, more.len() as int);
    if types.contains(data) || types.len() < u32::MAX {
        let place = if types.contains(data) {
            types.index_of(data)
        } else {
            types.len() as int
        };
        assert(after[place] == data);
        assert(more[place] == data);
        assert(more.contains(data));
        let found = more.index_of(data);
        assert(more[found] == data);
        if found < place {
            assert(more[found] != more[place]);
        } else if place < found {
            assert(more[place] != more[found]);
        }
    } else {
        assert(more =~= types);
    }
}

/// The types that parameters stand for are types of the table.
pub open spec fn stands_for(types: Seq<TyData>, substitution: Substitution) -> bool {
    forall|parameter: GenericParamId|
        match #[trigger] substitution.lookup(parameter) {
            Some(ty) => ty.0 < types.len(),
            None => true,
        }
}

/// Replacing parameters again gives the same type and makes no more types,
/// however many came since.
pub proof fn lemma_substituted_again(
    types: Seq<TyData>,
    ty: TyId,
    substitution: Substitution,
    more: Seq<TyData>,
)
    requires
        types_wf(types),
        types_wf(more),
        ty.0 < types.len(),
        stands_for(types, substitution),
        grows(substituted(types, ty, substitution).0, more),
    ensures
        ({
            let (after, built) = substituted(types, ty, substitution);
            built.0 < after.len() && substituted(more, ty, substitution) == (more, built)
        }),
    decreases ty.0, 1nat, 0nat,
{
    let data = types[ty.0 as int];
    assert(parts_below(data, ty.0 as int));
    lemma_substituted(types, ty, substitution);
    assert(more[ty.0 as int] == data);
    match data {
        TyData::Nominal { definition, arguments } => {
            let (after, built) = substituted_list(types, arguments, substitution, ty.0);
            let shape = TyData::Nominal { definition, arguments: built };
            lemma_substituted_list(types, arguments, substitution, ty.0);
            lemma_interned(after, shape);
            lemma_list_substituted_again(types, arguments, substitution, more, ty.0);
            lemma_interned_again(after, shape, more);
        },
        TyData::Tuple(elements) => {
            let (after, built) = substituted_list(types, elements, substitution, ty.0);
            let shape = TyData::Tuple(built);
            lemma_substituted_list(types, elements, substitution, ty.0);
            lemma_interned(after, shape);
            lemma_list_substituted_again(types, elements, substitution, more, ty.0);
            lemma_interned_again(after, shape, more);
        },
        TyData::Result { ok, error } => {
            let (between, built_ok) = substituted(types, ok, substitution);
            lemma_substituted(types, ok, substitution);
            let (after, built_error) = substituted(between, error, substitution);
            lemma_substituted(between, error, substitution);
            let shape = TyData::Result { ok: built_ok, error: built_error };
            lemma_interned(after, shape);
            lemma_substituted_again(types, ok, substitution, more);
            lemma_substituted_again(between, error, substitution, more);
            lemma_interned_again(after, shape, more);
        },
        TyData::Option(part) => {
            let (after, built) = substituted(types, part, substitution);
            lemma_part_again(types, part, substitution, more, TyData::Option(built));
        },
        TyData::List(part) => {
            let (after, built) = substituted(types, part, substitution);
            lemma_part_again(types, part, substitution, more, TyData::List(built));
        },
        TyData::TextMap(part) => {
            let (after, built) = substituted(types, part, substitution);
            lemma_part_again(types, part, substitution, more, TyData::TextMap(built));
        },
        TyData::Task(part) => {
            let (after, built) = substituted(types, part, substitution);
            lemma_part_again(types, part, substitution, more, TyData::Task(built));
        },
        TyData::TaskOutcome(part) => {
            let (after, built) = substituted(types, part, substitution);
            lemma_part_again(types, part, substitution, more, TyData::TaskOutcome(built));
        },
        TyData::Projection { self_ty, concept, associated_type } => {
            let (after, built) = substituted(types, self_ty, substitution);
            let shape = TyData::Projection { self_ty: built, concept, associated_type };
            lemma_part_again(types, self_ty, substitution, more, shape);
        },
        TyData::View { mutability, target } => {
            let (after, built) = substituted(types, target, substitution);
            let shape = TyData::View { mutability, target: built };
            lemma_part_again(types, target, substitution, more, shape);
        },
        TyData::DynTarget(instance) => {
            let (after, built) = substituted_bindings(
                types,
                instance.bindings,
                substitution,
                ty.0,
            );
            let shape = TyData::DynTarget(
                ConceptInstance { concept: instance.concept, bindings: built },
            );
            lemma_substituted_bindings(types, instance.bindings, substitution, ty.0);
            lemma_interned(after, shape);
            lemma_bindings_substituted_again(
                types,
                instance.bindings,
                substitution,
                more,
                ty.0,
            );
            lemma_interned_again(after, shape, more);
        },
        _ => {},
    }
}

spec fn is_below(ty: TyId, limit: int) -> bool {
    ty.0 < limit
}

/// `lemma_substituted_again` for a type with one part, which is built as
/// `shape`.
proof fn lemma_part_again(
    types: Seq<TyData>,
    part: TyId,
    substitution: Substitution,
    more: Seq<TyData>,
    shape: TyData,
)
    requires
        types_wf(types),
        types_wf(more),
        part.0 < types.len(),
        stands_for(types, substitution),
        forall|limit: int|
            is_below(substituted(types, part, substitution).1, limit) ==> #[trigger] parts_below(
                shape,
                limit,
            ),
        grows(interned(substituted(types, part, substitution).0, shape), more),
    ensures
        ({
            let (after, built) = substituted(types, part, substitution);
            &&& substituted(more, part, substitution) == (more, built)
            &&& rebuilt(more, shape) == (more, interned_ty(after, shape))
            &&& interned_ty(after, shape).0 < interned(after, shape).len()
        }),
    decreases part.0, 2nat, 0nat,
{
    let after = substituted(types, part, substitution).0;
    lemma_substituted(types, part, substitution);
    lemma_interned(after, shape);
    lemma_substituted_again(types, part, substitution, more);
    lemma_interned_again(after, shape, more);
}

proof fn lemma_list_substituted_again(
    types: Seq<TyData>,
    list: Chain<TyId>,
    substitution: Substitution,
    more: Seq<TyData>,
    limit: u32,
)
    requires
        types_wf(types),
        types_wf(more),
        limit <= types.len(),
        all_below(list, limit as int),
        stands_for(types, substitution),
        grows(substituted_list(types, list, substitution, limit).0, more),
    ensures
        ({
            let (after, built) = substituted_list(types, list, substitution, limit);
            &&& all_below(built, after.len() as int)
            &&& substituted_list(more, list, substitution, limit) == (more, built)
        }),
    decreases limit, 0nat, list.spec_len(),
{
    if list is Link {
        let rest = list.without_last();
        let last = list->0.item;
        let (between, before) = substituted_list(types, rest, substitution, limit);
        lemma_substituted_list(types, rest, substitution, limit);
        lemma_substituted(between, last, substitution);
        let after = substituted(between, last, substitution).0;
        lemma_list_substituted_again(types, rest, substitution, more, limit);
        lemma_substituted_again(between, last, substitution, more);
        lemma_all_below_more(before, between.len() as int, after.len() as int);
    }
}

proof fn lemma_bindings_substituted_again(
    types: Seq<TyData>,
    list: Chain<AssociatedTypeBinding>,
    substitution: Substitution,
    more: Seq<TyData>,
    limit: u32,
)
    requires
        types_wf(types),
        types_wf(more),
        limit <= types.len(),
        bindings_below(list, limit as int),
        stands_for(types, substitution),
        grows(substituted_bindings(types, list, substitution, limit).0, more),
    ensures
        ({
            let (after, built) = substituted_bindings(types, list, substitution, limit);
            &&& bindings_below(built, after.len() as int)
            &&& substituted_bindings(more, list, substitution, limit) == (more, built)
        }),
    decreases limit, 0nat, list.spec_len(),
{
    if list is Link {
        let rest = list.without_last();
        let ty = list->0.item.ty;
        let (between, before) = substituted_bindings(types, rest, substitution, limit);
        lemma_substituted_bindings(types, rest, substitution, limit);
        lemma_substituted(between, ty, substitution);
        let after = substituted(between, ty, substitution).0;
        lemma_bindings_substituted_again(types, rest, substitution, more, limit);
        lemma_substituted_again(between, ty, substitution, more);
        lemma_bindings_below_more(before, between.len() as int, after.len() as int);
    }
}

} // verus!
