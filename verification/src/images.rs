//! What becomes of a type where parts of it are replaced, said of its shape.

use vstd::prelude::*;

use crate::chain::Chain;
use crate::growth::{grows, lemma_interned, lemma_substituted, lemma_substituted_bindings, lemma_substituted_list, stands_for};
use crate::ids::TyId;
use crate::substitution::{substituted, substituted_bindings, substituted_list, Substitution};
use crate::ty::{
    all_below,
    bindings_below,
    interned,
    interned_ty,
    law_intern,
    law_one_name,
    lemma_all_below_more,
    lemma_bindings_below_more,
    parts_below,
    ty_data,
    types_wf,
    AssociatedTypeBinding,
    ConceptInstance,
    TyData,
};
use crate::unify::{first_binding, instantiated, instantiated_bindings, instantiated_list};

verus! {

/// What is put for a type where it occurs.
pub enum Put {
    /// The type has the same shape as before, made of what is put for its
    /// parts.
    Parts,
    /// The type stays as it is.
    Same,
    /// This type stands in its place.
    Type(TyId),
    /// The type of this shape stands in its place.
    Shape(TyData),
}

/// What a substitution puts for a type: for a parameter that it has a type
/// for, that type.
pub open spec fn by_substitution(substitution: Substitution) -> spec_fn(TyData) -> Put {
    |data: TyData|
        match data {
            TyData::Param(parameter) => match substitution.lookup(parameter) {
                Some(ty) => Put::Type(ty),
                None => Put::Same,
            },
            _ => Put::Parts,
        }
}

/// What an instance of a concept on a type puts for a type: the type itself
/// for the `Self` of the concept, and what the instance binds for an
/// associated type of the concept. Interfaces are entered only where
/// `through_views` says so.
pub open spec fn by_instance(
    target: TyId,
    instance: ConceptInstance,
    through_views: bool,
) -> spec_fn(TyData) -> Put {
    |data: TyData|
        match data {
            TyData::SelfType(concept) => if concept == instance.concept {
                Put::Type(target)
            } else {
                Put::Same
            },
            TyData::Projection { self_ty: _, concept, associated_type } => if concept
                != instance.concept {
                Put::Same
            } else {
                match first_binding(instance.bindings, associated_type) {
                    Some(ty) => Put::Type(ty),
                    None => Put::Shape(
                        TyData::Projection { self_ty: target, concept, associated_type },
                    ),
                }
            },
            TyData::View { mutability: _, target: _ } => if through_views {
                Put::Parts
            } else {
                Put::Same
            },
            TyData::DynTarget(_) => if through_views {
                Put::Parts
            } else {
                Put::Same
            },
            _ => Put::Parts,
        }
}

/// `to` is `from` with everything put in its place.
pub open spec fn becomes(
    types: Seq<TyData>,
    from: TyId,
    to: TyId,
    puts: spec_fn(TyData) -> Put,
) -> bool
    decreases from.0, 1nat, 0nat,
    when types_wf(types)
{
    let data = ty_data(types, from);
    match puts(data) {
        Put::Same => to == from,
        Put::Type(ty) => to == ty,
        Put::Shape(shape) => to.0 < types.len() && types[to.0 as int] == shape,
        Put::Parts => match (data, ty_data(types, to)) {
            (TyData::Option(a), TyData::Option(b)) => becomes(types, a, b, puts),
            (TyData::List(a), TyData::List(b)) => becomes(types, a, b, puts),
            (TyData::TextMap(a), TyData::TextMap(b)) => becomes(types, a, b, puts),
            (TyData::Task(a), TyData::Task(b)) => becomes(types, a, b, puts),
            (TyData::TaskOutcome(a), TyData::TaskOutcome(b)) => becomes(types, a, b, puts),
            (
                TyData::Result { ok: a, error: c },
                TyData::Result { ok: b, error: d },
            ) => becomes(types, a, b, puts) && becomes(types, c, d, puts),
            (
                TyData::Projection { self_ty: a, concept: c, associated_type: s },
                TyData::Projection { self_ty: b, concept: d, associated_type: t },
            ) => becomes(types, a, b, puts) && c == d && s == t,
            (
                TyData::View { mutability: m, target: a },
                TyData::View { mutability: n, target: b },
            ) => becomes(types, a, b, puts) && m == n,
            (
                TyData::Nominal { definition: c, arguments: a },
                TyData::Nominal { definition: d, arguments: b },
            ) => c == d && all_become(types, a, b, puts, from.0),
            (TyData::Tuple(a), TyData::Tuple(b)) => all_become(types, a, b, puts, from.0),
            (TyData::DynTarget(a), TyData::DynTarget(b)) => a.concept == b.concept
                && bindings_become(types, a.bindings, b.bindings, puts, from.0),
            (TyData::Error, _) => to == from,
            (TyData::Never, _) => to == from,
            (TyData::Builtin(_), _) => to == from,
            (TyData::Param(_), _) => to == from,
            (TyData::SelfType(_), _) => to == from,
            _ => false,
        },
    }
}

/// The types of one list become those of another, each at its position. Those
/// of the first are parts of the type `limit`.
pub open spec fn all_become(
    types: Seq<TyData>,
    from: Chain<TyId>,
    to: Chain<TyId>,
    puts: spec_fn(TyData) -> Put,
    limit: u32,
) -> bool
    decreases limit, 0nat, from.spec_len(),
    when types_wf(types) && all_below(from, limit as int)
{
    match (from, to) {
        (Chain::Empty, Chain::Empty) => true,
        (Chain::Link(a), Chain::Link(b)) => all_become(types, a.rest, b.rest, puts, limit)
            && becomes(types, a.item, b.item, puts),
        _ => false,
    }
}

/// The bindings of one list become those of another, for the same associated
/// types.
pub open spec fn bindings_become(
    types: Seq<TyData>,
    from: Chain<AssociatedTypeBinding>,
    to: Chain<AssociatedTypeBinding>,
    puts: spec_fn(TyData) -> Put,
    limit: u32,
) -> bool
    decreases limit, 0nat, from.spec_len(),
    when types_wf(types) && bindings_below(from, limit as int)
{
    match (from, to) {
        (Chain::Empty, Chain::Empty) => true,
        (Chain::Link(a), Chain::Link(b)) => bindings_become(types, a.rest, b.rest, puts, limit)
            && a.item.associated_type == b.item.associated_type && becomes(
            types,
            a.item.ty,
            b.item.ty,
            puts,
        ),
        _ => false,
    }
}

/// What becomes of a type does not change as more types are made.
pub proof fn lemma_becomes_later(
    types: Seq<TyData>,
    more: Seq<TyData>,
    from: TyId,
    to: TyId,
    puts: spec_fn(TyData) -> Put,
)
    requires
        types_wf(types),
        types_wf(more),
        grows(types, more),
        from.0 < types.len(),
        becomes(types, from, to, puts),
    ensures
        becomes(more, from, to, puts),
    decreases from.0, 1nat, 0nat,
{
    let data = types[from.0 as int];
    assert(more[from.0 as int] == data);
    assert(parts_below(data, from.0 as int));
    if to.0 < types.len() {
        assert(more[to.0 as int] == types[to.0 as int]);
    }
    match (data, ty_data(types, to)) {
        (TyData::Option(a), TyData::Option(b)) => lemma_becomes_maybe(types, more, a, b, puts),
        (TyData::List(a), TyData::List(b)) => lemma_becomes_maybe(types, more, a, b, puts),
        (TyData::TextMap(a), TyData::TextMap(b)) => lemma_becomes_maybe(types, more, a, b, puts),
        (TyData::Task(a), TyData::Task(b)) => lemma_becomes_maybe(types, more, a, b, puts),
        (TyData::TaskOutcome(a), TyData::TaskOutcome(b)) => {
            lemma_becomes_maybe(types, more, a, b, puts);
        },
        (TyData::Result { ok: a, error: c }, TyData::Result { ok: b, error: d }) => {
            lemma_becomes_maybe(types, more, a, b, puts);
            lemma_becomes_maybe(types, more, c, d, puts);
        },
        (TyData::Projection { self_ty: a, .. }, TyData::Projection { self_ty: b, .. }) => {
            lemma_becomes_maybe(types, more, a, b, puts);
        },
        (TyData::View { target: a, .. }, TyData::View { target: b, .. }) => {
            lemma_becomes_maybe(types, more, a, b, puts);
        },
        (TyData::Nominal { arguments: a, .. }, TyData::Nominal { arguments: b, .. }) => {
            lemma_all_become_later(types, more, a, b, puts, from.0);
        },
        (TyData::Tuple(a), TyData::Tuple(b)) => {
            lemma_all_become_later(types, more, a, b, puts, from.0);
        },
        (TyData::DynTarget(a), TyData::DynTarget(b)) => {
            lemma_bindings_become_later(types, more, a.bindings, b.bindings, puts, from.0);
        },
        _ => {},
    }
}

proof fn lemma_becomes_maybe(
    types: Seq<TyData>,
    more: Seq<TyData>,
    from: TyId,
    to: TyId,
    puts: spec_fn(TyData) -> Put,
)
    requires
        types_wf(types),
        types_wf(more),
        grows(types, more),
        from.0 < types.len(),
    ensures
        becomes(types, from, to, puts) ==> becomes(more, from, to, puts),
    decreases from.0, 2nat, 0nat,
{
    if becomes(types, from, to, puts) {
        lemma_becomes_later(types, more, from, to, puts);
    }
}

proof fn lemma_all_become_later(
    types: Seq<TyData>,
    more: Seq<TyData>,
    from: Chain<TyId>,
    to: Chain<TyId>,
    puts: spec_fn(TyData) -> Put,
    limit: u32,
)
    requires
        types_wf(types),
        types_wf(more),
        grows(types, more),
        limit <= types.len(),
        all_below(from, limit as int),
    ensures
        all_become(types, from, to, puts, limit) ==> all_become(more, from, to, puts, limit),
    decreases limit, 0nat, from.spec_len(),
{
    if from is Link && to is Link {
        let a = from->0.item;
        let b = to->0.item;
        lemma_all_become_later(types, more, from.without_last(), to.without_last(), puts, limit);
        lemma_becomes_maybe(types, more, a, b, puts);
    }
}

proof fn lemma_bindings_become_later(
    types: Seq<TyData>,
    more: Seq<TyData>,
    from: Chain<AssociatedTypeBinding>,
    to: Chain<AssociatedTypeBinding>,
    puts: spec_fn(TyData) -> Put,
    limit: u32,
)
    requires
        types_wf(types),
        types_wf(more),
        grows(types, more),
        limit <= types.len(),
        bindings_below(from, limit as int),
    ensures
        bindings_become(types, from, to, puts, limit) ==> bindings_become(
            more,
            from,
            to,
            puts,
            limit,
        ),
    decreases limit, 0nat, from.spec_len(),
{
    if from is Link && to is Link {
        let a = from->0.item.ty;
        let b = to->0.item.ty;
        lemma_bindings_become_later(
            types,
            more,
            from.without_last(),
            to.without_last(),
            puts,
            limit,
        );
        lemma_becomes_maybe(types, more, a, b, puts);
    }
}

/// A type becomes one type and no other.
pub proof fn law_one_image(
    types: Seq<TyData>,
    from: TyId,
    to: TyId,
    other: TyId,
    puts: spec_fn(TyData) -> Put,
)
    requires
        types_wf(types),
        becomes(types, from, to, puts),
        becomes(types, from, other, puts),
    ensures
        to == other,
    decreases from.0, 1nat, 0nat,
{
    let data = ty_data(types, from);
    if from.0 < types.len() {
        assert(parts_below(types[from.0 as int], from.0 as int));
    }
    if to.0 < types.len() && other.0 < types.len() {
        law_one_name(types, to, other);
    }
    if puts(data) is Parts {
        match (data, ty_data(types, to), ty_data(types, other)) {
            (TyData::Option(a), TyData::Option(b), TyData::Option(c)) => {
                law_one_image(types, a, b, c, puts);
            },
            (TyData::List(a), TyData::List(b), TyData::List(c)) => {
                law_one_image(types, a, b, c, puts);
            },
            (TyData::TextMap(a), TyData::TextMap(b), TyData::TextMap(c)) => {
                law_one_image(types, a, b, c, puts);
            },
            (TyData::Task(a), TyData::Task(b), TyData::Task(c)) => {
                law_one_image(types, a, b, c, puts);
            },
            (TyData::TaskOutcome(a), TyData::TaskOutcome(b), TyData::TaskOutcome(c)) => {
                law_one_image(types, a, b, c, puts);
            },
            (
                TyData::Result { ok: a, error: d },
                TyData::Result { ok: b, error: e },
                TyData::Result { ok: c, error: f },
            ) => {
                law_one_image(types, a, b, c, puts);
                law_one_image(types, d, e, f, puts);
            },
            (
                TyData::Projection { self_ty: a, .. },
                TyData::Projection { self_ty: b, .. },
                TyData::Projection { self_ty: c, .. },
            ) => law_one_image(types, a, b, c, puts),
            (
                TyData::View { target: a, .. },
                TyData::View { target: b, .. },
                TyData::View { target: c, .. },
            ) => law_one_image(types, a, b, c, puts),
            (
                TyData::Nominal { arguments: a, .. },
                TyData::Nominal { arguments: b, .. },
                TyData::Nominal { arguments: c, .. },
            ) => lemma_one_list(types, a, b, c, puts, from.0),
            (TyData::Tuple(a), TyData::Tuple(b), TyData::Tuple(c)) => {
                lemma_one_list(types, a, b, c, puts, from.0);
            },
            (TyData::DynTarget(a), TyData::DynTarget(b), TyData::DynTarget(c)) => {
                lemma_one_binding_list(types, a.bindings, b.bindings, c.bindings, puts, from.0);
            },
            _ => {},
        }
    }
}

proof fn lemma_one_list(
    types: Seq<TyData>,
    from: Chain<TyId>,
    to: Chain<TyId>,
    other: Chain<TyId>,
    puts: spec_fn(TyData) -> Put,
    limit: u32,
)
    requires
        types_wf(types),
        all_below(from, limit as int),
        all_become(types, from, to, puts, limit),
        all_become(types, from, other, puts, limit),
    ensures
        to == other,
    decreases limit, 0nat, from.spec_len(),
{
    if from is Link {
        let a = from->0.item;
        let b = to->0.item;
        let c = other->0.item;
        lemma_one_list(
            types,
            from.without_last(),
            to.without_last(),
            other.without_last(),
            puts,
            limit,
        );
        law_one_image(types, a, b, c, puts);
    }
}

proof fn lemma_one_binding_list(
    types: Seq<TyData>,
    from: Chain<AssociatedTypeBinding>,
    to: Chain<AssociatedTypeBinding>,
    other: Chain<AssociatedTypeBinding>,
    puts: spec_fn(TyData) -> Put,
    limit: u32,
)
    requires
        types_wf(types),
        bindings_below(from, limit as int),
        bindings_become(types, from, to, puts, limit),
        bindings_become(types, from, other, puts, limit),
    ensures
        to == other,
    decreases limit, 0nat, from.spec_len(),
{
    if from is Link {
        let a = from->0.item.ty;
        let b = to->0.item.ty;
        let c = other->0.item.ty;
        lemma_one_binding_list(
            types,
            from.without_last(),
            to.without_last(),
            other.without_last(),
            puts,
            limit,
        );
        law_one_image(types, a, b, c, puts);
    }
}

/// A shape that is made while there is room is in the table.
proof fn lemma_shaped(types: Seq<TyData>, shape: TyData)
    requires
        types_wf(types),
        parts_below(shape, types.len() as int),
        interned(types, shape).len() < u32::MAX,
    ensures
        types_wf(interned(types, shape)),
        grows(types, interned(types, shape)),
        interned_ty(types, shape).0 < interned(types, shape).len(),
        ty_data(interned(types, shape), interned_ty(types, shape)) == shape,
{
    lemma_interned(types, shape);
    law_intern(types, shape);
    if types.contains(shape) {
        assert(types[types.index_of(shape)] == shape);
    }
}

/// Replacing parameters gives the type that `ty` becomes: every parameter that
/// has a type is that type, and everything else is as it was.
pub proof fn law_substitution_replaces(
    types: Seq<TyData>,
    ty: TyId,
    substitution: Substitution,
)
    requires
        types_wf(types),
        ty.0 < types.len(),
        stands_for(types, substitution),
        substituted(types, ty, substitution).0.len() < u32::MAX,
    ensures
        ({
            let (after, to) = substituted(types, ty, substitution);
            &&& types_wf(after)
            &&& grows(types, after)
            &&& to.0 < after.len()
            &&& becomes(after, ty, to, by_substitution(substitution))
        }),
    decreases ty.0, 1nat, 0nat,
{
    let puts = by_substitution(substitution);
    let data = types[ty.0 as int];
    assert(parts_below(data, ty.0 as int));
    let (after, to) = substituted(types, ty, substitution);
    lemma_substituted(types, ty, substitution);
    assert(after[ty.0 as int] == data);
    match data {
        TyData::Option(part) => {
            let (between, built) = substituted(types, part, substitution);
            let shape = TyData::Option(built);
    lemma_substituted(types, part, substitution);
            lemma_interned(between, shape);
            law_substitution_replaces(types, part, substitution);
            lemma_shaped(between, shape);
            lemma_becomes_later(between, after, part, built, puts);
        },
        TyData::List(part) => {
            let (between, built) = substituted(types, part, substitution);
            let shape = TyData::List(built);
    lemma_substituted(types, part, substitution);
            lemma_interned(between, shape);
            law_substitution_replaces(types, part, substitution);
            lemma_shaped(between, shape);
            lemma_becomes_later(between, after, part, built, puts);
        },
        TyData::TextMap(part) => {
            let (between, built) = substituted(types, part, substitution);
            let shape = TyData::TextMap(built);
    lemma_substituted(types, part, substitution);
            lemma_interned(between, shape);
            law_substitution_replaces(types, part, substitution);
            lemma_shaped(between, shape);
            lemma_becomes_later(between, after, part, built, puts);
        },
        TyData::Task(part) => {
            let (between, built) = substituted(types, part, substitution);
            let shape = TyData::Task(built);
    lemma_substituted(types, part, substitution);
            lemma_interned(between, shape);
            law_substitution_replaces(types, part, substitution);
            lemma_shaped(between, shape);
            lemma_becomes_later(between, after, part, built, puts);
        },
        TyData::TaskOutcome(part) => {
            let (between, built) = substituted(types, part, substitution);
            let shape = TyData::TaskOutcome(built);
    lemma_substituted(types, part, substitution);
            lemma_interned(between, shape);
            law_substitution_replaces(types, part, substitution);
            lemma_shaped(between, shape);
            lemma_becomes_later(between, after, part, built, puts);
        },
        TyData::Projection { self_ty, concept, associated_type } => {
            let (between, built) = substituted(types, self_ty, substitution);
            let shape = TyData::Projection { self_ty: built, concept, associated_type };
    lemma_substituted(types, self_ty, substitution);
            lemma_interned(between, shape);
            law_substitution_replaces(types, self_ty, substitution);
            lemma_shaped(between, shape);
            lemma_becomes_later(between, after, self_ty, built, puts);
        },
        TyData::View { mutability, target: inner } => {
            let (between, built) = substituted(types, inner, substitution);
            let shape = TyData::View { mutability, target: built };
    lemma_substituted(types, inner, substitution);
            lemma_interned(between, shape);
            law_substitution_replaces(types, inner, substitution);
            lemma_shaped(between, shape);
            lemma_becomes_later(between, after, inner, built, puts);
        },
        TyData::Result { ok, error } => {
            let (first, built_ok) = substituted(types, ok, substitution);
            let (between, built_error) = substituted(first, error, substitution);
            let shape = TyData::Result { ok: built_ok, error: built_error };
    lemma_substituted(types, ok, substitution);
    lemma_substituted(first, error, substitution);
            lemma_interned(between, shape);
            law_substitution_replaces(types, ok, substitution);
            law_substitution_replaces(first, error, substitution);
            lemma_shaped(between, shape);
            lemma_becomes_later(first, after, ok, built_ok, puts);
            lemma_becomes_later(between, after, error, built_error, puts);
        },
        TyData::Nominal { definition, arguments } => {
            let (between, built) = substituted_list(types, arguments, substitution, ty.0);
            let shape = TyData::Nominal { definition, arguments: built };
    lemma_substituted_list(types, arguments, substitution, ty.0);
            lemma_interned(between, shape);
            lemma_list_replaced(types, arguments, substitution, ty.0);
            lemma_shaped(between, shape);
            lemma_all_become_later(between, after, arguments, built, puts, ty.0);
        },
        TyData::Tuple(elements) => {
            let (between, built) = substituted_list(types, elements, substitution, ty.0);
            let shape = TyData::Tuple(built);
    lemma_substituted_list(types, elements, substitution, ty.0);
            lemma_interned(between, shape);
            lemma_list_replaced(types, elements, substitution, ty.0);
            lemma_shaped(between, shape);
            lemma_all_become_later(between, after, elements, built, puts, ty.0);
        },
        TyData::DynTarget(erased) => {
            let (between, built) = substituted_bindings(types, erased.bindings, substitution, ty.0);
            let shape = TyData::DynTarget(
                ConceptInstance { concept: erased.concept, bindings: built },
            );
    lemma_substituted_bindings(types, erased.bindings, substitution, ty.0);
            lemma_interned(between, shape);
            lemma_bindings_replaced(types, erased.bindings, substitution, ty.0);
            lemma_shaped(between, shape);
            lemma_bindings_become_later(between, after, erased.bindings, built, puts, ty.0);
        },
        _ => {},
    }
}

proof fn lemma_list_replaced(
    types: Seq<TyData>,
    list: Chain<TyId>,
    substitution: Substitution,
    limit: u32,
)
    requires
        types_wf(types),
        limit <= types.len(),
        all_below(list, limit as int),
        stands_for(types, substitution),
        substituted_list(types, list, substitution, limit).0.len() < u32::MAX,
    ensures
        ({
            let (after, built) = substituted_list(types, list, substitution, limit);
            &&& types_wf(after)
            &&& grows(types, after)
            &&& all_below(built, after.len() as int)
            &&& all_become(after, list, built, by_substitution(substitution), limit)
        }),
    decreases limit, 0nat, list.spec_len(),
{
    if list is Link {
        let puts = by_substitution(substitution);
        let rest = list.without_last();
        let last = list->0.item;
        let (between, before) = substituted_list(types, rest, substitution, limit);
    lemma_substituted_list(types, rest, substitution, limit);
        let (after, built) = substituted(between, last, substitution);
    lemma_substituted(between, last, substitution);
        lemma_list_replaced(types, rest, substitution, limit);
        law_substitution_replaces(between, last, substitution);
        lemma_all_below_more(before, between.len() as int, after.len() as int);
        lemma_all_become_later(between, after, rest, before, puts, limit);
    }
}

proof fn lemma_bindings_replaced(
    types: Seq<TyData>,
    list: Chain<AssociatedTypeBinding>,
    substitution: Substitution,
    limit: u32,
)
    requires
        types_wf(types),
        limit <= types.len(),
        bindings_below(list, limit as int),
        stands_for(types, substitution),
        substituted_bindings(types, list, substitution, limit).0.len() < u32::MAX,
    ensures
        ({
            let (after, built) = substituted_bindings(types, list, substitution, limit);
            &&& types_wf(after)
            &&& grows(types, after)
            &&& bindings_below(built, after.len() as int)
            &&& bindings_become(after, list, built, by_substitution(substitution), limit)
        }),
    decreases limit, 0nat, list.spec_len(),
{
    if list is Link {
        let puts = by_substitution(substitution);
        let rest = list.without_last();
        let last = list->0.item.ty;
        let (between, before) = substituted_bindings(types, rest, substitution, limit);
    lemma_substituted_bindings(types, rest, substitution, limit);
        let (after, built) = substituted(between, last, substitution);
    lemma_substituted(between, last, substitution);
        lemma_bindings_replaced(types, rest, substitution, limit);
        law_substitution_replaces(between, last, substitution);
        lemma_bindings_below_more(before, between.len() as int, after.len() as int);
        lemma_bindings_become_later(between, after, rest, before, puts, limit);
    }
}

proof fn lemma_first_binding(
    list: Chain<AssociatedTypeBinding>,
    associated_type: crate::ids::DefId,
    limit: int,
)
    requires
        bindings_below(list, limit),
    ensures
        match first_binding(list, associated_type) {
            Some(ty) => ty.0 < limit,
            None => true,
        },
    decreases list,
{
    if list is Link {
        lemma_first_binding(list.without_last(), associated_type, limit);
    }
}

pub proof fn lemma_instantiated(
    types: Seq<TyData>,
    ty: TyId,
    target: TyId,
    instance: ConceptInstance,
    through_views: bool,
)
    requires
        types_wf(types),
    ensures
        types_wf(instantiated(types, ty, target, instance, through_views).0),
        grows(types, instantiated(types, ty, target, instance, through_views).0),
    decreases ty.0, 1nat, 0nat,
{
    if ty.0 < types.len() {
        assert(parts_below(types[ty.0 as int], ty.0 as int));
        match ty_data(types, ty) {
            TyData::Option(part) => {
                lemma_instantiated(types, part, target, instance, through_views);
                let (after, built) = instantiated(types, part, target, instance, through_views);
                lemma_interned(after, TyData::Option(built));
            },
            TyData::List(part) => {
                lemma_instantiated(types, part, target, instance, through_views);
                let (after, built) = instantiated(types, part, target, instance, through_views);
                lemma_interned(after, TyData::List(built));
            },
            TyData::TextMap(part) => {
                lemma_instantiated(types, part, target, instance, through_views);
                let (after, built) = instantiated(types, part, target, instance, through_views);
                lemma_interned(after, TyData::TextMap(built));
            },
            TyData::Task(part) => {
                lemma_instantiated(types, part, target, instance, through_views);
                let (after, built) = instantiated(types, part, target, instance, through_views);
                lemma_interned(after, TyData::Task(built));
            },
            TyData::TaskOutcome(part) => {
                lemma_instantiated(types, part, target, instance, through_views);
                let (after, built) = instantiated(types, part, target, instance, through_views);
                lemma_interned(after, TyData::TaskOutcome(built));
            },
            TyData::View { mutability, target: inner } => {
                lemma_instantiated(types, inner, target, instance, through_views);
                let (after, built) = instantiated(types, inner, target, instance, through_views);
                lemma_interned(after, TyData::View { mutability, target: built });
            },
            TyData::Projection { self_ty: _, concept, associated_type } => {
                lemma_interned(
                    types,
                    TyData::Projection { self_ty: target, concept, associated_type },
                );
            },
            TyData::Result { ok, error } => {
                lemma_instantiated(types, ok, target, instance, through_views);
                let (between, ok) = instantiated(types, ok, target, instance, through_views);
                lemma_instantiated(between, error, target, instance, through_views);
                let (after, error) = instantiated(between, error, target, instance, through_views);
                lemma_interned(after, TyData::Result { ok, error });
            },
            TyData::Nominal { definition, arguments } => {
                lemma_instantiated_list(types, arguments, target, instance, through_views, ty.0);
                let (after, arguments) = instantiated_list(
                    types,
                    arguments,
                    target,
                    instance,
                    through_views,
                    ty.0,
                );
                lemma_interned(after, TyData::Nominal { definition, arguments });
            },
            TyData::Tuple(elements) => {
                lemma_instantiated_list(types, elements, target, instance, through_views, ty.0);
                let (after, elements) = instantiated_list(
                    types,
                    elements,
                    target,
                    instance,
                    through_views,
                    ty.0,
                );
                lemma_interned(after, TyData::Tuple(elements));
            },
            TyData::DynTarget(inner) => {
                lemma_instantiated_bindings(types, inner.bindings, target, instance, ty.0);
                let (after, bindings) = instantiated_bindings(
                    types,
                    inner.bindings,
                    target,
                    instance,
                    ty.0,
                );
                lemma_interned(
                    after,
                    TyData::DynTarget(ConceptInstance { concept: inner.concept, bindings }),
                );
            },
            _ => {},
        }
    }
}

proof fn lemma_instantiated_list(
    types: Seq<TyData>,
    list: Chain<TyId>,
    target: TyId,
    instance: ConceptInstance,
    through_views: bool,
    limit: u32,
)
    requires
        types_wf(types),
        all_below(list, limit as int),
    ensures
        types_wf(instantiated_list(types, list, target, instance, through_views, limit).0),
        grows(types, instantiated_list(types, list, target, instance, through_views, limit).0),
    decreases limit, 0nat, list.spec_len(),
{
    if list is Link {
        let rest = list.without_last();
        let last = list->0.item;
        lemma_instantiated_list(types, rest, target, instance, through_views, limit);
        let between = instantiated_list(types, rest, target, instance, through_views, limit).0;
        lemma_instantiated(between, last, target, instance, through_views);
    }
}

proof fn lemma_instantiated_bindings(
    types: Seq<TyData>,
    list: Chain<AssociatedTypeBinding>,
    target: TyId,
    instance: ConceptInstance,
    limit: u32,
)
    requires
        types_wf(types),
        bindings_below(list, limit as int),
    ensures
        types_wf(instantiated_bindings(types, list, target, instance, limit).0),
        grows(types, instantiated_bindings(types, list, target, instance, limit).0),
    decreases limit, 0nat, list.spec_len(),
{
    if list is Link {
        let rest = list.without_last();
        let last = list->0.item.ty;
        lemma_instantiated_bindings(types, rest, target, instance, limit);
        let between = instantiated_bindings(types, rest, target, instance, limit).0;
        lemma_instantiated(between, last, target, instance, true);
    }
}

/// Instantiating a type of a concept gives the type that it becomes: `Self` is
/// the concrete type, an associated type is what the instance binds for it,
/// and everything else is as it was.
#[verifier::rlimit(60)]
#[verifier::spinoff_prover]
pub proof fn law_instantiation_replaces(
    types: Seq<TyData>,
    ty: TyId,
    target: TyId,
    instance: ConceptInstance,
    through_views: bool,
)
    requires
        types_wf(types),
        ty.0 < types.len(),
        target.0 < types.len(),
        bindings_below(instance.bindings, types.len() as int),
        instantiated(types, ty, target, instance, through_views).0.len() < u32::MAX,
    ensures
        ({
            let (after, to) = instantiated(types, ty, target, instance, through_views);
            &&& types_wf(after)
            &&& grows(types, after)
            &&& to.0 < after.len()
            &&& becomes(after, ty, to, by_instance(target, instance, through_views))
        }),
    decreases ty.0, 1nat, 0nat,
{
    let puts = by_instance(target, instance, through_views);
    let data = types[ty.0 as int];
    assert(parts_below(data, ty.0 as int));
    let (after, to) = instantiated(types, ty, target, instance, through_views);
    lemma_instantiated(types, ty, target, instance, through_views);
    assert(after[ty.0 as int] == data);
    match data {
        TyData::Option(part) => {
            let (between, built) = instantiated(types, part, target, instance, through_views);
            let shape = TyData::Option(built);
    lemma_instantiated(types, part, target, instance, through_views);
            lemma_interned(between, shape);
            law_instantiation_replaces(types, part, target, instance, through_views);
            lemma_shaped(between, shape);
            lemma_becomes_later(between, after, part, built, puts);
        },
        TyData::List(part) => {
            let (between, built) = instantiated(types, part, target, instance, through_views);
            let shape = TyData::List(built);
    lemma_instantiated(types, part, target, instance, through_views);
            lemma_interned(between, shape);
            law_instantiation_replaces(types, part, target, instance, through_views);
            lemma_shaped(between, shape);
            lemma_becomes_later(between, after, part, built, puts);
        },
        TyData::TextMap(part) => {
            let (between, built) = instantiated(types, part, target, instance, through_views);
            let shape = TyData::TextMap(built);
    lemma_instantiated(types, part, target, instance, through_views);
            lemma_interned(between, shape);
            law_instantiation_replaces(types, part, target, instance, through_views);
            lemma_shaped(between, shape);
            lemma_becomes_later(between, after, part, built, puts);
        },
        TyData::Task(part) => {
            let (between, built) = instantiated(types, part, target, instance, through_views);
            let shape = TyData::Task(built);
    lemma_instantiated(types, part, target, instance, through_views);
            lemma_interned(between, shape);
            law_instantiation_replaces(types, part, target, instance, through_views);
            lemma_shaped(between, shape);
            lemma_becomes_later(between, after, part, built, puts);
        },
        TyData::TaskOutcome(part) => {
            let (between, built) = instantiated(types, part, target, instance, through_views);
            let shape = TyData::TaskOutcome(built);
    lemma_instantiated(types, part, target, instance, through_views);
            lemma_interned(between, shape);
            law_instantiation_replaces(types, part, target, instance, through_views);
            lemma_shaped(between, shape);
            lemma_becomes_later(between, after, part, built, puts);
        },
        TyData::View { mutability, target: inner } => {
            if through_views {
            let (between, built) = instantiated(types, inner, target, instance, through_views);
            let shape = TyData::View { mutability, target: built };
    lemma_instantiated(types, inner, target, instance, through_views);
            lemma_interned(between, shape);
            law_instantiation_replaces(types, inner, target, instance, through_views);
            lemma_shaped(between, shape);
            lemma_becomes_later(between, after, inner, built, puts);
            }
        },
        TyData::Result { ok, error } => {
            let (first, built_ok) = instantiated(types, ok, target, instance, through_views);
            let (between, built_error) = instantiated(first, error, target, instance, through_views);
            let shape = TyData::Result { ok: built_ok, error: built_error };
    lemma_instantiated(types, ok, target, instance, through_views);
    lemma_instantiated(first, error, target, instance, through_views);
            lemma_bindings_below_more(instance.bindings, types.len() as int, first.len() as int);
            lemma_interned(between, shape);
            law_instantiation_replaces(types, ok, target, instance, through_views);
            law_instantiation_replaces(first, error, target, instance, through_views);
            lemma_shaped(between, shape);
            lemma_becomes_later(first, after, ok, built_ok, puts);
            lemma_becomes_later(between, after, error, built_error, puts);
        },
        TyData::Nominal { definition, arguments } => {
            let (between, built) = instantiated_list(types, arguments, target, instance, through_views, ty.0);
            let shape = TyData::Nominal { definition, arguments: built };
    lemma_instantiated_list(types, arguments, target, instance, through_views, ty.0);
            lemma_interned(between, shape);
            lemma_list_instantiated(types, arguments, target, instance, through_views, ty.0);
            lemma_shaped(between, shape);
            lemma_all_become_later(between, after, arguments, built, puts, ty.0);
        },
        TyData::Tuple(elements) => {
            let (between, built) = instantiated_list(types, elements, target, instance, through_views, ty.0);
            let shape = TyData::Tuple(built);
    lemma_instantiated_list(types, elements, target, instance, through_views, ty.0);
            lemma_interned(between, shape);
            lemma_list_instantiated(types, elements, target, instance, through_views, ty.0);
            lemma_shaped(between, shape);
            lemma_all_become_later(between, after, elements, built, puts, ty.0);
        },
        TyData::DynTarget(erased) => {
            if through_views {
            let (between, built) = instantiated_bindings(types, erased.bindings, target, instance, ty.0);
            let shape = TyData::DynTarget(
                ConceptInstance { concept: erased.concept, bindings: built },
            );
    lemma_instantiated_bindings(types, erased.bindings, target, instance, ty.0);
            lemma_interned(between, shape);
            lemma_bindings_instantiated(types, erased.bindings, target, instance, through_views, ty.0);
            lemma_shaped(between, shape);
            lemma_bindings_become_later(between, after, erased.bindings, built, puts, ty.0);
            }
        },
        TyData::Projection { self_ty: _, concept, associated_type } => {
            if concept == instance.concept {
                lemma_first_binding(instance.bindings, associated_type, types.len() as int);
                if first_binding(instance.bindings, associated_type) is None {
                    lemma_shaped(
                        types,
                        TyData::Projection { self_ty: target, concept, associated_type },
                    );
                }
            }
        },
        _ => {},
    }
}

proof fn lemma_list_instantiated(
    types: Seq<TyData>,
    list: Chain<TyId>,
    target: TyId,
    instance: ConceptInstance,
    through_views: bool,
    limit: u32,
)
    requires
        types_wf(types),
        limit <= types.len(),
        all_below(list, limit as int),
        target.0 < types.len(),
        bindings_below(instance.bindings, types.len() as int),
        instantiated_list(types, list, target, instance, through_views, limit).0.len() < u32::MAX,
    ensures
        ({
            let (after, built) = instantiated_list(types, list, target, instance, through_views, limit);
            &&& types_wf(after)
            &&& grows(types, after)
            &&& all_below(built, after.len() as int)
            &&& all_become(after, list, built, by_instance(target, instance, through_views), limit)
        }),
    decreases limit, 0nat, list.spec_len(),
{
    if list is Link {
        let puts = by_instance(target, instance, through_views);
        let rest = list.without_last();
        let last = list->0.item;
        let (between, before) = instantiated_list(types, rest, target, instance, through_views, limit);
    lemma_instantiated_list(types, rest, target, instance, through_views, limit);
        let (after, built) = instantiated(between, last, target, instance, through_views);
    lemma_instantiated(between, last, target, instance, through_views);
            lemma_bindings_below_more(instance.bindings, types.len() as int, between.len() as int);
        lemma_list_instantiated(types, rest, target, instance, through_views, limit);
        law_instantiation_replaces(between, last, target, instance, through_views);
        lemma_all_below_more(before, between.len() as int, after.len() as int);
        lemma_all_become_later(between, after, rest, before, puts, limit);
    }
}

proof fn lemma_bindings_instantiated(
    types: Seq<TyData>,
    list: Chain<AssociatedTypeBinding>,
    target: TyId,
    instance: ConceptInstance,
    through_views: bool,
    limit: u32,
)
    requires
        types_wf(types),
        limit <= types.len(),
        bindings_below(list, limit as int),
        target.0 < types.len(),
        bindings_below(instance.bindings, types.len() as int),
        through_views,
        instantiated_bindings(types, list, target, instance, limit).0.len() < u32::MAX,
    ensures
        ({
            let (after, built) = instantiated_bindings(types, list, target, instance, limit);
            &&& types_wf(after)
            &&& grows(types, after)
            &&& bindings_below(built, after.len() as int)
            &&& bindings_become(after, list, built, by_instance(target, instance, through_views), limit)
        }),
    decreases limit, 0nat, list.spec_len(),
{
    if list is Link {
        let puts = by_instance(target, instance, through_views);
        let rest = list.without_last();
        let last = list->0.item.ty;
        let (between, before) = instantiated_bindings(types, rest, target, instance, limit);
    lemma_instantiated_bindings(types, rest, target, instance, limit);
        let (after, built) = instantiated(between, last, target, instance, through_views);
    lemma_instantiated(between, last, target, instance, through_views);
            lemma_bindings_below_more(instance.bindings, types.len() as int, between.len() as int);
        lemma_bindings_instantiated(types, rest, target, instance, through_views, limit);
        law_instantiation_replaces(between, last, target, instance, through_views);
        lemma_bindings_below_more(before, between.len() as int, after.len() as int);
        lemma_bindings_become_later(between, after, rest, before, puts, limit);
    }
}

} // verus!
