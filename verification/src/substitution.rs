//! Replacing generic parameters by types.

use vstd::prelude::*;

use crate::chain::{Chain, Duplicate, Same};
#[allow(unused_imports)]
use crate::growth::{later, lemma_later_itself, lemma_later_through};
use crate::ids::{GenericParamId, TyId};
use crate::ty::{AssociatedTypeBinding, ConceptInstance, TyData, TyInterner};
#[allow(unused_imports)]
use crate::ty::{all_below, bindings_below, interned, interned_ty, ty_data, types_wf};

verus! {

broadcast use {lemma_later_itself, lemma_later_through};

/// The entry for `parameter`, the last one if there are several.
pub open spec fn entry(
    entries: Chain<(GenericParamId, TyId)>,
    parameter: GenericParamId,
) -> Option<TyId>
    decreases entries,
{
    match entries {
        Chain::Empty => None,
        Chain::Link(link) => if link.item.0 == parameter {
            Some(link.item.1)
        } else {
            entry(link.rest, parameter)
        },
    }
}

/// The entries after `parameter` was given the type `ty`. A list ordered by
/// parameter stays so.
pub open spec fn with_entry(
    entries: Chain<(GenericParamId, TyId)>,
    parameter: GenericParamId,
    ty: TyId,
) -> Chain<(GenericParamId, TyId)>
    decreases entries,
{
    match entries {
        Chain::Empty => entries.pushed((parameter, ty)),
        Chain::Link(link) => if link.item.0.0 < parameter.0 {
            entries.pushed((parameter, ty))
        } else if link.item.0 == parameter {
            link.rest.pushed((parameter, ty))
        } else {
            with_entry(link.rest, parameter, ty).pushed(link.item)
        },
    }
}

/// The entries are in the order of their parameters, each of which has one.
pub open spec fn ordered(entries: Chain<(GenericParamId, TyId)>) -> bool
    decreases entries,
{
    match entries {
        Chain::Empty => true,
        Chain::Link(link) => ordered(link.rest) && match link.rest {
            Chain::Empty => true,
            Chain::Link(before) => before.item.0.0 < link.item.0.0,
        },
    }
}

/// Types for generic parameters.
pub struct Substitution {
    pub entries: Chain<(GenericParamId, TyId)>,
}

impl Default for Substitution {
    fn default() -> (substitution: Self)
        ensures
            substitution == Substitution::empty(),
    {
        Substitution { entries: Chain::new() }
    }
}

impl Clone for Substitution {
    fn clone(&self) -> (copy: Self)
        ensures
            copy == *self,
    {
        Substitution { entries: self.entries.clone() }
    }
}

impl Same for (GenericParamId, TyId) {
    fn same(&self, other: &Self) -> (equal: bool) {
        self.0 == other.0 && self.1 == other.1
    }
}

impl Same for Substitution {
    fn same(&self, other: &Self) -> (equal: bool) {
        self.entries.same(&other.entries)
    }
}

impl Substitution {
    pub open spec fn empty() -> Substitution {
        Substitution { entries: Chain::Empty }
    }

    /// The type of `parameter`.
    pub open spec fn lookup(self, parameter: GenericParamId) -> Option<TyId> {
        entry(self.entries, parameter)
    }

    /// The substitution after `parameter` was given the type `ty`.
    pub open spec fn inserted(self, parameter: GenericParamId, ty: TyId) -> Substitution {
        Substitution { entries: with_entry(self.entries, parameter, ty) }
    }

    pub fn get(&self, parameter: GenericParamId) -> (ty: Option<TyId>)
        ensures
            ty == self.lookup(parameter),
    {
        find_entry(&self.entries, parameter)
    }

    pub fn insert(&mut self, parameter: GenericParamId, ty: TyId)
        ensures
            *final(self) == old(self).inserted(parameter, ty),
    {
        self.entries = put_entry(&self.entries, parameter, ty);
    }
}

fn find_entry(
    entries: &Chain<(GenericParamId, TyId)>,
    parameter: GenericParamId,
) -> (ty: Option<TyId>)
    ensures
        ty == entry(*entries, parameter),
    decreases entries,
{
    match &entries {
        Chain::Empty => None,
        Chain::Link(link) => if link.item.0 == parameter {
            Some(link.item.1)
        } else {
            find_entry(&link.rest, parameter)
        },
    }
}

fn put_entry(
    entries: &Chain<(GenericParamId, TyId)>,
    parameter: GenericParamId,
    ty: TyId,
) -> (result: Chain<(GenericParamId, TyId)>)
    ensures
        result == with_entry(*entries, parameter, ty),
    decreases entries,
{
    match &entries {
        Chain::Empty => entries.clone().with((parameter, ty)),
        Chain::Link(link) => if link.item.0.0 < parameter.0 {
            entries.clone().with((parameter, ty))
        } else if link.item.0 == parameter {
            link.rest.clone().with((parameter, ty))
        } else {
            put_entry(&link.rest, parameter, ty).with((link.item.0, link.item.1))
        },
    }
}

proof fn lemma_entry_order(
    entries: Chain<(GenericParamId, TyId)>,
    parameter: GenericParamId,
    ty: TyId,
)
    requires
        ordered(entries),
    ensures
        ordered(with_entry(entries, parameter, ty)),
        with_entry(entries, parameter, ty) is Link,
        match entries {
            Chain::Empty => with_entry(entries, parameter, ty)->0.item.0 == parameter,
            Chain::Link(link) => with_entry(entries, parameter, ty)->0.item.0 == if link.item.0.0
                < parameter.0 {
                parameter
            } else {
                link.item.0
            },
        },
    decreases entries,
{
    if entries is Link {
        let link = entries->0;
        if !(link.item.0.0 < parameter.0) && link.item.0 != parameter {
            lemma_entry_order(entries.without_last(), parameter, ty);
        }
    }
}

proof fn lemma_entry_absent_above(
    entries: Chain<(GenericParamId, TyId)>,
    parameter: GenericParamId,
)
    requires
        ordered(entries),
        entries is Link ==> entries->0.item.0.0 < parameter.0,
    ensures
        entry(entries, parameter) is None,
    decreases entries,
{
    if entries is Link {
        lemma_entry_absent_above(entries.without_last(), parameter);
    }
}

proof fn lemma_entry_after_put(
    entries: Chain<(GenericParamId, TyId)>,
    parameter: GenericParamId,
    ty: TyId,
    other: GenericParamId,
)
    ensures
        entry(with_entry(entries, parameter, ty), other) == if other == parameter {
            Some(ty)
        } else {
            entry(entries, other)
        },
    decreases entries,
{
    if entries is Link {
        let link = entries->0;
        if !(link.item.0.0 < parameter.0) && link.item.0 != parameter {
            lemma_entry_after_put(entries.without_last(), parameter, ty, other);
        }
    }
}

/// A substitution gives back the type that was last inserted for a parameter,
/// and an insertion changes no other parameter.
pub proof fn law_substitution_reads_last_insert(
    substitution: Substitution,
    parameter: GenericParamId,
    ty: TyId,
    other: GenericParamId,
)
    ensures
        substitution.inserted(parameter, ty).lookup(parameter) == Some(ty),
        other != parameter ==> substitution.inserted(parameter, ty).lookup(other)
            == substitution.lookup(other),
{
    lemma_entry_after_put(substitution.entries, parameter, ty, parameter);
    lemma_entry_after_put(substitution.entries, parameter, ty, other);
}

/// Insertions keep the entries in the order of their parameters.
pub proof fn law_substitution_stays_ordered(
    substitution: Substitution,
    parameter: GenericParamId,
    ty: TyId,
)
    requires
        ordered(substitution.entries),
    ensures
        ordered(substitution.inserted(parameter, ty).entries),
{
    lemma_entry_order(substitution.entries, parameter, ty);
}

/// The types and the type that come of replacing parameters in `ty`. New
/// shapes are interned as they arise, parts before wholes.
pub open spec fn substituted(
    types: Seq<TyData>,
    ty: TyId,
    substitution: Substitution,
) -> (Seq<TyData>, TyId)
    decreases ty.0, 1nat, 0nat,
    when types_wf(types)
{
    match ty_data(types, ty) {
        TyData::Param(parameter) => match substitution.lookup(parameter) {
            Some(replacement) => (types, replacement),
            None => (types, ty),
        },
        TyData::Nominal { definition, arguments } => {
            let (after, arguments) = substituted_list(types, arguments, substitution, ty.0);
            rebuilt(after, TyData::Nominal { definition, arguments })
        },
        TyData::Option(element) => {
            let (after, element) = substituted(types, element, substitution);
            rebuilt(after, TyData::Option(element))
        },
        TyData::Result { ok, error } => {
            let (between, ok) = substituted(types, ok, substitution);
            let (after, error) = substituted(between, error, substitution);
            rebuilt(after, TyData::Result { ok, error })
        },
        TyData::List(element) => {
            let (after, element) = substituted(types, element, substitution);
            rebuilt(after, TyData::List(element))
        },
        TyData::TextMap(value) => {
            let (after, value) = substituted(types, value, substitution);
            rebuilt(after, TyData::TextMap(value))
        },
        TyData::Tuple(elements) => {
            let (after, elements) = substituted_list(types, elements, substitution, ty.0);
            rebuilt(after, TyData::Tuple(elements))
        },
        TyData::Task(output) => {
            let (after, output) = substituted(types, output, substitution);
            rebuilt(after, TyData::Task(output))
        },
        TyData::TaskOutcome(output) => {
            let (after, output) = substituted(types, output, substitution);
            rebuilt(after, TyData::TaskOutcome(output))
        },
        TyData::Projection { self_ty, concept, associated_type } => {
            let (after, self_ty) = substituted(types, self_ty, substitution);
            rebuilt(after, TyData::Projection { self_ty, concept, associated_type })
        },
        TyData::DynTarget(instance) => {
            let (after, bindings) = substituted_bindings(
                types,
                instance.bindings,
                substitution,
                ty.0,
            );
            rebuilt(
                after,
                TyData::DynTarget(ConceptInstance { concept: instance.concept, bindings }),
            )
        },
        TyData::View { mutability, target } => {
            let (after, target) = substituted(types, target, substitution);
            rebuilt(after, TyData::View { mutability, target })
        },
        TyData::Error | TyData::Never | TyData::Builtin(_) | TyData::SelfType(_) => (types, ty),
    }
}

/// The types and the type after a shape was interned.
pub open spec fn rebuilt(types: Seq<TyData>, data: TyData) -> (Seq<TyData>, TyId) {
    (interned(types, data), interned_ty(types, data))
}

/// `substituted` on each type of a list, first to last. The types are parts of
/// the type `limit`.
pub open spec fn substituted_list(
    types: Seq<TyData>,
    list: Chain<TyId>,
    substitution: Substitution,
    limit: u32,
) -> (Seq<TyData>, Chain<TyId>)
    decreases limit, 0nat, list.spec_len(),
    when types_wf(types) && all_below(list, limit as int)
{
    match list {
        Chain::Empty => (types, list),
        Chain::Link(link) => {
            let (between, rest) = substituted_list(types, link.rest, substitution, limit);
            let (after, item) = substituted(between, link.item, substitution);
            (after, rest.pushed(item))
        },
    }
}

/// `substituted` on the type of each binding of a list, first to last.
pub open spec fn substituted_bindings(
    types: Seq<TyData>,
    list: Chain<AssociatedTypeBinding>,
    substitution: Substitution,
    limit: u32,
) -> (Seq<TyData>, Chain<AssociatedTypeBinding>)
    decreases limit, 0nat, list.spec_len(),
    when types_wf(types) && bindings_below(list, limit as int)
{
    match list {
        Chain::Empty => (types, list),
        Chain::Link(link) => {
            let (between, rest) = substituted_bindings(types, link.rest, substitution, limit);
            let (after, ty) = substituted(between, link.item.ty, substitution);
            (after, rest.pushed(AssociatedTypeBinding { ty, ..link.item }))
        },
    }
}

impl TyInterner {
    /// Replaces the parameters in `ty` that the substitution has a type for.
    pub fn substitute(&mut self, ty: TyId, substitution: &Substitution) -> (result: TyId)
        requires
            types_wf(old(self)@),
        ensures
            types_wf(final(self)@),
            later(old(self)@, final(self)@),
            (final(self)@, result) == substituted(old(self)@, ty, *substitution),
        decreases ty.0, 1nat, 0nat,
    {
        match self.data(ty).clone() {
            TyData::Param(parameter) => match substitution.get(parameter) {
                Some(replacement) => replacement,
                None => ty,
            },
            TyData::Nominal { definition, arguments } => {
                let arguments = self.substitute_list(&arguments, substitution, ty.0);
                self.intern(TyData::Nominal { definition, arguments })
            },
            TyData::Option(element) => {
                let element = self.substitute(element, substitution);
                self.intern(TyData::Option(element))
            },
            TyData::Result { ok, error } => {
                let ok = self.substitute(ok, substitution);
                let error = self.substitute(error, substitution);
                self.intern(TyData::Result { ok, error })
            },
            TyData::List(element) => {
                let element = self.substitute(element, substitution);
                self.intern(TyData::List(element))
            },
            TyData::TextMap(value) => {
                let value = self.substitute(value, substitution);
                self.intern(TyData::TextMap(value))
            },
            TyData::Tuple(elements) => {
                let elements = self.substitute_list(&elements, substitution, ty.0);
                self.intern(TyData::Tuple(elements))
            },
            TyData::Task(output) => {
                let output = self.substitute(output, substitution);
                self.intern(TyData::Task(output))
            },
            TyData::TaskOutcome(output) => {
                let output = self.substitute(output, substitution);
                self.intern(TyData::TaskOutcome(output))
            },
            TyData::Projection { self_ty, concept, associated_type } => {
                let self_ty = self.substitute(self_ty, substitution);
                self.intern(TyData::Projection { self_ty, concept, associated_type })
            },
            TyData::DynTarget(instance) => {
                let bindings = self.substitute_bindings(&instance.bindings, substitution, ty.0);
                self.intern(
                    TyData::DynTarget(ConceptInstance { concept: instance.concept, bindings }),
                )
            },
            TyData::View { mutability, target } => {
                let target = self.substitute(target, substitution);
                self.intern(TyData::View { mutability, target })
            },
            TyData::Error | TyData::Never | TyData::Builtin(_) | TyData::SelfType(_) => ty,
        }
    }

    fn substitute_list(
        &mut self,
        list: &Chain<TyId>,
        substitution: &Substitution,
        limit: u32,
    ) -> (result: Chain<TyId>)
        requires
            types_wf(old(self)@),
            all_below(*list, limit as int),
        ensures
            types_wf(final(self)@),
            later(old(self)@, final(self)@),
            (final(self)@, result) == substituted_list(old(self)@, *list, *substitution, limit),
        decreases limit, 0nat, list.spec_len(),
    {
        match &list {
            Chain::Empty => Chain::new(),
            Chain::Link(link) => {
                let rest = self.substitute_list(&link.rest, substitution, limit);
                let item: TyId = self.substitute(link.item, substitution);
                rest.with(item)
            },
        }
    }

    fn substitute_bindings(
        &mut self,
        list: &Chain<AssociatedTypeBinding>,
        substitution: &Substitution,
        limit: u32,
    ) -> (result: Chain<AssociatedTypeBinding>)
        requires
            types_wf(old(self)@),
            bindings_below(*list, limit as int),
        ensures
            types_wf(final(self)@),
            later(old(self)@, final(self)@),
            (final(self)@, result) == substituted_bindings(
                old(self)@,
                *list,
                *substitution,
                limit,
            ),
        decreases limit, 0nat, list.spec_len(),
    {
        match &list {
            Chain::Empty => Chain::new(),
            Chain::Link(link) => {
                let rest = self.substitute_bindings(&link.rest, substitution, limit);
                let ty: TyId = self.substitute(link.item.ty, substitution);
                rest.with(AssociatedTypeBinding { associated_type: link.item.associated_type, ty })
            },
        }
    }
}

} // verus!
