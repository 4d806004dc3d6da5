//! Interned types and substitutions.

use vstd::prelude::*;

use crate::chain::{Chain, Duplicate, Same};
#[allow(unused_imports)]
use crate::growth::later;
use crate::ids::{DefId, GenericParamId, TyId};

verus! {

/// A type that the language itself provides.
#[derive(Clone, Copy, Debug, PartialEq, Eq, PartialOrd, Ord, Hash, Structural)]
pub enum BuiltinType {
    Bool,
    Int,
    Float,
    Text,
    Bytes,
    Path,
    Unit,
    ConstraintError,
    ContractFault,
    TaskFault,
    Duration,
}

/// Whether a place or an interface value may be written through.
#[derive(Clone, Copy, Debug, PartialEq, Eq, PartialOrd, Ord, Hash, Structural)]
pub enum Mutability {
    ReadOnly,
    Mutable,
}

/// An associated type of a concept, and the type it stands for.
#[derive(Clone, Copy, Debug, PartialEq, Eq, Structural)]
pub struct AssociatedTypeBinding {
    pub associated_type: DefId,
    pub ty: TyId,
}

impl Same for AssociatedTypeBinding {
    fn same(&self, other: &Self) -> (equal: bool) {
        *self == *other
    }
}

impl Duplicate for AssociatedTypeBinding {
    fn duplicate(&self) -> (copy: Self) {
        *self
    }
}

/// A concept with some of its associated types fixed.
pub struct ConceptInstance {
    pub concept: DefId,
    pub bindings: Chain<AssociatedTypeBinding>,
}

impl Same for ConceptInstance {
    fn same(&self, other: &Self) -> (equal: bool) {
        self.concept == other.concept && self.bindings.same(&other.bindings)
    }
}

impl Clone for ConceptInstance {
    fn clone(&self) -> (copy: Self)
        ensures
            copy == *self,
    {
        ConceptInstance { concept: self.concept, bindings: self.bindings.clone() }
    }
}

impl Duplicate for ConceptInstance {
    fn duplicate(&self) -> (copy: Self) {
        self.clone()
    }
}

/// The shape of a type. Its parts are types of the same interner.
pub enum TyData {
    Error,
    Never,
    Builtin(BuiltinType),
    Param(GenericParamId),
    SelfType(DefId),
    Nominal { definition: DefId, arguments: Chain<TyId> },
    Option(TyId),
    Result { ok: TyId, error: TyId },
    List(TyId),
    TextMap(TyId),
    Tuple(Chain<TyId>),
    Task(TyId),
    TaskOutcome(TyId),
    Projection { self_ty: TyId, concept: DefId, associated_type: DefId },
    DynTarget(ConceptInstance),
    View { mutability: Mutability, target: TyId },
}

impl Same for TyData {
    fn same(&self, other: &Self) -> (equal: bool) {
        match (self, other) {
            (TyData::Error, TyData::Error) => true,
            (TyData::Never, TyData::Never) => true,
            (TyData::Builtin(left), TyData::Builtin(right)) => *left == *right,
            (TyData::Param(left), TyData::Param(right)) => *left == *right,
            (TyData::SelfType(left), TyData::SelfType(right)) => *left == *right,
            (
                TyData::Nominal { definition: left, arguments: left_arguments },
                TyData::Nominal { definition: right, arguments: right_arguments },
            ) => *left == *right && left_arguments.same(right_arguments),
            (TyData::Option(left), TyData::Option(right)) => *left == *right,
            (
                TyData::Result { ok: left_ok, error: left_error },
                TyData::Result { ok: right_ok, error: right_error },
            ) => *left_ok == *right_ok && *left_error == *right_error,
            (TyData::List(left), TyData::List(right)) => *left == *right,
            (TyData::TextMap(left), TyData::TextMap(right)) => *left == *right,
            (TyData::Tuple(left), TyData::Tuple(right)) => left.same(right),
            (TyData::Task(left), TyData::Task(right)) => *left == *right,
            (TyData::TaskOutcome(left), TyData::TaskOutcome(right)) => *left == *right,
            (
                TyData::Projection {
                    self_ty: left_self,
                    concept: left_concept,
                    associated_type: left_type,
                },
                TyData::Projection {
                    self_ty: right_self,
                    concept: right_concept,
                    associated_type: right_type,
                },
            ) => *left_self == *right_self && *left_concept == *right_concept && *left_type
                == *right_type,
            (TyData::DynTarget(left), TyData::DynTarget(right)) => left.same(right),
            (
                TyData::View { mutability: left, target: left_target },
                TyData::View { mutability: right, target: right_target },
            ) => *left == *right && *left_target == *right_target,
            _ => false,
        }
    }
}

impl Clone for TyData {
    fn clone(&self) -> (copy: Self)
        ensures
            copy == *self,
    {
        match self {
            TyData::Error => TyData::Error,
            TyData::Never => TyData::Never,
            TyData::Builtin(builtin) => TyData::Builtin(*builtin),
            TyData::Param(parameter) => TyData::Param(*parameter),
            TyData::SelfType(concept) => TyData::SelfType(*concept),
            TyData::Nominal { definition, arguments } => TyData::Nominal {
                definition: *definition,
                arguments: arguments.clone(),
            },
            TyData::Option(element) => TyData::Option(*element),
            TyData::Result { ok, error } => TyData::Result { ok: *ok, error: *error },
            TyData::List(element) => TyData::List(*element),
            TyData::TextMap(value) => TyData::TextMap(*value),
            TyData::Tuple(elements) => TyData::Tuple(elements.clone()),
            TyData::Task(output) => TyData::Task(*output),
            TyData::TaskOutcome(output) => TyData::TaskOutcome(*output),
            TyData::Projection { self_ty, concept, associated_type } => TyData::Projection {
                self_ty: *self_ty,
                concept: *concept,
                associated_type: *associated_type,
            },
            TyData::DynTarget(instance) => TyData::DynTarget(instance.clone()),
            TyData::View { mutability, target } => TyData::View {
                mutability: *mutability,
                target: *target,
            },
        }
    }
}

/// Every type of the list is below `limit`.
pub open spec fn all_below(list: Chain<TyId>, limit: int) -> bool
    decreases list,
{
    match list {
        Chain::Empty => true,
        Chain::Link(link) => all_below(link.rest, limit) && link.item.0 < limit,
    }
}

/// Every type bound in the list is below `limit`.
pub open spec fn bindings_below(list: Chain<AssociatedTypeBinding>, limit: int) -> bool
    decreases list,
{
    match list {
        Chain::Empty => true,
        Chain::Link(link) => bindings_below(link.rest, limit) && link.item.ty.0 < limit,
    }
}

/// Every part of the type is below `limit`.
pub open spec fn parts_below(data: TyData, limit: int) -> bool {
    match data {
        TyData::Error | TyData::Never | TyData::Builtin(_) | TyData::Param(_) | TyData::SelfType(
            _,
        ) => true,
        TyData::Nominal { definition: _, arguments } => all_below(arguments, limit),
        TyData::Option(element) => element.0 < limit,
        TyData::Result { ok, error } => ok.0 < limit && error.0 < limit,
        TyData::List(element) => element.0 < limit,
        TyData::TextMap(value) => value.0 < limit,
        TyData::Tuple(elements) => all_below(elements, limit),
        TyData::Task(output) => output.0 < limit,
        TyData::TaskOutcome(output) => output.0 < limit,
        TyData::Projection { self_ty, concept: _, associated_type: _ } => self_ty.0 < limit,
        TyData::DynTarget(instance) => bindings_below(instance.bindings, limit),
        TyData::View { mutability: _, target } => target.0 < limit,
    }
}

/// The position of a builtin type among the first types of every interner.
pub open spec fn builtin_position(builtin: BuiltinType) -> u32 {
    match builtin {
        BuiltinType::Bool => 2,
        BuiltinType::Int => 3,
        BuiltinType::Float => 4,
        BuiltinType::Text => 5,
        BuiltinType::Bytes => 6,
        BuiltinType::Path => 7,
        BuiltinType::Unit => 8,
        BuiltinType::ConstraintError => 9,
        BuiltinType::ContractFault => 10,
        BuiltinType::TaskFault => 11,
        BuiltinType::Duration => 12,
    }
}

/// What every interner starts from: the error type, the type of expressions
/// that do not return, and the builtin types.
pub open spec fn first_types() -> Seq<TyData> {
    seq![
        TyData::Error,
        TyData::Never,
        TyData::Builtin(BuiltinType::Bool),
        TyData::Builtin(BuiltinType::Int),
        TyData::Builtin(BuiltinType::Float),
        TyData::Builtin(BuiltinType::Text),
        TyData::Builtin(BuiltinType::Bytes),
        TyData::Builtin(BuiltinType::Path),
        TyData::Builtin(BuiltinType::Unit),
        TyData::Builtin(BuiltinType::ConstraintError),
        TyData::Builtin(BuiltinType::ContractFault),
        TyData::Builtin(BuiltinType::TaskFault),
        TyData::Builtin(BuiltinType::Duration),
    ]
}

/// The types of an interner: they start with the first types, each is made of
/// types before it, and none occurs twice.
pub open spec fn types_wf(types: Seq<TyData>) -> bool {
    &&& first_types().len() <= types.len() <= u32::MAX
    &&& forall|i: int| 0 <= i < first_types().len() ==> #[trigger] types[i] == first_types()[i]
    &&& forall|i: int| 0 <= i < types.len() ==> parts_below(#[trigger] types[i], i)
    &&& forall|i: int, j: int| 0 <= i < j < types.len() ==> types[i] != types[j]
}

pub open spec fn error_ty() -> TyId {
    TyId(0)
}

pub open spec fn never_ty() -> TyId {
    TyId(1)
}

pub open spec fn builtin_ty(builtin: BuiltinType) -> TyId {
    TyId(builtin_position(builtin))
}

/// The shape of a type. An id that the interner did not issue has the shape of
/// the error type.
pub open spec fn ty_data(types: Seq<TyData>, ty: TyId) -> TyData {
    if ty.0 < types.len() {
        types[ty.0 as int]
    } else {
        TyData::Error
    }
}

/// The types after a shape was interned.
pub open spec fn interned(types: Seq<TyData>, data: TyData) -> Seq<TyData> {
    if !parts_below(data, types.len() as int) || types.contains(data) || types.len() >= u32::MAX {
        types
    } else {
        types.push(data)
    }
}

/// The type of an interned shape: the error type for a shape that has a part
/// the interner did not issue, or that comes when all ids have been issued.
pub open spec fn interned_ty(types: Seq<TyData>, data: TyData) -> TyId {
    if !parts_below(data, types.len() as int) {
        error_ty()
    } else if types.contains(data) {
        TyId(types.index_of(data) as u32)
    } else if types.len() >= u32::MAX {
        error_ty()
    } else {
        TyId(types.len() as u32)
    }
}

fn check_all_below(list: &Chain<TyId>, limit: usize) -> (below: bool)
    ensures
        below == all_below(*list, limit as int),
    decreases list,
{
    match &list {
        Chain::Empty => true,
        Chain::Link(link) => check_all_below(&link.rest, limit) && (link.item.0 as usize) < limit,
    }
}

fn check_bindings_below(list: &Chain<AssociatedTypeBinding>, limit: usize) -> (below: bool)
    ensures
        below == bindings_below(*list, limit as int),
    decreases list,
{
    match &list {
        Chain::Empty => true,
        Chain::Link(link) => check_bindings_below(&link.rest, limit) && (link.item.ty.0 as usize) < limit,
    }
}

fn check_parts_below(data: &TyData, limit: usize) -> (below: bool)
    ensures
        below == parts_below(*data, limit as int),
{
    match data {
        TyData::Error | TyData::Never | TyData::Builtin(_) | TyData::Param(_) | TyData::SelfType(
            _,
        ) => true,
        TyData::Nominal { definition: _, arguments } => check_all_below(arguments, limit),
        TyData::Option(element) => (element.0 as usize) < limit,
        TyData::Result { ok, error } => (ok.0 as usize) < limit && (error.0 as usize) < limit,
        TyData::List(element) => (element.0 as usize) < limit,
        TyData::TextMap(value) => (value.0 as usize) < limit,
        TyData::Tuple(elements) => check_all_below(elements, limit),
        TyData::Task(output) => (output.0 as usize) < limit,
        TyData::TaskOutcome(output) => (output.0 as usize) < limit,
        TyData::Projection { self_ty, concept: _, associated_type: _ } => (self_ty.0 as usize)
            < limit,
        TyData::DynTarget(instance) => check_bindings_below(&instance.bindings, limit),
        TyData::View { mutability: _, target } => (target.0 as usize) < limit,
    }
}

/// The types of a program, each stored once.
pub struct TyInterner {
    items: Vec<TyData>,
}

impl View for TyInterner {
    type V = Seq<TyData>;

    closed spec fn view(&self) -> Seq<TyData> {
        self.items@
    }
}

impl Clone for TyInterner {
    fn clone(&self) -> (copy: Self)
        ensures
            copy@ == self@,
    {
        let mut items: Vec<TyData> = Vec::new();
        let mut i: usize = 0;
        while i < self.items.len()
            invariant
                i <= self.items@.len(),
                items@ == self.items@.take(i as int),
            decreases self.items@.len() - i,
        {
            items.push(self.items[i].clone());
            assert(self.items@.take(i as int + 1) =~= self.items@.take(i as int).push(
                self.items@[i as int],
            ));
            i = i + 1;
        }
        assert(items@ =~= self.items@);
        TyInterner { items }
    }
}

impl TyInterner {
    pub fn new() -> (types: Self)
        ensures
            types@ == first_types(),
            types_wf(types@),
    {
        let mut items: Vec<TyData> = Vec::new();
        items.push(TyData::Error);
        items.push(TyData::Never);
        items.push(TyData::Builtin(BuiltinType::Bool));
        items.push(TyData::Builtin(BuiltinType::Int));
        items.push(TyData::Builtin(BuiltinType::Float));
        items.push(TyData::Builtin(BuiltinType::Text));
        items.push(TyData::Builtin(BuiltinType::Bytes));
        items.push(TyData::Builtin(BuiltinType::Path));
        items.push(TyData::Builtin(BuiltinType::Unit));
        items.push(TyData::Builtin(BuiltinType::ConstraintError));
        items.push(TyData::Builtin(BuiltinType::ContractFault));
        items.push(TyData::Builtin(BuiltinType::TaskFault));
        items.push(TyData::Builtin(BuiltinType::Duration));
        assert(items@ =~= first_types());
        TyInterner { items }
    }

    pub fn error(&self) -> (ty: TyId)
        ensures
            ty == error_ty(),
    {
        TyId(0)
    }

    pub fn never(&self) -> (ty: TyId)
        ensures
            ty == never_ty(),
    {
        TyId(1)
    }

    pub fn builtin(&self, builtin: BuiltinType) -> (ty: TyId)
        ensures
            ty == builtin_ty(builtin),
    {
        match builtin {
            BuiltinType::Bool => TyId(2),
            BuiltinType::Int => TyId(3),
            BuiltinType::Float => TyId(4),
            BuiltinType::Text => TyId(5),
            BuiltinType::Bytes => TyId(6),
            BuiltinType::Path => TyId(7),
            BuiltinType::Unit => TyId(8),
            BuiltinType::ConstraintError => TyId(9),
            BuiltinType::ContractFault => TyId(10),
            BuiltinType::TaskFault => TyId(11),
            BuiltinType::Duration => TyId(12),
        }
    }

    /// The shape of a type.
    pub fn data(&self, ty: TyId) -> (data: &TyData)
        requires
            types_wf(self@),
        ensures
            *data == ty_data(self@, ty),
    {
        let position: usize = ty.0 as usize;
        if position < self.items.len() {
            &self.items[position]
        } else {
            &self.items[0]
        }
    }

    /// The type with the given shape, which is stored if it is new.
    pub fn intern(&mut self, data: TyData) -> (ty: TyId)
        requires
            types_wf(old(self)@),
        ensures
            types_wf(final(self)@),
            later(old(self)@, final(self)@),
            final(self)@ == interned(old(self)@, data),
            ty == interned_ty(old(self)@, data),
    {
        proof {
            reveal(later);
        }
        if !check_parts_below(&data, self.items.len()) {
            return TyId(0);
        }
        let mut position: usize = 0;
        while position < self.items.len()
            invariant
                position <= self.items@.len(),
                self@ == old(self)@,
                types_wf(self@),
                parts_below(data, self@.len() as int),
                forall|i: int| 0 <= i < position ==> self.items@[i] != data,
            decreases self.items@.len() - position,
        {
            if self.items[position].same(&data) {
                proof {
                    reveal(later);
                    assert(self@[position as int] == data);
                    assert(self@.contains(data));
                    assert(self@.index_of(data) == position);
                }
                return TyId(position as u32);
            }
            position = position + 1;
        }
        assert(!self@.contains(data));
        if position >= u32::MAX as usize {
            return TyId(0);
        }
        let ty: TyId = TyId(position as u32);
        self.items.push(data);
        ty
    }
}

pub proof fn lemma_all_below_more(list: Chain<TyId>, limit: int, more: int)
    requires
        all_below(list, limit),
        limit <= more,
    ensures
        all_below(list, more),
    decreases list,
{
    if list is Link {
        lemma_all_below_more(list.without_last(), limit, more);
    }
}

pub proof fn lemma_bindings_below_more(list: Chain<AssociatedTypeBinding>, limit: int, more: int)
    requires
        bindings_below(list, limit),
        limit <= more,
    ensures
        bindings_below(list, more),
    decreases list,
{
    if list is Link {
        lemma_bindings_below_more(list.without_last(), limit, more);
    }
}

pub proof fn lemma_parts_below_more(data: TyData, limit: int, more: int)
    requires
        parts_below(data, limit),
        limit <= more,
    ensures
        parts_below(data, more),
{
    match data {
        TyData::Nominal { arguments, .. } => lemma_all_below_more(arguments, limit, more),
        TyData::Tuple(elements) => lemma_all_below_more(elements, limit, more),
        TyData::DynTarget(instance) => lemma_bindings_below_more(instance.bindings, limit, more),
        _ => {},
    }
}

/// An interned type can be read back, the types before it keep their places,
/// and interning it again changes nothing.
pub proof fn law_intern(types: Seq<TyData>, data: TyData)
    requires
        types_wf(types),
        parts_below(data, types.len() as int),
        types.len() < u32::MAX,
    ensures
        ty_data(interned(types, data), interned_ty(types, data)) == data,
        forall|ty: TyId|
            ty.0 < types.len() ==> #[trigger] ty_data(interned(types, data), ty) == ty_data(
                types,
                ty,
            ),
        interned(interned(types, data), data) == interned(types, data),
        interned_ty(interned(types, data), data) == interned_ty(types, data),
{
    let after = interned(types, data);
    lemma_parts_below_more(data, types.len() as int, after.len() as int);
    if types.contains(data) {
        assert(types[types.index_of(data)] == data);
    } else {
        assert(after[types.len() as int] == data);
        assert(after.contains(data));
        assert forall|i: int| 0 <= i < types.len() implies after[i] != data by {
            assert(types[i] == after[i]);
            assert(types.contains(types[i]));
        }
        assert(after.index_of(data) == types.len());
    }
}

/// Two types have one name exactly when they are equal.
pub proof fn law_one_name(types: Seq<TyData>, left: TyId, right: TyId)
    requires
        types_wf(types),
        left.0 < types.len(),
        right.0 < types.len(),
    ensures
        left == right <==> ty_data(types, left) == ty_data(types, right),
{
    if left.0 < right.0 {
        assert(types[left.0 as int] != types[right.0 as int]);
    } else if right.0 < left.0 {
        assert(types[right.0 as int] != types[left.0 as int]);
    }
}

} // verus!
