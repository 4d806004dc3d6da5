//! What the analysis finds out about declarations and bodies.

use vstd::prelude::*;

use crate::chain::{Chain, Duplicate, Same};
use crate::conformance::{Goal, WitnessSelection};
use crate::hir::{BinaryOp, ReceiverKind};
use crate::ids::{DefId, ExprId, GenericParamId, LocalId, ParamId, RegionId, TyId};
use crate::substitution::Substitution;
use crate::symbolic::check_is_front;
#[allow(unused_imports)]
use crate::symbolic::is_front;
use crate::table::Table;
use crate::ty::{AssociatedTypeBinding, ConceptInstance, Mutability};

verus! {

/// That a type conforms to a concept, as a signature asks for it.
pub type Bound = Goal;

/// The resolved signature of a callable.
pub struct CallableSignature {
    pub is_async: bool,
    pub generic_params: Chain<GenericParamId>,
    pub call_generic_params: Chain<GenericParamId>,
    pub receiver: Option<ReceiverKind>,
    pub params: Chain<(ParamId, TyId)>,
    pub return_ty: TyId,
    pub bounds: Chain<Bound>,
    pub call_bounds: Chain<Bound>,
}

impl Clone for CallableSignature {
    fn clone(&self) -> (copy: Self)
        ensures
            copy == *self,
    {
        CallableSignature {
            is_async: self.is_async,
            generic_params: self.generic_params.clone(),
            call_generic_params: self.call_generic_params.clone(),
            receiver: self.receiver,
            params: self.params.clone(),
            return_ty: self.return_ty,
            bounds: self.bounds.clone(),
            call_bounds: self.call_bounds.clone(),
        }
    }
}

/// The resolved signature of a definition.
pub enum Signature {
    Type { generic_params: Chain<GenericParamId> },
    Concept,
    Impl,
    Constant { ty: TyId },
    Field { owner: DefId, ty: TyId },
    Variant { owner: DefId, payload: Chain<TyId> },
    Callable(CallableSignature),
    AssociatedType { owner: DefId, bounds: Chain<Bound> },
}

/// The value of a constant. A float is held as the bits of its double.
pub enum ConstantValue {
    Bool(bool),
    Int(i64),
    Float(u64),
    Text(Chain<char>),
}

impl Clone for ConstantValue {
    fn clone(&self) -> (copy: Self)
        ensures
            copy == *self,
    {
        match self {
            ConstantValue::Bool(value) => ConstantValue::Bool(*value),
            ConstantValue::Int(value) => ConstantValue::Int(*value),
            ConstantValue::Float(value) => ConstantValue::Float(*value),
            ConstantValue::Text(value) => ConstantValue::Text(value.clone()),
        }
    }
}

/// An arithmetic operation on two floats, given by the bits of their doubles.
#[derive(Clone, Copy, Debug, PartialEq, Eq, Structural)]
pub struct FloatOperation {
    pub op: BinaryOp,
    pub left: u64,
    pub right: u64,
}

impl Duplicate for FloatOperation {
    fn duplicate(&self) -> (copy: Self) {
        *self
    }
}

/// The result of an arithmetic operation on two floats.
#[derive(Clone, Copy, Debug, PartialEq, Eq, Structural)]
pub struct FloatFact {
    pub operation: FloatOperation,
    pub value: u64,
}

/// Language concepts whose identity affects executable validation.
#[derive(Clone, Copy, Debug, PartialEq, Eq, Structural)]
pub struct CanonicalConcepts {
    /// The `std.resource.Dispose` cleanup concept.
    pub dispose: Option<DefId>,
    /// The `Dispose.dispose(mut self)` requirement.
    pub dispose_requirement: Option<DefId>,
    /// The `std.resource.MustScope` marker.
    pub must_scope: Option<DefId>,
    /// The `std.resource.NoSuspend` marker.
    pub no_suspend: Option<DefId>,
}

impl Default for CanonicalConcepts {
    fn default() -> (concepts: Self)
        ensures
            concepts == (CanonicalConcepts {
                dispose: None,
                dispose_requirement: None,
                must_scope: None,
                no_suspend: None,
            }),
    {
        CanonicalConcepts {
            dispose: None,
            dispose_requirement: None,
            must_scope: None,
            no_suspend: None,
        }
    }
}

/// Standard-library declarations whose exact source identity matters. Calls of
/// them still resolve as ordinary definitions.
#[derive(Clone, Copy, Debug, PartialEq, Eq, Structural)]
pub struct CanonicalStdItems {
    pub is_finite: Option<DefId>,
    pub decode_text_error: Option<DefId>,
    pub file: Option<DefId>,
    pub io_error: Option<DefId>,
    pub io_error_kind: Option<DefId>,
    pub json: Option<DefId>,
    pub json_error: Option<DefId>,
    pub log_level: Option<DefId>,
    pub path_error: Option<DefId>,
    pub socket: Option<DefId>,
}

/// What a place starts from.
#[derive(Clone, Copy, Debug, PartialEq, Eq, Structural)]
pub enum PlaceRoot {
    Param(ParamId),
    Local(LocalId),
    SelfValue,
}

/// A place: a root and the fields that lead from it.
pub struct Place {
    pub root: PlaceRoot,
    pub projections: Chain<DefId>,
    pub mutability: Mutability,
}

impl Clone for Place {
    fn clone(&self) -> (copy: Self)
        ensures
            copy == *self,
    {
        Place {
            root: self.root,
            projections: self.projections.clone(),
            mutability: self.mutability,
        }
    }
}

impl Same for Place {
    fn same(&self, other: &Self) -> (equal: bool) {
        self.root == other.root && self.projections.same(&other.projections) && self.mutability
            == other.mutability
    }
}

/// One of the places is the other or a part of it.
pub open spec fn overlapping(left: Place, right: Place) -> bool {
    left.root == right.root && (is_front(left.projections, right.projections) || is_front(
        right.projections,
        left.projections,
    ))
}

pub fn places_overlap(left: &Place, right: &Place) -> (overlap: bool)
    ensures
        overlap == overlapping(*left, *right),
{
    left.root == right.root && (check_is_front(&left.projections, &right.projections)
        || check_is_front(&right.projections, &left.projections))
}

/// Whether two places overlap does not depend on their order.
pub proof fn law_overlap_is_symmetric(left: Place, right: Place)
    ensures
        overlapping(left, right) == overlapping(right, left),
{
}

/// A place overlaps each of its parts.
pub proof fn law_place_overlaps_its_fields(place: Place, field: DefId)
    ensures
        overlapping(place, place),
        overlapping(place, Place { projections: place.projections.pushed(field), ..place }),
{
    assert(is_front(place.projections, place.projections));
    assert(is_front(place.projections, place.projections.pushed(field)));
}

/// A value that the language itself provides.
#[derive(Clone, Copy, Debug, PartialEq, Eq, Structural)]
pub enum BuiltinValue {
    Unit,
    OptionNone,
    OptionSome,
    ResultOk,
    ResultErr,
    TaskCompleted,
    TaskFaulted,
    TaskCancelled,
    FloatParseStatus,
    FloatFormat,
    FloatIsFinite,
    IntToFloat,
    FloatToIntStatus,
    ProcessArgumentCount,
    ProcessArgumentAt,
    ProcessEnvironment,
    DurationMilliseconds,
    FileOpenRead,
    FileCreate,
    FileTryOpenRead,
    FileTryCreate,
    FileReadText,
    FileWriteText,
    FileTryReadText,
    FileTryWriteText,
    FileClose,
    IoErrorKind,
    IoErrorMessage,
    SocketConnect,
    SocketTryConnect,
    SocketReadText,
    SocketWriteText,
    SocketTryReadText,
    SocketTryWriteText,
    SocketClose,
    LogWrite,
    StdoutWrite,
    ListNew,
    TextMapNew,
    ListAdd,
    ListLength,
    ListGet,
    TextMapLength,
    TextMapContains,
    TextMapGet,
    TextMapEntryAt,
    TextMapInsert,
    ListToTextMap,
    TextMapRemove,
    TaskFaultCode,
    TaskFaultMessage,
    DurationAsMilliseconds,
    TextLength,
    TextGet,
    TextConcat,
    TextContains,
    TextEncodeUtf8,
    BytesLength,
    BytesGet,
    BytesAdd,
    BytesAppend,
    BytesDecodeUtf8,
    PathFromText,
    PathAsText,
    PathJoin,
}

/// What a name in a body stands for.
#[derive(Clone, Copy, Debug, PartialEq, Eq, Structural)]
pub enum Resolution {
    Definition(DefId),
    Param(ParamId),
    Local(LocalId),
    SelfValue,
    ResultValue,
    Builtin(BuiltinValue),
    Error,
}

/// How a value is adapted to the type that is expected of it.
#[derive(Clone, Copy, Debug, PartialEq, Eq, Structural)]
pub enum Coercion {
    NeverToAny,
    RefinedToBase { refined: DefId },
    ConcreteToDyn,
    InterfaceReborrow,
}

/// A function of the task namespace.
#[derive(Clone, Copy, Debug, PartialEq, Eq, Structural)]
pub enum TaskIntrinsic {
    Sleep,
    All,
    Settled,
    Any,
    Race,
}

/// What a call reaches.
#[derive(Clone, Copy, Debug, PartialEq, Eq, Structural)]
pub enum CallTarget {
    Function(DefId),
    InherentMethod(DefId),
    StaticConcept { requirement: DefId },
    DynamicConcept { requirement: DefId },
    RefinedConstructor(DefId),
    EnumVariant(DefId),
    Builtin(BuiltinValue),
    TaskIntrinsic(TaskIntrinsic),
}

/// How a receiver is passed.
#[derive(Clone, Copy, Debug, PartialEq, Eq, Structural)]
pub enum ReceiverPassing {
    Value,
    InOut,
}

/// A resolved call.
pub struct CallResolution {
    pub target: CallTarget,
    pub substitution: Substitution,
    pub dispatch_witness: Option<WitnessSelection>,
    pub witnesses: Chain<WitnessSelection>,
    pub receiver: Option<ReceiverPassing>,
}

/// What an interface value is made from.
pub enum ViewSource {
    Concrete { witness: WitnessSelection, writeback: Option<Place> },
    Interface { owner: Place },
}

/// An interface value that a coercion makes.
pub struct ViewResolution {
    pub source: ViewSource,
    pub mutable: bool,
    pub region: RegionId,
    pub token: u32,
}

/// How a scoped resource is disposed of.
pub struct ScopedDisposal {
    pub requirement: DefId,
    pub witness: WitnessSelection,
}

/// Whether a condition is checked when the program runs.
#[derive(Clone, Copy, Debug, PartialEq, Eq, Structural)]
pub enum RuntimeCheck {
    Proven,
    Runtime,
}

/// Whether a constructed value is checked when the program runs.
#[derive(Clone, Copy, Debug, PartialEq, Eq, Structural)]
pub enum ConstructionCheck {
    Proven,
    Runtime,
}

/// What a conformance provides.
pub struct ConformanceSemantics {
    pub concept: ConceptInstance,
    pub target: TyId,
    /// The implementation of each requirement.
    pub methods: Chain<(DefId, DefId)>,
    pub associated_types: Chain<AssociatedTypeBinding>,
}

impl Clone for ConformanceSemantics {
    fn clone(&self) -> (copy: Self)
        ensures
            copy == *self,
    {
        ConformanceSemantics {
            concept: self.concept.clone(),
            target: self.target,
            methods: self.methods.clone(),
            associated_types: self.associated_types.clone(),
        }
    }
}

/// What the analysis finds out about a body. Expressions, patterns and locals
/// are keyed by their ids.
pub struct BodySemantics {
    pub expression_types: Table<TyId>,
    pub expression_places: Table<Place>,
    pub expression_resolutions: Table<Resolution>,
    pub expression_coercions: Table<Coercion>,
    pub pattern_types: Table<TyId>,
    pub pattern_resolutions: Table<Resolution>,
    pub local_types: Table<TyId>,
    pub calls: Table<CallResolution>,
    pub views: Table<ViewResolution>,
    pub record_fields: Table<Chain<(DefId, ExprId)>>,
    pub construction_checks: Table<ConstructionCheck>,
    pub assertion_checks: Table<RuntimeCheck>,
    pub receiver_invariant_recoveries: Chain<u32>,
    pub scoped_disposals: Table<ScopedDisposal>,
    pub contract_check: Option<RuntimeCheck>,
}

impl Clone for BodySemantics {
    fn clone(&self) -> (copy: Self)
        ensures
            copy == *self,
    {
        BodySemantics {
            expression_types: self.expression_types.clone(),
            expression_places: self.expression_places.clone(),
            expression_resolutions: self.expression_resolutions.clone(),
            expression_coercions: self.expression_coercions.clone(),
            pattern_types: self.pattern_types.clone(),
            pattern_resolutions: self.pattern_resolutions.clone(),
            local_types: self.local_types.clone(),
            calls: self.calls.clone(),
            views: self.views.clone(),
            record_fields: self.record_fields.clone(),
            construction_checks: self.construction_checks.clone(),
            assertion_checks: self.assertion_checks.clone(),
            receiver_invariant_recoveries: self.receiver_invariant_recoveries.clone(),
            scoped_disposals: self.scoped_disposals.clone(),
            contract_check: self.contract_check,
        }
    }
}

impl BodySemantics {
    pub open spec fn empty() -> BodySemantics {
        BodySemantics {
            expression_types: Table::empty(),
            expression_places: Table::empty(),
            expression_resolutions: Table::empty(),
            expression_coercions: Table::empty(),
            pattern_types: Table::empty(),
            pattern_resolutions: Table::empty(),
            local_types: Table::empty(),
            calls: Table::empty(),
            views: Table::empty(),
            record_fields: Table::empty(),
            construction_checks: Table::empty(),
            assertion_checks: Table::empty(),
            receiver_invariant_recoveries: Chain::Empty,
            scoped_disposals: Table::empty(),
            contract_check: None,
        }
    }

    pub fn new() -> (semantics: Self)
        ensures
            semantics == BodySemantics::empty(),
    {
        BodySemantics {
            expression_types: Table::new(),
            expression_places: Table::new(),
            expression_resolutions: Table::new(),
            expression_coercions: Table::new(),
            pattern_types: Table::new(),
            pattern_resolutions: Table::new(),
            local_types: Table::new(),
            calls: Table::new(),
            views: Table::new(),
            record_fields: Table::new(),
            construction_checks: Table::new(),
            assertion_checks: Table::new(),
            receiver_invariant_recoveries: Chain::new(),
            scoped_disposals: Table::new(),
            contract_check: None,
        }
    }
}

} // verus!
