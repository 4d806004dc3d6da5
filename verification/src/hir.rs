//! The program that is analysed: definitions, written types and bodies.
//!
//! Names are resolved before analysis: a path carries what it stands for in
//! each namespace.

use vstd::prelude::*;

use crate::chain::Chain;
use crate::ids::{
    BodyId, DefId, ExprId, GenericParamId, LocalId, ModuleId, ParamId, PatternId, Span, TypeRefId,
};

verus! {

/// What a path stands for in one namespace.
pub enum Resolved {
    Found(DefId),
    Missing,
    Duplicate,
    Private,
    UnknownModule(String),
}

/// A part of a path.
pub struct Segment {
    pub name: String,
    pub span: Span,
}

/// A name as it is written, and what it stands for.
pub struct Path {
    pub segments: Chain<Segment>,
    /// The definition in the namespace of values.
    pub value: Resolved,
    /// The definition in the namespace of types.
    pub ty: Resolved,
    /// The definition in the namespace of concepts.
    pub concept: Resolved,
    /// The compiler primitive that a call by this name reaches.
    pub primitive: Option<CompilerStdPrimitive>,
}

/// A primitive that the standard library calls.
#[derive(Clone, Copy, Debug, PartialEq, Eq, Structural)]
pub enum CompilerStdPrimitive {
    FloatFromInt,
    FloatFormat,
    FloatIsFinite,
    FloatParseStatus,
    FloatToInt,
    DurationMilliseconds,
    FileOpenRead,
    FileCreate,
    FileTryOpenRead,
    FileTryCreate,
    FileReadText,
    FileWriteText,
    FileTryReadText,
    FileTryWriteText,
    FileClose,
    IoErrorKind,
    IoErrorMessage,
    IoWriteStdout,
    LogWrite,
    ProcessArgumentCount,
    ProcessArgumentAt,
    ProcessEnvironment,
    SocketConnect,
    SocketTryConnect,
    SocketReadText,
    SocketWriteText,
    SocketTryReadText,
    SocketTryWriteText,
    SocketClose,
}

#[derive(Clone, Copy, Debug, PartialEq, Eq, Structural)]
pub enum Visibility {
    Private,
    Public,
}

#[derive(Clone, Copy, Debug, PartialEq, Eq, Structural)]
pub enum ReceiverKind {
    ReadOnly,
    Mutable,
    Static,
}

#[derive(Clone, Copy, Debug, PartialEq, Eq, Structural)]
pub enum UnaryOp {
    Negate,
    Not,
}

#[derive(Clone, Copy, Debug, PartialEq, Eq, Structural)]
pub enum BinaryOp {
    Add,
    Subtract,
    Multiply,
    Divide,
    Equal,
    NotEqual,
    Less,
    LessEqual,
    Greater,
    GreaterEqual,
    And,
    Or,
}

/// What a body computes.
#[derive(Clone, Copy, Debug, PartialEq, Eq, Structural)]
pub enum BodyKind {
    Constant,
    Function,
    Method,
    RefinementPredicate,
    RecordInvariant,
    Requires,
    Ensures,
}

/// A literal as it is written. A float carries the bits of the double that its
/// text denotes, if it denotes one.
pub enum Literal {
    Bool(bool),
    Int(String),
    Float(String, Option<u64>),
    Text(String),
    Unit,
}

impl Clone for Literal {
    fn clone(&self) -> (copy: Self)
        ensures
            copy == *self,
    {
        match self {
            Literal::Bool(value) => Literal::Bool(*value),
            Literal::Int(text) => Literal::Int(text.clone()),
            Literal::Float(text, bits) => Literal::Float(text.clone(), *bits),
            Literal::Text(text) => Literal::Text(text.clone()),
            Literal::Unit => Literal::Unit,
        }
    }
}

/// The literals are written alike.
pub open spec fn literals_alike(left: Literal, right: Literal) -> bool {
    match (left, right) {
        (Literal::Bool(a), Literal::Bool(b)) => a == b,
        (Literal::Int(a), Literal::Int(b)) => a@ == b@,
        (Literal::Float(a, _), Literal::Float(b, _)) => a@ == b@,
        (Literal::Text(a), Literal::Text(b)) => a@ == b@,
        (Literal::Unit, Literal::Unit) => true,
        _ => false,
    }
}

pub fn same_literal(left: &Literal, right: &Literal) -> (same: bool)
    ensures
        same == literals_alike(*left, *right),
{
    match (left, right) {
        (Literal::Bool(a), Literal::Bool(b)) => *a == *b,
        (Literal::Int(a), Literal::Int(b)) => *a == *b,
        (Literal::Float(a, _), Literal::Float(b, _)) => *a == *b,
        (Literal::Text(a), Literal::Text(b)) => *a == *b,
        (Literal::Unit, Literal::Unit) => true,
        _ => false,
    }
}

/// A concept as it is written, with the associated types that it fixes.
pub struct ConceptRef {
    pub path: Path,
    pub bindings: Chain<BindingRef>,
}

/// An associated type that a written concept fixes.
pub struct BindingRef {
    pub name: String,
    pub ty: TypeRefId,
}

impl Clone for BindingRef {
    fn clone(&self) -> (copy: Self)
        ensures
            copy == *self,
    {
        BindingRef { name: self.name.clone(), ty: self.ty }
    }
}

pub enum TypeArgumentRef {
    Type(TypeRefId),
    Binding(BindingRef),
}

/// The form of a written type.
pub enum TypeRefKind {
    Error,
    Tuple(Chain<TypeRefId>),
    Path(Path),
    Apply { constructor: Path, arguments: Chain<TypeArgumentRef> },
    SelfType,
    Projection { self_ty: TypeRefId, concept: Option<Path>, associated: String },
    Dyn(ConceptRef),
}

/// A written type.
pub struct TypeRef {
    pub kind: TypeRefKind,
    pub span: Span,
}

/// The written signature of a callable.
pub struct CallableSource {
    pub receiver: Option<ReceiverKind>,
    pub generic_params: Chain<GenericParamId>,
    pub params: Chain<ParamId>,
    pub return_ty: Option<TypeRefId>,
    pub requires: Chain<BodyId>,
    pub ensures: Chain<BodyId>,
}

/// What a definition declares.
pub enum DefinitionKind {
    Error,
    Constant { ty: TypeRefId, value: BodyId },
    RefinedType { base: TypeRefId, predicate: BodyId },
    Record {
        generic_params: Chain<GenericParamId>,
        fields: Chain<DefId>,
        invariant_body: Option<BodyId>,
    },
    Enum { generic_params: Chain<GenericParamId>, variants: Chain<DefId> },
    Function { signature: CallableSource, is_async: bool },
    Test { signature: CallableSource, is_async: bool },
    Concept { dyn_capable: bool, associated_types: Chain<DefId>, requirements: Chain<DefId> },
    Field { owner: DefId, ty: TypeRefId },
    Variant { owner: DefId, payload: Chain<TypeRefId> },
    InherentImpl {
        generic_params: Chain<GenericParamId>,
        target: TypeRefId,
        methods: Chain<DefId>,
    },
    AssociatedType { owner: DefId, bounds: Chain<ConceptRef>, binding: Option<TypeRefId> },
    Conformance {
        generic_params: Chain<GenericParamId>,
        target: TypeRefId,
        concept: ConceptRef,
        associated_types: Chain<DefId>,
        methods: Chain<DefId>,
    },
    Method { owner: DefId, signature: CallableSource },
}

pub struct Definition {
    pub name: Option<String>,
    pub module: ModuleId,
    pub visibility: Visibility,
    pub kind: DefinitionKind,
    pub span: Span,
}

/// A package: its name, its version and the version of its language.
pub struct PackageId {
    pub name: String,
    pub version: String,
    pub language: String,
}

impl PackageId {
    pub fn with_language(name: String, version: String, language: String) -> (package: Self)
        ensures
            package.name@ == name@,
            package.version@ == version@,
            package.language@ == language@,
    {
        PackageId { name, version, language }
    }

    /// The package is the standard library that comes with a compiler of the
    /// language version: it has the name `std`, and its version and its
    /// language are that version.
    pub open spec fn is_std_of(self, language: Seq<char>) -> bool {
        self.name@ == "std"@ && self.version@ == language && self.language@ == language
    }

    pub fn is_compiler_std(&self, language: &String) -> (result: bool)
        ensures
            result == self.is_std_of(language@),
    {
        text_is(&self.name, "std") && self.version == *language && self.language == *language
    }
}

pub struct Module {
    pub name: String,
    /// The package that the module belongs to.
    pub package: PackageId,
    /// The module holds the tests of another.
    pub test_companion: bool,
    /// The modules whose private definitions are visible here.
    pub private_access: Chain<ModuleId>,
    /// The module whose tests this one holds, or itself.
    pub production: ModuleId,
    pub imports: Vec<Import>,
    /// The definitions at the top of the module.
    pub items: Chain<DefId>,
}

/// The module that an import names.
pub enum ImportTarget {
    Found(ModuleId),
    /// The module belongs to a package that is no direct dependency.
    UndeclaredDependency(String),
    Missing,
}

/// An import of one declaration into a file.
pub struct Import {
    pub file: u32,
    pub path: Chain<Segment>,
    /// What the path without its last segment stands for.
    pub target: ImportTarget,
    /// The path names a primitive that the module may use.
    pub primitive: bool,
    pub span: Span,
}

pub struct GenericParam {
    pub name: String,
    pub bounds: Chain<ConceptRef>,
    pub span: Span,
}

pub struct Param {
    pub name: String,
    pub ty: TypeRefId,
    pub span: Span,
}

pub struct Local {
    pub name: String,
    pub mutable: bool,
    pub annotation: Option<TypeRefId>,
    pub span: Span,
}

pub struct Expr {
    pub id: ExprId,
    pub span: Span,
    pub kind: ExprKind,
}

#[allow(inconsistent_fields)]
pub enum ExprKind {
    Error,
    Literal(Literal),
    Tuple(Chain<Expr>),
    List(Chain<Expr>),
    Path(Path),
    SelfValue,
    ResultValue,
    Old(Box<Expr>),
    Block { statements: Chain<Statement>, tail: Option<Box<Expr>> },
    If { condition: Box<Expr>, then_branch: Box<Expr>, else_branch: Option<Box<Expr>> },
    Match { scrutinee: Box<Expr>, arms: Chain<MatchArm> },
    Call { callee: Box<Expr>, type_arguments: Chain<TypeRefId>, arguments: Chain<Expr> },
    MethodCall {
        receiver: Box<Expr>,
        method: String,
        type_arguments: Chain<TypeRefId>,
        arguments: Chain<Expr>,
    },
    QualifiedMethodCall {
        self_ty: TypeRefId,
        concept: ConceptRef,
        method: String,
        type_arguments: Chain<TypeRefId>,
        arguments: Chain<Expr>,
    },
    Field { receiver: Box<Expr>, name: String },
    Unary { op: UnaryOp, operand: Box<Expr> },
    Binary { op: BinaryOp, left: Box<Expr>, right: Box<Expr> },
    Assign { target: Box<Expr>, value: Box<Expr> },
    RecordLiteral { ty: Path, fields: Chain<RecordFieldValue> },
    Await(Box<Expr>),
    Propagate(Box<Expr>),
    Return(Option<Box<Expr>>),
}

pub struct RecordFieldValue {
    pub name: String,
    pub value: Expr,
    pub span: Span,
}

pub struct MatchArm {
    pub pattern: Pattern,
    pub value: Expr,
    pub span: Span,
}

pub enum Statement {
    Let { local: LocalId, value: Expr },
    Scoped { local: LocalId, value: Expr },
    LetTuple { locals: Chain<LocalId>, value: Expr },
    ForRange { local: LocalId, start: Expr, end: Expr, body: Expr },
    While { condition: Expr, body: Expr },
    Break { span: Span },
    Continue { span: Span },
    Defer { body: Expr },
    Discard(Expr),
    Expr(Expr),
    Assert(Expr),
}

pub struct Pattern {
    pub id: PatternId,
    pub span: Span,
    pub kind: PatternKind,
}

/// The form of a pattern. A variant that is written with its type carries the
/// path of the type as `qualifier`.
pub enum PatternKind {
    Error,
    Wildcard,
    Binding(LocalId),
    Literal(Literal),
    Name {
        path: Path,
        qualifier: Option<Path>,
        payload: Chain<Pattern>,
        binding: Option<LocalId>,
    },
    Variant { path: Path, qualifier: Option<Path>, payload: Chain<Pattern> },
}

pub struct Body {
    pub owner: DefId,
    pub kind: BodyKind,
    pub root: Expr,
    pub locals: Vec<Local>,
    pub span: Span,
}

pub struct Program {
    /// The version of the language that the program is analyzed for.
    pub language: String,
    pub definitions: Vec<Definition>,
    pub modules: Vec<Module>,
    pub generic_params: Vec<GenericParam>,
    pub params: Vec<Param>,
    pub type_refs: Vec<TypeRef>,
    pub bodies: Vec<Body>,
}

/// The element at a position, if there is one.
pub open spec fn at<T>(items: Seq<T>, position: u32) -> Option<T> {
    if position < items.len() {
        Some(items[position as int])
    } else {
        None
    }
}

pub fn get<T>(items: &Vec<T>, position: u32) -> (item: Option<&T>)
    ensures
        match item {
            Some(found) => at(items@, position) == Some(*found),
            None => at(items@, position) is None,
        },
{
    if (position as usize) < items.len() {
        Some(&items[position as usize])
    } else {
        None
    }
}

/// Whether a text is the given literal.
pub fn text_is(text: &String, literal: &str) -> (same: bool)
    ensures
        same == (text@ == literal@),
{
    *text == literal.to_owned()
}

/// Whether an optional name is the given one.
pub open spec fn named(name: Option<String>, expected: Seq<char>) -> bool {
    match name {
        Some(found) => found@ == expected,
        None => false,
    }
}

pub fn is_named(name: &Option<String>, expected: &String) -> (same: bool)
    ensures
        same == named(*name, expected@),
{
    match name {
        Some(found) => *found == *expected,
        None => false,
    }
}

pub open spec fn no_span() -> Span {
    Span { file: 0, start: 0, end: 0 }
}

impl Path {
    /// The only segment of the path.
    pub open spec fn single(self) -> Option<Segment> {
        match self.segments {
            Chain::Link(link) => match link.rest {
                Chain::Empty => Some(link.item),
                Chain::Link(_) => None,
            },
            Chain::Empty => None,
        }
    }

    pub fn only_segment(&self) -> (segment: Option<&Segment>)
        ensures
            match segment {
                Some(found) => self.single() == Some(*found),
                None => self.single() is None,
            },
    {
        match &self.segments {
            Chain::Link(link) => match &link.rest {
                Chain::Empty => Some(&link.item),
                Chain::Link(_) => None,
            },
            Chain::Empty => None,
        }
    }

    /// The two segments of the path.
    pub open spec fn pair(self) -> Option<(Segment, Segment)> {
        match self.segments {
            Chain::Link(second) => match second.rest {
                Chain::Link(first) => if first.rest is Empty {
                    Some((first.item, second.item))
                } else {
                    None
                },
                Chain::Empty => None,
            },
            Chain::Empty => None,
        }
    }

    pub fn both_segments(&self) -> (segments: Option<(&Segment, &Segment)>)
        ensures
            match segments {
                Some((first, second)) => self.pair() == Some((*first, *second)),
                None => self.pair() is None,
            },
    {
        match &self.segments {
            Chain::Link(second) => match &second.rest {
                Chain::Link(first) => if first.rest.is_empty() {
                    Some((&first.item, &second.item))
                } else {
                    None
                },
                Chain::Empty => None,
            },
            Chain::Empty => None,
        }
    }

    /// Where the last segment stands.
    pub open spec fn last_span(self) -> Span {
        match self.segments {
            Chain::Link(link) => link.item.span,
            Chain::Empty => no_span(),
        }
    }

    pub fn end_span(&self) -> (span: Span)
        ensures
            span == self.last_span(),
    {
        match &self.segments {
            Chain::Link(link) => link.item.span,
            Chain::Empty => Span { file: 0, start: 0, end: 0 },
        }
    }
}

impl Program {
    pub open spec fn kind_of(self, definition: DefId) -> Option<DefinitionKind> {
        match at(self.definitions@, definition.0) {
            Some(found) => Some(found.kind),
            None => None,
        }
    }

    pub fn kind(&self, definition: DefId) -> (kind: Option<&DefinitionKind>)
        ensures
            match kind {
                Some(found) => self.kind_of(definition) == Some(*found),
                None => self.kind_of(definition) is None,
            },
    {
        match get(&self.definitions, definition.0) {
            Some(found) => Some(&found.kind),
            None => None,
        }
    }

    pub open spec fn name_of(self, definition: DefId) -> Option<String> {
        match at(self.definitions@, definition.0) {
            Some(found) => found.name,
            None => None,
        }
    }

    pub fn definition_name(&self, definition: DefId) -> (name: Option<&String>)
        ensures
            match name {
                Some(found) => self.name_of(definition) == Some(*found),
                None => self.name_of(definition) is None,
            },
    {
        match get(&self.definitions, definition.0) {
            Some(item) => match &item.name {
                Some(name) => Some(name),
                None => None,
            },
            None => None,
        }
    }

    /// Whether `definition` has the given name.
    pub open spec fn has_name(self, definition: DefId, name: Seq<char>) -> bool {
        named(self.name_of(definition), name)
    }

    pub fn is_called(&self, definition: DefId, name: &String) -> (same: bool)
        ensures
            same == self.has_name(definition, name@),
    {
        match get(&self.definitions, definition.0) {
            Some(found) => is_named(&found.name, name),
            None => false,
        }
    }

    /// The first of `members` with the given name.
    pub open spec fn member_named(self, members: Chain<DefId>, name: Seq<char>) -> Option<DefId>
        decreases members,
    {
        match members {
            Chain::Empty => None,
            Chain::Link(link) => match self.member_named(link.rest, name) {
                Some(found) => Some(found),
                None => if self.has_name(link.item, name) {
                    Some(link.item)
                } else {
                    None
                },
            },
        }
    }

    pub fn find_member(&self, members: &Chain<DefId>, name: &String) -> (member: Option<DefId>)
        ensures
            member == self.member_named(*members, name@),
        decreases members,
    {
        match members {
            Chain::Empty => None,
            Chain::Link(link) => match self.find_member(&link.rest, name) {
                Some(found) => Some(found),
                None => if self.is_called(link.item, name) {
                    Some(link.item)
                } else {
                    None
                },
            },
        }
    }

    pub open spec fn module_of(self, definition: DefId) -> ModuleId {
        match at(self.definitions@, definition.0) {
            Some(found) => found.module,
            None => ModuleId(0),
        }
    }

    pub fn module(&self, definition: DefId) -> (module: ModuleId)
        ensures
            module == self.module_of(definition),
    {
        match get(&self.definitions, definition.0) {
            Some(found) => found.module,
            None => ModuleId(0),
        }
    }

    pub open spec fn span_of(self, definition: DefId) -> Span {
        match at(self.definitions@, definition.0) {
            Some(found) => found.span,
            None => no_span(),
        }
    }

    pub fn definition_span(&self, definition: DefId) -> (span: Span)
        ensures
            span == self.span_of(definition),
    {
        match get(&self.definitions, definition.0) {
            Some(found) => found.span,
            None => Span { file: 0, start: 0, end: 0 },
        }
    }

    /// The generic parameters of a nominal type.
    pub open spec fn type_params_of(self, definition: DefId) -> Chain<GenericParamId> {
        match self.kind_of(definition) {
            Some(DefinitionKind::Record { generic_params, fields: _, invariant_body: _ }) =>
                generic_params,
            Some(DefinitionKind::Enum { generic_params, variants: _ }) => generic_params,
            _ => Chain::Empty,
        }
    }

    pub fn type_generic_params(&self, definition: DefId) -> (parameters: Chain<GenericParamId>)
        ensures
            parameters == self.type_params_of(definition),
    {
        match self.kind(definition) {
            Some(DefinitionKind::Record { generic_params, fields: _, invariant_body: _ }) =>
                generic_params.clone(),
            Some(DefinitionKind::Enum { generic_params, variants: _ }) => generic_params.clone(),
            _ => Chain::new(),
        }
    }

    /// The method that a concept requires under a name.
    pub open spec fn requirement_named(self, concept: DefId, name: Seq<char>) -> Option<DefId> {
        match self.kind_of(concept) {
            Some(
                DefinitionKind::Concept { dyn_capable: _, associated_types: _, requirements },
            ) => self.member_named(requirements, name),
            _ => None,
        }
    }

    pub fn concept_method(&self, concept: DefId, name: &String) -> (method: Option<DefId>)
        ensures
            method == self.requirement_named(concept, name@),
    {
        match self.kind(concept) {
            Some(
                DefinitionKind::Concept { dyn_capable: _, associated_types: _, requirements },
            ) => self.find_member(requirements, name),
            _ => None,
        }
    }
}

/// Whether `module` is among `modules`.
pub open spec fn has_module(modules: Chain<ModuleId>, module: ModuleId) -> bool
    decreases modules,
{
    match modules {
        Chain::Empty => false,
        Chain::Link(link) => link.item == module || has_module(link.rest, module),
    }
}

fn contains_module(modules: &Chain<ModuleId>, module: ModuleId) -> (has: bool)
    ensures
        has == has_module(*modules, module),
    decreases modules,
{
    match modules {
        Chain::Empty => false,
        Chain::Link(link) => link.item == module || contains_module(&link.rest, module),
    }
}

impl Program {
    /// Whether the private definitions of `owner` are visible in `module`.
    pub open spec fn sees_private(self, module: ModuleId, owner: ModuleId) -> bool {
        match at(self.modules@, module.0) {
            Some(found) => has_module(found.private_access, owner),
            None => false,
        }
    }

    pub fn can_access_private(&self, module: ModuleId, owner: ModuleId) -> (may: bool)
        ensures
            may == self.sees_private(module, owner),
    {
        match get(&self.modules, module.0) {
            Some(found) => contains_module(&found.private_access, owner),
            None => false,
        }
    }

    pub open spec fn holds_tests(self, module: ModuleId) -> bool {
        match at(self.modules@, module.0) {
            Some(found) => found.test_companion,
            None => false,
        }
    }

    pub fn is_test_companion(&self, module: ModuleId) -> (tests: bool)
        ensures
            tests == self.holds_tests(module),
    {
        match get(&self.modules, module.0) {
            Some(found) => found.test_companion,
            None => false,
        }
    }
}

} // verus!
