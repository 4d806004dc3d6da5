//! Identifiers of the things a program is made of, and places in its text.

use vstd::prelude::*;

use crate::chain::{Duplicate, Same};

verus! {

/// A definition of the program.
#[derive(Clone, Copy, Debug, PartialEq, Eq, PartialOrd, Ord, Hash, Structural)]
pub struct DefId(pub u32);

/// A module of the program.
#[derive(Clone, Copy, Debug, PartialEq, Eq, PartialOrd, Ord, Hash, Structural)]
pub struct ModuleId(pub u32);

/// A generic parameter of a definition.
#[derive(Clone, Copy, Debug, PartialEq, Eq, PartialOrd, Ord, Hash, Structural)]
pub struct GenericParamId(pub u32);

/// A value parameter of a callable.
#[derive(Clone, Copy, Debug, PartialEq, Eq, PartialOrd, Ord, Hash, Structural)]
pub struct ParamId(pub u32);

/// A local binding of a body.
#[derive(Clone, Copy, Debug, PartialEq, Eq, PartialOrd, Ord, Hash, Structural)]
pub struct LocalId(pub u32);

/// A body of the program.
#[derive(Clone, Copy, Debug, PartialEq, Eq, PartialOrd, Ord, Hash, Structural)]
pub struct BodyId(pub u32);

/// An expression of a body.
#[derive(Clone, Copy, Debug, PartialEq, Eq, PartialOrd, Ord, Hash, Structural)]
pub struct ExprId(pub u32);

/// A pattern of a body.
#[derive(Clone, Copy, Debug, PartialEq, Eq, PartialOrd, Ord, Hash, Structural)]
pub struct PatternId(pub u32);

/// A written type.
#[derive(Clone, Copy, Debug, PartialEq, Eq, PartialOrd, Ord, Hash, Structural)]
pub struct TypeRefId(pub u32);

/// A lexical region of a body.
#[derive(Clone, Copy, Debug, PartialEq, Eq, PartialOrd, Ord, Hash, Structural)]
pub struct RegionId(pub u32);

/// An interned type.
#[derive(Clone, Copy, Debug, PartialEq, Eq, PartialOrd, Ord, Hash, Structural)]
pub struct TyId(pub u32);

/// A stretch of source text.
#[derive(Clone, Copy, Debug, PartialEq, Eq, PartialOrd, Ord, Hash, Structural)]
pub struct Span {
    pub file: u32,
    pub start: u32,
    pub end: u32,
}

impl Same for ModuleId {
    fn same(&self, other: &Self) -> (equal: bool) {
        *self == *other
    }
}

impl Duplicate for ModuleId {
    fn duplicate(&self) -> (copy: Self) {
        *self
    }
}

impl Same for DefId {
    fn same(&self, other: &Self) -> (equal: bool) {
        *self == *other
    }
}

impl Duplicate for DefId {
    fn duplicate(&self) -> (copy: Self) {
        *self
    }
}

impl Duplicate for GenericParamId {
    fn duplicate(&self) -> (copy: Self) {
        *self
    }
}

impl Same for TyId {
    fn same(&self, other: &Self) -> (equal: bool) {
        *self == *other
    }
}

impl Duplicate for TyId {
    fn duplicate(&self) -> (copy: Self) {
        *self
    }
}

} // verus!
