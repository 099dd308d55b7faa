//! The type lattice of the analysis, the type cache, and failure reasons
//! for deferred inference.

use vstd::prelude::*;
use crate::ids::{FileId, LuaDeclId, LuaSignatureId};

verus! {

/// An inferred type.  Only the subset needed for declaration, call and
/// module typing is modelled; everything else is `Unknown`.
#[derive(Debug, Clone, Copy, PartialEq, Eq, Structural)]
pub enum LuaType {
    /// No information: the sentinel committed for permanently unresolved
    /// entities.  Downstream consumers treat it as "no information".
    Unknown,
    /// Matches every type in compatibility checks.
    Any,
    Nil,
    Boolean,
    Number,
    Str,
    /// A table/aggregate value.
    Table,
    /// A concrete type definition introduced by the declaration.
    Def(LuaDeclId),
    /// A reference to a type defined elsewhere.
    Ref(LuaDeclId),
    /// A function signature.
    Signature(LuaSignatureId),
    /// "The module itself": a lazily resolved self-reference used as the
    /// export of files without a `return` statement or a typed `main`.
    ModuleRef(FileId),
}

impl LuaType {
    pub fn is_def(&self) -> (r: bool)
        ensures
            r == self is Def,
    {
        matches!(self, LuaType::Def(_))
    }

    pub fn is_ref(&self) -> (r: bool)
        ensures
            r == self is Ref,
    {
        matches!(self, LuaType::Ref(_))
    }

    pub fn is_any(&self) -> (r: bool)
        ensures
            r == self is Any,
    {
        matches!(self, LuaType::Any)
    }

    pub fn is_table(&self) -> (r: bool)
        ensures
            r == self is Table,
    {
        matches!(self, LuaType::Table)
    }

    pub fn is_unknown(&self) -> (r: bool)
        ensures
            r == self is Unknown,
    {
        matches!(self, LuaType::Unknown)
    }
}

/// One entry of the type cache: a type committed for a declarable entity,
/// either inferred from code or taken from a doc annotation.  Overwritten
/// in place on re-inference, never duplicated.
#[derive(Debug, Clone, Copy, PartialEq, Eq, Structural)]
pub enum LuaTypeCache {
    InferType(LuaType),
    DocType(LuaType),
}

impl LuaTypeCache {
    pub fn as_type(&self) -> (r: LuaType)
        ensures
            r == self.spec_as_type(),
    {
        match self {
            LuaTypeCache::InferType(t) => *t,
            LuaTypeCache::DocType(t) => *t,
        }
    }

    pub open spec fn spec_as_type(self) -> LuaType {
        match self {
            LuaTypeCache::InferType(t) => t,
            LuaTypeCache::DocType(t) => t,
        }
    }

    pub fn is_table(&self) -> (r: bool)
        ensures
            r == (self.spec_as_type() is Table),
    {
        matches!(self.as_type(), LuaType::Table)
    }
}

/// Why one inference attempt could not commit a result.  Each deferred
/// entry carries exactly one reason.
#[derive(Debug, Clone, Copy, PartialEq, Eq, Structural)]
pub enum InferFailReason {
    /// True failure: the target can never be determined (missing binding,
    /// a form outside the analyzable subset).  Committed as `Unknown`.
    Unresolvable,
    /// The type of this declaration is not yet known; retry once it is.
    UnResolveDeclId(LuaDeclId),
    /// The export type of this module is not yet known; retry once it is.
    UnResolveModule(FileId),
}

impl InferFailReason {
    /// Whether the failure is permanent rather than worth retrying.
    pub fn is_unresolvable(&self) -> (r: bool)
        ensures
            r == self is Unresolvable,
    {
        matches!(self, InferFailReason::Unresolvable)
    }
}

} // verus!
