//! Stable identities and text ranges used by every index.

use vstd::prelude::*;

verus! {

/// Identity of a source file within a workspace; stable for the file's
/// lifetime, reassigned on removal and re-adding.
#[derive(Debug, Clone, Copy, PartialEq, Eq, Structural, Hash)]
pub struct FileId {
    pub id: u32,
}

/// A half-open range `[start, end)` of text offsets within one file.
#[derive(Debug, Clone, Copy, PartialEq, Eq, Structural, Hash)]
pub struct TextRange {
    pub start: u32,
    pub end: u32,
}

impl TextRange {
    pub open spec fn wf(self) -> bool {
        self.start <= self.end
    }

    pub fn new(start: u32, end: u32) -> (r: TextRange)
        requires
            start <= end,
        ensures
            r == (TextRange { start, end }),
    {
        TextRange { start, end }
    }

    pub open spec fn spec_contains(self, position: u32) -> bool {
        self.start <= position < self.end
    }

    /// Whether `position` lies inside the half-open range.
    pub fn contains(&self, position: u32) -> (r: bool)
        ensures
            r == self.spec_contains(position),
    {
        self.start <= position && position < self.end
    }

    /// Two ranges are disjoint when neither holds a position of the other.
    pub open spec fn spec_disjoint(self, other: TextRange) -> bool {
        self.end <= other.start || other.end <= self.start
    }
}

/// Identity of a declaration: owning file plus source position.  Stable
/// across re-parsing as long as the position is unchanged.
#[derive(Debug, Clone, Copy, PartialEq, Eq, Structural, Hash)]
pub struct LuaDeclId {
    pub file_id: FileId,
    pub position: u32,
}

impl LuaDeclId {
    pub fn new(file_id: FileId, position: u32) -> (r: LuaDeclId)
        ensures
            r == (LuaDeclId { file_id, position }),
    {
        LuaDeclId { file_id, position }
    }
}

/// Identity of a function signature: owning file plus the position of the
/// closure expression that produced it.
#[derive(Debug, Clone, Copy, PartialEq, Eq, Structural, Hash)]
pub struct LuaSignatureId {
    pub file_id: FileId,
    pub position: u32,
}

impl LuaSignatureId {
    /// The signature of the closure at `position` in `file_id`.
    pub fn from_closure(file_id: FileId, position: u32) -> (r: LuaSignatureId)
        ensures
            r == (LuaSignatureId { file_id, position }),
    {
        LuaSignatureId { file_id, position }
    }
}

/// Identity of any declarable entity: a declaration or a signature.  Used
/// as the key of the type cache and the property index.
#[derive(Debug, Clone, Copy, PartialEq, Eq, Structural, Hash)]
pub enum LuaSemanticDeclId {
    LuaDecl(LuaDeclId),
    Signature(LuaSignatureId),
}

} // verus!
