//! The plain-value model of a parsed chunk.
//!
//! The concrete syntax tree and its parser are external collaborators:
//! the application walks a parsed tree once and hands the analyzers this
//! model, which carries exactly what declaration collection and module
//! typing read — statement shapes, call callees and arguments, ranges.

use vstd::prelude::*;
use crate::ids::{FileId, TextRange};
use crate::property_index::XmakeScope;
use crate::types::LuaType;

verus! {

/// A named field of a table-constructor argument, with its value when
/// that value is a string literal.
#[derive(Debug, Clone)]
pub struct SyntaxTableField {
    pub name: String,
    pub value: Option<String>,
}

/// One argument of a call.
#[derive(Debug, Clone)]
pub struct SyntaxArg {
    pub range: TextRange,
    /// The syntax kind of the argument node, as the tree reports it.
    pub syntax_kind: u32,
    pub kind: SyntaxArgKind,
}

/// The shapes of arguments the analyzers read.
#[derive(Debug, Clone)]
pub enum SyntaxArgKind {
    StrLiteral(String),
    Table(Vec<SyntaxTableField>),
    Other,
}

/// A call expression with a plain-name callee ("" when the callee is
/// not a simple name, which no recognition matches).
#[derive(Debug, Clone)]
pub struct SyntaxCall {
    pub range: TextRange,
    pub callee: String,
    pub args: Vec<SyntaxArg>,
}

/// An expression in return or assignment position.
#[derive(Debug, Clone)]
pub enum SyntaxExpr {
    /// A plain name reference.
    Name { name: String, position: u32 },
    /// A closure expression.
    Closure { position: u32 },
    /// A table constructor.
    Table { position: u32 },
    /// An `import("...")` call used as an expression.
    ImportCall { path: String, position: u32 },
    /// A literal with a directly known type.
    Literal { ty: LuaType, position: u32 },
    /// An expression statically producing several values.
    Multi { types: Vec<LuaType>, position: u32 },
    /// Anything outside the analyzable subset.
    Opaque { position: u32 },
}

impl SyntaxExpr {
    /// The source position of the expression.
    pub open spec fn spec_position(self) -> u32 {
        match self {
            SyntaxExpr::Name { position, .. } => position,
            SyntaxExpr::Closure { position } => position,
            SyntaxExpr::Table { position } => position,
            SyntaxExpr::ImportCall { position, .. } => position,
            SyntaxExpr::Literal { position, .. } => position,
            SyntaxExpr::Multi { position, .. } => position,
            SyntaxExpr::Opaque { position } => position,
        }
    }

    /// Equality of expressions, a multi-value's type list compared by
    /// contents.
    pub open spec fn like(self, other: SyntaxExpr) -> bool {
        match (self, other) {
            (
                SyntaxExpr::Multi { types: t1, position: p1 },
                SyntaxExpr::Multi { types: t2, position: p2 },
            ) => t1@ == t2@ && p1 == p2,
            _ => self == other,
        }
    }

    /// A faithful copy of the expression.
    pub fn clone_expr(&self) -> (r: SyntaxExpr)
        ensures
            r.like(*self),
            !(self is Multi) ==> r == *self,
    {
        match self {
            SyntaxExpr::Name { name, position } => SyntaxExpr::Name {
                name: name.clone(),
                position: *position,
            },
            SyntaxExpr::Closure { position } => SyntaxExpr::Closure { position: *position },
            SyntaxExpr::Table { position } => SyntaxExpr::Table { position: *position },
            SyntaxExpr::ImportCall { path, position } => SyntaxExpr::ImportCall {
                path: path.clone(),
                position: *position,
            },
            SyntaxExpr::Literal { ty, position } => SyntaxExpr::Literal {
                ty: *ty,
                position: *position,
            },
            SyntaxExpr::Multi { types, position } => {
                let mut ts: Vec<LuaType> = Vec::new();
                let mut i: usize = 0;
                while i < types.len()
                    invariant
                        i <= types@.len(),
                        ts@ == types@.take(i as int),
                    decreases types@.len() - i,
                {
                    ts.push(types[i]);
                    proof {
                        assert(ts@ =~= types@.take(i + 1 as int));
                    }
                    i += 1;
                }
                proof {
                    assert(types@.take(types@.len() as int) =~= types@);
                }
                SyntaxExpr::Multi { types: ts, position: *position }
            },
            SyntaxExpr::Opaque { position } => SyntaxExpr::Opaque { position: *position },
        }
    }

    pub fn position(&self) -> (r: u32)
        ensures
            r == self.spec_position(),
    {
        match self {
            SyntaxExpr::Name { position, .. } => *position,
            SyntaxExpr::Closure { position } => *position,
            SyntaxExpr::Table { position } => *position,
            SyntaxExpr::ImportCall { position, .. } => *position,
            SyntaxExpr::Literal { position, .. } => *position,
            SyntaxExpr::Multi { position, .. } => *position,
            SyntaxExpr::Opaque { position } => *position,
        }
    }
}

/// One local binding of a `local` statement.
#[derive(Debug, Clone)]
pub struct SyntaxLocalItem {
    pub name: String,
    pub name_range: TextRange,
    /// The syntax kind of the binding's initializer.
    pub init_kind: u32,
}

/// The statement shapes the analyzers read.
#[derive(Debug, Clone)]
pub enum SyntaxStatKind {
    /// A call-expression statement.
    Call(SyntaxCall),
    /// `local a, b = ...`.
    Local(Vec<SyntaxLocalItem>),
    /// A global assignment to a plain name.
    Assign { name: String, name_range: TextRange, value: Option<SyntaxExpr> },
    /// A global `function f() ... end`, with the build scope its doc
    /// annotations declare, if any.
    Func { name: String, name_range: TextRange, closure_pos: u32, scope: Option<XmakeScope> },
    /// `return expr`.
    Return(SyntaxExpr),
    /// Anything else.
    Other,
}

/// One top-level statement.
#[derive(Debug, Clone)]
pub struct SyntaxStat {
    pub range: TextRange,
    pub kind: SyntaxStatKind,
}

/// One file's chunk: its top-level statements in source order.
#[derive(Debug, Clone)]
pub struct SyntaxChunk {
    pub file_id: FileId,
    pub range: TextRange,
    pub stats: Vec<SyntaxStat>,
}

/// Whether a call's pieces lie inside a statement's extent.
pub open spec fn call_within(c: SyntaxCall, outer: TextRange) -> bool {
    &&& c.range.wf()
    &&& outer.start <= c.range.start
    &&& c.range.start < outer.end
    &&& c.range.end <= outer.end
    &&& forall|a: int|
        0 <= a < c.args@.len() ==> (#[trigger] c.args@[a]).range.wf() && c.range.start
            <= c.args@[a].range.start && c.args@[a].range.end <= c.range.end
}

/// Well-formedness of a chunk, as a real parse produces it: statement
/// ranges are well-formed, lie inside the chunk, are pairwise disjoint
/// and ordered; a call statement's call and arguments lie inside it.
pub open spec fn chunk_wf(chunk: SyntaxChunk) -> bool {
    &&& chunk.range.wf()
    &&& forall|i: int|
        0 <= i < chunk.stats@.len() ==> (#[trigger] chunk.stats@[i]).range.wf()
            && chunk.range.start <= chunk.stats@[i].range.start && chunk.stats@[i].range.end
            <= chunk.range.end
    &&& forall|i: int, j: int|
        #![trigger chunk.stats@[i], chunk.stats@[j]]
        0 <= i < j < chunk.stats@.len() ==> chunk.stats@[i].range.end
            <= chunk.stats@[j].range.start
    &&& forall|i: int|
        0 <= i < chunk.stats@.len() ==> match (#[trigger] chunk.stats@[i]).kind {
            SyntaxStatKind::Call(c) => call_within(c, chunk.stats@[i].range),
            SyntaxStatKind::Assign { name_range, .. } => name_within(
                name_range,
                chunk.stats@[i].range,
            ),
            SyntaxStatKind::Func { name_range, closure_pos, .. } => name_within(
                name_range,
                chunk.stats@[i].range,
            ) && chunk.stats@[i].range.start <= closure_pos < chunk.stats@[i].range.end,
            _ => true,
        }
}

/// Whether a binding's name token lies inside a statement's extent.
pub open spec fn name_within(nr: TextRange, outer: TextRange) -> bool {
    &&& nr.wf()
    &&& outer.start <= nr.start
    &&& nr.start < outer.end
    &&& nr.end <= outer.end
}

/// Whether a call's pieces lie inside a statement's extent.
fn call_within_check(c: &SyntaxCall, outer: TextRange) -> (r: bool)
    ensures
        r == call_within(*c, outer),
{
    if !(c.range.start <= c.range.end && outer.start <= c.range.start && c.range.start
        < outer.end && c.range.end <= outer.end) {
        return false;
    }
    let m = c.args.len();
    let mut a: usize = 0;
    while a < m
        invariant
            m == c.args@.len(),
            a <= m,
            forall|j: int|
                0 <= j < a ==> (#[trigger] c.args@[j]).range.wf() && c.range.start
                    <= c.args@[j].range.start && c.args@[j].range.end <= c.range.end,
        decreases m - a,
    {
        let ar = c.args[a].range;
        if !(ar.start <= ar.end && c.range.start <= ar.start && ar.end <= c.range.end) {
            return false;
        }
        a += 1;
    }
    true
}

/// Whether a binding's name token lies inside a statement's extent.
fn name_within_check(nr: TextRange, outer: TextRange) -> (r: bool)
    ensures
        r == name_within(nr, outer),
{
    nr.start <= nr.end && outer.start <= nr.start && nr.start < outer.end && nr.end
        <= outer.end
}

/// Decide chunk well-formedness, so that unverified callers can test it
/// before handing a chunk to the analyzers.
pub fn chunk_wf_check(chunk: &SyntaxChunk) -> (r: bool)
    ensures
        r == chunk_wf(*chunk),
{
    if !(chunk.range.start <= chunk.range.end) {
        return false;
    }
    let n = chunk.stats.len();
    let mut i: usize = 0;
    while i < n
        invariant
            n == chunk.stats@.len(),
            i <= n,
            chunk.range.wf(),
            forall|j: int|
                0 <= j < i ==> (#[trigger] chunk.stats@[j]).range.wf() && chunk.range.start
                    <= chunk.stats@[j].range.start && chunk.stats@[j].range.end
                    <= chunk.range.end,
            forall|a: int, b: int|
                #![trigger chunk.stats@[a], chunk.stats@[b]]
                0 <= a < b < i ==> chunk.stats@[a].range.end <= chunk.stats@[b].range.start,
            forall|j: int|
                0 <= j < i ==> match (#[trigger] chunk.stats@[j]).kind {
                    SyntaxStatKind::Call(c) => call_within(c, chunk.stats@[j].range),
                    SyntaxStatKind::Assign { name_range, .. } => name_within(
                        name_range,
                        chunk.stats@[j].range,
                    ),
                    SyntaxStatKind::Func { name_range, closure_pos, .. } => name_within(
                        name_range,
                        chunk.stats@[j].range,
                    ) && chunk.stats@[j].range.start <= closure_pos && closure_pos
                        < chunk.stats@[j].range.end,
                    _ => true,
                },
        decreases n - i,
    {
        let sr = chunk.stats[i].range;
        if !(sr.start <= sr.end && chunk.range.start <= sr.start && sr.end
            <= chunk.range.end) {
            return false;
        }
        if i > 0 {
            if !(chunk.stats[i - 1].range.end <= sr.start) {
                return false;
            }
            proof {
                assert forall|a: int, b: int|
                    #![trigger chunk.stats@[a], chunk.stats@[b]]
                    0 <= a < b < i + 1 implies chunk.stats@[a].range.end <= chunk.stats@[
                    b
                ].range.start by {
                    if b == i as int && a < b - 1 {
                        assert(chunk.stats@[a].range.end <= chunk.stats@[b - 1].range.start);
                        assert(chunk.stats@[b - 1].range.start <= chunk.stats@[
                            b - 1
                        ].range.end);
                    }
                }
            }
        }
        let kind_ok = match &chunk.stats[i].kind {
            SyntaxStatKind::Call(c) => call_within_check(c, sr),
            SyntaxStatKind::Assign { name_range, .. } => name_within_check(*name_range, sr),
            SyntaxStatKind::Func { name_range, closure_pos, .. } => {
                name_within_check(*name_range, sr) && sr.start <= *closure_pos && *closure_pos
                    < sr.end
            },
            _ => true,
        };
        if !kind_ok {
            return false;
        }
        i += 1;
    }
    true
}

} // verus!
