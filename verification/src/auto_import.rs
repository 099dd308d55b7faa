//! Where an automatically inserted import statement belongs: after the
//! last import already above the requesting position, or else before
//! the first statement of the chunk.  Building and applying the actual
//! text edit is the surrounding application's job.

use vstd::prelude::*;
use crate::syntax::{SyntaxChunk, SyntaxStat, SyntaxStatKind};
use crate::xmake_index::{XmakeFunction, get_xmake_function, spec_xmake_function_of};

verus! {

/// The editor command that inserts a missing import.
#[derive(Debug)]
pub struct AutoRequireCommand;

/// Whether a statement is an import call.
pub open spec fn spec_is_import_stat(stat: SyntaxStat) -> bool {
    match stat.kind {
        SyntaxStatKind::Call(c) => spec_xmake_function_of(c.callee@) == Some(
            XmakeFunction::Import,
        ),
        _ => false,
    }
}

/// Whether a statement is an import call.
pub fn is_import_stat(stat: &SyntaxStat) -> (r: bool)
    ensures
        r == spec_is_import_stat(*stat),
{
    match &stat.kind {
        SyntaxStatKind::Call(c) => match get_xmake_function(c.callee.as_str()) {
            Some(f) => matches!(f, XmakeFunction::Import),
            None => false,
        },
        _ => false,
    }
}

/// Where the inserted import goes.
#[derive(Debug, Clone, Copy, PartialEq, Eq, Structural)]
pub enum AutoImportAnchor {
    /// Insert after the import statement ending at this offset.
    AfterImport(u32),
    /// Insert before the first statement, which starts at this offset.
    BeforeFirst(u32),
}

/// The last import statement starting at or before `position`, scanning
/// the first `i` statements.
pub open spec fn spec_last_import_end(chunk: SyntaxChunk, i: int, position: u32) -> Option<u32>
    decreases i,
{
    if i <= 0 || i > chunk.stats@.len() {
        None
    } else {
        let prev = spec_last_import_end(chunk, i - 1, position);
        if chunk.stats@[i - 1].range.start <= position && spec_is_import_stat(
            chunk.stats@[i - 1],
        ) {
            Some(chunk.stats@[i - 1].range.end)
        } else {
            prev
        }
    }
}

/// What the anchor search answers.
pub open spec fn spec_auto_import_anchor(chunk: SyntaxChunk, position: u32) -> Option<
    AutoImportAnchor,
> {
    if chunk.stats@.len() == 0 {
        None
    } else {
        match spec_last_import_end(chunk, chunk.stats@.len() as int, position) {
            Some(end) => Some(AutoImportAnchor::AfterImport(end)),
            None => Some(AutoImportAnchor::BeforeFirst(chunk.stats@[0].range.start)),
        }
    }
}

/// Find where an inserted import belongs: after the last import
/// statement at or before the requesting position, else before the
/// first statement; a chunk without statements offers no anchor.
pub fn find_auto_import_anchor(chunk: &SyntaxChunk, position: u32) -> (r: Option<
    AutoImportAnchor,
>)
    ensures
        r == spec_auto_import_anchor(*chunk, position),
{
    let n = chunk.stats.len();
    if n == 0 {
        return None;
    }
    let mut last_end: Option<u32> = None;
    let mut i: usize = 0;
    while i < n
        invariant
            n == chunk.stats@.len(),
            i <= n,
            last_end == spec_last_import_end(*chunk, i as int, position),
        decreases n - i,
    {
        let stat = &chunk.stats[i];
        if stat.range.start <= position && is_import_stat(stat) {
            last_end = Some(stat.range.end);
        }
        i += 1;
    }
    match last_end {
        Some(end) => Some(AutoImportAnchor::AfterImport(end)),
        None => Some(AutoImportAnchor::BeforeFirst(chunk.stats[0].range.start)),
    }
}

} // verus!
