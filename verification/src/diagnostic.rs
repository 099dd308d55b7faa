//! Diagnostic checkers over the semantic database.

use vstd::prelude::*;
use crate::db::DbIndex;
use crate::ids::FileId;

verus! {

/// The diagnostic codes the checkers report.
#[derive(Debug, Clone, Copy, PartialEq, Eq, Structural)]
pub enum DiagnosticCode {
    CodeStyleCheck,
}

/// The code-style checker.  Style findings come from the formatter, not
/// from the semantic core, so this checker inspects the database and
/// reports nothing.
#[derive(Debug)]
pub struct CodeStyleCheckChecker;

impl CodeStyleCheckChecker {
    pub fn check(_db: &DbIndex, _file_id: FileId) -> (r: Vec<DiagnosticCode>)
        ensures
            r@.len() == 0,
    {
        Vec::new()
    }
}

} // verus!
