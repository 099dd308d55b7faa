//! Workspace roots and their identities.

use vstd::prelude::*;
use crate::strutil::{str_to_chars, chars_to_string, u32_to_dec};

verus! {

/// The id of the standard workspace.
pub const WORKSPACE_STD_ID: u32 = 0;

/// The id of the main workspace.
pub const WORKSPACE_MAIN_ID: u32 = 1;

/// The largest id a library workspace can take.
pub const WORKSPACE_LIB_MAX: u32 = 59999;

/// The id of the test workspace.
pub const WORKSPACE_TEST_ID: u32 = 60000;

/// The id of the builtin import root.
pub const WORKSPACE_BUILTIN_IMPORT_ID: u32 = 65000;

/// The id of the builtin include root.
pub const WORKSPACE_BUILTIN_INCLUDE_ID: u32 = 65001;

/// A workspace: a root directory together with its identity.
#[derive(Debug, Clone, PartialEq, Eq)]
pub struct Workspace {
    pub root: String,
    pub id: WorkspaceId,
}

impl Workspace {
    pub fn new(root: String, id: WorkspaceId) -> (r: Workspace)
        ensures
            r.root == root,
            r.id == id,
    {
        Workspace { root, id }
    }
}

/// Identity of a workspace root.  The numeric space is partitioned into
/// std, main, libraries, test, and the two builtin roots.
#[derive(Debug, Clone, Copy, PartialEq, Eq, Structural, Hash, Ord)]
pub struct WorkspaceId {
    pub id: u32,
}

impl WorkspaceId {
    pub fn is_library(&self) -> (r: bool)
        ensures
            r == (self.id > WORKSPACE_MAIN_ID && self.id < WORKSPACE_TEST_ID),
    {
        self.id > 1 && self.id < WORKSPACE_TEST_ID
    }

    pub fn is_main(&self) -> (r: bool)
        ensures
            r == (self.id == WORKSPACE_MAIN_ID),
    {
        self.id == 1
    }

    pub fn is_std(&self) -> (r: bool)
        ensures
            r == (self.id == WORKSPACE_STD_ID),
    {
        self.id == 0
    }

    pub fn is_import(&self) -> (r: bool)
        ensures
            r == (self.id == WORKSPACE_BUILTIN_IMPORT_ID),
    {
        self.id == WORKSPACE_BUILTIN_IMPORT_ID
    }

    pub fn is_include(&self) -> (r: bool)
        ensures
            r == (self.id == WORKSPACE_BUILTIN_INCLUDE_ID),
    {
        self.id == WORKSPACE_BUILTIN_INCLUDE_ID
    }

    pub fn is_test(&self) -> (r: bool)
        ensures
            r == (self.id == WORKSPACE_TEST_ID),
    {
        self.id == WORKSPACE_TEST_ID
    }

    /// The name a workspace id is shown under.
    pub open spec fn spec_display_name(self) -> Seq<char> {
        if self.id == WORKSPACE_STD_ID {
            "std"@
        } else if self.id == WORKSPACE_MAIN_ID {
            "main"@
        } else if self.id == WORKSPACE_TEST_ID {
            "test"@
        } else if self.id == WORKSPACE_BUILTIN_IMPORT_ID {
            "import"@
        } else if self.id == WORKSPACE_BUILTIN_INCLUDE_ID {
            "include"@
        } else {
            "lib"@ + crate::strutil::dec_digits((self.id - 1) as nat)
        }
    }

    /// The name a workspace id is shown under, as a string.
    pub fn display_name(&self) -> (r: String)
        ensures
            r@ == self.spec_display_name(),
    {
        if self.id == 0 {
            let v = str_to_chars("std");
            chars_to_string(&v)
        } else if self.id == 1 {
            let v = str_to_chars("main");
            chars_to_string(&v)
        } else if self.id == WORKSPACE_TEST_ID {
            let v = str_to_chars("test");
            chars_to_string(&v)
        } else if self.id == WORKSPACE_BUILTIN_IMPORT_ID {
            let v = str_to_chars("import");
            chars_to_string(&v)
        } else if self.id == WORKSPACE_BUILTIN_INCLUDE_ID {
            let v = str_to_chars("include");
            chars_to_string(&v)
        } else {
            let mut v = str_to_chars("lib");
            let digits = u32_to_dec(self.id - 1);
            let mut k: usize = 0;
            while k < digits.len()
                invariant
                    k <= digits@.len(),
                    v@ == "lib"@ + digits@.subrange(0, k as int),
                decreases digits@.len() - k,
            {
                v.push(digits[k]);
                proof {
                    assert(v@ =~= "lib"@ + digits@.subrange(0, k + 1 as int));
                }
                k += 1;
            }
            proof {
                assert(digits@.subrange(0, digits@.len() as int) =~= digits@);
            }
            chars_to_string(&v)
        }
    }
}

impl PartialOrd for WorkspaceId {
    fn partial_cmp(&self, other: &Self) -> (r: Option<core::cmp::Ordering>) {
        if self.id < other.id {
            Some(core::cmp::Ordering::Less)
        } else if self.id == other.id {
            Some(core::cmp::Ordering::Equal)
        } else {
            Some(core::cmp::Ordering::Greater)
        }
    }
}

impl vstd::std_specs::cmp::PartialOrdSpecImpl for WorkspaceId {
    open spec fn obeys_partial_cmp_spec() -> bool {
        true
    }

    open spec fn partial_cmp_spec(&self, other: &Self) -> Option<core::cmp::Ordering> {
        if self.id < other.id {
            Some(core::cmp::Ordering::Less)
        } else if self.id == other.id {
            Some(core::cmp::Ordering::Equal)
        } else {
            Some(core::cmp::Ordering::Greater)
        }
    }
}

} // verus!
