//! Module information per file, and best-effort path resolution for
//! `import` (dotted addressing) and `includes` (file-path addressing).

use vstd::prelude::*;
use crate::ids::{FileId, LuaSemanticDeclId};
use crate::types::LuaType;
use crate::workspace::{WorkspaceId, WORKSPACE_BUILTIN_IMPORT_ID};
use crate::assoc::{alookup, akeys_unique, lemma_alookup_found, lemma_alookup_absent,
    lemma_alookup_update, lemma_alookup_push, lemma_alookup_remove};
use crate::strutil::{str_to_chars, chars_prefix, chars_concat, chars_eq};

verus! {

/// What one file exposes: its dotted module path, the workspace it was
/// collected from, and (once analysis commits it) its export type and
/// the semantic identity of what produced that export.
#[derive(Debug, Clone)]
pub struct ModuleInfo {
    pub file_id: FileId,
    pub full_module_name: String,
    pub workspace_id: WorkspaceId,
    pub export_type: Option<LuaType>,
    pub semantic_id: Option<LuaSemanticDeclId>,
}

/// The chars of a dotted path up to and including its last dot; empty
/// when the path has no dot.
pub open spec fn parent_prefix(s: Seq<char>) -> Seq<char>
    decreases s.len(),
{
    if s.len() == 0 {
        s
    } else if s.last() == '.' {
        s
    } else {
        parent_prefix(s.drop_last())
    }
}

/// The first registered file whose module path equals `path`.
pub open spec fn spec_scan_module(s: Seq<(FileId, ModuleInfo)>, path: Seq<char>) -> Option<FileId>
    decreases s.len(),
{
    if s.len() == 0 {
        None
    } else if s[0].1.full_module_name@ == path {
        Some(s[0].0)
    } else {
        spec_scan_module(s.skip(1), path)
    }
}

/// A module scan that has not matched yet continues on the rest.
pub proof fn lemma_scan_module_skip(s: Seq<(FileId, ModuleInfo)>, path: Seq<char>, i: int)
    requires
        0 <= i <= s.len(),
        forall|j: int| 0 <= j < i ==> s[j].1.full_module_name@ != path,
    ensures
        spec_scan_module(s, path) == spec_scan_module(s.skip(i), path),
    decreases i,
{
    if i > 0 {
        lemma_scan_module_skip(s, path, i - 1);
        let t = s.skip(i - 1);
        assert(t[0] == s[i - 1]);
        assert(s[i - 1].1.full_module_name@ != path);
        assert(t.skip(1) =~= s.skip(i));
        assert(spec_scan_module(t, path) == spec_scan_module(t.skip(1), path));
    } else {
        assert(s.skip(0) =~= s);
    }
}

/// The first registered builtin-import-root file whose module path
/// equals `path`.
pub open spec fn spec_scan_builtin_import(s: Seq<(FileId, ModuleInfo)>, path: Seq<char>) -> Option<
    FileId,
>
    decreases s.len(),
{
    if s.len() == 0 {
        None
    } else if s[0].1.workspace_id.id == WORKSPACE_BUILTIN_IMPORT_ID && s[0].1.full_module_name@
        == path {
        Some(s[0].0)
    } else {
        spec_scan_builtin_import(s.skip(1), path)
    }
}

/// A builtin-import scan that has not matched yet continues on the rest.
pub proof fn lemma_scan_builtin_import_skip(s: Seq<(FileId, ModuleInfo)>, path: Seq<char>, i: int)
    requires
        0 <= i <= s.len(),
        forall|j: int|
            0 <= j < i ==> !(s[j].1.workspace_id.id == WORKSPACE_BUILTIN_IMPORT_ID
                && s[j].1.full_module_name@ == path),
    ensures
        spec_scan_builtin_import(s, path) == spec_scan_builtin_import(s.skip(i), path),
    decreases i,
{
    if i > 0 {
        lemma_scan_builtin_import_skip(s, path, i - 1);
        let t = s.skip(i - 1);
        assert(t[0] == s[i - 1]);
        assert(!(s[i - 1].1.workspace_id.id == WORKSPACE_BUILTIN_IMPORT_ID
            && s[i - 1].1.full_module_name@ == path));
        assert(t.skip(1) =~= s.skip(i));
        assert(spec_scan_builtin_import(t, path) == spec_scan_builtin_import(t.skip(1), path));
    } else {
        assert(s.skip(0) =~= s);
    }
}

/// The first registered file whose module path answers an include path.
pub open spec fn spec_scan_include(s: Seq<(FileId, ModuleInfo)>, n: Seq<char>) -> Option<FileId>
    decreases s.len(),
{
    if s.len() == 0 {
        None
    } else if include_matches(s[0].1.full_module_name@, n) {
        Some(s[0].0)
    } else {
        spec_scan_include(s.skip(1), n)
    }
}

/// An include scan that has not matched yet continues on the rest.
pub proof fn lemma_scan_include_skip(s: Seq<(FileId, ModuleInfo)>, n: Seq<char>, i: int)
    requires
        0 <= i <= s.len(),
        forall|j: int| 0 <= j < i ==> !include_matches(s[j].1.full_module_name@, n),
    ensures
        spec_scan_include(s, n) == spec_scan_include(s.skip(i), n),
    decreases i,
{
    if i > 0 {
        lemma_scan_include_skip(s, n, i - 1);
        let t = s.skip(i - 1);
        assert(t[0] == s[i - 1]);
        assert(!include_matches(s[i - 1].1.full_module_name@, n));
        assert(t.skip(1) =~= s.skip(i));
        assert(spec_scan_include(t, n) == spec_scan_include(t.skip(1), n));
    } else {
        assert(s.skip(0) =~= s);
    }
}

/// Whether a registered module path answers an include path: exact, or
/// as a dot-separated suffix.
pub open spec fn include_matches(name: Seq<char>, n: Seq<char>) -> bool {
    name == n || (name.len() > n.len() && name[name.len() - n.len() - 1] == '.' && name.skip(
        name.len() - n.len(),
    ) == n)
}

/// A path separator, normalized to a dot.
pub open spec fn norm_sep(c: char) -> char {
    if c == '/' || c == '\\' {
        '.'
    } else {
        c
    }
}

/// An include path in module form: the `.lua` extension dropped and the
/// separators normalized.
pub open spec fn normalize_include(s: Seq<char>) -> Seq<char> {
    let base = if s.len() >= 4 && s[s.len() - 4] == '.' && s[s.len() - 3] == 'l' && s[s.len()
        - 2] == 'u' && s[s.len() - 1] == 'a' {
        s.take(s.len() - 4)
    } else {
        s
    };
    base.map_values(|c: char| norm_sep(c))
}

/// Module records per file, in registration order.
#[derive(Debug)]
pub struct LuaModuleIndex {
    pub modules: Vec<(FileId, ModuleInfo)>,
}

impl LuaModuleIndex {
    pub open spec fn wf(self) -> bool {
        &&& akeys_unique(self.modules@)
        &&& forall|i: int| 0 <= i < self.modules@.len() ==> (#[trigger] self.modules@[i]).1.file_id
            == self.modules@[i].0
    }

    /// The module record of a file.
    pub open spec fn spec_get(self, file_id: FileId) -> Option<ModuleInfo> {
        alookup(self.modules@, file_id)
    }

    /// The export type committed for a file, if any.
    pub open spec fn spec_export(self, file_id: FileId) -> Option<LuaType> {
        match self.spec_get(file_id) {
            Some(info) => info.export_type,
            None => None,
        }
    }

    pub fn new() -> (r: LuaModuleIndex)
        ensures
            r.wf(),
            forall|f: FileId| r.spec_get(f) is None,
    {
        let r = LuaModuleIndex { modules: Vec::new() };
        proof {
            assert forall|f: FileId| r.spec_get(f) is None by {
                lemma_alookup_absent(r.modules@, f);
            }
        }
        r
    }

    fn find_idx(&self, file_id: FileId) -> (r: Option<usize>)
        ensures
            match r {
                Some(i) => {
                    &&& i < self.modules@.len()
                    &&& self.modules@[i as int].0 == file_id
                    &&& forall|j: int| 0 <= j < i ==> self.modules@[j].0 != file_id
                },
                None => forall|j: int| 0 <= j < self.modules@.len() ==> self.modules@[j].0
                    != file_id,
            },
    {
        let n = self.modules.len();
        let mut i: usize = 0;
        while i < n
            invariant
                n == self.modules@.len(),
                i <= n,
                forall|j: int| 0 <= j < i ==> self.modules@[j].0 != file_id,
            decreases n - i,
    {
            if self.modules[i].0 == file_id {
                return Some(i);
            }
            i += 1;
        }
        None
    }

    /// Register a file under its dotted module path, with no export
    /// committed yet.  Replaces any earlier record of the file.
    pub fn add_module(&mut self, file_id: FileId, full_module_name: String, workspace_id: WorkspaceId)
        requires
            old(self).wf(),
        ensures
            final(self).wf(),
            final(self).spec_get(file_id) matches Some(info) && info.file_id == file_id
                && info.full_module_name@ == full_module_name@ && info.workspace_id == workspace_id
                && info.export_type is None && info.semantic_id is None,
            forall|g: FileId| g != file_id ==> final(self).spec_get(g) == old(self).spec_get(g),
    {
        let info = ModuleInfo {
            file_id,
            full_module_name,
            workspace_id,
            export_type: None,
            semantic_id: None,
        };
        let ghost s0 = self.modules@;
        match self.find_idx(file_id) {
            Some(i) => {
                self.modules[i] = (file_id, info);
                proof {
                    lemma_alookup_update(s0, i as int, self.modules@[i as int].1);
                }
            },
            None => {
                proof {
                    lemma_alookup_absent(s0, file_id);
                }
                self.modules.push((file_id, info));
                proof {
                    lemma_alookup_push(s0, file_id, self.modules@[s0.len() as int].1);
                }
            },
        }
    }

    /// The module record of a file.
    pub fn get_module(&self, file_id: FileId) -> (r: Option<&ModuleInfo>)
        requires
            self.wf(),
        ensures
            match r {
                Some(info) => self.spec_get(file_id) == Some(*info),
                None => self.spec_get(file_id) is None,
            },
    {
        match self.find_idx(file_id) {
            Some(i) => {
                proof {
                    lemma_alookup_found(self.modules@, file_id, i as int);
                }
                Some(&self.modules[i].1)
            },
            None => {
                proof {
                    lemma_alookup_absent(self.modules@, file_id);
                }
                None
            },
        }
    }

    /// Commit the export of a file's module: its type and, when the
    /// exported expression denotes a declaration or closure, that
    /// entity's identity.
    pub fn set_export(
        &mut self,
        file_id: FileId,
        export_type: LuaType,
        semantic_id: Option<LuaSemanticDeclId>,
    ) -> (r: bool)
        requires
            old(self).wf(),
        ensures
            final(self).wf(),
            r == (old(self).spec_get(file_id) is Some),
            !r ==> *final(self) == *old(self),
            r ==> (final(self).spec_get(file_id) matches Some(info) && {
                let prev = old(self).spec_get(file_id)->Some_0;
                &&& info.file_id == prev.file_id
                &&& info.full_module_name == prev.full_module_name
                &&& info.workspace_id == prev.workspace_id
                &&& info.export_type == Some(export_type)
                &&& info.semantic_id == semantic_id
            }),
            forall|g: FileId| g != file_id ==> final(self).spec_get(g) == old(self).spec_get(g),
    {
        let ghost s0 = self.modules@;
        match self.find_idx(file_id) {
            Some(i) => {
                proof {
                    lemma_alookup_found(s0, file_id, i as int);
                }
                let new_info = ModuleInfo {
                    file_id: self.modules[i].1.file_id,
                    full_module_name: self.modules[i].1.full_module_name.clone(),
                    workspace_id: self.modules[i].1.workspace_id,
                    export_type: Some(export_type),
                    semantic_id,
                };
                self.modules[i] = (file_id, new_info);
                proof {
                    lemma_alookup_update(s0, i as int, self.modules@[i as int].1);
                }
                true
            },
            None => {
                proof {
                    lemma_alookup_absent(s0, file_id);
                }
                false
            },
        }
    }

    /// The first registered file whose module path equals `path`.
    pub fn find_module(&self, path: &str) -> (r: Option<FileId>)
        requires
            self.wf(),
        ensures
            r == spec_scan_module(self.modules@, path@),
    {
        let target = str_to_chars(path);
        self.find_by_name_chars(&target)
    }

    /// Resolve a dotted import path from a file: first a module colocated
    /// with the requesting file (its parent path prepended), then the
    /// builtin import roots, then any module with that exact path.
    pub fn find_import(&self, path: &str, from: FileId) -> (r: Option<FileId>)
        requires
            self.wf(),
        ensures
            r == self.spec_find_import(path@, from),
    {
        let target = str_to_chars(path);
        // colocated: the requesting file's parent path, then the asked path
        let rel = match self.get_module(from) {
            Some(info) => {
                let name_chars = str_to_chars(info.full_module_name.as_str());
                let pre = parent_prefix_chars(&name_chars);
                if pre.len() > 0 {
                    let full = chars_concat(&pre, &target);
                    self.find_by_name_chars(&full)
                } else {
                    None
                }
            },
            None => None,
        };
        if let Some(f) = rel {
            return Some(f);
        }
        let builtin = self.find_builtin_import(&target);
        if let Some(f) = builtin {
            return Some(f);
        }
        self.find_by_name_chars(&target)
    }

    /// What `find_import` answers.
    pub open spec fn spec_find_import(self, path: Seq<char>, from: FileId) -> Option<FileId> {
        let rel = match self.spec_get(from) {
            Some(info) => {
                let pre = parent_prefix(info.full_module_name@);
                if pre.len() > 0 {
                    spec_scan_module(self.modules@, pre + path)
                } else {
                    None::<FileId>
                }
            },
            None => None::<FileId>,
        };
        if rel is Some {
            rel
        } else {
            let builtin = spec_scan_builtin_import(self.modules@, path);
            if builtin is Some {
                builtin
            } else {
                spec_scan_module(self.modules@, path)
            }
        }
    }

    /// The first registered file whose module path equals the given chars.
    fn find_by_name_chars(&self, target: &Vec<char>) -> (r: Option<FileId>)
        requires
            self.wf(),
        ensures
            r == spec_scan_module(self.modules@, target@),
    {
        let n = self.modules.len();
        let mut i: usize = 0;
        while i < n
            invariant
                n == self.modules@.len(),
                i <= n,
                forall|j: int| 0 <= j < i ==> self.modules@[j].1.full_module_name@ != target@,
            decreases n - i,
        {
            let name_chars = str_to_chars(self.modules[i].1.full_module_name.as_str());
            if chars_eq(&name_chars, target) {
                proof {
                    lemma_scan_module_skip(self.modules@, target@, i as int);
                    assert(self.modules@.skip(i as int)[0] == self.modules@[i as int]);
                }
                return Some(self.modules[i].0);
            }
            i += 1;
        }
        proof {
            lemma_scan_module_skip(self.modules@, target@, n as int);
            assert(self.modules@.skip(n as int) =~= Seq::<(FileId, ModuleInfo)>::empty());
        }
        None
    }

    /// The first builtin-import-root file whose module path equals the
    /// given chars.
    fn find_builtin_import(&self, target: &Vec<char>) -> (r: Option<FileId>)
        requires
            self.wf(),
        ensures
            r == spec_scan_builtin_import(self.modules@, target@),
    {
        let n = self.modules.len();
        let mut i: usize = 0;
        while i < n
            invariant
                n == self.modules@.len(),
                i <= n,
                forall|j: int|
                    0 <= j < i ==> !(self.modules@[j].1.workspace_id.id
                        == WORKSPACE_BUILTIN_IMPORT_ID && self.modules@[
                        j
                    ].1.full_module_name@ == target@),
            decreases n - i,
        {
            let mut hit = false;
            if self.modules[i].1.workspace_id.id == WORKSPACE_BUILTIN_IMPORT_ID {
                let name_chars = str_to_chars(self.modules[i].1.full_module_name.as_str());
                if chars_eq(&name_chars, target) {
                    hit = true;
                }
            }
            if hit {
                proof {
                    lemma_scan_builtin_import_skip(self.modules@, target@, i as int);
                    assert(self.modules@.skip(i as int)[0] == self.modules@[i as int]);
                }
                return Some(self.modules[i].0);
            }
            i += 1;
        }
        proof {
            lemma_scan_builtin_import_skip(self.modules@, target@, n as int);
            assert(self.modules@.skip(n as int) =~= Seq::<(FileId, ModuleInfo)>::empty());
        }
        None
    }

    /// Resolve an include path from a file: the path is normalized to
    /// module form, and the first module matching it exactly or as a
    /// dot-separated suffix answers.
    pub fn find_include(&self, path: &str, _from: FileId) -> (r: Option<FileId>)
        requires
            self.wf(),
        ensures
            r == spec_scan_include(self.modules@, normalize_include(path@)),
    {
        let raw = str_to_chars(path);
        let normalized = normalize_include_chars(&raw);
        let n = self.modules.len();
        let mut i: usize = 0;
        while i < n
            invariant
                n == self.modules@.len(),
                i <= n,
                normalized@ == normalize_include(path@),
                forall|j: int|
                    0 <= j < i ==> !include_matches(
                        self.modules@[j].1.full_module_name@,
                        normalize_include(path@),
                    ),
            decreases n - i,
        {
            let name_chars = str_to_chars(self.modules[i].1.full_module_name.as_str());
            if include_matches_chars(&name_chars, &normalized) {
                proof {
                    lemma_scan_include_skip(self.modules@, normalized@, i as int);
                    assert(self.modules@.skip(i as int)[0] == self.modules@[i as int]);
                }
                return Some(self.modules[i].0);
            }
            i += 1;
        }
        proof {
            lemma_scan_include_skip(self.modules@, normalized@, n as int);
            assert(self.modules@.skip(n as int) =~= Seq::<(FileId, ModuleInfo)>::empty());
        }
        None
    }

    /// Purge the module record of a file.
    pub fn remove(&mut self, file_id: FileId)
        requires
            old(self).wf(),
        ensures
            final(self).wf(),
            final(self).spec_get(file_id) is None,
            forall|g: FileId| g != file_id ==> final(self).spec_get(g) == old(self).spec_get(g),
    {
        let ghost s0 = self.modules@;
        match self.find_idx(file_id) {
            Some(i) => {
                self.modules.remove(i);
                proof {
                    lemma_alookup_remove(s0, i as int);
                }
            },
            None => {
                proof {
                    lemma_alookup_absent(s0, file_id);
                }
            },
        }
    }

    /// Drop everything.
    pub fn clear(&mut self)
        ensures
            final(self).wf(),
            forall|f: FileId| final(self).spec_get(f) is None,
    {
        self.modules.clear();
        proof {
            assert forall|f: FileId| alookup(self.modules@, f) is None by {
                lemma_alookup_absent(self.modules@, f);
            }
        }
    }
}

/// The chars of a dotted path up to and including its last dot.
pub fn parent_prefix_chars(v: &Vec<char>) -> (r: Vec<char>)
    ensures
        r@ == parent_prefix(v@),
{
    let mut j: usize = v.len();
    proof {
        assert(v@.take(j as int) =~= v@);
    }
    while j > 0
        invariant
            j <= v@.len(),
            parent_prefix(v@) == parent_prefix(v@.take(j as int)),
        decreases j,
    {
        proof {
            assert(v@.take(j as int).last() == v@[j - 1]);
            assert(v@.take(j as int).drop_last() =~= v@.take(j - 1));
        }
        if v[j - 1] == '.' {
            let r = chars_prefix(v, j);
            return r;
        }
        j -= 1;
    }
    proof {
        assert(v@.take(0) =~= Seq::<char>::empty());
    }
    Vec::new()
}

/// An include path in module form.
pub fn normalize_include_chars(v: &Vec<char>) -> (r: Vec<char>)
    ensures
        r@ == normalize_include(v@),
{
    let n = v.len();
    let base_len: usize = if n >= 4 && v[n - 4] == '.' && v[n - 3] == 'l' && v[n - 2] == 'u'
        && v[n - 1] == 'a' {
        n - 4
    } else {
        n
    };
    let mut out: Vec<char> = Vec::new();
    let ghost base = if n >= 4 && v@[n - 4] == '.' && v@[n - 3] == 'l' && v@[n - 2] == 'u'
        && v@[n - 1] == 'a' {
        v@.take(n - 4)
    } else {
        v@
    };
    assert(base.len() == base_len);
    let mut i: usize = 0;
    while i < base_len
        invariant
            base_len <= v@.len(),
            base.len() == base_len,
            forall|j: int| 0 <= j < base_len ==> base[j] == v@[j],
            i <= base_len,
            out@ == base.map_values(|c: char| norm_sep(c)).take(i as int),
        decreases base_len - i,
    {
        let c = v[i];
        let mapped = if c == '/' || c == '\\' {
            '.'
        } else {
            c
        };
        assert(mapped == norm_sep(base[i as int]));
        out.push(mapped);
        proof {
            assert(out@ =~= base.map_values(|c: char| norm_sep(c)).take(i + 1 as int));
        }
        i += 1;
    }
    proof {
        let m = base.map_values(|c: char| norm_sep(c));
        assert(m.take(base_len as int) =~= m);
        assert(normalize_include(v@) == m);
    }
    out
}

/// Whether a module path answers an include path, exactly or as a
/// dot-separated suffix.
pub fn include_matches_chars(name: &Vec<char>, n: &Vec<char>) -> (r: bool)
    ensures
        r == include_matches(name@, n@),
{
    if chars_eq(name, n) {
        return true;
    }
    if name.len() > n.len() {
        let off = name.len() - n.len();
        if name[off - 1] == '.' {
            let mut i: usize = 0;
            while i < n.len()
                invariant
                    name@.len() > n@.len(),
                    name@.len() <= usize::MAX,
                    off == name@.len() - n@.len(),
                    i <= n@.len(),
                    forall|j: int| 0 <= j < i ==> name@[off + j] == n@[j],
                decreases n@.len() - i,
            {
                assert(off + i < name@.len());
                if name[off + i] != n[i] {
                    assert(name@.skip(off as int)[i as int] != n@[i as int]);
                    return false;
                }
                i += 1;
            }
            proof {
                assert(name@.skip(off as int) =~= n@);
            }
            return true;
        }
    }
    false
}

/// The parent prefix is never longer than the path.
pub proof fn lemma_parent_prefix_len(s: Seq<char>)
    ensures
        parent_prefix(s).len() <= s.len(),
    decreases s.len(),
{
    if s.len() > 0 && s.last() != '.' {
        lemma_parent_prefix_len(s.drop_last());
    }
}

} // verus!
