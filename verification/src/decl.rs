//! Per-file declaration trees with lexical scoping.

use vstd::prelude::*;
use crate::ids::{FileId, LuaDeclId, TextRange};
use crate::assoc::{alookup, akeys_unique, lemma_alookup_found, lemma_alookup_absent,
    lemma_alookup_update, lemma_alookup_push, lemma_alookup_remove};
use crate::strutil::str_eq;

verus! {

/// Kind-specific extra data of a declaration.
#[derive(Debug, Clone, Copy, PartialEq, Eq, Structural)]
pub enum LuaDeclExtra {
    /// A local binding; `kind` is the syntax kind of its initializer.
    Local { kind: u32 },
    /// A global binding.
    Global,
    /// A function parameter at the given index.
    Param { idx: u32 },
}

/// A named binding introduced by a script.
#[derive(Debug, Clone)]
pub struct LuaDecl {
    pub name: String,
    pub file_id: FileId,
    /// The declaration's own range; its start is the declaration's
    /// identity within the file.
    pub range: TextRange,
    /// The lexical region in which the binding is visible.
    pub scope: TextRange,
    pub extra: LuaDeclExtra,
}

impl LuaDecl {
    pub fn new(
        name: &str,
        file_id: FileId,
        range: TextRange,
        scope: TextRange,
        extra: LuaDeclExtra,
    ) -> (r: LuaDecl)
        ensures
            r.name@ == name@,
            r.file_id == file_id,
            r.range == range,
            r.scope == scope,
            r.extra == extra,
    {
        let chars = crate::strutil::str_to_chars(name);
        let owned = crate::strutil::chars_to_string(&chars);
        LuaDecl { name: owned, file_id, range, scope, extra }
    }

    /// The stable identity of the declaration.
    pub open spec fn spec_id(self) -> LuaDeclId {
        LuaDeclId { file_id: self.file_id, position: self.range.start }
    }

    pub fn get_id(&self) -> (r: LuaDeclId)
        ensures
            r == self.spec_id(),
    {
        LuaDeclId { file_id: self.file_id, position: self.range.start }
    }

    pub fn get_name(&self) -> (r: &str)
        ensures
            r@ == self.name@,
    {
        self.name.as_str()
    }

    pub fn get_range(&self) -> (r: TextRange)
        ensures
            r == self.range,
    {
        self.range
    }
}

/// The running scan of local lookup: from index `i` on, a candidate
/// declared at or after the best one seen so far replaces it.
pub open spec fn spec_find_local(
    s: Seq<LuaDecl>,
    name: Seq<char>,
    position: u32,
    i: int,
    best: Option<LuaDecl>,
) -> Option<LuaDecl>
    decreases s.len() - i,
{
    if i < 0 || i >= s.len() {
        best
    } else {
        let d = s[i];
        let nb = if decl_candidate(d, name, position) && (match best {
            Some(b) => b.range.start <= d.range.start,
            None => true,
        }) {
            Some(d)
        } else {
            best
        };
        spec_find_local(s, name, position, i + 1, nb)
    }
}

/// The first declaration of a tree bearing an identity.
pub open spec fn spec_decl_in_tree(s: Seq<LuaDecl>, id: LuaDeclId) -> Option<LuaDecl>
    decreases s.len(),
{
    if s.len() == 0 {
        None
    } else if s[0].spec_id() == id {
        Some(s[0])
    } else {
        spec_decl_in_tree(s.skip(1), id)
    }
}

/// A declaration scan that has not matched yet continues on the rest.
pub proof fn lemma_decl_in_tree_skip(s: Seq<LuaDecl>, id: LuaDeclId, i: int)
    requires
        0 <= i <= s.len(),
        forall|j: int| 0 <= j < i ==> (#[trigger] s[j]).spec_id() != id,
    ensures
        spec_decl_in_tree(s, id) == spec_decl_in_tree(s.skip(i), id),
    decreases i,
{
    if i > 0 {
        lemma_decl_in_tree_skip(s, id, i - 1);
        let t = s.skip(i - 1);
        assert(t[0] == s[i - 1]);
        assert(t.skip(1) =~= s.skip(i));
        assert(spec_decl_in_tree(t, id) == spec_decl_in_tree(t.skip(1), id));
    } else {
        assert(s.skip(0) =~= s);
    }
}

/// Whether a declaration is visible at a position: its scope holds the
/// position and its own position precedes it.
pub open spec fn decl_visible_at(d: LuaDecl, position: u32) -> bool {
    d.scope.spec_contains(position) && d.range.start <= position
}

/// Whether a declaration binds `name` visibly at `position`.
pub open spec fn decl_candidate(d: LuaDecl, name: Seq<char>, position: u32) -> bool {
    d.name@ == name && decl_visible_at(d, position)
}

/// The ids of the declarations visible at a position, in tree order.
pub open spec fn spec_visible_ids(s: Seq<LuaDecl>, position: u32) -> Seq<LuaDeclId>
    decreases s.len(),
{
    if s.len() == 0 {
        Seq::empty()
    } else {
        let rest = spec_visible_ids(s.drop_last(), position);
        if decl_visible_at(s.last(), position) {
            rest.push(s.last().spec_id())
        } else {
            rest
        }
    }
}

/// The ids of the top-level declarations: those whose scope is the whole
/// chunk.  They are what the file exposes to include consumers.
pub open spec fn spec_export_ids(s: Seq<LuaDecl>, root: TextRange) -> Seq<LuaDeclId>
    decreases s.len(),
{
    if s.len() == 0 {
        Seq::empty()
    } else {
        let rest = spec_export_ids(s.drop_last(), root);
        if s.last().scope == root {
            rest.push(s.last().spec_id())
        } else {
            rest
        }
    }
}

/// The declarations of one file, with the chunk extent they live in.
#[derive(Debug)]
pub struct LuaDeclarationTree {
    pub file_id: FileId,
    /// The extent of the whole chunk.
    pub root_range: TextRange,
    pub decls: Vec<LuaDecl>,
}

impl LuaDeclarationTree {
    pub open spec fn wf(self) -> bool {
        &&& forall|i: int| 0 <= i < self.decls@.len() ==> (#[trigger] self.decls@[i]).file_id
            == self.file_id
        &&& forall|i: int, j: int|
            #![trigger self.decls@[i], self.decls@[j]]
            0 <= i < j < self.decls@.len() ==> self.decls@[i].range.start
                != self.decls@[j].range.start
    }

    pub fn new(file_id: FileId, root_range: TextRange) -> (r: LuaDeclarationTree)
        ensures
            r.wf(),
            r.file_id == file_id,
            r.root_range == root_range,
            r.decls@ == Seq::<LuaDecl>::empty(),
    {
        LuaDeclarationTree { file_id, root_range, decls: Vec::new() }
    }

    /// Insert a declaration.  A declaration at an already-known position
    /// replaces the earlier record; otherwise it is appended.
    pub fn add_decl(&mut self, decl: LuaDecl)
        requires
            old(self).wf(),
            decl.file_id == old(self).file_id,
        ensures
            final(self).wf(),
            final(self).file_id == old(self).file_id,
            final(self).root_range == old(self).root_range,
            (forall|i: int|
                0 <= i < old(self).decls@.len() ==> (#[trigger] old(self).decls@[i]).range.start
                    != decl.range.start) ==> final(self).decls@ == old(self).decls@.push(decl),
            forall|i: int|
                0 <= i < old(self).decls@.len() && (#[trigger] old(
                    self,
                ).decls@[i]).range.start == decl.range.start ==> final(self).decls@ == old(
                    self,
                ).decls@.update(i, decl),
    {
        let n = self.decls.len();
        let mut i: usize = 0;
        while i < n
            invariant
                old(self).wf(),
                decl.file_id == old(self).file_id,
                n == self.decls@.len(),
                i <= n,
                self == old(self),
                forall|j: int| 0 <= j < i ==> (#[trigger] self.decls@[j]).range.start
                    != decl.range.start,
            decreases n - i,
        {
            if self.decls[i].range.start == decl.range.start {
                self.decls[i] = decl;
                proof {
                    let s0 = old(self).decls@;
                    let s1 = self.decls@;
                    assert(s1 == s0.update(i as int, decl));
                    assert forall|a: int, b: int|
                        0 <= a < b < s1.len() implies s1[a].range.start != s1[b].range.start by {
                        assert(s0[a] == old(self).decls@[a]);
                        assert(s0[b] == old(self).decls@[b]);
                        assert(s0[a].range.start != s0[b].range.start);
                        assert(a != i as int ==> s1[a] == s0[a]);
                        assert(b != i as int ==> s1[b] == s0[b]);
                        assert(s1[i as int].range.start == s0[i as int].range.start);
                    }
                    assert forall|j: int|
                        0 <= j < s0.len() && (#[trigger] s0[j]).range.start == decl.range.start
                        implies s1 == s0.update(j, decl) by {
                        if j < i as int {
                            assert(s0[j].range.start != s0[i as int].range.start);
                        } else if j > i as int {
                            assert(s0[i as int].range.start != s0[j].range.start);
                        }
                    }
                }
                return;
            }
            i += 1;
        }
        self.decls.push(decl);
    }

    /// The declaration with the given identity.
    pub fn get_decl(&self, decl_id: LuaDeclId) -> (r: Option<&LuaDecl>)
        requires
            self.wf(),
        ensures
            (match r {
                Some(d) => spec_decl_in_tree(self.decls@, decl_id) == Some(*d),
                None => spec_decl_in_tree(self.decls@, decl_id) is None,
            }),
            match r {
                Some(d) => {
                    &&& exists|i: int|
                        0 <= i < self.decls@.len() && self.decls@[i] == *d
                    &&& d.spec_id() == decl_id
                },
                None => forall|i: int|
                    0 <= i < self.decls@.len() ==> (#[trigger] self.decls@[i]).spec_id()
                        != decl_id,
            },
    {
        let n = self.decls.len();
        let mut i: usize = 0;
        while i < n
            invariant
                n == self.decls@.len(),
                i <= n,
                forall|j: int| 0 <= j < i ==> (#[trigger] self.decls@[j]).spec_id() != decl_id,
            decreases n - i,
        {
            let d = &self.decls[i];
            if d.file_id.id == decl_id.file_id.id && d.range.start == decl_id.position {
                assert(self.decls@[i as int].spec_id() == decl_id);
                proof {
                    lemma_decl_in_tree_skip(self.decls@, decl_id, i as int);
                    assert(self.decls@.skip(i as int)[0] == self.decls@[i as int]);
                }
                return Some(&self.decls[i]);
            }
            assert(self.decls@[i as int].spec_id() != decl_id);
            i += 1;
        }
        proof {
            lemma_decl_in_tree_skip(self.decls@, decl_id, n as int);
            assert(self.decls@.skip(n as int) =~= Seq::<LuaDecl>::empty());
        }
        None
    }

    /// The innermost declaration binding `name` visibly at `position`:
    /// among the candidates, the one declared last before the position.
    pub fn find_local_decl(&self, name: &str, position: u32) -> (r: Option<&LuaDecl>)
        requires
            self.wf(),
        ensures
            (match r {
                Some(d) => spec_find_local(self.decls@, name@, position, 0, None) == Some(*d),
                None => spec_find_local(self.decls@, name@, position, 0, None) is None,
            }),
            match r {
                Some(d) => {
                    &&& exists|i: int| 0 <= i < self.decls@.len() && self.decls@[i] == *d
                    &&& decl_candidate(*d, name@, position)
                    &&& forall|i: int|
                        0 <= i < self.decls@.len() && decl_candidate(
                            #[trigger] self.decls@[i],
                            name@,
                            position,
                        ) ==> self.decls@[i].range.start <= d.range.start
                },
                None => forall|i: int|
                    0 <= i < self.decls@.len() ==> !decl_candidate(
                        #[trigger] self.decls@[i],
                        name@,
                        position,
                    ),
            },
    {
        let n = self.decls.len();
        let mut best: Option<usize> = None;
        let mut i: usize = 0;
        while i < n
            invariant
                n == self.decls@.len(),
                i <= n,
                spec_find_local(self.decls@, name@, position, 0, None) == spec_find_local(
                    self.decls@,
                    name@,
                    position,
                    i as int,
                    match best {
                        Some(b) => Some(self.decls@[b as int]),
                        None => None,
                    },
                ),
                match best {
                    Some(b) => {
                        &&& b < i
                        &&& decl_candidate(self.decls@[b as int], name@, position)
                        &&& forall|j: int|
                            0 <= j < i && decl_candidate(
                                #[trigger] self.decls@[j],
                                name@,
                                position,
                            ) ==> self.decls@[j].range.start
                                <= self.decls@[b as int].range.start
                    },
                    None => forall|j: int|
                        0 <= j < i ==> !decl_candidate(
                            #[trigger] self.decls@[j],
                            name@,
                            position,
                        ),
                },
            decreases n - i,
        {
            let d = &self.decls[i];
            if str_eq(d.name.as_str(), name) && d.scope.contains(position)
                && d.range.start <= position {
                assert(decl_candidate(self.decls@[i as int], name@, position));
                match best {
                    Some(b) => {
                        if self.decls[b].range.start <= d.range.start {
                            best = Some(i);
                        }
                    },
                    None => {
                        best = Some(i);
                    },
                }
            } else {
                assert(!decl_candidate(self.decls@[i as int], name@, position));
            }
            i += 1;
        }
        match best {
            Some(b) => Some(&self.decls[b]),
            None => None,
        }
    }

    /// The ids of all declarations visible at a position, in tree order.
    pub fn get_env_decls(&self, position: u32) -> (r: Vec<LuaDeclId>)
        requires
            self.wf(),
        ensures
            r@ == spec_visible_ids(self.decls@, position),
    {
        let n = self.decls.len();
        let mut out: Vec<LuaDeclId> = Vec::new();
        let mut i: usize = 0;
        while i < n
            invariant
                n == self.decls@.len(),
                i <= n,
                out@ == spec_visible_ids(self.decls@.take(i as int), position),
            decreases n - i,
        {
            proof {
                assert(self.decls@.take(i + 1 as int).drop_last() =~= self.decls@.take(i as int));
                assert(self.decls@.take(i + 1 as int).last() == self.decls@[i as int]);
            }
            let d = &self.decls[i];
            if d.scope.contains(position) && d.range.start <= position {
                out.push(d.get_id());
            }
            i += 1;
        }
        proof {
            assert(self.decls@.take(n as int) =~= self.decls@);
        }
        out
    }

    /// The ids of the top-level declarations, in tree order.
    pub fn get_export_env_decls(&self) -> (r: Vec<LuaDeclId>)
        requires
            self.wf(),
        ensures
            r@ == spec_export_ids(self.decls@, self.root_range),
    {
        let n = self.decls.len();
        let mut out: Vec<LuaDeclId> = Vec::new();
        let mut i: usize = 0;
        while i < n
            invariant
                n == self.decls@.len(),
                i <= n,
                out@ == spec_export_ids(self.decls@.take(i as int), self.root_range),
            decreases n - i,
        {
            proof {
                assert(self.decls@.take(i + 1 as int).drop_last() =~= self.decls@.take(i as int));
                assert(self.decls@.take(i + 1 as int).last() == self.decls@[i as int]);
            }
            let d = &self.decls[i];
            if d.scope.start == self.root_range.start && d.scope.end == self.root_range.end {
                assert(self.decls@[i as int].scope == self.root_range);
                out.push(d.get_id());
            } else {
                assert(self.decls@[i as int].scope != self.root_range);
            }
            i += 1;
        }
        proof {
            assert(self.decls@.take(n as int) =~= self.decls@);
        }
        out
    }
}

/// Declaration trees of every file of the workspace.
#[derive(Debug)]
pub struct LuaDeclIndex {
    pub trees: Vec<(FileId, LuaDeclarationTree)>,
}

impl LuaDeclIndex {
    pub open spec fn wf(self) -> bool {
        &&& akeys_unique(self.trees@)
        &&& forall|i: int|
            0 <= i < self.trees@.len() ==> (#[trigger] self.trees@[i]).1.wf() && self.trees@[
                i
            ].1.file_id == self.trees@[i].0
    }

    /// The declaration tree recorded for a file.
    pub open spec fn spec_get_tree(self, file_id: FileId) -> Option<LuaDeclarationTree> {
        alookup(self.trees@, file_id)
    }

    pub fn new() -> (r: LuaDeclIndex)
        ensures
            r.wf(),
            forall|f: FileId| r.spec_get_tree(f) is None,
    {
        let r = LuaDeclIndex { trees: Vec::new() };
        proof {
            assert forall|f: FileId| r.spec_get_tree(f) is None by {
                lemma_alookup_absent(r.trees@, f);
            }
        }
        r
    }

    fn find_idx(&self, file_id: FileId) -> (r: Option<usize>)
        ensures
            match r {
                Some(i) => {
                    &&& i < self.trees@.len()
                    &&& self.trees@[i as int].0 == file_id
                    &&& forall|j: int| 0 <= j < i ==> self.trees@[j].0 != file_id
                },
                None => forall|j: int| 0 <= j < self.trees@.len() ==> self.trees@[j].0 != file_id,
            },
    {
        let n = self.trees.len();
        let mut i: usize = 0;
        while i < n
            invariant
                n == self.trees@.len(),
                i <= n,
                forall|j: int| 0 <= j < i ==> self.trees@[j].0 != file_id,
            decreases n - i,
        {
            if self.trees[i].0 == file_id {
                return Some(i);
            }
            i += 1;
        }
        None
    }

    /// Store a freshly collected tree for its file, replacing any earlier
    /// tree of that file.
    pub fn add_decl_tree(&mut self, tree: LuaDeclarationTree)
        requires
            old(self).wf(),
            tree.wf(),
        ensures
            final(self).wf(),
            final(self).spec_get_tree(tree.file_id) == Some(tree),
            forall|g: FileId| g != tree.file_id ==> final(self).spec_get_tree(g) == old(
                self,
            ).spec_get_tree(g),
    {
        let ghost s0 = self.trees@;
        let key = tree.file_id;
        match self.find_idx(key) {
            Some(i) => {
                self.trees[i] = (key, tree);
                proof {
                    lemma_alookup_update(s0, i as int, self.trees@[i as int].1);
                }
            },
            None => {
                proof {
                    lemma_alookup_absent(s0, key);
                }
                self.trees.push((key, tree));
                proof {
                    lemma_alookup_push(s0, key, self.trees@[s0.len() as int].1);
                }
            },
        }
    }

    /// The declaration tree of a file.
    pub fn get_decl_tree(&self, file_id: FileId) -> (r: Option<&LuaDeclarationTree>)
        requires
            self.wf(),
        ensures
            match r {
                Some(t) => self.spec_get_tree(file_id) == Some(*t) && t.wf() && t.file_id
                    == file_id,
                None => self.spec_get_tree(file_id) is None,
            },
    {
        match self.find_idx(file_id) {
            Some(i) => {
                proof {
                    lemma_alookup_found(self.trees@, file_id, i as int);
                }
                Some(&self.trees[i].1)
            },
            None => {
                proof {
                    lemma_alookup_absent(self.trees@, file_id);
                }
                None
            },
        }
    }

    /// The declaration record an identity addresses, if any.
    pub open spec fn spec_get_decl(self, decl_id: LuaDeclId) -> Option<LuaDecl> {
        match self.spec_get_tree(decl_id.file_id) {
            Some(t) => spec_decl_in_tree(t.decls@, decl_id),
            None => None,
        }
    }

    /// A declaration, addressed by its identity.
    pub fn get_decl(&self, decl_id: LuaDeclId) -> (r: Option<&LuaDecl>)
        requires
            self.wf(),
        ensures
            (match r {
                Some(d) => self.spec_get_decl(decl_id) == Some(*d),
                None => self.spec_get_decl(decl_id) is None,
            }),
            match r {
                Some(d) => d.spec_id() == decl_id,
                None => true,
            },
    {
        match self.get_decl_tree(decl_id.file_id) {
            Some(tree) => tree.get_decl(decl_id),
            None => None,
        }
    }

    /// Purge the tree of a file.
    pub fn remove(&mut self, file_id: FileId)
        requires
            old(self).wf(),
        ensures
            final(self).wf(),
            final(self).spec_get_tree(file_id) is None,
            forall|g: FileId| g != file_id ==> final(self).spec_get_tree(g) == old(
                self,
            ).spec_get_tree(g),
    {
        let ghost s0 = self.trees@;
        match self.find_idx(file_id) {
            Some(i) => {
                self.trees.remove(i);
                proof {
                    lemma_alookup_remove(s0, i as int);
                }
            },
            None => {
                proof {
                    lemma_alookup_absent(s0, file_id);
                }
            },
        }
    }

    /// Drop everything.
    pub fn clear(&mut self)
        ensures
            final(self).wf(),
            forall|f: FileId| final(self).spec_get_tree(f) is None,
    {
        self.trees.clear();
        proof {
            assert forall|f: FileId| alookup(self.trees@, f) is None by {
                lemma_alookup_absent(self.trees@, f);
            }
        }
    }
}

/// Whether a declaration record carries exactly the given fields.
pub open spec fn decl_fields_match(
    d: LuaDecl,
    name: Seq<char>,
    file: FileId,
    range: TextRange,
    scope: TextRange,
    extra: LuaDeclExtra,
) -> bool {
    &&& d.name@ == name
    &&& d.file_id == file
    &&& d.range == range
    &&& d.scope == scope
    &&& d.extra == extra
}

/// The effect of inserting a declaration: appended when its position is
/// fresh, replacing the record at that position otherwise.
pub open spec fn spec_added_or_replaced(
    old_s: Seq<LuaDecl>,
    new_s: Seq<LuaDecl>,
    name: Seq<char>,
    file: FileId,
    range: TextRange,
    scope: TextRange,
    extra: LuaDeclExtra,
) -> bool {
    if forall|i: int| 0 <= i < old_s.len() ==> (#[trigger] old_s[i]).range.start != range.start {
        &&& new_s.len() == old_s.len() + 1
        &&& new_s.drop_last() == old_s
        &&& decl_fields_match(new_s.last(), name, file, range, scope, extra)
    } else {
        &&& new_s.len() == old_s.len()
        &&& exists|i: int|
            #![auto]
            0 <= i < old_s.len() && old_s[i].range.start == range.start && decl_fields_match(
                new_s[i],
                name,
                file,
                range,
                scope,
                extra,
            ) && (forall|j: int| 0 <= j < old_s.len() && j != i ==> new_s[j] == old_s[j])
    }
}

} // verus!
