//! Properties attached to declarable entities, in particular the build
//! scope a signature was declared under.

use vstd::prelude::*;
use crate::ids::{FileId, LuaSemanticDeclId};
use crate::type_index::sem_file;
use crate::assoc::{alookup, akeys_unique, lemma_alookup_found, lemma_alookup_absent,
    lemma_alookup_update, lemma_alookup_push, lemma_alookup_remove};

verus! {

/// The build scope a definition belongs to.  A global helper declared for
/// one scope is hidden from positions inside a block of another kind.
#[derive(Debug, Clone, Copy, PartialEq, Eq, Structural)]
pub enum XmakeScope {
    Package,
    Option,
    Rule,
    Target,
    Task,
}

/// The recorded properties of one declarable entity.
#[derive(Debug, Clone, Copy, PartialEq, Eq, Structural)]
pub struct LuaCommonProperty {
    /// The build scope the entity was declared under, if any.
    pub scope: Option<XmakeScope>,
}

/// Property storage keyed by declaration or signature identity.
#[derive(Debug)]
pub struct LuaPropertyIndex {
    pub entries: Vec<(LuaSemanticDeclId, LuaCommonProperty)>,
}

impl LuaPropertyIndex {
    pub open spec fn wf(self) -> bool {
        akeys_unique(self.entries@)
    }

    /// The property record of an entity, if any.
    pub open spec fn spec_get(self, id: LuaSemanticDeclId) -> Option<LuaCommonProperty> {
        alookup(self.entries@, id)
    }

    pub fn new() -> (r: LuaPropertyIndex)
        ensures
            r.wf(),
            forall|id: LuaSemanticDeclId| r.spec_get(id) is None,
    {
        let r = LuaPropertyIndex { entries: Vec::new() };
        proof {
            assert forall|id: LuaSemanticDeclId| r.spec_get(id) is None by {
                lemma_alookup_absent(r.entries@, id);
            }
        }
        r
    }

    fn find_idx(&self, id: LuaSemanticDeclId) -> (r: Option<usize>)
        ensures
            match r {
                Some(i) => {
                    &&& i < self.entries@.len()
                    &&& self.entries@[i as int].0 == id
                    &&& forall|j: int| 0 <= j < i ==> self.entries@[j].0 != id
                },
                None => forall|j: int| 0 <= j < self.entries@.len() ==> self.entries@[j].0 != id,
            },
    {
        let n = self.entries.len();
        let mut i: usize = 0;
        while i < n
            invariant
                n == self.entries@.len(),
                i <= n,
                forall|j: int| 0 <= j < i ==> self.entries@[j].0 != id,
            decreases n - i,
        {
            if self.entries[i].0 == id {
                return Some(i);
            }
            i += 1;
        }
        None
    }

    /// The property record of an entity.
    pub fn get_property(&self, id: LuaSemanticDeclId) -> (r: Option<&LuaCommonProperty>)
        requires
            self.wf(),
        ensures
            match r {
                Some(p) => self.spec_get(id) == Some(*p),
                None => self.spec_get(id) is None,
            },
    {
        match self.find_idx(id) {
            Some(i) => {
                proof {
                    lemma_alookup_found(self.entries@, id, i as int);
                }
                Some(&self.entries[i].1)
            },
            None => {
                proof {
                    lemma_alookup_absent(self.entries@, id);
                }
                None
            },
        }
    }

    /// Record the build scope of an entity, overwriting any earlier record.
    pub fn set_scope(&mut self, id: LuaSemanticDeclId, scope: XmakeScope)
        requires
            old(self).wf(),
        ensures
            final(self).wf(),
            final(self).spec_get(id) == Some(LuaCommonProperty { scope: Some(scope) }),
            forall|g: LuaSemanticDeclId| g != id ==> final(self).spec_get(g) == old(
                self,
            ).spec_get(g),
    {
        let ghost s0 = self.entries@;
        let prop = LuaCommonProperty { scope: Some(scope) };
        match self.find_idx(id) {
            Some(i) => {
                self.entries[i] = (id, prop);
                proof {
                    lemma_alookup_update(s0, i as int, prop);
                }
            },
            None => {
                proof {
                    lemma_alookup_absent(s0, id);
                }
                self.entries.push((id, prop));
                proof {
                    lemma_alookup_push(s0, id, prop);
                }
            },
        }
    }

    /// Purge every property owned by a file.
    pub fn remove(&mut self, file_id: FileId)
        requires
            old(self).wf(),
        ensures
            final(self).wf(),
            forall|id: LuaSemanticDeclId| sem_file(id) == file_id ==> final(self).spec_get(
                id,
            ) is None,
            forall|id: LuaSemanticDeclId| sem_file(id) != file_id ==> final(self).spec_get(id)
                == old(self).spec_get(id),
    {
        let mut i: usize = 0;
        while i < self.entries.len()
            invariant
                old(self).wf(),
                akeys_unique(self.entries@),
                i <= self.entries@.len(),
                forall|j: int| 0 <= j < i ==> sem_file(self.entries@[j].0) != file_id,
                forall|id: LuaSemanticDeclId|
                    sem_file(id) != file_id ==> alookup(self.entries@, id) == old(self).spec_get(
                        id,
                    ),
            decreases self.entries@.len() - i,
        {
            let is_owned = match self.entries[i].0 {
                LuaSemanticDeclId::LuaDecl(d) => d.file_id == file_id,
                LuaSemanticDeclId::Signature(s) => s.file_id == file_id,
            };
            if is_owned {
                let ghost s0 = self.entries@;
                self.entries.remove(i);
                proof {
                    lemma_alookup_remove(s0, i as int);
                }
            } else {
                i += 1;
            }
        }
        proof {
            assert forall|id: LuaSemanticDeclId|
                sem_file(id) == file_id implies alookup(self.entries@, id) is None by {
                assert(forall|j: int|
                    0 <= j < self.entries@.len() ==> self.entries@[j].0 != id);
                lemma_alookup_absent(self.entries@, id);
            }
        }
    }

    /// Drop everything.
    pub fn clear(&mut self)
        ensures
            final(self).wf(),
            forall|id: LuaSemanticDeclId| final(self).spec_get(id) is None,
    {
        self.entries.clear();
        proof {
            assert forall|id: LuaSemanticDeclId| alookup(self.entries@, id) is None by {
                lemma_alookup_absent(self.entries@, id);
            }
        }
    }
}

} // verus!
