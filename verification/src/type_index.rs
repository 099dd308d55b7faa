//! The type cache: one committed type per declarable entity.

use vstd::prelude::*;
use crate::ids::{FileId, LuaSemanticDeclId};
use crate::types::LuaTypeCache;
use crate::assoc::{alookup, akeys_unique, lemma_alookup_found, lemma_alookup_absent,
    lemma_alookup_update, lemma_alookup_push, lemma_alookup_remove};

verus! {

/// The owning file of a declarable entity.
pub open spec fn sem_file(id: LuaSemanticDeclId) -> FileId {
    match id {
        LuaSemanticDeclId::LuaDecl(d) => d.file_id,
        LuaSemanticDeclId::Signature(s) => s.file_id,
    }
}

/// Type cache keyed by declaration or signature identity.  An entry is
/// overwritten in place on re-inference, never duplicated.
#[derive(Debug)]
pub struct LuaTypeIndex {
    pub entries: Vec<(LuaSemanticDeclId, LuaTypeCache)>,
}

impl LuaTypeIndex {
    pub open spec fn wf(self) -> bool {
        akeys_unique(self.entries@)
    }

    /// The cached type of an entity, if one was committed.
    pub open spec fn spec_get(self, id: LuaSemanticDeclId) -> Option<LuaTypeCache> {
        alookup(self.entries@, id)
    }

    pub fn new() -> (r: LuaTypeIndex)
        ensures
            r.wf(),
            forall|id: LuaSemanticDeclId| r.spec_get(id) is None,
    {
        let r = LuaTypeIndex { entries: Vec::new() };
        proof {
            assert forall|id: LuaSemanticDeclId| r.spec_get(id) is None by {
                lemma_alookup_absent(r.entries@, id);
            }
        }
        r
    }

    fn find_idx(&self, id: LuaSemanticDeclId) -> (r: Option<usize>)
        ensures
            match r {
                Some(i) => {
                    &&& i < self.entries@.len()
                    &&& self.entries@[i as int].0 == id
                    &&& forall|j: int| 0 <= j < i ==> self.entries@[j].0 != id
                },
                None => forall|j: int| 0 <= j < self.entries@.len() ==> self.entries@[j].0 != id,
            },
    {
        let n = self.entries.len();
        let mut i: usize = 0;
        while i < n
            invariant
                n == self.entries@.len(),
                i <= n,
                forall|j: int| 0 <= j < i ==> self.entries@[j].0 != id,
            decreases n - i,
        {
            if self.entries[i].0 == id {
                return Some(i);
            }
            i += 1;
        }
        None
    }

    /// The cached type of an entity.
    pub fn get_type_cache(&self, id: LuaSemanticDeclId) -> (r: Option<&LuaTypeCache>)
        requires
            self.wf(),
        ensures
            match r {
                Some(c) => self.spec_get(id) == Some(*c),
                None => self.spec_get(id) is None,
            },
    {
        match self.find_idx(id) {
            Some(i) => {
                proof {
                    lemma_alookup_found(self.entries@, id, i as int);
                }
                Some(&self.entries[i].1)
            },
            None => {
                proof {
                    lemma_alookup_absent(self.entries@, id);
                }
                None
            },
        }
    }

    /// Commit a type for an entity, overwriting any earlier entry.
    pub fn bind_type(&mut self, id: LuaSemanticDeclId, cache: LuaTypeCache)
        requires
            old(self).wf(),
        ensures
            final(self).wf(),
            final(self).spec_get(id) == Some(cache),
            forall|g: LuaSemanticDeclId| g != id ==> final(self).spec_get(g) == old(
                self,
            ).spec_get(g),
    {
        let ghost s0 = self.entries@;
        match self.find_idx(id) {
            Some(i) => {
                self.entries[i] = (id, cache);
                proof {
                    lemma_alookup_update(s0, i as int, cache);
                }
            },
            None => {
                proof {
                    lemma_alookup_absent(s0, id);
                }
                self.entries.push((id, cache));
                proof {
                    lemma_alookup_push(s0, id, cache);
                }
            },
        }
    }

    /// Purge every entry owned by a file.
    pub fn remove(&mut self, file_id: FileId)
        requires
            old(self).wf(),
        ensures
            final(self).wf(),
            forall|id: LuaSemanticDeclId| sem_file(id) == file_id ==> final(self).spec_get(
                id,
            ) is None,
            forall|id: LuaSemanticDeclId| sem_file(id) != file_id ==> final(self).spec_get(id)
                == old(self).spec_get(id),
    {
        let mut i: usize = 0;
        while i < self.entries.len()
            invariant
                old(self).wf(),
                akeys_unique(self.entries@),
                i <= self.entries@.len(),
                forall|j: int| 0 <= j < i ==> sem_file(self.entries@[j].0) != file_id,
                forall|id: LuaSemanticDeclId|
                    sem_file(id) != file_id ==> alookup(self.entries@, id) == old(self).spec_get(
                        id,
                    ),
            decreases self.entries@.len() - i,
        {
            let is_owned = match self.entries[i].0 {
                LuaSemanticDeclId::LuaDecl(d) => d.file_id == file_id,
                LuaSemanticDeclId::Signature(s) => s.file_id == file_id,
            };
            if is_owned {
                let ghost s0 = self.entries@;
                self.entries.remove(i);
                proof {
                    lemma_alookup_remove(s0, i as int);
                }
            } else {
                i += 1;
            }
        }
        proof {
            assert forall|id: LuaSemanticDeclId|
                sem_file(id) == file_id implies alookup(self.entries@, id) is None by {
                assert(forall|j: int|
                    0 <= j < self.entries@.len() ==> self.entries@[j].0 != id);
                lemma_alookup_absent(self.entries@, id);
            }
        }
    }

    /// Drop everything.
    pub fn clear(&mut self)
        ensures
            final(self).wf(),
            forall|id: LuaSemanticDeclId| final(self).spec_get(id) is None,
    {
        self.entries.clear();
        proof {
            assert forall|id: LuaSemanticDeclId| alookup(self.entries@, id) is None by {
                lemma_alookup_absent(self.entries@, id);
            }
        }
    }
}

} // verus!
