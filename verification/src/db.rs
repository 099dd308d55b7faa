//! The shared semantic database: one ownership root holding every index,
//! passed exclusively during analysis and shared during queries.

use vstd::prelude::*;
use crate::ids::FileId;
use crate::decl::LuaDeclIndex;
use crate::global::LuaGlobalIndex;
use crate::module_index::LuaModuleIndex;
use crate::property_index::LuaPropertyIndex;
use crate::type_index::LuaTypeIndex;
use crate::xmake_index::LuaXmakeIndex;

verus! {

/// The semantic database of one workspace.
#[derive(Debug)]
pub struct DbIndex {
    pub decl_index: LuaDeclIndex,
    pub type_index: LuaTypeIndex,
    pub property_index: LuaPropertyIndex,
    pub xmake_index: LuaXmakeIndex,
    pub global_index: LuaGlobalIndex,
    pub module_index: LuaModuleIndex,
}

impl DbIndex {
    pub open spec fn wf(self) -> bool {
        &&& self.decl_index.wf()
        &&& self.type_index.wf()
        &&& self.property_index.wf()
        &&& self.xmake_index.wf()
        &&& self.global_index.wf()
        &&& self.module_index.wf()
    }

    pub fn new() -> (r: DbIndex)
        ensures
            r.wf(),
            forall|f: FileId| r.decl_index.spec_get_tree(f) is None,
            forall|id: crate::ids::LuaSemanticDeclId| r.type_index.spec_get(id) is None,
            forall|id: crate::ids::LuaSemanticDeclId| r.property_index.spec_get(id) is None,
            forall|f: FileId| r.xmake_index.spec_includes(f) is None,
            forall|f: FileId| r.xmake_index.spec_targets(f) is None,
            forall|n: Seq<char>| r.global_index.spec_decl_ids(n) is None,
            forall|f: FileId| r.module_index.spec_get(f) is None,
    {
        DbIndex {
            decl_index: LuaDeclIndex::new(),
            type_index: LuaTypeIndex::new(),
            property_index: LuaPropertyIndex::new(),
            xmake_index: LuaXmakeIndex::new(),
            global_index: LuaGlobalIndex::new(),
            module_index: LuaModuleIndex::new(),
        }
    }

    pub fn get_decl_index(&self) -> (r: &LuaDeclIndex)
        ensures
            r == &self.decl_index,
    {
        &self.decl_index
    }

    pub fn get_type_index(&self) -> (r: &LuaTypeIndex)
        ensures
            r == &self.type_index,
    {
        &self.type_index
    }

    pub fn get_property_index(&self) -> (r: &LuaPropertyIndex)
        ensures
            r == &self.property_index,
    {
        &self.property_index
    }

    pub fn get_xmake_index(&self) -> (r: &LuaXmakeIndex)
        ensures
            r == &self.xmake_index,
    {
        &self.xmake_index
    }

    pub fn get_global_index(&self) -> (r: &LuaGlobalIndex)
        ensures
            r == &self.global_index,
    {
        &self.global_index
    }

    pub fn get_module_index(&self) -> (r: &LuaModuleIndex)
        ensures
            r == &self.module_index,
    {
        &self.module_index
    }

    /// Purge every structure's entries for a file, so that re-indexing
    /// it is idempotent.
    pub fn remove(&mut self, file_id: FileId)
        requires
            old(self).wf(),
        ensures
            final(self).wf(),
            final(self).decl_index.spec_get_tree(file_id) is None,
            final(self).module_index.spec_get(file_id) is None,
            final(self).xmake_index.spec_includes(file_id) is None,
            final(self).xmake_index.spec_targets(file_id) is None,
            forall|id: crate::ids::LuaSemanticDeclId|
                crate::type_index::sem_file(id) == file_id ==> final(self).type_index.spec_get(
                    id,
                ) is None,
            forall|id: crate::ids::LuaSemanticDeclId|
                crate::type_index::sem_file(id) == file_id
                    ==> final(self).property_index.spec_get(id) is None,
            forall|n: Seq<char>| #[trigger] final(self).global_index.spec_decl_ids(n)
                == crate::global::gbucket_after_remove(
                old(self).global_index.spec_decl_ids(n),
                file_id,
            ),
            forall|g: FileId| g != file_id ==> final(self).decl_index.spec_get_tree(g) == old(
                self,
            ).decl_index.spec_get_tree(g),
            forall|g: FileId| g != file_id ==> final(self).module_index.spec_get(g) == old(
                self,
            ).module_index.spec_get(g),
            forall|g: FileId| g != file_id ==> final(self).xmake_index.spec_includes(g) == old(
                self,
            ).xmake_index.spec_includes(g),
            forall|g: FileId| g != file_id ==> final(self).xmake_index.spec_targets(g) == old(
                self,
            ).xmake_index.spec_targets(g),
            forall|id: crate::ids::LuaSemanticDeclId|
                crate::type_index::sem_file(id) != file_id ==> final(self).type_index.spec_get(id)
                    == old(self).type_index.spec_get(id),
            forall|id: crate::ids::LuaSemanticDeclId|
                crate::type_index::sem_file(id) != file_id
                    ==> final(self).property_index.spec_get(id)
                    == old(self).property_index.spec_get(id),
    {
        self.decl_index.remove(file_id);
        self.type_index.remove(file_id);
        self.property_index.remove(file_id);
        self.xmake_index.remove(file_id);
        self.global_index.remove(file_id);
        self.module_index.remove(file_id);
    }

    /// Drop the whole database.
    pub fn clear(&mut self)
        ensures
            final(self).wf(),
    {
        self.decl_index.clear();
        self.type_index.clear();
        self.property_index.clear();
        self.xmake_index.clear();
        self.global_index.clear();
        self.module_index.clear();
    }
}

} // verus!
