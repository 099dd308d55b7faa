//! Expression typing against the current database state.  An attempt
//! either commits to a type or names the dependency it waits for.

use vstd::prelude::*;
use crate::db::DbIndex;
use crate::decl::spec_find_local;
use crate::global::spec_resolve_global;
use crate::ids::{FileId, LuaDeclId, LuaSemanticDeclId, LuaSignatureId};
use crate::syntax::SyntaxExpr;
use crate::types::{InferFailReason, LuaType};

verus! {

/// The cached type of a declaration, or the wait on it.
pub open spec fn spec_cache_or_wait(db: DbIndex, id: LuaDeclId) -> Result<
    LuaType,
    InferFailReason,
> {
    match db.type_index.spec_get(LuaSemanticDeclId::LuaDecl(id)) {
        Some(c) => Ok(c.spec_as_type()),
        None => Err(InferFailReason::UnResolveDeclId(id)),
    }
}

/// Typing a plain name: the innermost local binding first, then the
/// global candidates; a name bound nowhere is permanently unresolvable.
pub open spec fn spec_infer_name(db: DbIndex, file_id: FileId, n: Seq<char>, position: u32)
    -> Result<LuaType, InferFailReason> {
    let local = match db.decl_index.spec_get_tree(file_id) {
        Some(tree) => spec_find_local(tree.decls@, n, position, 0, None),
        None => None,
    };
    match local {
        Some(d) => spec_cache_or_wait(db, d.spec_id()),
        None => match db.global_index.spec_decl_ids(n) {
            Some(_) => match spec_resolve_global(db, db.global_index, n, file_id, position) {
                Some(gid) => spec_cache_or_wait(db, gid),
                None => Err(InferFailReason::Unresolvable),
            },
            None => Err(InferFailReason::Unresolvable),
        },
    }
}

/// Typing an import call: the export of the resolved module, the wait
/// on that module, or a permanent failure when no file answers the path.
pub open spec fn spec_infer_import(db: DbIndex, file_id: FileId, path: Seq<char>) -> Result<
    LuaType,
    InferFailReason,
> {
    match db.module_index.spec_find_import(path, file_id) {
        Some(target) => match db.module_index.spec_export(target) {
            Some(t) => Ok(t),
            None => Err(InferFailReason::UnResolveModule(target)),
        },
        None => Err(InferFailReason::Unresolvable),
    }
}

/// What typing an expression answers against the current database.
pub open spec fn spec_infer_expr(db: DbIndex, file_id: FileId, e: SyntaxExpr) -> Result<
    LuaType,
    InferFailReason,
> {
    match e {
        SyntaxExpr::Literal { ty, .. } => Ok(ty),
        SyntaxExpr::Closure { position } => Ok(
            LuaType::Signature(LuaSignatureId { file_id, position }),
        ),
        SyntaxExpr::Table { .. } => Ok(LuaType::Table),
        SyntaxExpr::Name { name, position } => spec_infer_name(db, file_id, name@, position),
        SyntaxExpr::ImportCall { path, .. } => spec_infer_import(db, file_id, path@),
        SyntaxExpr::Multi { .. } => Err(InferFailReason::Unresolvable),
        SyntaxExpr::Opaque { .. } => Err(InferFailReason::Unresolvable),
    }
}

/// Attempt to type an expression; the database is read, never changed.
pub fn infer_expr(db: &DbIndex, file_id: FileId, e: &SyntaxExpr) -> (r: Result<
    LuaType,
    InferFailReason,
>)
    requires
        db.wf(),
    ensures
        r == spec_infer_expr(*db, file_id, *e),
{
    match e {
        SyntaxExpr::Literal { ty, .. } => Ok(*ty),
        SyntaxExpr::Closure { position } => Ok(
            LuaType::Signature(LuaSignatureId { file_id, position: *position }),
        ),
        SyntaxExpr::Table { .. } => Ok(LuaType::Table),
        SyntaxExpr::Name { name, position } => {
            let local = match db.get_decl_index().get_decl_tree(file_id) {
                Some(tree) => tree.find_local_decl(name.as_str(), *position),
                None => None,
            };
            match local {
                Some(d) => cache_or_wait(db, d.get_id()),
                None => {
                    match db.get_global_index().get_global_decl_ids(name.as_str()) {
                        Some(_) => {
                            match db.get_global_index().resolve_global_decl_id(
                                db,
                                name.as_str(),
                                file_id,
                                *position,
                            ) {
                                Some(gid) => cache_or_wait(db, gid),
                                None => Err(InferFailReason::Unresolvable),
                            }
                        },
                        None => Err(InferFailReason::Unresolvable),
                    }
                },
            }
        },
        SyntaxExpr::ImportCall { path, .. } => {
            match db.get_module_index().find_import(path.as_str(), file_id) {
                Some(target) => {
                    match db.get_module_index().get_module(target) {
                        Some(info) => match &info.export_type {
                            Some(t) => Ok(*t),
                            None => Err(InferFailReason::UnResolveModule(target)),
                        },
                        None => Err(InferFailReason::UnResolveModule(target)),
                    }
                },
                None => Err(InferFailReason::Unresolvable),
            }
        },
        SyntaxExpr::Multi { .. } => Err(InferFailReason::Unresolvable),
        SyntaxExpr::Opaque { .. } => Err(InferFailReason::Unresolvable),
    }
}

fn cache_or_wait(db: &DbIndex, id: LuaDeclId) -> (r: Result<LuaType, InferFailReason>)
    requires
        db.wf(),
    ensures
        r == spec_cache_or_wait(*db, id),
{
    match db.get_type_index().get_type_cache(LuaSemanticDeclId::LuaDecl(id)) {
        Some(c) => Ok(c.as_type()),
        None => Err(InferFailReason::UnResolveDeclId(id)),
    }
}

} // verus!
