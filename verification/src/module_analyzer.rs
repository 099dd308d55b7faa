//! Module typing: compute each file's export type, bind the types of
//! recognized bindings, and queue what cannot be typed yet.

use vstd::prelude::*;
use crate::db::DbIndex;
use crate::ids::{FileId, LuaDeclId, LuaSemanticDeclId, LuaSignatureId};
use crate::infer::{infer_expr, spec_infer_expr};
use crate::syntax::{SyntaxChunk, SyntaxExpr, SyntaxStatKind, chunk_wf};
use crate::types::{InferFailReason, LuaType, LuaTypeCache};
use crate::unresolve::{UnResolve, UnResolveDecl, UnResolveModule};
use crate::xmake_index::{XmakeFunction, get_xmake_function, spec_xmake_function_of};
use crate::decl::spec_find_local;

verus! {

/// Whether a chunk's top-level block holds a return statement.
pub open spec fn spec_has_return(chunk: SyntaxChunk) -> bool {
    exists|i: int| 0 <= i < chunk.stats@.len() && (#[trigger] chunk.stats@[i]).kind is Return
}

/// Whether a chunk's top-level block holds a return statement.
pub fn check_exist_return(chunk: &SyntaxChunk) -> (r: bool)
    ensures
        r == spec_has_return(*chunk),
{
    let n = chunk.stats.len();
    let mut i: usize = 0;
    while i < n
        invariant
            n == chunk.stats@.len(),
            i <= n,
            forall|j: int| 0 <= j < i ==> !((#[trigger] chunk.stats@[j]).kind is Return),
        decreases n - i,
    {
        if matches!(&chunk.stats[i].kind, SyntaxStatKind::Return(_)) {
            return true;
        }
        i += 1;
    }
    false
}

/// The first returned expression of the chunk, if any.
pub open spec fn spec_first_return(chunk: SyntaxChunk, i: int) -> Option<SyntaxExpr>
    decreases chunk.stats@.len() - i,
{
    if i < 0 || i >= chunk.stats@.len() {
        None
    } else {
        match chunk.stats@[i].kind {
            SyntaxStatKind::Return(e) => Some(e),
            _ => spec_first_return(chunk, i + 1),
        }
    }
}

/// The semantic identity the exported expression denotes: the local
/// declaration a name resolves to, a closure's signature, or a table
/// constructor's positional declaration.
pub open spec fn spec_get_semantic_id(db: DbIndex, file_id: FileId, e: SyntaxExpr) -> Option<
    LuaSemanticDeclId,
> {
    match e {
        SyntaxExpr::Name { name, position } => match db.decl_index.spec_get_tree(file_id) {
            Some(tree) => match spec_find_local(tree.decls@, name@, position, 0, None) {
                Some(d) => Some(LuaSemanticDeclId::LuaDecl(d.spec_id())),
                None => None,
            },
            None => None,
        },
        SyntaxExpr::Closure { position } => Some(
            LuaSemanticDeclId::Signature(LuaSignatureId { file_id, position }),
        ),
        SyntaxExpr::Table { position } => Some(
            LuaSemanticDeclId::LuaDecl(LuaDeclId { file_id, position }),
        ),
        _ => None,
    }
}

/// The semantic identity the exported expression denotes.
pub fn get_semantic_id(db: &DbIndex, file_id: FileId, e: &SyntaxExpr) -> (r: Option<
    LuaSemanticDeclId,
>)
    requires
        db.wf(),
    ensures
        r == spec_get_semantic_id(*db, file_id, *e),
{
    match e {
        SyntaxExpr::Name { name, position } => {
            match db.get_decl_index().get_decl_tree(file_id) {
                Some(tree) => {
                    match tree.find_local_decl(name.as_str(), *position) {
                        Some(d) => Some(LuaSemanticDeclId::LuaDecl(d.get_id())),
                        None => None,
                    }
                },
                None => None,
            }
        },
        SyntaxExpr::Closure { position } => Some(
            LuaSemanticDeclId::Signature(LuaSignatureId { file_id, position: *position }),
        ),
        SyntaxExpr::Table { position } => Some(
            LuaSemanticDeclId::LuaDecl(LuaDeclId { file_id, position: *position }),
        ),
        _ => None,
    }
}

/// The first top-level declaration named `main`, among the exported
/// (chunk-scoped) declarations.
pub open spec fn spec_find_main(s: Seq<crate::decl::LuaDecl>, root: crate::ids::TextRange)
    -> Option<LuaDeclId>
    decreases s.len(),
{
    if s.len() == 0 {
        None
    } else if s[0].scope == root && s[0].name@ == "main"@ {
        Some(s[0].spec_id())
    } else {
        spec_find_main(s.skip(1), root)
    }
}

/// The export the no-return fallback commits: a typed top-level `main`
/// exports its type; in every other case — no `main`, or a `main`
/// without a cached type — the file exports the self-reference marker,
/// resolved lazily by the consumer.
pub open spec fn spec_fallback_export(db: DbIndex, chunk: SyntaxChunk) -> LuaType {
    match db.decl_index.spec_get_tree(chunk.file_id) {
        Some(tree) => match spec_find_main(tree.decls@, tree.root_range) {
            Some(id) => match db.type_index.spec_get(LuaSemanticDeclId::LuaDecl(id)) {
                Some(c) => c.spec_as_type(),
                None => LuaType::ModuleRef(chunk.file_id),
            },
            None => LuaType::ModuleRef(chunk.file_id),
        },
        None => LuaType::ModuleRef(chunk.file_id),
    }
}

/// The language-specific export fallback for files without a `return`
/// statement: a typed top-level `main` exports its type, and otherwise
/// the file exports a self-reference marker resolved lazily.
pub fn analyze_xmake_export(db: &mut DbIndex, chunk: &SyntaxChunk) -> (r: Option<()>)
    requires
        old(db).wf(),
    ensures
        final(db).wf(),
        final(db).decl_index == old(db).decl_index,
        final(db).type_index == old(db).type_index,
        final(db).property_index == old(db).property_index,
        final(db).xmake_index == old(db).xmake_index,
        final(db).global_index == old(db).global_index,
        forall|g: FileId| g != chunk.file_id ==> final(db).module_index.spec_get(g) == old(
            db,
        ).module_index.spec_get(g),
        final(db).module_index.spec_get(chunk.file_id) is Some == (old(
            db,
        ).module_index.spec_get(chunk.file_id) is Some),
        r is Some <==> old(db).decl_index.spec_get_tree(chunk.file_id) is Some,
        old(db).decl_index.spec_get_tree(chunk.file_id) is Some && old(
            db,
        ).module_index.spec_get(chunk.file_id) is Some ==> (final(db).module_index.spec_get(
            chunk.file_id,
        ) matches Some(info) && info.export_type == Some(spec_fallback_export(*old(db), *chunk))
            && info.semantic_id is None),
        old(db).decl_index.spec_get_tree(chunk.file_id) is None ==> final(db).module_index
            == old(db).module_index,
{
    let tree = match db.get_decl_index().get_decl_tree(chunk.file_id) {
        Some(t) => t,
        None => {
            return None;
        },
    };
    let main_id = find_main_decl(tree);
    let export = match main_id {
        Some(id) => {
            match db.get_type_index().get_type_cache(LuaSemanticDeclId::LuaDecl(id)) {
                Some(c) => c.as_type(),
                None => LuaType::ModuleRef(chunk.file_id),
            }
        },
        None => LuaType::ModuleRef(chunk.file_id),
    };
    db.module_index.set_export(chunk.file_id, export, None);
    Some(())
}

/// A main-scan that has not matched yet continues on the rest.
proof fn lemma_find_main_skip(s: Seq<crate::decl::LuaDecl>, root: crate::ids::TextRange, i: int)
    requires
        0 <= i <= s.len(),
        forall|j: int| 0 <= j < i ==> !((#[trigger] s[j]).scope == root && s[j].name@
            == "main"@),
    ensures
        spec_find_main(s, root) == spec_find_main(s.skip(i), root),
    decreases i,
{
    if i > 0 {
        lemma_find_main_skip(s, root, i - 1);
        let t = s.skip(i - 1);
        assert(t[0] == s[i - 1]);
        assert(t.skip(1) =~= s.skip(i));
        assert(spec_find_main(t, root) == spec_find_main(t.skip(1), root));
    } else {
        assert(s.skip(0) =~= s);
    }
}

/// The first top-level declaration named `main` of a tree.
fn find_main_decl(tree: &crate::decl::LuaDeclarationTree) -> (r: Option<LuaDeclId>)
    ensures
        r == spec_find_main(tree.decls@, tree.root_range),
{
    let n = tree.decls.len();
    let mut i: usize = 0;
    while i < n
        invariant
            n == tree.decls@.len(),
            i <= n,
            forall|j: int|
                0 <= j < i ==> !((#[trigger] tree.decls@[j]).scope == tree.root_range
                    && tree.decls@[j].name@ == "main"@),
        decreases n - i,
    {
        let d = &tree.decls[i];
        if d.scope.start == tree.root_range.start && d.scope.end == tree.root_range.end
            && crate::strutil::str_eq(d.name.as_str(), "main") {
            assert(tree.decls@[i as int].scope == tree.root_range);
            proof {
                lemma_find_main_skip(tree.decls@, tree.root_range, i as int);
                assert(tree.decls@.skip(i as int)[0] == tree.decls@[i as int]);
            }
            return Some(d.get_id());
        }
        assert(!(tree.decls@[i as int].scope == tree.root_range && tree.decls@[
            i as int
        ].name@ == "main"@));
        i += 1;
    }
    proof {
        lemma_find_main_skip(tree.decls@, tree.root_range, n as int);
        assert(tree.decls@.skip(n as int) =~= Seq::<crate::decl::LuaDecl>::empty());
    }
    None
}

/// What the return-statement pass decides for a chunk.
#[derive(Debug)]
pub enum ChunkReturnAction {
    /// Commit this export type with this semantic identity.
    SetExport(LuaType, Option<LuaSemanticDeclId>),
    /// Queue the returned expression on the deferred worklist and leave
    /// the module unfinalized.
    Queue(SyntaxExpr),
    /// No return statement: fall back to the `main`/self-reference
    /// convention.
    Fallback,
    /// A return statement outside the recognized shapes: change nothing.
    Skip,
    /// An empty multi-value return: abort the recognition.
    Abort,
}

/// The decision the return-statement pass takes against the current
/// database: the first returned expression's type becomes the export
/// (a multi-value unwrapped to its first component, a permanent
/// inference failure downgraded to `Unknown`), a retryable failure is
/// queued, and a chunk without a return statement falls back.
pub open spec fn spec_chunk_return_action(db: DbIndex, chunk: SyntaxChunk) -> ChunkReturnAction {
    if !spec_has_return(chunk) {
        ChunkReturnAction::Fallback
    } else {
        match spec_first_return(chunk, 0) {
            None => ChunkReturnAction::Skip,
            Some(e) => match e {
                SyntaxExpr::Multi { types, .. } => if types@.len() == 0 {
                    ChunkReturnAction::Abort
                } else {
                    ChunkReturnAction::SetExport(types@[0], None)
                },
                _ => match spec_infer_expr(db, chunk.file_id, e) {
                    Ok(t) => ChunkReturnAction::SetExport(
                        t,
                        spec_get_semantic_id(db, chunk.file_id, e),
                    ),
                    Err(reason) => if reason is Unresolvable {
                        ChunkReturnAction::SetExport(
                            LuaType::Unknown,
                            spec_get_semantic_id(db, chunk.file_id, e),
                        )
                    } else {
                        ChunkReturnAction::Queue(e)
                    },
                },
            },
        }
    }
}

/// Compute the file's export from its first returned expression: a
/// multi-value result is unwrapped to its first component; an
/// expression that cannot be typed yet queues the file on the deferred
/// worklist instead of finalizing it.
pub fn analyze_chunk_return(
    db: &mut DbIndex,
    chunk: &SyntaxChunk,
    unresolves: &mut Vec<UnResolve>,
) -> (r: Option<()>)
    requires
        old(db).wf(),
    ensures
        final(db).wf(),
        final(db).decl_index == old(db).decl_index,
        final(db).type_index == old(db).type_index,
        final(db).property_index == old(db).property_index,
        final(db).xmake_index == old(db).xmake_index,
        final(db).global_index == old(db).global_index,
        forall|g: FileId| g != chunk.file_id ==> final(db).module_index.spec_get(g) == old(
            db,
        ).module_index.spec_get(g),
        final(db).module_index.spec_get(chunk.file_id) is Some == (old(
            db,
        ).module_index.spec_get(chunk.file_id) is Some),
        final(unresolves)@.len() >= old(unresolves)@.len(),
        forall|k: int| 0 <= k < old(unresolves)@.len() ==> final(unresolves)@[k] == old(
            unresolves,
        )@[k],
        forall|k: int|
            old(unresolves)@.len() <= k < final(unresolves)@.len()
                ==> crate::unresolve::entry_file(#[trigger] final(unresolves)@[k])
                == chunk.file_id,
        match spec_chunk_return_action(*old(db), *chunk) {
            ChunkReturnAction::SetExport(t, sem) => {
                &&& r is Some
                &&& final(unresolves)@ == old(unresolves)@
                &&& (old(db).module_index.spec_get(chunk.file_id) is Some ==> (final(db).module_index.spec_get(chunk.file_id) matches Some(info) && info.export_type
                    == Some(t) && info.semantic_id == sem))
                &&& (old(db).module_index.spec_get(chunk.file_id) is None ==> final(db).module_index == old(db).module_index)
            },
            ChunkReturnAction::Queue(e) => {
                &&& r is None
                &&& final(db).module_index == old(db).module_index
                &&& final(unresolves)@ == old(unresolves)@.push(
                    UnResolve::Module(UnResolveModule { file_id: chunk.file_id, expr: e }),
                )
            },
            ChunkReturnAction::Fallback => {
                &&& r is Some
                &&& final(unresolves)@ == old(unresolves)@
                &&& (old(db).decl_index.spec_get_tree(chunk.file_id) is Some && old(
                    db,
                ).module_index.spec_get(chunk.file_id) is Some ==> (final(db).module_index.spec_get(chunk.file_id) matches Some(info) && info.export_type
                    == Some(spec_fallback_export(*old(db), *chunk)) && info.semantic_id
                    is None))
                &&& (old(db).decl_index.spec_get_tree(chunk.file_id) is None ==> final(db).module_index == old(db).module_index)
            },
            ChunkReturnAction::Skip => {
                &&& r is Some
                &&& final(db).module_index == old(db).module_index
                &&& final(unresolves)@ == old(unresolves)@
            },
            ChunkReturnAction::Abort => {
                &&& r is None
                &&& final(db).module_index == old(db).module_index
                &&& final(unresolves)@ == old(unresolves)@
            },
        },
{
    let ghost action = spec_chunk_return_action(*old(db), *chunk);
    if !check_exist_return(chunk) {
        assert(action is Fallback);
        analyze_xmake_export(db, chunk);
        return Some(());
    }
    let ridx = match first_return_idx(chunk) {
        Some(k) => k,
        None => {
            return Some(());
        },
    };
    match &chunk.stats[ridx].kind {
        SyntaxStatKind::Return(expr) => {
            if let SyntaxExpr::Multi { types, .. } = expr {
                if types.len() == 0 {
                    return None;
                }
                let t = types[0];
                db.module_index.set_export(chunk.file_id, t, None);
                return Some(());
            }
            let outcome = infer_expr(db, chunk.file_id, expr);
            match outcome {
                Ok(t) => {
                    let semantic_id = get_semantic_id(db, chunk.file_id, expr);
                    db.module_index.set_export(chunk.file_id, t, semantic_id);
                    Some(())
                },
                Err(reason) => {
                    if reason.is_unresolvable() {
                        let semantic_id = get_semantic_id(db, chunk.file_id, expr);
                        db.module_index.set_export(
                            chunk.file_id,
                            LuaType::Unknown,
                            semantic_id,
                        );
                        Some(())
                    } else {
                        unresolves.push(
                            UnResolve::Module(
                                UnResolveModule {
                                    file_id: chunk.file_id,
                                    expr: expr.clone_expr(),
                                },
                            ),
                        );
                        None
                    }
                },
            }
        },
        _ => Some(()),
    }
}

/// The index of the first return statement of the chunk.
fn first_return_idx(chunk: &SyntaxChunk) -> (r: Option<usize>)
    ensures
        match r {
            Some(k) => k < chunk.stats@.len() && (chunk.stats@[k as int].kind matches
                SyntaxStatKind::Return(e) && spec_first_return(*chunk, 0) == Some(e)),
            None => spec_first_return(*chunk, 0) is None,
        },
{
    let n = chunk.stats.len();
    let mut i: usize = 0;
    while i < n
        invariant
            n == chunk.stats@.len(),
            i <= n,
            spec_first_return(*chunk, 0) == spec_first_return(*chunk, i as int),
        decreases n - i,
    {
        if matches!(&chunk.stats[i].kind, SyntaxStatKind::Return(_)) {
            return Some(i);
        }
        i += 1;
    }
    None
}

/// Whether one statement's recognized binding is settled: an import
/// call's declaration and a valued global assignment each hold a
/// cached type, or a deferred entry in the given worklist window names
/// their declaration.
pub open spec fn spec_stat_binding_settled(
    db: DbIndex,
    q: Seq<UnResolve>,
    base: int,
    chunk: SyntaxChunk,
    j: int,
) -> bool {
    match chunk.stats@[j].kind {
        SyntaxStatKind::Call(c) => (spec_xmake_function_of(c.callee@) == Some(
            XmakeFunction::Import,
        ) && c.args@.len() > 0 && c.args@[0].kind is StrLiteral)
            ==> crate::unresolve::committed_or_queued(
            db,
            q,
            base,
            LuaDeclId { file_id: chunk.file_id, position: c.range.start },
        ),
        SyntaxStatKind::Assign { name_range, value, .. } => value is Some
            ==> crate::unresolve::committed_or_queued(
            db,
            q,
            base,
            LuaDeclId { file_id: chunk.file_id, position: name_range.start },
        ),
        _ => true,
    }
}

/// Whether one statement's recognized binding holds a committed cache
/// entry: the settled predicate with the worklist already drained.
pub open spec fn spec_stat_binding_committed(db: DbIndex, chunk: SyntaxChunk, j: int) -> bool {
    match chunk.stats@[j].kind {
        SyntaxStatKind::Call(c) => (spec_xmake_function_of(c.callee@) == Some(
            XmakeFunction::Import,
        ) && c.args@.len() > 0 && c.args@[0].kind is StrLiteral) ==> db.type_index.spec_get(
            LuaSemanticDeclId::LuaDecl(
                LuaDeclId { file_id: chunk.file_id, position: c.range.start },
            ),
        ) is Some,
        SyntaxStatKind::Assign { name_range, value, .. } => value is Some
            ==> db.type_index.spec_get(
            LuaSemanticDeclId::LuaDecl(
                LuaDeclId { file_id: chunk.file_id, position: name_range.start },
            ),
        ) is Some,
        _ => true,
    }
}

/// Bind the types the file's statements determine — signatures for
/// global functions (with their declared build scopes), inferred values
/// for global assignments and import bindings — queueing whatever
/// cannot be typed yet, then compute the file's export.
pub fn analyze_file_module(
    db: &mut DbIndex,
    chunk: &SyntaxChunk,
    unresolves: &mut Vec<UnResolve>,
)
    requires
        old(db).wf(),
        chunk_wf(*chunk),
    ensures
        final(db).wf(),
        final(db).decl_index == old(db).decl_index,
        final(db).xmake_index == old(db).xmake_index,
        final(db).global_index == old(db).global_index,
        forall|g: FileId| g != chunk.file_id ==> final(db).module_index.spec_get(g) == old(
            db,
        ).module_index.spec_get(g),
        forall|id: LuaSemanticDeclId|
            crate::type_index::sem_file(id) != chunk.file_id ==> final(db).type_index.spec_get(
                id,
            ) == old(db).type_index.spec_get(id),
        forall|id: LuaSemanticDeclId|
            old(db).type_index.spec_get(id) is Some ==> #[trigger] final(db).type_index.spec_get(
                id,
            ) is Some,
        forall|id: LuaSemanticDeclId|
            crate::type_index::sem_file(id) != chunk.file_id
                ==> final(db).property_index.spec_get(id) == old(db).property_index.spec_get(id),
        final(unresolves)@.len() >= old(unresolves)@.len(),
        forall|k: int| 0 <= k < old(unresolves)@.len() ==> final(unresolves)@[k] == old(
            unresolves,
        )@[k],
        forall|k: int|
            old(unresolves)@.len() <= k < final(unresolves)@.len()
                ==> crate::unresolve::entry_file(#[trigger] final(unresolves)@[k])
                == chunk.file_id,
        // recognized bindings end committed or queued: an import call's
        // declaration and a valued global assignment each hold a cached
        // type already, or a deferred entry naming their declaration
        // was appended for the drain to commit
        forall|j: int|
            0 <= j < chunk.stats@.len() ==> spec_stat_binding_settled(
                *final(db),
                final(unresolves)@,
                old(unresolves)@.len() as int,
                *chunk,
                j,
            ),
        // global functions are typed as their signatures, with their
        // declared build scopes recorded
        forall|j: int|
            0 <= j < chunk.stats@.len() ==> match (#[trigger] chunk.stats@[j]).kind {
                SyntaxStatKind::Func { name_range, closure_pos, scope, .. } => {
                    &&& final(db).type_index.spec_get(
                        LuaSemanticDeclId::LuaDecl(
                            LuaDeclId { file_id: chunk.file_id, position: name_range.start },
                        ),
                    ) == Some(
                        LuaTypeCache::InferType(
                            LuaType::Signature(
                                LuaSignatureId { file_id: chunk.file_id, position: closure_pos },
                            ),
                        ),
                    )
                    &&& (scope matches Some(sc) ==> final(db).property_index.spec_get(
                        LuaSemanticDeclId::Signature(
                            LuaSignatureId { file_id: chunk.file_id, position: closure_pos },
                        ),
                    ) == Some(
                        crate::property_index::LuaCommonProperty { scope: Some(sc) },
                    ))
                },
                _ => true,
            },
{
    let n = chunk.stats.len();
    let mut i: usize = 0;
    while i < n
        invariant
            old(db).wf(),
            chunk_wf(*chunk),
            db.wf(),
            n == chunk.stats@.len(),
            i <= n,
            db.decl_index == old(db).decl_index,
            db.xmake_index == old(db).xmake_index,
            db.global_index == old(db).global_index,
            forall|g: FileId| g != chunk.file_id ==> db.module_index.spec_get(g) == old(
                db,
            ).module_index.spec_get(g),
            forall|id: LuaSemanticDeclId|
                crate::type_index::sem_file(id) != chunk.file_id ==> db.type_index.spec_get(id)
                    == old(db).type_index.spec_get(id),
            forall|id: LuaSemanticDeclId|
                old(db).type_index.spec_get(id) is Some ==> #[trigger] db.type_index.spec_get(
                    id,
                ) is Some,
            forall|id: LuaSemanticDeclId|
                crate::type_index::sem_file(id) != chunk.file_id ==> db.property_index.spec_get(
                    id,
                ) == old(db).property_index.spec_get(id),
            unresolves@.len() >= old(unresolves)@.len(),
            forall|k: int| 0 <= k < old(unresolves)@.len() ==> unresolves@[k] == old(
                unresolves,
            )@[k],
            forall|k: int|
                old(unresolves)@.len() <= k < unresolves@.len()
                    ==> crate::unresolve::entry_file(#[trigger] unresolves@[k])
                    == chunk.file_id,
            forall|j: int|
                0 <= j < i ==> spec_stat_binding_settled(
                    *db,
                    unresolves@,
                    old(unresolves)@.len() as int,
                    *chunk,
                    j,
                ),
            forall|j: int|
                0 <= j < i ==> match (#[trigger] chunk.stats@[j]).kind {
                    SyntaxStatKind::Func { name_range, closure_pos, scope, .. } => {
                        &&& db.type_index.spec_get(
                            LuaSemanticDeclId::LuaDecl(
                                LuaDeclId {
                                    file_id: chunk.file_id,
                                    position: name_range.start,
                                },
                            ),
                        ) == Some(
                            LuaTypeCache::InferType(
                                LuaType::Signature(
                                    LuaSignatureId {
                                        file_id: chunk.file_id,
                                        position: closure_pos,
                                    },
                                ),
                            ),
                        )
                        &&& (scope matches Some(sc) ==> db.property_index.spec_get(
                            LuaSemanticDeclId::Signature(
                                LuaSignatureId {
                                    file_id: chunk.file_id,
                                    position: closure_pos,
                                },
                            ),
                        ) == Some(
                            crate::property_index::LuaCommonProperty { scope: Some(sc) },
                        ))
                    },
                    _ => true,
                },
        decreases n - i,
    {
        let ghost pre_db = *db;
        let ghost pre_q = unresolves@;
        let ghost base = old(unresolves)@.len() as int;
        let stat_range = chunk.stats[i].range;
        match &chunk.stats[i].kind {
            SyntaxStatKind::Func { name_range, closure_pos, scope, .. } => {
                let decl_id = LuaDeclId { file_id: chunk.file_id, position: name_range.start };
                let sig_id = LuaSignatureId { file_id: chunk.file_id, position: *closure_pos };
                db.type_index.bind_type(
                    LuaSemanticDeclId::LuaDecl(decl_id),
                    LuaTypeCache::InferType(LuaType::Signature(sig_id)),
                );
                if let Some(sc) = scope {
                    db.property_index.set_scope(LuaSemanticDeclId::Signature(sig_id), *sc);
                }
                proof {
                    lemma_bind_preserves_earlier(*chunk, i as int, *db, stat_range);
                }
            },
            SyntaxStatKind::Assign { name_range, value, .. } => {
                match value {
                    Some(e) => {
                        let decl_id = LuaDeclId {
                            file_id: chunk.file_id,
                            position: name_range.start,
                        };
                        let outcome = infer_expr(db, chunk.file_id, e);
                        match outcome {
                            Ok(t) => {
                                db.type_index.bind_type(
                                    LuaSemanticDeclId::LuaDecl(decl_id),
                                    LuaTypeCache::InferType(t),
                                );
                                assert(db.type_index.spec_get(
                                    LuaSemanticDeclId::LuaDecl(decl_id),
                                ) is Some);
                            },
                            Err(_) => {
                                unresolves.push(
                                    UnResolve::Decl(
                                        UnResolveDecl {
                                            file_id: chunk.file_id,
                                            decl_id,
                                            expr: e.clone_expr(),
                                            ret_idx: 0,
                                        },
                                    ),
                                );
                                proof {
                                    assert(crate::unresolve::entry_decl_target(
                                        unresolves@[unresolves@.len() - 1],
                                    ) == Some(decl_id));
                                    assert(base <= unresolves@.len() - 1);
                                }
                            },
                        }
                        proof {
                            lemma_bind_preserves_earlier(*chunk, i as int, *db, stat_range);
                            assert(crate::unresolve::committed_or_queued(
                                *db,
                                unresolves@,
                                base,
                                decl_id,
                            ));
                        }
                    },
                    None => {},
                }
            },
            SyntaxStatKind::Call(c) => {
                match get_xmake_function(c.callee.as_str()) {
                    Some(XmakeFunction::Import) => {
                        if c.args.len() > 0 {
                            if let crate::syntax::SyntaxArgKind::StrLiteral(path) = &c.args[0].kind {
                                let decl_id = LuaDeclId {
                                    file_id: chunk.file_id,
                                    position: c.range.start,
                                };
                                let path_chars = crate::strutil::str_to_chars(path.as_str());
                                let owned_path = crate::strutil::chars_to_string(&path_chars);
                                let e = SyntaxExpr::ImportCall {
                                    path: owned_path,
                                    position: c.range.start,
                                };
                                let outcome = infer_expr(db, chunk.file_id, &e);
                                match outcome {
                                    Ok(t) => {
                                        db.type_index.bind_type(
                                            LuaSemanticDeclId::LuaDecl(decl_id),
                                            LuaTypeCache::InferType(t),
                                        );
                                        assert(db.type_index.spec_get(
                                            LuaSemanticDeclId::LuaDecl(decl_id),
                                        ) is Some);
                                    },
                                    Err(_) => {
                                        unresolves.push(
                                            UnResolve::Decl(
                                                UnResolveDecl {
                                                    file_id: chunk.file_id,
                                                    decl_id,
                                                    expr: e,
                                                    ret_idx: 0,
                                                },
                                            ),
                                        );
                                        proof {
                                            assert(crate::unresolve::entry_decl_target(
                                                unresolves@[unresolves@.len() - 1],
                                            ) == Some(decl_id));
                                            assert(base <= unresolves@.len() - 1);
                                        }
                                    },
                                }
                                proof {
                                    lemma_bind_preserves_earlier(
                                        *chunk,
                                        i as int,
                                        *db,
                                        stat_range,
                                    );
                                    assert(crate::unresolve::committed_or_queued(
                                        *db,
                                        unresolves@,
                                        base,
                                        decl_id,
                                    ));
                                }
                            }
                        }
                    },
                    _ => {},
                }
            },
            _ => {},
        }
        proof {
            assert forall|s: LuaSemanticDeclId|
                pre_db.type_index.spec_get(s) is Some implies #[trigger] db.type_index.spec_get(
                s,
            ) is Some by {}
            assert forall|j: int|
                0 <= j < i + 1 implies spec_stat_binding_settled(
                *db,
                unresolves@,
                base,
                *chunk,
                j,
            ) by {
                if j < i {
                    assert(spec_stat_binding_settled(pre_db, pre_q, base, *chunk, j));
                    match chunk.stats@[j].kind {
                        SyntaxStatKind::Call(c2) => {
                            if spec_xmake_function_of(c2.callee@) == Some(XmakeFunction::Import)
                                && c2.args@.len() > 0 && c2.args@[0].kind is StrLiteral {
                                crate::unresolve::lemma_settled_preserved(
                                    pre_db,
                                    *db,
                                    pre_q,
                                    unresolves@,
                                    base,
                                    LuaDeclId {
                                        file_id: chunk.file_id,
                                        position: c2.range.start,
                                    },
                                );
                            }
                        },
                        SyntaxStatKind::Assign { name_range, value, .. } => {
                            if value is Some {
                                crate::unresolve::lemma_settled_preserved(
                                    pre_db,
                                    *db,
                                    pre_q,
                                    unresolves@,
                                    base,
                                    LuaDeclId {
                                        file_id: chunk.file_id,
                                        position: name_range.start,
                                    },
                                );
                            }
                        },
                        _ => {},
                    }
                }
            }
        }
        i += 1;
    }
    let ghost pre2_db = *db;
    let ghost pre2_q = unresolves@;
    let ghost base = old(unresolves)@.len() as int;
    analyze_chunk_return(db, chunk, unresolves);
    proof {
        assert forall|j: int|
            0 <= j < chunk.stats@.len() implies spec_stat_binding_settled(
            *db,
            unresolves@,
            base,
            *chunk,
            j,
        ) by {
            assert(spec_stat_binding_settled(pre2_db, pre2_q, base, *chunk, j));
            match chunk.stats@[j].kind {
                SyntaxStatKind::Call(c2) => {
                    if spec_xmake_function_of(c2.callee@) == Some(XmakeFunction::Import)
                        && c2.args@.len() > 0 && c2.args@[0].kind is StrLiteral {
                        crate::unresolve::lemma_settled_preserved(
                            pre2_db,
                            *db,
                            pre2_q,
                            unresolves@,
                            base,
                            LuaDeclId { file_id: chunk.file_id, position: c2.range.start },
                        );
                    }
                },
                SyntaxStatKind::Assign { name_range, value, .. } => {
                    if value is Some {
                        crate::unresolve::lemma_settled_preserved(
                            pre2_db,
                            *db,
                            pre2_q,
                            unresolves@,
                            base,
                            LuaDeclId { file_id: chunk.file_id, position: name_range.start },
                        );
                    }
                },
                _ => {},
            }
        }
    }
}

/// Bindings whose positions lie inside the current statement leave the
/// records of earlier statements alone; this is what keeps the per-stat
/// guarantees standing as the walk moves on.
proof fn lemma_bind_preserves_earlier(
    chunk: SyntaxChunk,
    i: int,
    db: DbIndex,
    stat_range: crate::ids::TextRange,
)
    requires
        chunk_wf(chunk),
        0 <= i < chunk.stats@.len(),
        stat_range == chunk.stats@[i].range,
    ensures
        forall|j: int|
            0 <= j < i ==> match (#[trigger] chunk.stats@[j]).kind {
                SyntaxStatKind::Func { name_range, closure_pos, .. } => name_range.start
                    < stat_range.start && closure_pos < stat_range.start,
                _ => true,
            },
{
    assert forall|j: int|
        0 <= j < i implies match (#[trigger] chunk.stats@[j]).kind {
        SyntaxStatKind::Func { name_range, closure_pos, .. } => name_range.start
            < stat_range.start && closure_pos < stat_range.start,
        _ => true,
    } by {
        match chunk.stats@[j].kind {
            SyntaxStatKind::Func { name_range, closure_pos, .. } => {
                assert(chunk.stats@[j].range.end <= chunk.stats@[i].range.start);
                assert(name_range.start < chunk.stats@[j].range.end);
                assert(closure_pos < chunk.stats@[j].range.end);
            },
            _ => {},
        }
    }
}

} // verus!
