//! The deferred-resolution worklist: inference attempts that could not
//! commit are replayed to a fixpoint, and whatever remains is committed
//! with the `Unknown` sentinel, so that the database always holds a type
//! for every requested entity after a full pass.

use vstd::prelude::*;
use crate::db::DbIndex;
use crate::ids::{FileId, LuaDeclId, LuaSemanticDeclId};
use crate::infer::{infer_expr, spec_infer_expr};
use crate::syntax::SyntaxExpr;
use crate::types::{InferFailReason, LuaType, LuaTypeCache};

verus! {

/// A deferred declaration typing: the declaration waits for the type of
/// its defining expression.
#[derive(Debug)]
pub struct UnResolveDecl {
    pub file_id: FileId,
    pub decl_id: LuaDeclId,
    pub expr: SyntaxExpr,
    /// Which component of a multi-return call the declaration takes.
    pub ret_idx: u32,
}

/// A deferred module export: the file's export waits for the type of
/// its returned expression.
#[derive(Debug)]
pub struct UnResolveModule {
    pub file_id: FileId,
    pub expr: SyntaxExpr,
}

/// One deferred unit of work.
#[derive(Debug)]
pub enum UnResolve {
    Decl(UnResolveDecl),
    Module(UnResolveModule),
}

/// The file an entry belongs to.
pub open spec fn entry_file(e: UnResolve) -> FileId {
    match e {
        UnResolve::Decl(d) => d.file_id,
        UnResolve::Module(m) => m.file_id,
    }
}

/// The declaration a deferred entry would commit, if any.
pub open spec fn entry_decl_target(e: UnResolve) -> Option<LuaDeclId> {
    match e {
        UnResolve::Decl(d) => Some(d.decl_id),
        UnResolve::Module(_) => None,
    }
}

/// Whether a declaration's typing is settled against a database and a
/// worklist window: its cache entry is committed, or an entry naming it
/// waits in the window for the drain to commit.
pub open spec fn committed_or_queued(
    db: DbIndex,
    q: Seq<UnResolve>,
    base: int,
    id: LuaDeclId,
) -> bool {
    ||| db.type_index.spec_get(LuaSemanticDeclId::LuaDecl(id)) is Some
    ||| exists|k: int| base <= k < q.len() && entry_decl_target(#[trigger] q[k]) == Some(id)
}

/// A settled declaration stays settled when cache entries only appear
/// and the worklist only grows.
pub proof fn lemma_settled_preserved(
    pre: DbIndex,
    post: DbIndex,
    preq: Seq<UnResolve>,
    postq: Seq<UnResolve>,
    base: int,
    id: LuaDeclId,
)
    requires
        0 <= base,
        forall|s: LuaSemanticDeclId|
            pre.type_index.spec_get(s) is Some ==> #[trigger] post.type_index.spec_get(
                s,
            ) is Some,
        preq.len() <= postq.len(),
        forall|k: int| 0 <= k < preq.len() ==> postq[k] == preq[k],
        committed_or_queued(pre, preq, base, id),
    ensures
        committed_or_queued(post, postq, base, id),
{
    if !(pre.type_index.spec_get(LuaSemanticDeclId::LuaDecl(id)) is Some) {
        let k = choose|k: int|
            base <= k < preq.len() && entry_decl_target(#[trigger] preq[k]) == Some(id);
        assert(entry_decl_target(postq[k]) == Some(id));
    }
}

/// What attempting an entry against the current database answers.
pub open spec fn spec_entry_result(db: DbIndex, e: UnResolve) -> Result<
    LuaType,
    InferFailReason,
> {
    match e {
        UnResolve::Decl(d) => spec_infer_expr(db, d.file_id, d.expr),
        UnResolve::Module(m) => spec_infer_expr(db, m.file_id, m.expr),
    }
}

/// Whether an entry's target holds a committed result: a cached type
/// for a declaration, a committed export for a module that exists.
pub open spec fn entry_committed(db: DbIndex, e: UnResolve) -> bool {
    match e {
        UnResolve::Decl(d) => db.type_index.spec_get(
            LuaSemanticDeclId::LuaDecl(d.decl_id),
        ) is Some,
        UnResolve::Module(m) => match db.module_index.spec_get(m.file_id) {
            Some(info) => info.export_type is Some,
            None => true,
        },
    }
}

/// Committed results are never taken away by the worklist.
pub open spec fn commitments_monotone(pre: DbIndex, post: DbIndex) -> bool {
    &&& forall|id: LuaSemanticDeclId|
        pre.type_index.spec_get(id) is Some ==> #[trigger] post.type_index.spec_get(id) is Some
    &&& forall|f: FileId|
        (pre.module_index.spec_get(f) matches Some(i) && i.export_type is Some) ==> (
        #[trigger] post.module_index.spec_get(f) matches Some(i2) && i2.export_type is Some)
    &&& forall|f: FileId|
        pre.module_index.spec_get(f) is Some ==> #[trigger] post.module_index.spec_get(
            f,
        ) is Some
    &&& forall|f: FileId|
        #[trigger] post.module_index.spec_get(f) is Some ==> pre.module_index.spec_get(
            f,
        ) is Some
}

/// Attempt one entry: commit its type on success or permanent failure
/// (then `true`), keep it pending on a wait (then `false`, the database
/// untouched).  What a successful attempt commits is the inferred type,
/// or the `Unknown` sentinel on a permanent failure.
pub fn try_resolve(db: &mut DbIndex, e: &UnResolve) -> (r: bool)
    requires
        old(db).wf(),
    ensures
        final(db).wf(),
        final(db).decl_index == old(db).decl_index,
        final(db).xmake_index == old(db).xmake_index,
        final(db).global_index == old(db).global_index,
        final(db).property_index == old(db).property_index,
        commitments_monotone(*old(db), *final(db)),
        r <==> !(spec_entry_result(*old(db), *e) matches Err(reason)
            && !(reason is Unresolvable)),
        r ==> entry_committed(*final(db), *e),
        // what is committed is the inferred type, or the sentinel on a
        // permanent failure
        r ==> {
            let committed = match spec_entry_result(*old(db), *e) {
                Ok(t) => t,
                Err(_) => LuaType::Unknown,
            };
            match *e {
                UnResolve::Decl(d) => final(db).type_index.spec_get(
                    LuaSemanticDeclId::LuaDecl(d.decl_id),
                ) == Some(LuaTypeCache::InferType(committed)),
                UnResolve::Module(m) => old(db).module_index.spec_get(m.file_id) is Some
                    ==> (final(db).module_index.spec_get(m.file_id) matches Some(info)
                    && info.export_type == Some(committed)),
            }
        },
        !r ==> *final(db) == *old(db),
{
    match e {
        UnResolve::Decl(d) => {
            let outcome = infer_expr(db, d.file_id, &d.expr);
            match outcome {
                Ok(t) => {
                    db.type_index.bind_type(
                        LuaSemanticDeclId::LuaDecl(d.decl_id),
                        LuaTypeCache::InferType(t),
                    );
                    true
                },
                Err(reason) => {
                    if reason.is_unresolvable() {
                        db.type_index.bind_type(
                            LuaSemanticDeclId::LuaDecl(d.decl_id),
                            LuaTypeCache::InferType(LuaType::Unknown),
                        );
                        true
                    } else {
                        false
                    }
                },
            }
        },
        UnResolve::Module(m) => {
            let outcome = infer_expr(db, m.file_id, &m.expr);
            match outcome {
                Ok(t) => {
                    db.module_index.set_export(m.file_id, t, None);
                    true
                },
                Err(reason) => {
                    if reason.is_unresolvable() {
                        db.module_index.set_export(m.file_id, LuaType::Unknown, None);
                        true
                    } else {
                        false
                    }
                },
            }
        },
    }
}

/// One pass over the pending entries in order: committed entries leave
/// the queue, waiting entries stay, and nothing already committed is
/// lost.
fn one_pass(db: &mut DbIndex, entries: Vec<UnResolve>) -> (r: (Vec<UnResolve>, usize))
    requires
        old(db).wf(),
    ensures
        final(db).wf(),
        final(db).decl_index == old(db).decl_index,
        final(db).xmake_index == old(db).xmake_index,
        final(db).global_index == old(db).global_index,
        final(db).property_index == old(db).property_index,
        commitments_monotone(*old(db), *final(db)),
        r.0@.len() + r.1 == entries@.len(),
        forall|i: int|
            0 <= i < entries@.len() ==> entry_committed(*final(db), #[trigger] entries@[i]) || (
            exists|j: int| 0 <= j < r.0@.len() && r.0@[j] == entries@[i]),
{
    let mut input = entries;
    let mut kept: Vec<UnResolve> = Vec::new();
    let mut committed: usize = 0;
    let ghost all = input@;
    let n0 = input.len();
    proof {
        assert(all.len() == n0);
    }
    while input.len() > 0
        invariant
            db.wf(),
            db.decl_index == old(db).decl_index,
            db.xmake_index == old(db).xmake_index,
            db.global_index == old(db).global_index,
            db.property_index == old(db).property_index,
            commitments_monotone(*old(db), *db),
            all.len() <= usize::MAX,
            kept@.len() + committed + input@.len() == all.len(),
            input@ == all.skip(all.len() - input@.len()),
            forall|i: int|
                0 <= i < all.len() - input@.len() ==> entry_committed(*db, #[trigger] all[i])
                    || (exists|j: int| 0 <= j < kept@.len() && kept@[j] == all[i]),
        decreases input@.len(),
    {
        let ghost pre = *db;
        let ghost in_pre = input@;
        let entry = input.remove(0);
        proof {
            assert(in_pre[0] == all.skip(all.len() - in_pre.len())[0]);
            assert(entry == all[all.len() - in_pre.len()]);
            assert(input@ =~= all.skip(all.len() - input@.len()));
        }
        let ok = try_resolve(db, &entry);
        let ghost kept_pre = kept@;
        if ok {
            committed += 1;
        } else {
            kept.push(entry);
        }
        proof {
            lemma_monotone_trans(*old(db), pre, *db);
            lemma_committed_monotone_all(pre, *db, all);
            let k = all.len() - in_pre.len();
            assert forall|i: int|
                0 <= i < all.len() - input@.len() implies entry_committed(
                *db,
                #[trigger] all[i],
            ) || (exists|j: int| 0 <= j < kept@.len() && kept@[j] == all[i]) by {
                if i < k {
                    if !entry_committed(pre, all[i]) {
                        let j = choose|j: int|
                            0 <= j < kept_pre.len() && kept_pre[j] == all[i];
                        assert(kept@[j] == all[i]);
                    }
                } else {
                    assert(i == k);
                    assert(all[i] == entry);
                    if !ok {
                        assert(kept@[kept@.len() - 1] == entry);
                    }
                }
            }
        }
    }
    proof {
        assert(all.len() - input@.len() == all.len());
    }
    (kept, committed)
}

/// Monotone commitment is transitive.
proof fn lemma_monotone_trans(a: DbIndex, b: DbIndex, c: DbIndex)
    requires
        commitments_monotone(a, b),
        commitments_monotone(b, c),
    ensures
        commitments_monotone(a, c),
{
}

/// Monotone commitment preserves committed entries.
proof fn lemma_committed_monotone_all(pre: DbIndex, post: DbIndex, es: Seq<UnResolve>)
    requires
        commitments_monotone(pre, post),
    ensures
        forall|i: int|
            0 <= i < es.len() && entry_committed(pre, #[trigger] es[i]) ==> entry_committed(
                post,
                es[i],
            ),
{
    assert forall|i: int|
        0 <= i < es.len() && entry_committed(pre, #[trigger] es[i]) implies entry_committed(
        post,
        es[i],
    ) by {
        match es[i] {
            UnResolve::Decl(d) => {
                assert(post.type_index.spec_get(LuaSemanticDeclId::LuaDecl(d.decl_id)) is Some);
            },
            UnResolve::Module(m) => {
                match pre.module_index.spec_get(m.file_id) {
                    Some(info) => {
                        assert(info.export_type is Some);
                        assert(post.module_index.spec_get(m.file_id) matches Some(i2)
                            && i2.export_type is Some);
                    },
                    None => {
                        assert(post.module_index.spec_get(m.file_id) is None);
                    },
                }
            },
        }
    }
}

/// Commit the `Unknown` sentinel for every remaining entry.
fn force_unknown(db: &mut DbIndex, entries: &Vec<UnResolve>)
    requires
        old(db).wf(),
    ensures
        final(db).wf(),
        final(db).decl_index == old(db).decl_index,
        final(db).xmake_index == old(db).xmake_index,
        final(db).global_index == old(db).global_index,
        final(db).property_index == old(db).property_index,
        commitments_monotone(*old(db), *final(db)),
        forall|i: int| 0 <= i < entries@.len() ==> entry_committed(
            *final(db),
            #[trigger] entries@[i],
        ),
{
    let n = entries.len();
    let mut i: usize = 0;
    while i < n
        invariant
            db.wf(),
            db.decl_index == old(db).decl_index,
            db.xmake_index == old(db).xmake_index,
            db.global_index == old(db).global_index,
            db.property_index == old(db).property_index,
            commitments_monotone(*old(db), *db),
            n == entries@.len(),
            i <= n,
            forall|j: int| 0 <= j < i ==> entry_committed(*db, #[trigger] entries@[j]),
        decreases n - i,
    {
        let ghost pre = *db;
        match &entries[i] {
            UnResolve::Decl(d) => {
                db.type_index.bind_type(
                    LuaSemanticDeclId::LuaDecl(d.decl_id),
                    LuaTypeCache::InferType(LuaType::Unknown),
                );
            },
            UnResolve::Module(m) => {
                db.module_index.set_export(m.file_id, LuaType::Unknown, None);
            },
        }
        proof {
            lemma_monotone_trans(*old(db), pre, *db);
            lemma_committed_monotone_all(pre, *db, entries@);
        }
        i += 1;
    }
}

/// The rounds of the drain: each continuing round commits at least one
/// entry, so the drain terminates; a round that commits nothing stops
/// the fixpoint and the rest is committed as `Unknown`.
fn drain_rounds(db: &mut DbIndex, entries: Vec<UnResolve>)
    requires
        old(db).wf(),
    ensures
        final(db).wf(),
        final(db).decl_index == old(db).decl_index,
        final(db).xmake_index == old(db).xmake_index,
        final(db).global_index == old(db).global_index,
        final(db).property_index == old(db).property_index,
        commitments_monotone(*old(db), *final(db)),
        forall|i: int| 0 <= i < entries@.len() ==> entry_committed(
            *final(db),
            #[trigger] entries@[i],
        ),
    decreases entries@.len(),
{
    if entries.len() == 0 {
        return;
    }
    let ghost all = entries@;
    let ghost pre = *old(db);
    let (kept, committed) = one_pass(db, entries);
    let ghost mid = *db;
    if committed == 0 {
        force_unknown(db, &kept);
        proof {
            lemma_monotone_trans(pre, mid, *db);
            assert forall|i: int| 0 <= i < all.len() implies entry_committed(
                *db,
                #[trigger] all[i],
            ) by {
                if entry_committed(mid, all[i]) {
                    lemma_committed_monotone_all(mid, *db, all);
                } else {
                    let j = choose|j: int| 0 <= j < kept@.len() && kept@[j] == all[i];
                    assert(entry_committed(*db, kept@[j]));
                }
            }
        }
    } else {
        drain_rounds(db, kept);
        proof {
            lemma_monotone_trans(pre, mid, *db);
            assert forall|i: int| 0 <= i < all.len() implies entry_committed(
                *db,
                #[trigger] all[i],
            ) by {
                if entry_committed(mid, all[i]) {
                    lemma_committed_monotone_all(mid, *db, all);
                } else {
                    let j = choose|j: int| 0 <= j < kept@.len() && kept@[j] == all[i];
                    assert(entry_committed(*db, kept@[j]));
                }
            }
        }
    }
}

/// Drain the worklist to a fixpoint: pending entries are retried until
/// a full pass commits nothing, and whatever remains is committed with
/// the `Unknown` sentinel.  Afterwards every entry that was ever queued
/// has a committed result, and the queue is empty.
pub fn resolve_all(db: &mut DbIndex, entries: Vec<UnResolve>)
    requires
        old(db).wf(),
    ensures
        final(db).wf(),
        final(db).decl_index == old(db).decl_index,
        final(db).xmake_index == old(db).xmake_index,
        final(db).global_index == old(db).global_index,
        final(db).property_index == old(db).property_index,
        commitments_monotone(*old(db), *final(db)),
        forall|i: int| 0 <= i < entries@.len() ==> entry_committed(
            *final(db),
            #[trigger] entries@[i],
        ),
{
    drain_rounds(db, entries);
}

} // verus!
