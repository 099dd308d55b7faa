//! The batch analysis of a workspace revision: per-file collection for
//! all files first, then the cross-file typing pass, then the deferred
//! worklist drained to a fixpoint.  No step blocks on the outside world.

use vstd::prelude::*;
use crate::db::DbIndex;
use crate::decl_analyzer::{analyze_file_decls, decl_views, lemma_block_ranges_wellformed,
    spec_decls_upto, spec_includes_upto, spec_targets_upto, target_views, targets_wellformed};
use crate::ids::FileId;
use crate::module_analyzer::{analyze_file_module, spec_stat_binding_committed,
    spec_stat_binding_settled};
use crate::syntax::{SyntaxChunk, chunk_wf};
use crate::unresolve::{UnResolve, entry_committed, lemma_settled_preserved, resolve_all};
use crate::ids::LuaDeclId;
use crate::syntax::SyntaxStatKind;
use crate::xmake_index::{XmakeFunction, spec_xmake_function_of};

verus! {

/// Pairwise-distinct file identities.
pub open spec fn chunks_distinct(chunks: Seq<SyntaxChunk>) -> bool {
    forall|i: int, j: int|
        #![trigger chunks[i], chunks[j]]
        0 <= i < j < chunks.len() ==> chunks[i].file_id != chunks[j].file_id
}

/// Nothing of these files is indexed yet.
pub open spec fn chunks_fresh(db: DbIndex, chunks: Seq<SyntaxChunk>) -> bool {
    forall|i: int|
        0 <= i < chunks.len() ==> {
            &&& db.decl_index.spec_get_tree((#[trigger] chunks[i]).file_id) is None
            &&& db.xmake_index.spec_targets(chunks[i].file_id) is None
            &&& db.xmake_index.spec_includes(chunks[i].file_id) is None
        }
}

/// Analyze a workspace snapshot: collect declarations, blocks and edges
/// for every file, type the files, and drain the deferred worklist so
/// that everything queued ends with a committed result.  What each file
/// contributes to the declaration record, the build-scope ranges and
/// the include edges is a function of its chunk alone (and, for edges,
/// of the module records); for every file the recorded blocks are, per
/// kind, pairwise non-overlapping and ordered.
pub fn analyze_files(db: &mut DbIndex, chunks: &Vec<SyntaxChunk>)
    requires
        old(db).wf(),
        forall|i: int| 0 <= i < chunks@.len() ==> chunk_wf(#[trigger] chunks@[i]),
        chunks_distinct(chunks@),
        chunks_fresh(*old(db), chunks@),
    ensures
        final(db).wf(),
        forall|i: int|
            0 <= i < chunks@.len() ==> {
                let chunk = #[trigger] chunks@[i];
                &&& final(db).decl_index.spec_get_tree(chunk.file_id) matches Some(t) && t.wf()
                    && t.file_id == chunk.file_id && t.root_range == chunk.range && decl_views(
                    t.decls@,
                ) == spec_decls_upto(chunk, chunk.stats@.len() as int)
                &&& target_views(final(db).xmake_index.spec_targets_seq(chunk.file_id))
                    == spec_targets_upto(chunk, chunk.stats@.len() as int)
                &&& targets_wellformed(
                    target_views(final(db).xmake_index.spec_targets_seq(chunk.file_id)),
                )
                &&& final(db).xmake_index.spec_includes_seq(chunk.file_id)
                    == spec_includes_upto(
                    chunk,
                    chunk.stats@.len() as int,
                    old(db).module_index.modules@,
                )
            },
        // after the drain, every recognized binding — an import call's
        // declaration, a valued global assignment — holds a committed
        // cache entry, never left pending
        forall|i: int|
            0 <= i < chunks@.len() ==> forall|j: int|
                0 <= j < (#[trigger] chunks@[i]).stats@.len()
                    ==> #[trigger] spec_stat_binding_committed(*final(db), chunks@[i], j),
{
    let n = chunks.len();
    let mut i: usize = 0;
    while i < n
        invariant
            old(db).wf(),
            forall|k: int| 0 <= k < chunks@.len() ==> chunk_wf(#[trigger] chunks@[k]),
            chunks_distinct(chunks@),
            chunks_fresh(*old(db), chunks@),
            n == chunks@.len(),
            i <= n,
            db.wf(),
            db.type_index == old(db).type_index,
            db.property_index == old(db).property_index,
            db.module_index == old(db).module_index,
            forall|k: int|
                i <= k < chunks@.len() ==> {
                    &&& db.decl_index.spec_get_tree((#[trigger] chunks@[k]).file_id) is None
                    &&& db.xmake_index.spec_targets(chunks@[k].file_id) is None
                    &&& db.xmake_index.spec_includes(chunks@[k].file_id) is None
                },
            forall|k: int|
                0 <= k < i ==> {
                    let chunk = #[trigger] chunks@[k];
                    &&& db.decl_index.spec_get_tree(chunk.file_id) matches Some(t) && t.wf()
                        && t.file_id == chunk.file_id && t.root_range == chunk.range
                        && decl_views(t.decls@) == spec_decls_upto(
                        chunk,
                        chunk.stats@.len() as int,
                    )
                    &&& target_views(db.xmake_index.spec_targets_seq(chunk.file_id))
                        == spec_targets_upto(chunk, chunk.stats@.len() as int)
                    &&& db.xmake_index.spec_includes_seq(chunk.file_id) == spec_includes_upto(
                        chunk,
                        chunk.stats@.len() as int,
                        old(db).module_index.modules@,
                    )
                },
        decreases n - i,
    {
        let chunk = &chunks[i];
        proof {
            assert(db.xmake_index.spec_targets_seq(chunk.file_id)
                =~= Seq::<crate::xmake_index::XmakeTarget>::empty());
            assert(target_views(db.xmake_index.spec_targets_seq(chunk.file_id))
                =~= Seq::<crate::decl_analyzer::TargetView>::empty());
            assert(db.xmake_index.spec_includes_seq(chunk.file_id)
                =~= Seq::<FileId>::empty());
        }
        analyze_file_decls(db, chunk);
        proof {
            assert(target_views(db.xmake_index.spec_targets_seq(chunk.file_id))
                =~= spec_targets_upto(chunks@[i as int], chunks@[i as int].stats@.len() as int));
            assert(db.xmake_index.spec_includes_seq(chunk.file_id) =~= spec_includes_upto(
                chunks@[i as int],
                chunks@[i as int].stats@.len() as int,
                old(db).module_index.modules@,
            ));
        }
        i += 1;
    }
    let mut unresolves: Vec<UnResolve> = Vec::new();
    let mut k: usize = 0;
    while k < n
        invariant
            old(db).wf(),
            forall|l: int| 0 <= l < chunks@.len() ==> chunk_wf(#[trigger] chunks@[l]),
            n == chunks@.len(),
            k <= n,
            db.wf(),
            forall|l: int|
                0 <= l < chunks@.len() ==> {
                    let chunk = #[trigger] chunks@[l];
                    &&& db.decl_index.spec_get_tree(chunk.file_id) matches Some(t) && t.wf()
                        && t.file_id == chunk.file_id && t.root_range == chunk.range
                        && decl_views(t.decls@) == spec_decls_upto(
                        chunk,
                        chunk.stats@.len() as int,
                    )
                    &&& target_views(db.xmake_index.spec_targets_seq(chunk.file_id))
                        == spec_targets_upto(chunk, chunk.stats@.len() as int)
                    &&& db.xmake_index.spec_includes_seq(chunk.file_id) == spec_includes_upto(
                        chunk,
                        chunk.stats@.len() as int,
                        old(db).module_index.modules@,
                    )
                },
            forall|l: int, j: int|
                0 <= l < k && 0 <= j < (#[trigger] chunks@[l]).stats@.len()
                    ==> #[trigger] spec_stat_binding_settled(*db, unresolves@, 0, chunks@[l], j),
        decreases n - k,
    {
        let ghost pre_db = *db;
        let ghost pre_q = unresolves@;
        let chunk = &chunks[k];
        analyze_file_module(db, chunk, &mut unresolves);
        proof {
            assert forall|l: int, j: int|
                0 <= l < k + 1 && 0 <= j < (#[trigger] chunks@[l]).stats@.len()
                implies #[trigger] spec_stat_binding_settled(
                *db,
                unresolves@,
                0,
                chunks@[l],
                j,
            ) by {
                if l < k {
                    assert(spec_stat_binding_settled(pre_db, pre_q, 0, chunks@[l], j));
                    match chunks@[l].stats@[j].kind {
                        SyntaxStatKind::Call(c2) => {
                            if spec_xmake_function_of(c2.callee@) == Some(XmakeFunction::Import)
                                && c2.args@.len() > 0 && c2.args@[0].kind is StrLiteral {
                                lemma_settled_preserved(
                                    pre_db,
                                    *db,
                                    pre_q,
                                    unresolves@,
                                    0,
                                    LuaDeclId {
                                        file_id: chunks@[l].file_id,
                                        position: c2.range.start,
                                    },
                                );
                            }
                        },
                        SyntaxStatKind::Assign { name_range, value, .. } => {
                            if value is Some {
                                lemma_settled_preserved(
                                    pre_db,
                                    *db,
                                    pre_q,
                                    unresolves@,
                                    0,
                                    LuaDeclId {
                                        file_id: chunks@[l].file_id,
                                        position: name_range.start,
                                    },
                                );
                            }
                        },
                        _ => {},
                    }
                } else {
                    // the file just analyzed: its own ensures give the
                    // settled predicate over the appended window, which
                    // widens to the whole queue
                    assert(spec_stat_binding_settled(
                        *db,
                        unresolves@,
                        pre_q.len() as int,
                        chunks@[l],
                        j,
                    ));
                    match chunks@[l].stats@[j].kind {
                        SyntaxStatKind::Call(c2) => {
                            if spec_xmake_function_of(c2.callee@) == Some(XmakeFunction::Import)
                                && c2.args@.len() > 0 && c2.args@[0].kind is StrLiteral {
                                let id = LuaDeclId {
                                    file_id: chunks@[l].file_id,
                                    position: c2.range.start,
                                };
                                assert(crate::unresolve::committed_or_queued(
                                    *db,
                                    unresolves@,
                                    pre_q.len() as int,
                                    id,
                                ) ==> crate::unresolve::committed_or_queued(
                                    *db,
                                    unresolves@,
                                    0,
                                    id,
                                ));
                            }
                        },
                        SyntaxStatKind::Assign { name_range, value, .. } => {
                            if value is Some {
                                let id = LuaDeclId {
                                    file_id: chunks@[l].file_id,
                                    position: name_range.start,
                                };
                                assert(crate::unresolve::committed_or_queued(
                                    *db,
                                    unresolves@,
                                    pre_q.len() as int,
                                    id,
                                ) ==> crate::unresolve::committed_or_queued(
                                    *db,
                                    unresolves@,
                                    0,
                                    id,
                                ));
                            }
                        },
                        _ => {},
                    }
                }
            }
        }
        k += 1;
    }
    let ghost q_final = unresolves@;
    let ghost pre_drain = *db;
    resolve_all(db, unresolves);
    proof {
        assert forall|i2: int|
            0 <= i2 < chunks@.len() implies targets_wellformed(
            target_views(db.xmake_index.spec_targets_seq((#[trigger] chunks@[i2]).file_id)),
        ) by {
            lemma_block_ranges_wellformed(chunks@[i2]);
        }
        assert forall|i2: int, j: int|
            0 <= i2 < chunks@.len() && 0 <= j < (#[trigger] chunks@[i2]).stats@.len()
            implies #[trigger] spec_stat_binding_committed(*db, chunks@[i2], j) by {
            assert(spec_stat_binding_settled(pre_drain, q_final, 0, chunks@[i2], j));
            match chunks@[i2].stats@[j].kind {
                SyntaxStatKind::Call(c2) => {
                    if spec_xmake_function_of(c2.callee@) == Some(XmakeFunction::Import)
                        && c2.args@.len() > 0 && c2.args@[0].kind is StrLiteral {
                        let id = LuaDeclId {
                            file_id: chunks@[i2].file_id,
                            position: c2.range.start,
                        };
                        settled_implies_committed_after_drain(pre_drain, *db, q_final, id);
                    }
                },
                SyntaxStatKind::Assign { name_range, value, .. } => {
                    if value is Some {
                        let id = LuaDeclId {
                            file_id: chunks@[i2].file_id,
                            position: name_range.start,
                        };
                        settled_implies_committed_after_drain(pre_drain, *db, q_final, id);
                    }
                },
                _ => {},
            }
        }
    }
}

/// A declaration settled before the drain is committed after it: an
/// already-cached entry survives (commitments are monotone) and a
/// queued entry's target is committed by the drain.
proof fn settled_implies_committed_after_drain(
    pre: DbIndex,
    post: DbIndex,
    q: Seq<UnResolve>,
    id: LuaDeclId,
)
    requires
        crate::unresolve::committed_or_queued(pre, q, 0, id),
        crate::unresolve::commitments_monotone(pre, post),
        forall|e: int| 0 <= e < q.len() ==> entry_committed(post, #[trigger] q[e]),
    ensures
        post.type_index.spec_get(crate::ids::LuaSemanticDeclId::LuaDecl(id)) is Some,
{
    if pre.type_index.spec_get(crate::ids::LuaSemanticDeclId::LuaDecl(id)) is Some {
    } else {
        let k = choose|k: int|
            0 <= k < q.len() && crate::unresolve::entry_decl_target(#[trigger] q[k]) == Some(
                id,
            );
        assert(entry_committed(post, q[k]));
        match q[k] {
            UnResolve::Decl(d) => {
                assert(d.decl_id == id);
            },
            UnResolve::Module(_) => {
                assert(false);
            },
        }
    }
}

/// Idempotence: what analysis records for a file — its declaration
/// views, its block ranges, its include edges — is a function of the
/// file's chunk and the module records alone.  Two databases whose
/// analyses saw the same unchanged chunk therefore hold bit-identical
/// records for it.
pub proof fn lemma_analysis_idempotent(
    chunk: SyntaxChunk,
    modules: Seq<(FileId, crate::module_index::ModuleInfo)>,
    db1: DbIndex,
    db2: DbIndex,
)
    requires
        db1.decl_index.spec_get_tree(chunk.file_id) matches Some(t1) && decl_views(t1.decls@)
            == spec_decls_upto(chunk, chunk.stats@.len() as int),
        db2.decl_index.spec_get_tree(chunk.file_id) matches Some(t2) && decl_views(t2.decls@)
            == spec_decls_upto(chunk, chunk.stats@.len() as int),
        target_views(db1.xmake_index.spec_targets_seq(chunk.file_id)) == spec_targets_upto(
            chunk,
            chunk.stats@.len() as int,
        ),
        target_views(db2.xmake_index.spec_targets_seq(chunk.file_id)) == spec_targets_upto(
            chunk,
            chunk.stats@.len() as int,
        ),
        db1.xmake_index.spec_includes_seq(chunk.file_id) == spec_includes_upto(
            chunk,
            chunk.stats@.len() as int,
            modules,
        ),
        db2.xmake_index.spec_includes_seq(chunk.file_id) == spec_includes_upto(
            chunk,
            chunk.stats@.len() as int,
            modules,
        ),
    ensures
        decl_views(db1.decl_index.spec_get_tree(chunk.file_id)->Some_0.decls@) == decl_views(
            db2.decl_index.spec_get_tree(chunk.file_id)->Some_0.decls@,
        ),
        target_views(db1.xmake_index.spec_targets_seq(chunk.file_id)) == target_views(
            db2.xmake_index.spec_targets_seq(chunk.file_id),
        ),
        db1.xmake_index.spec_includes_seq(chunk.file_id) == db2.xmake_index.spec_includes_seq(
            chunk.file_id,
        ),
{
}

} // verus!
