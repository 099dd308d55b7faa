//! The global-symbol index: all global declarations sharing a name are
//! bucketed together, and an unqualified lookup picks the best candidate.

use vstd::prelude::*;
use crate::ids::{FileId, LuaDeclId, LuaSemanticDeclId};
use crate::types::LuaType;
use crate::property_index::XmakeScope;
use crate::xmake_index::XmakeTargetKind;
use crate::db::DbIndex;
use crate::assoc::{alookup, akeys_unique, lemma_alookup_found, lemma_alookup_absent,
    lemma_alookup_update, lemma_alookup_push};
use crate::strutil::str_eq;

verus! {

/// The decl-id sequence of a bucket with the entries of one file dropped.
pub open spec fn decls_without_file(s: Seq<LuaDeclId>, f: FileId) -> Seq<LuaDeclId>
    decreases s.len(),
{
    if s.len() == 0 {
        s
    } else {
        let rest = decls_without_file(s.drop_last(), f);
        if s.last().file_id == f {
            rest
        } else {
            rest.push(s.last())
        }
    }
}

/// A name bucket as the specifications see it.
pub type GlobalBucket = (Seq<char>, Seq<LuaDeclId>);

/// The bucket list with the declarations of one file dropped, empty
/// buckets removed.
pub open spec fn gbuckets_remove(s: Seq<GlobalBucket>, f: FileId) -> Seq<GlobalBucket>
    decreases s.len(),
{
    if s.len() == 0 {
        s
    } else {
        let rest = gbuckets_remove(s.skip(1), f);
        let l = decls_without_file(s[0].1, f);
        if l.len() == 0 {
            rest
        } else {
            seq![(s[0].0, l)] + rest
        }
    }
}

/// What one bucket becomes when a file's declarations are purged.
pub open spec fn gbucket_after_remove(b: Option<Seq<LuaDeclId>>, f: FileId) -> Option<
    Seq<LuaDeclId>,
> {
    match b {
        None => None,
        Some(ids) => {
            let l = decls_without_file(ids, f);
            if l.len() == 0 {
                None
            } else {
                Some(l)
            }
        },
    }
}

/// A lookup of `None` means the key occurs nowhere.
proof fn lemma_alookup_none_no_key<K, V>(s: Seq<(K, V)>, k: K)
    requires
        alookup(s, k) is None,
    ensures
        forall|j: int| 0 <= j < s.len() ==> s[j].0 != k,
    decreases s.len(),
{
    if s.len() > 0 {
        assert(s[0].0 != k);
        assert(forall|j: int| 0 <= j < s.skip(1).len() ==> s.skip(1)[j] == s[j + 1]);
        lemma_alookup_none_no_key(s.skip(1), k);
        assert forall|j: int| 0 <= j < s.len() implies s[j].0 != k by {
            if j > 0 {
                assert(s.skip(1)[j - 1] == s[j]);
            }
        }
    }
}

/// Purging a file rewrites each name's bucket pointwise and keeps the
/// keys distinct.
proof fn lemma_gbuckets_remove_lookup(s: Seq<GlobalBucket>, f: FileId, n: Seq<char>)
    requires
        akeys_unique(s),
    ensures
        akeys_unique(gbuckets_remove(s, f)),
        alookup(gbuckets_remove(s, f), n) == gbucket_after_remove(alookup(s, n), f),
    decreases s.len(),
{
    if s.len() > 0 {
        let rest = s.skip(1);
        assert(forall|j: int| 0 <= j < rest.len() ==> rest[j] == s[j + 1]);
        let grest = gbuckets_remove(rest, f);
        let l = decls_without_file(s[0].1, f);
        lemma_gbuckets_remove_lookup(rest, f, n);
        lemma_gbuckets_remove_lookup(rest, f, s[0].0);
        let t = gbuckets_remove(s, f);
        if l.len() == 0 {
            assert(t == grest);
            if n == s[0].0 {
                lemma_alookup_absent(rest, n);
                assert(alookup(t, n) is None);
            }
        } else {
            assert(t =~= seq![(s[0].0, l)] + grest);
            assert(t[0] == (s[0].0, l));
            assert(t.skip(1) =~= grest);
            // keys of grest are keys of rest, so the head key stays fresh
            lemma_alookup_absent(rest, s[0].0);
            assert(alookup(grest, s[0].0) is None);
            lemma_alookup_none_no_key(grest, s[0].0);
            assert(akeys_unique(t)) by {
                assert(forall|j: int| 1 <= j < t.len() ==> t[j] == grest[j - 1]);
            }
            if n == s[0].0 {
                assert(alookup(t, n) == Some(l));
            } else {
                assert(alookup(t, n) == alookup(grest, n));
            }
        }
    }
}

/// Global declarations bucketed by their shared name, in first-seen
/// order; within a bucket, in registration order.
#[derive(Debug)]
pub struct LuaGlobalIndex {
    pub global_decl: Vec<(String, Vec<LuaDeclId>)>,
}

impl LuaGlobalIndex {
    /// The buckets as the specifications see them.
    pub open spec fn buckets(self) -> Seq<GlobalBucket> {
        self.global_decl@.map_values(|e: (String, Vec<LuaDeclId>)| (e.0@, e.1@))
    }

    pub open spec fn wf(self) -> bool {
        &&& akeys_unique(self.buckets())
        &&& forall|j: int| 0 <= j < self.buckets().len() ==> self.buckets()[j].1.len() > 0
    }

    /// The declarations registered under a name.
    pub open spec fn spec_decl_ids(self, name: Seq<char>) -> Option<Seq<LuaDeclId>> {
        alookup(self.buckets(), name)
    }

    /// The declarations registered under a name, empty when none.
    pub open spec fn spec_decl_ids_seq(self, name: Seq<char>) -> Seq<LuaDeclId> {
        match self.spec_decl_ids(name) {
            Some(ids) => ids,
            None => Seq::empty(),
        }
    }

    pub fn new() -> (r: LuaGlobalIndex)
        ensures
            r.wf(),
            forall|n: Seq<char>| r.spec_decl_ids(n) is None,
    {
        let r = LuaGlobalIndex { global_decl: Vec::new() };
        proof {
            assert(r.buckets() =~= Seq::<GlobalBucket>::empty());
            assert forall|n: Seq<char>| r.spec_decl_ids(n) is None by {
                lemma_alookup_absent(r.buckets(), n);
            }
        }
        r
    }

    fn find_idx(&self, name: &str) -> (r: Option<usize>)
        ensures
            match r {
                Some(i) => {
                    &&& i < self.buckets().len()
                    &&& self.buckets()[i as int].0 == name@
                    &&& forall|j: int| 0 <= j < i ==> self.buckets()[j].0 != name@
                },
                None => forall|j: int| 0 <= j < self.buckets().len()
                    ==> self.buckets()[j].0 != name@,
            },
    {
        let n = self.global_decl.len();
        assert(self.buckets().len() == n);
        let mut i: usize = 0;
        while i < n
            invariant
                n == self.global_decl@.len(),
                self.buckets().len() == n,
                i <= n,
                forall|j: int| 0 <= j < i ==> self.buckets()[j].0 != name@,
            decreases n - i,
        {
            assert(self.buckets()[i as int].0 == self.global_decl@[i as int].0@);
            if str_eq(self.global_decl[i].0.as_str(), name) {
                return Some(i);
            }
            i += 1;
        }
        None
    }

    /// Register one more global declaration under a name; buckets never
    /// merge declarations, so every candidate stays listed.
    pub fn add_global_decl(&mut self, name: &str, decl_id: LuaDeclId)
        requires
            old(self).wf(),
        ensures
            final(self).wf(),
            final(self).spec_decl_ids(name@) == Some(
                old(self).spec_decl_ids_seq(name@).push(decl_id),
            ),
            forall|n: Seq<char>| n != name@ ==> final(self).spec_decl_ids(n) == old(
                self,
            ).spec_decl_ids(n),
    {
        let ghost b0 = self.buckets();
        match self.find_idx(name) {
            Some(i) => {
                proof {
                    lemma_alookup_found(b0, name@, i as int);
                }
                self.global_decl[i].1.push(decl_id);
                proof {
                    assert(self.buckets() =~= b0.update(
                        i as int,
                        (name@, b0[i as int].1.push(decl_id)),
                    ));
                    lemma_alookup_update(b0, i as int, b0[i as int].1.push(decl_id));
                }
            },
            None => {
                proof {
                    lemma_alookup_absent(b0, name@);
                }
                let mut ids: Vec<LuaDeclId> = Vec::new();
                ids.push(decl_id);
                let owned = crate::strutil::str_to_chars(name);
                let owned_name = crate::strutil::chars_to_string(&owned);
                self.global_decl.push((owned_name, ids));
                proof {
                    assert(self.buckets() =~= b0.push((name@, seq![decl_id])));
                    lemma_alookup_push(b0, name@, seq![decl_id]);
                    assert(old(self).spec_decl_ids_seq(name@).push(decl_id) =~= seq![decl_id]);
                }
            },
        }
    }

    /// Every registered global declaration, bucket by bucket in
    /// first-seen order.
    pub fn get_all_global_decl_ids(&self) -> (r: Vec<LuaDeclId>)
        requires
            self.wf(),
        ensures
            r@ == spec_all_decl_ids(self.buckets()),
    {
        let mut decls: Vec<LuaDeclId> = Vec::new();
        let n = self.global_decl.len();
        assert(self.buckets().len() == n);
        let mut i: usize = 0;
        while i < n
            invariant
                n == self.global_decl@.len(),
                self.buckets().len() == n,
                i <= n,
                decls@ == spec_all_decl_ids(self.buckets().take(i as int)),
            decreases n - i,
    {
            let m = self.global_decl[i].1.len();
            let mut k: usize = 0;
            while k < m
                invariant
                    i < n,
                    n == self.global_decl@.len(),
                    self.buckets().len() == n,
                    m == self.global_decl@[i as int].1@.len(),
                    k <= m,
                    decls@ == spec_all_decl_ids(self.buckets().take(i as int)) + self.buckets()[
                        i as int
                    ].1.take(k as int),
                decreases m - k,
            {
                let d = self.global_decl[i].1[k];
                decls.push(d);
                proof {
                    assert(self.buckets()[i as int].1.take(k + 1 as int) =~= self.buckets()[
                        i as int
                    ].1.take(k as int).push(d));
                }
                k += 1;
            }
            proof {
                let b = self.buckets();
                assert(b.take(i + 1 as int).drop_last() =~= b.take(i as int));
                assert(b.take(i + 1 as int).last() == b[i as int]);
                assert(spec_all_decl_ids(b.take(i + 1 as int)) == spec_all_decl_ids(b.take(
                    i as int,
                )) + b[i as int].1);
                assert(b[i as int].1.take(m as int) =~= b[i as int].1);
            }
            i += 1;
        }
        proof {
            assert(self.buckets().take(n as int) =~= self.buckets());
        }
        decls
    }

    /// The declarations registered under a name, in registration order.
    pub fn get_global_decl_ids(&self, name: &str) -> (r: Option<&Vec<LuaDeclId>>)
        requires
            self.wf(),
        ensures
            match r {
                Some(v) => self.spec_decl_ids(name@) == Some(v@),
                None => self.spec_decl_ids(name@) is None,
            },
    {
        match self.find_idx(name) {
            Some(i) => {
                proof {
                    lemma_alookup_found(self.buckets(), name@, i as int);
                }
                Some(&self.global_decl[i].1)
            },
            None => {
                proof {
                    lemma_alookup_absent(self.buckets(), name@);
                }
                None
            },
        }
    }

    /// Whether any global declaration bears the name.
    pub fn is_exist_global_decl(&self, name: &str) -> (r: bool)
        requires
            self.wf(),
        ensures
            r == (self.spec_decl_ids(name@) is Some),
    {
        match self.get_global_decl_ids(name) {
            Some(_) => true,
            None => false,
        }
    }

    /// Purge every declaration of a file; buckets left empty disappear.
    pub fn remove(&mut self, file_id: FileId)
        requires
            old(self).wf(),
        ensures
            final(self).wf(),
            forall|n: Seq<char>| #[trigger] final(self).spec_decl_ids(n) == gbucket_after_remove(
                old(self).spec_decl_ids(n),
                file_id,
            ),
    {
        let ghost b0 = self.buckets();
        let n = self.global_decl.len();
        let mut out: Vec<(String, Vec<LuaDeclId>)> = Vec::new();
        let mut i: usize = n;
        assert(b0.skip(n as int) =~= Seq::<GlobalBucket>::empty());
        while i > 0
            invariant
                n == self.global_decl@.len(),
                b0 == self.buckets(),
                b0.len() == n,
                i <= n,
                out@.map_values(|e: (String, Vec<LuaDeclId>)| (e.0@, e.1@)) == gbuckets_remove(
                    b0.skip(i as int),
                    file_id,
                ),
            decreases i,
        {
            i -= 1;
            let bucket_len = self.global_decl[i].1.len();
            let mut kept: Vec<LuaDeclId> = Vec::new();
            let mut k: usize = 0;
            while k < bucket_len
                invariant
                    i < n,
                    n == self.global_decl@.len(),
                    b0 == self.buckets(),
                    b0.len() == n,
                    bucket_len == self.global_decl@[i as int].1@.len(),
                    k <= bucket_len,
                    kept@ == decls_without_file(b0[i as int].1.take(k as int), file_id),
                decreases bucket_len - k,
            {
                let d = self.global_decl[i].1[k];
                proof {
                    assert(b0[i as int].1.take(k + 1 as int).drop_last() =~= b0[i as int].1.take(
                        k as int,
                    ));
                    assert(b0[i as int].1.take(k + 1 as int).last() == b0[i as int].1[k as int]);
                }
                if d.file_id.id != file_id.id {
                    assert(d.file_id != file_id);
                    kept.push(d);
                } else {
                    assert(d.file_id == file_id);
                }
                k += 1;
            }
            proof {
                assert(b0[i as int].1.take(bucket_len as int) =~= b0[i as int].1);
            }
            let ghost out_pre = out@.map_values(|e: (String, Vec<LuaDeclId>)| (e.0@, e.1@));
            if kept.len() > 0 {
                let name_clone = self.global_decl[i].0.clone();
                out.insert(0, (name_clone, kept));
                proof {
                    let cur = out@.map_values(|e: (String, Vec<LuaDeclId>)| (e.0@, e.1@));
                    assert(cur =~= seq![(b0[i as int].0, decls_without_file(b0[i as int].1, file_id))]
                        + out_pre);
                    assert(b0.skip(i as int)[0] == b0[i as int]);
                    assert(b0.skip(i as int).skip(1) =~= b0.skip(i + 1 as int));
                }
            } else {
                proof {
                    assert(b0.skip(i as int)[0] == b0[i as int]);
                    assert(b0.skip(i as int).skip(1) =~= b0.skip(i + 1 as int));
                }
            }
        }
        proof {
            assert(b0.skip(0) =~= b0);
        }
        self.global_decl = out;
        proof {
            lemma_gbuckets_remove_keys(b0, file_id);
            assert forall|nm: Seq<char>| #[trigger] final(self).spec_decl_ids(nm)
                == gbucket_after_remove(old(self).spec_decl_ids(nm), file_id) by {
                lemma_gbuckets_remove_lookup(b0, file_id, nm);
            }
        }
    }

    /// Drop everything.
    pub fn clear(&mut self)
        ensures
            final(self).wf(),
            forall|n: Seq<char>| final(self).spec_decl_ids(n) is None,
    {
        self.global_decl.clear();
        proof {
            assert(self.buckets() =~= Seq::<GlobalBucket>::empty());
            assert forall|n: Seq<char>| alookup(self.buckets(), n) is None by {
                lemma_alookup_absent(self.buckets(), n);
            }
        }
    }
}

/// Purging a file keeps the bucket keys distinct.
proof fn lemma_gbuckets_remove_keys(s: Seq<GlobalBucket>, f: FileId)
    requires
        akeys_unique(s),
    ensures
        akeys_unique(gbuckets_remove(s, f)),
        forall|j: int| 0 <= j < gbuckets_remove(s, f).len() ==> gbuckets_remove(s, f)[j].1.len()
            > 0,
    decreases s.len(),
{
    if s.len() > 0 {
        let rest = s.skip(1);
        assert(forall|j: int| 0 <= j < rest.len() ==> rest[j] == s[j + 1]);
        lemma_gbuckets_remove_keys(rest, f);
        let grest = gbuckets_remove(rest, f);
        let l = decls_without_file(s[0].1, f);
        let t = gbuckets_remove(s, f);
        if l.len() > 0 {
            assert(t =~= seq![(s[0].0, l)] + grest);
            lemma_alookup_absent(rest, s[0].0);
            lemma_gbuckets_remove_lookup(rest, f, s[0].0);
            lemma_alookup_none_no_key(grest, s[0].0);
            assert(forall|j: int| 1 <= j < t.len() ==> t[j] == grest[j - 1]);
        }
    }
}

/// The flattened contents of all buckets, in bucket order.
pub open spec fn spec_all_decl_ids(s: Seq<GlobalBucket>) -> Seq<LuaDeclId>
    decreases s.len(),
{
    if s.len() == 0 {
        Seq::empty()
    } else {
        spec_all_decl_ids(s.drop_last()) + s.last().1
    }
}

/// Whether a declared build scope is incompatible with a block kind.
pub open spec fn scope_mismatch(scope: XmakeScope, kind: XmakeTargetKind) -> bool {
    match scope {
        XmakeScope::Package => !(kind is Package),
        XmakeScope::Option => !(kind is Option),
        XmakeScope::Rule => !(kind is Rule),
        XmakeScope::Target => !(kind is Target),
        XmakeScope::Task => !(kind is Task),
    }
}

/// Whether scope filtering rejects an entity at a lookup position: the
/// entity carries a build scope, and the position lies inside a block of
/// an incompatible kind.
pub open spec fn spec_filtered_by_scope(
    db: DbIndex,
    semantic_id: LuaSemanticDeclId,
    file_id: FileId,
    position: u32,
) -> bool {
    match db.property_index.spec_get(semantic_id) {
        Some(prop) => match prop.scope {
            Some(sc) => {
                let ts = db.xmake_index.spec_targets_seq(file_id);
                exists|i: int|
                    0 <= i < ts.len() && (#[trigger] ts[i]).range.spec_contains(position)
                        && scope_mismatch(sc, ts[i].kind)
            },
            None => false,
        },
        None => false,
    }
}

/// Scope filtering: answers `Some(())` exactly when the entity must be
/// skipped at this lookup position.
pub fn filter_global_by_scope(
    db: &DbIndex,
    semantic_id: LuaSemanticDeclId,
    file_id: FileId,
    position: u32,
) -> (r: Option<()>)
    requires
        db.wf(),
    ensures
        r is Some <==> spec_filtered_by_scope(*db, semantic_id, file_id, position),
{
    let prop = match db.get_property_index().get_property(semantic_id) {
        Some(p) => p,
        None => {
            return None;
        },
    };
    let sc = match prop.scope {
        Some(sc) => sc,
        None => {
            return None;
        },
    };
    let targets = match db.get_xmake_index().get_targets_or_packages(file_id) {
        Some(ts) => ts,
        None => {
            return None;
        },
    };
    let ghost ts = db.xmake_index.spec_targets_seq(file_id);
    assert(ts == targets@);
    let n = targets.len();
    let mut i: usize = 0;
    while i < n
        invariant
            db.property_index.spec_get(semantic_id) matches Some(p) && p.scope == Some(sc),
            ts == db.xmake_index.spec_targets_seq(file_id),
            n == targets@.len(),
            ts == targets@,
            i <= n,
            forall|j: int|
                0 <= j < i ==> !((#[trigger] ts[j]).range.spec_contains(position)
                    && scope_mismatch(sc, ts[j].kind)),
        decreases n - i,
    {
        if targets[i].range.contains(position) {
            let mismatch = match (sc, targets[i].kind) {
                (XmakeScope::Package, k) => !matches!(k, XmakeTargetKind::Package),
                (XmakeScope::Option, k) => !matches!(k, XmakeTargetKind::Option),
                (XmakeScope::Rule, k) => !matches!(k, XmakeTargetKind::Rule),
                (XmakeScope::Target, k) => !matches!(k, XmakeTargetKind::Target),
                (XmakeScope::Task, k) => !matches!(k, XmakeTargetKind::Task),
            };
            if mismatch {
                assert(ts[i as int].range.spec_contains(position)
                    && scope_mismatch(sc, ts[i as int].kind));
                return Some(());
            }
        }
        i += 1;
    }
    None
}

/// One pass of the candidate scan of global resolution: a concrete
/// definition or reference wins outright; a signature wins unless scope
/// filtering rejects it; a table is remembered as the fallback.
pub open spec fn spec_resolve_scan(
    db: DbIndex,
    ids: Seq<LuaDeclId>,
    file_id: FileId,
    position: u32,
    last: Option<LuaDeclId>,
) -> Option<LuaDeclId>
    decreases ids.len(),
{
    if ids.len() == 0 {
        last
    } else {
        let d = ids[0];
        match db.type_index.spec_get(LuaSemanticDeclId::LuaDecl(d)) {
            Some(cache) => {
                let t = cache.spec_as_type();
                if t is Def || t is Ref {
                    Some(d)
                } else {
                    match t {
                        LuaType::Signature(sig) => if spec_filtered_by_scope(
                            db,
                            LuaSemanticDeclId::Signature(sig),
                            file_id,
                            position,
                        ) {
                            spec_resolve_scan(db, ids.skip(1), file_id, position, last)
                        } else {
                            Some(d)
                        },
                        LuaType::Table => spec_resolve_scan(
                            db,
                            ids.skip(1),
                            file_id,
                            position,
                            Some(d),
                        ),
                        _ => spec_resolve_scan(db, ids.skip(1), file_id, position, last),
                    }
                }
            },
            None => spec_resolve_scan(db, ids.skip(1), file_id, position, last),
        }
    }
}

/// What global resolution answers: the single candidate when there is
/// one; otherwise the scan's choice; otherwise the first-registered
/// candidate, so that lookup is total whenever any candidate exists.
pub open spec fn spec_resolve_global(
    db: DbIndex,
    g: LuaGlobalIndex,
    name: Seq<char>,
    file_id: FileId,
    position: u32,
) -> Option<LuaDeclId> {
    match g.spec_decl_ids(name) {
        None => None,
        Some(ids) => if ids.len() == 1 {
            Some(ids[0])
        } else {
            match spec_resolve_scan(db, ids, file_id, position, None) {
                Some(d) => Some(d),
                None => if ids.len() > 0 {
                    Some(ids[0])
                } else {
                    None
                },
            }
        },
    }
}

impl LuaGlobalIndex {
    /// Choose the best declaration for an unqualified global name at a
    /// position.  The same database, name and position always resolve to
    /// the same declaration.
    pub fn resolve_global_decl_id(
        &self,
        db: &DbIndex,
        name: &str,
        file_id: FileId,
        position: u32,
    ) -> (r: Option<LuaDeclId>)
        requires
            self.wf(),
            db.wf(),
        ensures
            r == spec_resolve_global(*db, *self, name@, file_id, position),
    {
        let decl_ids = match self.get_global_decl_ids(name) {
            Some(v) => v,
            None => {
                return None;
            },
        };
        let n = decl_ids.len();
        if n == 1 {
            return Some(decl_ids[0]);
        }
        let ghost ids = decl_ids@;
        proof {
            assert(ids.skip(0) =~= ids);
        }
        let mut last_valid: Option<LuaDeclId> = None;
        let mut i: usize = 0;
        while i < n
            invariant
                db.wf(),
                self.wf(),
                self.spec_decl_ids(name@) == Some(ids),
                n != 1,
                n == decl_ids@.len(),
                ids == decl_ids@,
                i <= n,
                spec_resolve_scan(*db, ids, file_id, position, None) == spec_resolve_scan(
                    *db,
                    ids.skip(i as int),
                    file_id,
                    position,
                    last_valid,
                ),
            decreases n - i,
        {
            let d = decl_ids[i];
            let ghost rest = ids.skip(i as int);
            proof {
                assert(rest[0] == d);
                assert(rest.skip(1) =~= ids.skip(i + 1 as int));
            }
            match db.get_type_index().get_type_cache(LuaSemanticDeclId::LuaDecl(d)) {
                Some(cache) => {
                    let t = cache.as_type();
                    if t.is_def() || t.is_ref() {
                        proof {
                            assert(spec_resolve_scan(*db, rest, file_id, position, last_valid)
                                == Some(d));
                        }
                        return Some(d);
                    }
                    if let LuaType::Signature(sig) = t {
                        if filter_global_by_scope(
                            db,
                            LuaSemanticDeclId::Signature(sig),
                            file_id,
                            position,
                        ).is_none() {
                            proof {
                                assert(spec_resolve_scan(*db, rest, file_id, position, last_valid)
                                    == Some(d));
                            }
                            return Some(d);
                        }
                    } else if cache.is_table() {
                        last_valid = Some(d);
                    }
                },
                None => {},
            }
            i += 1;
        }
        proof {
            assert(ids.skip(n as int) =~= Seq::<LuaDeclId>::empty());
        }
        match last_valid {
            Some(d) => Some(d),
            None => {
                if n > 0 {
                    Some(decl_ids[0])
                } else {
                    None
                }
            },
        }
    }
}

} // verus!
