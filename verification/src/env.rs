//! Name-environment enumeration for completion: which declarations are
//! offered at a trigger position, with duplicate names suppressed.

use vstd::prelude::*;
use crate::db::DbIndex;
use crate::ids::{FileId, LuaDeclId, LuaSemanticDeclId, TextRange};
use crate::strutil::{str_eq, str_to_chars, chars_to_string};
use crate::types::LuaType;
use crate::xmake_index::{spec_closure_ok, spec_include_path, spec_include_reachable};

verus! {

/// Whether a name is offered for a trigger text: every character of
/// the trigger must occur in the name, and the first characters must
/// agree; an empty trigger matches everything.
pub open spec fn spec_check_match_word(t: Seq<char>, n: Seq<char>) -> bool {
    t.len() == 0 || (n.len() > 0 && t[0] == n[0] && (forall|i: int|
        0 <= i < t.len() ==> exists|j: int| 0 <= j < n.len() && n[j] == #[trigger] t[i]))
}

/// Whether a name is offered for a trigger text.
pub fn check_match_word(trigger_text: &str, name: &str) -> (r: bool)
    ensures
        r == spec_check_match_word(trigger_text@, name@),
{
    let t = str_to_chars(trigger_text);
    let n = str_to_chars(name);
    if t.len() == 0 {
        return true;
    }
    if n.len() == 0 {
        return false;
    }
    if t[0] != n[0] {
        return false;
    }
    let mut i: usize = 0;
    while i < t.len()
        invariant
            t@ == trigger_text@,
            n@ == name@,
            t@.len() > 0,
            n@.len() > 0,
            t@[0] == n@[0],
            i <= t@.len(),
            forall|k: int|
                0 <= k < i ==> exists|j: int| 0 <= j < n@.len() && n@[j] == #[trigger] t@[k],
        decreases t@.len() - i,
    {
        let mut hit = false;
        let mut j: usize = 0;
        while j < n.len()
            invariant
                j <= n@.len(),
                i < t@.len(),
                hit ==> exists|l: int| 0 <= l < n@.len() && n@[l] == t@[i as int],
                !hit ==> forall|l: int| 0 <= l < j ==> n@[l] != t@[i as int],
            decreases n@.len() - j,
        {
            if n[j] == t[i] {
                hit = true;
            }
            j += 1;
        }
        if !hit {
            return false;
        }
        i += 1;
    }
    true
}

/// The completion filter: a trigger opening a call argument list always
/// matches; otherwise the word match decides.
pub open spec fn spec_env_check_match_word(t: Seq<char>, n: Seq<char>) -> bool {
    if t.len() > 0 && (t[0] == '(' || t[0] == ',') {
        true
    } else {
        spec_check_match_word(t, n)
    }
}

/// The completion filter.
pub fn env_check_match_word(trigger_text: &str, name: &str) -> (r: bool)
    ensures
        r == spec_env_check_match_word(trigger_text@, name@),
{
    let t = str_to_chars(trigger_text);
    if t.len() > 0 {
        let c = t[0];
        if c == '(' || c == ',' {
            return true;
        }
    }
    check_match_word(trigger_text, name)
}

/// One completion candidate: the declaration, its name and its type.
#[derive(Debug)]
pub struct EnvCompletion {
    pub decl_id: LuaDeclId,
    pub name: String,
    pub typ: LuaType,
}

/// The names of a duplicate list, as the specifications see them.
pub open spec fn names_view(s: Seq<String>) -> Seq<Seq<char>> {
    s.map_values(|x: String| x@)
}

/// Whether a name is in the duplicate list.
pub open spec fn name_in(dups: Seq<Seq<char>>, n: Seq<char>) -> bool {
    exists|j: int| 0 <= j < dups.len() && dups[j] == n
}

/// A completion as the specifications see it: declaration, name, type.
pub type EnvCompletionView = (LuaDeclId, Seq<char>, LuaType);

/// The completions of a list, as the specifications see them.
pub open spec fn completion_views(s: Seq<EnvCompletion>) -> Seq<EnvCompletionView> {
    s.map_values(|c: EnvCompletion| (c.decl_id, c.name@, c.typ))
}

/// The cached type of a declaration, `Unknown` when none is committed.
pub open spec fn spec_cached_type(db: DbIndex, id: LuaDeclId) -> LuaType {
    match db.type_index.spec_get(LuaSemanticDeclId::LuaDecl(id)) {
        Some(c) => c.spec_as_type(),
        None => LuaType::Unknown,
    }
}

/// The global walk from candidate `i` on, with the duplicate list as
/// its running state: a name already taken is skipped; a name failing
/// the filter joins the duplicate list without a completion; the
/// definition at the trigger range itself is skipped; every other
/// candidate contributes exactly one completion and takes its name; a
/// candidate without a declaration record stops the walk.  The answer
/// is the offered completions and the final duplicate list.
pub open spec fn spec_global_env_scan(
    db: DbIndex,
    ids: Seq<LuaDeclId>,
    i: int,
    dups: Seq<Seq<char>>,
    tt: Seq<char>,
    tr: TextRange,
) -> (Seq<EnvCompletionView>, Seq<Seq<char>>)
    decreases ids.len() - i,
{
    if i < 0 || i >= ids.len() {
        (Seq::empty(), dups)
    } else {
        match db.decl_index.spec_get_decl(ids[i]) {
            None => (Seq::empty(), dups),
            Some(decl) => {
                if name_in(dups, decl.name@) {
                    spec_global_env_scan(db, ids, i + 1, dups, tt, tr)
                } else if !spec_env_check_match_word(tt, decl.name@) {
                    spec_global_env_scan(db, ids, i + 1, dups.push(decl.name@), tt, tr)
                } else if decl.range == tr {
                    spec_global_env_scan(db, ids, i + 1, dups, tt, tr)
                } else {
                    let rest = spec_global_env_scan(
                        db,
                        ids,
                        i + 1,
                        dups.push(decl.name@),
                        tt,
                        tr,
                    );
                    (
                        seq![(ids[i], decl.name@, spec_cached_type(db, ids[i]))] + rest.0,
                        rest.1,
                    )
                }
            },
        }
    }
}

fn contains_name(dups: &Vec<String>, name: &str) -> (r: bool)
    ensures
        r == name_in(names_view(dups@), name@),
{
    let m = dups.len();
    let mut j: usize = 0;
    while j < m
        invariant
            m == dups@.len(),
            j <= m,
            forall|l: int| 0 <= l < j ==> names_view(dups@)[l] != name@,
        decreases m - j,
    {
        assert(names_view(dups@)[j as int] == dups@[j as int]@);
        if str_eq(dups[j].as_str(), name) {
            return true;
        }
        j += 1;
    }
    false
}

/// Offer the global declarations visible for a trigger: every global
/// candidate whose name is not yet taken and passes the filter, except
/// a declaration at the trigger position itself (that is the definition
/// being typed, not a use).  Names seen along the way join the
/// duplicate list.  A candidate whose declaration record is missing
/// stops the enumeration, as the walk cannot describe it.
pub fn add_global_env(
    db: &DbIndex,
    duplicated_name: &mut Vec<String>,
    trigger_text: &str,
    trigger_range: TextRange,
) -> (r: Vec<EnvCompletion>)
    requires
        db.wf(),
    ensures
        forall|k: int|
            0 <= k < r@.len() ==> spec_env_check_match_word(
                trigger_text@,
                (#[trigger] r@[k]).name@,
            ),
        forall|k: int| 0 <= k < r@.len() ==> name_in(
            names_view(final(duplicated_name)@),
            (#[trigger] r@[k]).name@,
        ),
        forall|k1: int, k2: int|
            #![trigger r@[k1], r@[k2]]
            0 <= k1 < k2 < r@.len() ==> r@[k1].name@ != r@[k2].name@,
        forall|k: int| 0 <= k < r@.len() ==> !name_in(
            names_view(old(duplicated_name)@),
            (#[trigger] r@[k]).name@,
        ),
        forall|j: int| 0 <= j < old(duplicated_name)@.len() ==> final(duplicated_name)@[j]
            == old(duplicated_name)@[j],
        final(duplicated_name)@.len() >= old(duplicated_name)@.len(),
        // the walk is also complete: result and duplicate list are
        // exactly what the specified scan of every registered global
        // yields
        completion_views(r@) == spec_global_env_scan(
            *db,
            crate::global::spec_all_decl_ids(db.global_index.buckets()),
            0,
            names_view(old(duplicated_name)@),
            trigger_text@,
            trigger_range,
        ).0,
        names_view(final(duplicated_name)@) == spec_global_env_scan(
            *db,
            crate::global::spec_all_decl_ids(db.global_index.buckets()),
            0,
            names_view(old(duplicated_name)@),
            trigger_text@,
            trigger_range,
        ).1,
{
    let global_env = db.get_global_index().get_all_global_decl_ids();
    let ghost all_ids = global_env@;
    let ghost dups0 = names_view(old(duplicated_name)@);
    proof {
        assert(all_ids == crate::global::spec_all_decl_ids(db.global_index.buckets()));
    }
    let mut results: Vec<EnvCompletion> = Vec::new();
    let n = global_env.len();
    let mut i: usize = 0;
    while i < n
        invariant
            db.wf(),
            n == global_env@.len(),
            i <= n,
            forall|k: int|
                0 <= k < results@.len() ==> spec_env_check_match_word(
                    trigger_text@,
                    (#[trigger] results@[k]).name@,
                ),
            forall|k: int| 0 <= k < results@.len() ==> name_in(
                names_view(duplicated_name@),
                (#[trigger] results@[k]).name@,
            ),
            forall|k1: int, k2: int|
                #![trigger results@[k1], results@[k2]]
                0 <= k1 < k2 < results@.len() ==> results@[k1].name@ != results@[k2].name@,
            forall|k: int| 0 <= k < results@.len() ==> !name_in(
                names_view(old(duplicated_name)@),
                (#[trigger] results@[k]).name@,
            ),
            forall|j: int| 0 <= j < old(duplicated_name)@.len() ==> duplicated_name@[j] == old(
                duplicated_name,
            )@[j],
            duplicated_name@.len() >= old(duplicated_name)@.len(),
            all_ids == global_env@,
            all_ids == crate::global::spec_all_decl_ids(db.global_index.buckets()),
            dups0 == names_view(old(duplicated_name)@),
            spec_global_env_scan(*db, all_ids, 0, dups0, trigger_text@, trigger_range).0
                == completion_views(results@) + spec_global_env_scan(
                *db,
                all_ids,
                i as int,
                names_view(duplicated_name@),
                trigger_text@,
                trigger_range,
            ).0,
            spec_global_env_scan(*db, all_ids, 0, dups0, trigger_text@, trigger_range).1
                == spec_global_env_scan(
                *db,
                all_ids,
                i as int,
                names_view(duplicated_name@),
                trigger_text@,
                trigger_range,
            ).1,
        decreases n - i,
    {
        let ghost dups_cur = names_view(duplicated_name@);
        let ghost rest_cur = spec_global_env_scan(
            *db,
            all_ids,
            i as int,
            dups_cur,
            trigger_text@,
            trigger_range,
        );
        let decl_id = global_env[i];
        let decl = match db.get_decl_index().get_decl(decl_id) {
            Some(d) => d,
            None => {
                proof {
                    assert(all_ids[i as int] == global_env@[i as int]);
                    assert(db.decl_index.spec_get_decl(all_ids[i as int]) is None);
                    assert(rest_cur.0 =~= Seq::<EnvCompletionView>::empty());
                    assert(rest_cur.1 == names_view(duplicated_name@));
                    assert(completion_views(results@) + rest_cur.0 =~= completion_views(
                        results@,
                    ));
                }
                return results;
            },
        };
        let name_chars = str_to_chars(decl.get_name());
        let name = chars_to_string(&name_chars);
        let typ = match db.get_type_index().get_type_cache(
            LuaSemanticDeclId::LuaDecl(decl_id),
        ) {
            Some(c) => c.as_type(),
            None => LuaType::Unknown,
        };
        proof {
            assert(all_ids[i as int] == decl_id);
            assert(db.decl_index.spec_get_decl(decl_id) == Some(*decl));
            assert(name_chars@ == decl.name@);
            assert(typ == spec_cached_type(*db, decl_id));
        }
        if contains_name(duplicated_name, name.as_str()) {
            proof {
                assert(name_in(dups_cur, decl.name@));
                assert(rest_cur == spec_global_env_scan(
                    *db,
                    all_ids,
                    i + 1,
                    dups_cur,
                    trigger_text@,
                    trigger_range,
                ));
            }
            i += 1;
            continue;
        }
        assert(!name_in(dups_cur, decl.name@));
        if !env_check_match_word(trigger_text, name.as_str()) {
            let ghost d0 = duplicated_name@;
            duplicated_name.push(name);
            proof {
                assert(names_view(duplicated_name@) =~= names_view(d0).push(name_chars@));
                assert forall|k: int|
                    0 <= k < results@.len() implies name_in(
                    names_view(duplicated_name@),
                    (#[trigger] results@[k]).name@,
                ) by {
                    let j = choose|j: int|
                        0 <= j < names_view(d0).len() && names_view(d0)[j] == results@[k].name@;
                    assert(names_view(duplicated_name@)[j] == results@[k].name@);
                }
                assert(!spec_env_check_match_word(trigger_text@, decl.name@));
                assert(names_view(duplicated_name@) == dups_cur.push(decl.name@));
                assert(rest_cur == spec_global_env_scan(
                    *db,
                    all_ids,
                    i + 1,
                    dups_cur.push(decl.name@),
                    trigger_text@,
                    trigger_range,
                ));
            }
            i += 1;
            continue;
        }
        assert(spec_env_check_match_word(trigger_text@, decl.name@));
        let decl_range = decl.get_range();
        if decl_range.start == trigger_range.start && decl_range.end == trigger_range.end {
            proof {
                assert(decl.range == trigger_range);
                assert(rest_cur == spec_global_env_scan(
                    *db,
                    all_ids,
                    i + 1,
                    dups_cur,
                    trigger_text@,
                    trigger_range,
                ));
            }
            i += 1;
            continue;
        }
        assert(decl.range != trigger_range);
        let ghost d0 = duplicated_name@;
        let ghost results_pre = results@;
        let name_for_dup = chars_to_string(&name_chars);
        duplicated_name.push(name_for_dup);
        results.push(EnvCompletion { decl_id, name, typ });
        proof {
            let cv = ((decl_id, decl.name@, spec_cached_type(*db, decl_id)));
            assert(results@ == results_pre.push(EnvCompletion { decl_id, name, typ }));
            assert(completion_views(results@) =~= completion_views(results_pre).push(cv));
            assert(names_view(duplicated_name@) =~= names_view(d0).push(name_chars@));
            assert(names_view(duplicated_name@) == dups_cur.push(decl.name@));
            let rest_next = spec_global_env_scan(
                *db,
                all_ids,
                i + 1,
                dups_cur.push(decl.name@),
                trigger_text@,
                trigger_range,
            );
            assert(rest_cur.0 == seq![cv] + rest_next.0);
            assert(rest_cur.1 == rest_next.1);
            assert(completion_views(results_pre) + rest_cur.0 =~= completion_views(results@)
                + rest_next.0);
            assert(names_view(duplicated_name@)[d0.len() as int] == name_chars@);
            assert forall|k: int|
                0 <= k < results@.len() implies name_in(
                names_view(duplicated_name@),
                (#[trigger] results@[k]).name@,
            ) by {
                if k < results@.len() - 1 {
                    let j = choose|j: int|
                        0 <= j < names_view(d0).len() && names_view(d0)[j] == results@[k].name@;
                    assert(names_view(duplicated_name@)[j] == results@[k].name@);
                } else {
                    assert(results@[k].name@ == name_chars@);
                }
            }
            assert forall|k1: int, k2: int|
                #![trigger results@[k1], results@[k2]]
                0 <= k1 < k2 < results@.len() implies results@[k1].name@ != results@[
                k2
            ].name@ by {
                if k2 == results@.len() - 1 {
                    assert(name_in(names_view(d0), results@[k1].name@));
                    assert(!name_in(names_view(d0), name_chars@));
                    assert(results@[k2].name@ == name_chars@);
                }
            }
            assert forall|k: int| 0 <= k < results@.len() implies !name_in(
                names_view(old(duplicated_name)@),
                (#[trigger] results@[k]).name@,
            ) by {
                if k == results@.len() - 1 {
                    if name_in(names_view(old(duplicated_name)@), name_chars@) {
                        let j = choose|j: int|
                            0 <= j < names_view(old(duplicated_name)@).len() && names_view(
                                old(duplicated_name)@,
                            )[j] == name_chars@;
                        assert(d0[j] == old(duplicated_name)@[j]);
                        assert(names_view(d0)[j] == name_chars@);
                        assert(name_in(names_view(d0), name_chars@));
                    }
                    assert(results@[k].name@ == name_chars@);
                }
            }
        }
        i += 1;
    }
    proof {
        let rest_end = spec_global_env_scan(
            *db,
            all_ids,
            n as int,
            names_view(duplicated_name@),
            trigger_text@,
            trigger_range,
        );
        assert(rest_end.0 =~= Seq::<EnvCompletionView>::empty());
        assert(completion_views(results@) + rest_end.0 =~= completion_views(results@));
    }
    results
}

/// Whether a file is in the list.
fn contains_file(v: &Vec<FileId>, f: FileId) -> (r: bool)
    ensures
        r == v@.contains(f),
{
    let n = v.len();
    let mut i: usize = 0;
    while i < n
        invariant
            n == v@.len(),
            i <= n,
            forall|j: int| 0 <= j < i ==> v@[j] != f,
        decreases n - i,
    {
        if v[i] == f {
            assert(v@[i as int] == f);
            return true;
        }
        i += 1;
    }
    false
}

/// A list of distinct file identities cannot outgrow the identity
/// space.
proof fn lemma_file_ids_bounded(s: Seq<FileId>)
    requires
        s.no_duplicates(),
    ensures
        s.len() <= 0x1_0000_0000,
{
    broadcast use vstd::set::group_set_axioms;

    let f = |fid: FileId| fid.id as int;
    assert(vstd::relations::injective(f)) by {
        assert forall|a: FileId, b: FileId| #[trigger] f(a) == #[trigger] f(b) implies a
            == b by {}
    }
    s.lemma_no_duplicates_injective(f);
    let ids = s.map_values(f);
    ids.unique_seq_to_set();
    let range = vstd::set_lib::set_int_range(0, 0x1_0000_0000);
    vstd::set_lib::lemma_int_range(0, 0x1_0000_0000);
    assert(ids.to_set().subset_of(range)) by {
        assert forall|x: int| ids.to_set().contains(x) implies range.contains(x) by {
            let k = choose|k: int| 0 <= k < ids.len() && ids[k] == x;
            assert(ids[k] == s[k].id as int);
        }
    }
    vstd::set_lib::lemma_len_subset(ids.to_set(), range);
}

/// Membership survives a push, and a push adds only its element.
proof fn lemma_push_keeps<A>(s: Seq<A>, x: A)
    ensures
        forall|y: A| s.contains(y) ==> #[trigger] s.push(x).contains(y),
        s.push(x).contains(x),
        forall|y: A| #[trigger] s.push(x).contains(y) ==> y == x || s.contains(y),
{
    assert(s.push(x)[s.len() as int] == x);
    assert forall|y: A| s.contains(y) implies #[trigger] s.push(x).contains(y) by {
        let j = choose|j: int| 0 <= j < s.len() && s[j] == y;
        assert(s.push(x)[j] == y);
    }
    assert forall|y: A| #[trigger] s.push(x).contains(y) implies y == x || s.contains(y) by {
        let j = choose|j: int| 0 <= j < s.push(x).len() && s.push(x)[j] == y;
        if j < s.len() {
            assert(s[j] == y);
        }
    }
}

/// The files visible from a source file over one or more include
/// edges: distinct, in discovery order, every direct include present,
/// closed under include edges, every member reachable — so, with
/// `lemma_closure_complete`, exactly the transitively included files.
pub fn include_closure(db: &DbIndex, source_file_id: FileId) -> (r: Vec<FileId>)
    requires
        db.wf(),
    ensures
        spec_closure_ok(db.xmake_index, source_file_id, r@),
{
    let ghost x = db.xmake_index;
    let mut visited: Vec<FileId> = Vec::new();
    visited.push(source_file_id);
    let mut stack: Vec<FileId> = Vec::new();
    let mut order: Vec<FileId> = Vec::new();
    match db.get_xmake_index().get_includes(source_file_id) {
        Some(deps) => {
            let m = deps.len();
            let ghost dseq = x.spec_includes_seq(source_file_id);
            assert(dseq == deps@);
            let mut di: usize = 0;
            while di < m
                invariant
                    m == deps@.len(),
                    dseq == deps@,
                    dseq == x.spec_includes_seq(source_file_id),
                    di <= m,
                    visited@.len() >= 1,
                    visited@[0] == source_file_id,
                    visited@.no_duplicates(),
                    order@.len() == 0,
                    forall|k: int| 0 <= k < stack@.len() ==> visited@.contains(
                        #[trigger] stack@[k],
                    ),
                    forall|k: int|
                        1 <= k < visited@.len() ==> stack@.contains(#[trigger] visited@[k]),
                    stack@.no_duplicates(),
                    !stack@.contains(source_file_id),
                    forall|k: int| 0 <= k < stack@.len() ==> spec_include_reachable(
                        x,
                        source_file_id,
                        #[trigger] stack@[k],
                    ),
                    forall|l: int|
                        0 <= l < di ==> dseq[l] == source_file_id || visited@.contains(
                            #[trigger] dseq[l],
                        ),
                    visited@.len() <= 0x1_0000_0000,
                decreases m - di,
            {
                let dep = deps[di];
                assert(dseq[di as int] == dep);
                if !contains_file(&visited, dep) {
                    let ghost v0 = visited@;
                    let ghost s0 = stack@;
                    visited.push(dep);
                    stack.push(dep);
                    proof {
                        lemma_push_keeps(v0, dep);
                        lemma_push_keeps(s0, dep);
                        assert(visited@.no_duplicates()) by {
                            assert(forall|k: int|
                                0 <= k < v0.len() ==> visited@[k] == v0[k]);
                            assert(!v0.contains(dep));
                        }
                        assert(stack@.no_duplicates()) by {
                            assert(forall|k: int|
                                0 <= k < s0.len() ==> stack@[k] == s0[k]);
                            assert(!s0.contains(dep)) by {
                                if s0.contains(dep) {
                                    let j = choose|j: int|
                                        0 <= j < s0.len() && s0[j] == dep;
                                    assert(v0.contains(s0[j]));
                                }
                            }
                        }
                        assert(spec_include_reachable(x, source_file_id, dep)) by {
                            let p = seq![source_file_id, dep];
                            assert(p[0] == source_file_id && p.last() == dep && p.len() == 2);
                            assert(x.spec_includes_seq(source_file_id).contains(dep));
                            assert(spec_include_path(x, p)) by {
                                assert(p[1int] == dep);
                            }
                        }
                        lemma_file_ids_bounded(visited@);
                        assert forall|k: int|
                            1 <= k < visited@.len() implies stack@.contains(
                            #[trigger] visited@[k],
                        ) by {
                            if k < v0.len() {
                                assert(v0[k] == visited@[k]);
                                assert(s0.contains(v0[k]));
                            } else {
                                assert(visited@[k] == dep);
                            }
                        }
                    }
                }
                di += 1;
            }
        },
        None => {
            proof {
                assert(x.spec_includes_seq(source_file_id) =~= Seq::<FileId>::empty());
                assert(order@ =~= Seq::<FileId>::empty());
            }
            return order;
        },
    }
    proof {
        assert forall|a: int, b: int|
            #![trigger order@[a], stack@[b]]
            0 <= a < order@.len() && 0 <= b < stack@.len() implies order@[a] != stack@[b] by {}
        assert(!order@.contains(source_file_id));
    }
    while stack.len() > 0
        invariant
            db.wf(),
            x == db.xmake_index,
            visited@.len() >= 1,
            visited@[0] == source_file_id,
            visited@.no_duplicates(),
            forall|k: int| 0 <= k < order@.len() ==> visited@.contains(#[trigger] order@[k]),
            forall|k: int| 0 <= k < stack@.len() ==> visited@.contains(#[trigger] stack@[k]),
            forall|k: int|
                1 <= k < visited@.len() ==> order@.contains(#[trigger] visited@[k])
                    || stack@.contains(visited@[k]),
            order@.no_duplicates(),
            stack@.no_duplicates(),
            forall|a: int, b: int|
                #![trigger order@[a], stack@[b]]
                0 <= a < order@.len() && 0 <= b < stack@.len() ==> order@[a] != stack@[b],
            !order@.contains(source_file_id),
            !stack@.contains(source_file_id),
            forall|k: int| 0 <= k < order@.len() ==> spec_include_reachable(
                x,
                source_file_id,
                #[trigger] order@[k],
            ),
            forall|k: int| 0 <= k < stack@.len() ==> spec_include_reachable(
                x,
                source_file_id,
                #[trigger] stack@[k],
            ),
            forall|k: int|
                0 <= k < order@.len() ==> forall|d: FileId|
                    (#[trigger] x.spec_includes_seq(order@[k])).contains(d) ==> d
                        == source_file_id || visited@.contains(d),
            forall|d: FileId|
                x.spec_includes_seq(source_file_id).contains(d) ==> d == source_file_id
                    || visited@.contains(d),
            visited@.len() <= 0x1_0000_0000,
        decreases 0x1_0000_0000 - visited@.len(), stack@.len(),
    {
        let ghost stack0 = stack@;
        let current = match stack.pop() {
            Some(f) => f,
            None => {
                proof {
                    assert(false);
                }
                return order;
            },
        };
        proof {
            assert(stack@ == stack0.drop_last() && current == stack0.last());
            assert(stack0[stack0.len() - 1] == current);
            assert(stack0.contains(current));
            assert(visited@.contains(current));
            assert(spec_include_reachable(x, source_file_id, current));
            assert(current != source_file_id) by {
                if current == source_file_id {
                    assert(stack0.contains(source_file_id));
                }
            }
            assert(!order@.contains(current)) by {
                if order@.contains(current) {
                    let a = choose|a: int| 0 <= a < order@.len() && order@[a] == current;
                    assert(order@[a] != stack0[stack0.len() - 1]);
                }
            }
            assert(!stack@.contains(current)) by {
                if stack@.contains(current) {
                    let b = choose|b: int| 0 <= b < stack@.len() && stack@[b] == current;
                    assert(stack0[b] == current);
                    assert(stack0[b] == stack0[stack0.len() - 1] && b < stack0.len() - 1);
                }
            }
            assert forall|k: int| 0 <= k < stack@.len() implies visited@.contains(
                #[trigger] stack@[k],
            ) by {
                assert(stack@[k] == stack0[k]);
            }
            assert forall|k: int| 0 <= k < stack@.len() implies spec_include_reachable(
                x,
                source_file_id,
                #[trigger] stack@[k],
            ) by {
                assert(stack@[k] == stack0[k]);
            }
            assert forall|a: int, b: int|
                #![trigger order@[a], stack@[b]]
                0 <= a < order@.len() && 0 <= b < stack@.len() implies order@[a]
                != stack@[b] by {
                assert(stack@[b] == stack0[b]);
            }
            assert(!stack@.contains(source_file_id)) by {
                if stack@.contains(source_file_id) {
                    let b = choose|b: int|
                        0 <= b < stack@.len() && stack@[b] == source_file_id;
                    assert(stack0[b] == source_file_id);
                    assert(stack0.contains(source_file_id));
                }
            }
            assert(stack@.no_duplicates()) by {
                assert(forall|k: int| 0 <= k < stack@.len() ==> stack@[k] == stack0[k]);
            }
            assert forall|k: int|
                1 <= k < visited@.len() implies order@.contains(#[trigger] visited@[k])
                    || stack@.contains(visited@[k]) || visited@[k] == current by {
                if !order@.contains(visited@[k]) {
                    assert(stack0.contains(visited@[k]));
                    let b = choose|b: int| 0 <= b < stack0.len() && stack0[b] == visited@[k];
                    if b < stack0.len() - 1 {
                        assert(stack@[b] == stack0[b]);
                        assert(stack@.contains(visited@[k]));
                    } else {
                        assert(visited@[k] == current);
                    }
                }
            }
        }
        let ghost visited_before = visited@;
        let ghost stack_after_pop = stack@;
        match db.get_xmake_index().get_includes(current) {
            Some(deps) => {
                let m = deps.len();
                let ghost dseq = x.spec_includes_seq(current);
                assert(dseq == deps@);
                let mut di: usize = 0;
                while di < m
                    invariant
                        db.wf(),
                        x == db.xmake_index,
                        m == deps@.len(),
                        dseq == deps@,
                        dseq == x.spec_includes_seq(current),
                        di <= m,
                        visited@.len() >= 1,
                        visited@[0] == source_file_id,
                        visited@.no_duplicates(),
                        spec_include_reachable(x, source_file_id, current),
                        visited@.contains(current),
                        !order@.contains(current),
                        !stack@.contains(current),
                        current != source_file_id,
                        forall|k: int| 0 <= k < order@.len() ==> visited@.contains(
                            #[trigger] order@[k],
                        ),
                        forall|k: int| 0 <= k < stack@.len() ==> visited@.contains(
                            #[trigger] stack@[k],
                        ),
                        forall|k: int|
                            1 <= k < visited@.len() ==> order@.contains(#[trigger] visited@[k])
                                || stack@.contains(visited@[k]) || visited@[k] == current,
                        order@.no_duplicates(),
                        stack@.no_duplicates(),
                        forall|a: int, b: int|
                            #![trigger order@[a], stack@[b]]
                            0 <= a < order@.len() && 0 <= b < stack@.len() ==> order@[a]
                                != stack@[b],
                        !order@.contains(source_file_id),
                        !stack@.contains(source_file_id),
                        forall|k: int| 0 <= k < order@.len() ==> spec_include_reachable(
                            x,
                            source_file_id,
                            #[trigger] order@[k],
                        ),
                        forall|k: int| 0 <= k < stack@.len() ==> spec_include_reachable(
                            x,
                            source_file_id,
                            #[trigger] stack@[k],
                        ),
                        forall|k: int|
                            0 <= k < order@.len() ==> forall|d: FileId|
                                (#[trigger] x.spec_includes_seq(order@[k])).contains(d) ==> d
                                    == source_file_id || visited@.contains(d),
                        forall|d: FileId|
                            x.spec_includes_seq(source_file_id).contains(d) ==> d
                                == source_file_id || visited@.contains(d),
                        forall|l: int|
                            0 <= l < di ==> dseq[l] == source_file_id || visited@.contains(
                                #[trigger] dseq[l],
                            ),
                        visited@.len() <= 0x1_0000_0000,
                        visited@.len() >= visited_before.len(),
                        visited@.len() - visited_before.len() == stack@.len()
                            - stack_after_pop.len(),
                    decreases m - di,
                {
                    let dep = deps[di];
                    assert(dseq[di as int] == dep);
                    if !contains_file(&visited, dep) {
                        let ghost v0 = visited@;
                        let ghost s0 = stack@;
                        visited.push(dep);
                        stack.push(dep);
                        proof {
                            lemma_push_keeps(v0, dep);
                            lemma_push_keeps(s0, dep);
                            assert(visited@.no_duplicates()) by {
                                assert(forall|k: int|
                                    0 <= k < v0.len() ==> visited@[k] == v0[k]);
                                assert(!v0.contains(dep));
                            }
                            assert(stack@.no_duplicates()) by {
                                assert(forall|k: int|
                                    0 <= k < s0.len() ==> stack@[k] == s0[k]);
                                assert(!s0.contains(dep)) by {
                                    if s0.contains(dep) {
                                        let j = choose|j: int|
                                            0 <= j < s0.len() && s0[j] == dep;
                                        assert(v0.contains(s0[j]));
                                    }
                                }
                            }
                            assert(dep != current) by {
                                if dep == current {
                                    assert(v0.contains(current));
                                }
                            }
                            assert(spec_include_reachable(x, source_file_id, dep)) by {
                                let p = choose|p: Seq<FileId>|
                                    p.len() >= 2 && p[0] == source_file_id && p.last()
                                        == current && spec_include_path(x, p);
                                let p2 = p.push(dep);
                                assert(p2[0] == source_file_id && p2.last() == dep);
                                assert(x.spec_includes_seq(current).contains(dep));
                                assert(spec_include_path(x, p2)) by {
                                    assert(forall|k: int|
                                        0 <= k < p.len() ==> #[trigger] p2[k] == p[k]);
                                    assert(p2[p2.len() - 2] == current);
                                    assert forall|k: int|
                                        0 <= k < p2.len() - 1 implies (
                                        #[trigger] x.spec_includes_seq(p2[k])).contains(
                                        p2[k + 1],
                                    ) by {
                                        if k < p.len() - 1 {
                                            assert(p2[k] == p[k] && p2[k + 1] == p[k + 1]);
                                        } else {
                                            assert(p2[k] == current && p2[k + 1] == dep);
                                        }
                                    }
                                }
                            }
                            lemma_file_ids_bounded(visited@);
                            assert forall|k: int|
                                1 <= k < visited@.len() implies order@.contains(
                                #[trigger] visited@[k],
                            ) || stack@.contains(visited@[k]) || visited@[k] == current by {
                                if k < v0.len() {
                                    assert(v0[k] == visited@[k]);
                                    if !order@.contains(v0[k]) && v0[k] != current {
                                        assert(s0.contains(v0[k]));
                                    }
                                } else {
                                    assert(visited@[k] == dep);
                                }
                            }
                            assert forall|a: int, b: int|
                                #![trigger order@[a], stack@[b]]
                                0 <= a < order@.len() && 0 <= b < stack@.len()
                                implies order@[a] != stack@[b] by {
                                if b < s0.len() {
                                    assert(stack@[b] == s0[b]);
                                } else {
                                    assert(stack@[b] == dep);
                                    assert(visited@.contains(order@[a]));
                                    assert(!v0.contains(dep));
                                    if order@[a] == dep {
                                        assert(v0.contains(order@[a]));
                                    }
                                }
                            }
                            assert(!stack@.contains(source_file_id)) by {
                                if stack@.contains(source_file_id) {
                                    let b = choose|b: int|
                                        0 <= b < stack@.len() && stack@[b]
                                            == source_file_id;
                                    if b < s0.len() {
                                        assert(s0.contains(source_file_id));
                                    } else {
                                        assert(dep == source_file_id);
                                        assert(v0.contains(source_file_id));
                                    }
                                }
                            }
                            assert(!stack@.contains(current)) by {
                                if stack@.contains(current) {
                                    let b = choose|b: int|
                                        0 <= b < stack@.len() && stack@[b] == current;
                                    if b < s0.len() {
                                        assert(s0.contains(current));
                                    }
                                }
                            }
                        }
                    }
                    di += 1;
                }
            },
            None => {
                proof {
                    assert(x.spec_includes_seq(current) =~= Seq::<FileId>::empty());
                    assert(visited@ == visited_before && stack@ == stack_after_pop);
                }
            },
        }
        proof {
            assert(visited@.len() - visited_before.len() == stack@.len()
                - stack_after_pop.len());
            assert(stack_after_pop.len() == stack0.len() - 1);
        }
        let ghost order0 = order@;
        order.push(current);
        proof {
            lemma_push_keeps(order0, current);
            assert(order@.no_duplicates()) by {
                assert(forall|k: int| 0 <= k < order0.len() ==> order@[k] == order0[k]);
                assert(!order0.contains(current));
            }
            assert forall|k: int|
                1 <= k < visited@.len() implies order@.contains(#[trigger] visited@[k])
                    || stack@.contains(visited@[k]) by {
                if visited@[k] == current {
                    assert(order@.contains(current));
                } else if order0.contains(visited@[k]) {
                    assert(order@.contains(visited@[k]));
                }
            }
            assert forall|a: int, b: int|
                #![trigger order@[a], stack@[b]]
                0 <= a < order@.len() && 0 <= b < stack@.len() implies order@[a]
                != stack@[b] by {
                if a < order0.len() {
                    assert(order@[a] == order0[a]);
                } else {
                    assert(order@[a] == current);
                }
            }
            assert(!order@.contains(source_file_id)) by {
                if order@.contains(source_file_id) {
                    let a = choose|a: int|
                        0 <= a < order@.len() && order@[a] == source_file_id;
                    if a < order0.len() {
                        assert(order0.contains(source_file_id));
                    }
                }
            }
            assert forall|k: int|
                0 <= k < order@.len() implies forall|d: FileId|
                    (#[trigger] x.spec_includes_seq(order@[k])).contains(d) ==> d
                        == source_file_id || visited@.contains(d) by {
                if k < order0.len() {
                    assert(order@[k] == order0[k]);
                } else {
                    assert(order@[k] == current);
                }
            }
        }
    }
    proof {
        assert forall|k: int|
            0 <= k < order@.len() implies forall|d: FileId|
                (#[trigger] x.spec_includes_seq(order@[k])).contains(d) ==> d == source_file_id
                    || order@.contains(d) by {
            assert forall|d: FileId|
                (x.spec_includes_seq(order@[k])).contains(d) implies d == source_file_id
                    || order@.contains(d) by {
                if d != source_file_id && x.spec_includes_seq(order@[k]).contains(d) {
                    assert(visited@.contains(d));
                    let j = choose|j: int| 0 <= j < visited@.len() && visited@[j] == d;
                    assert(j >= 1);
                }
            }
        }
        assert forall|d: FileId|
            x.spec_includes_seq(source_file_id).contains(d) implies d == source_file_id
                || order@.contains(d) by {
            if d != source_file_id && x.spec_includes_seq(source_file_id).contains(d) {
                assert(visited@.contains(d));
                let j = choose|j: int| 0 <= j < visited@.len() && visited@[j] == d;
                assert(j >= 1);
            }
        }
    }
    order
}

/// The export walk of one file's declarations from index `i` on, with
/// the duplicate list as its running state: the same rules as the
/// global walk, except that a candidate without a declaration record is
/// skipped rather than stopping the walk.
pub open spec fn spec_export_env_scan(
    db: DbIndex,
    ids: Seq<LuaDeclId>,
    i: int,
    dups: Seq<Seq<char>>,
    tt: Seq<char>,
    tr: TextRange,
) -> (Seq<EnvCompletionView>, Seq<Seq<char>>)
    decreases ids.len() - i,
{
    if i < 0 || i >= ids.len() {
        (Seq::empty(), dups)
    } else {
        match db.decl_index.spec_get_decl(ids[i]) {
            None => spec_export_env_scan(db, ids, i + 1, dups, tt, tr),
            Some(decl) => {
                if name_in(dups, decl.name@) {
                    spec_export_env_scan(db, ids, i + 1, dups, tt, tr)
                } else if !spec_env_check_match_word(tt, decl.name@) {
                    spec_export_env_scan(db, ids, i + 1, dups.push(decl.name@), tt, tr)
                } else if decl.range == tr {
                    spec_export_env_scan(db, ids, i + 1, dups, tt, tr)
                } else {
                    let rest = spec_export_env_scan(
                        db,
                        ids,
                        i + 1,
                        dups.push(decl.name@),
                        tt,
                        tr,
                    );
                    (
                        seq![(ids[i], decl.name@, spec_cached_type(db, ids[i]))] + rest.0,
                        rest.1,
                    )
                }
            },
        }
    }
}

/// The export walk over a list of files from index `fi` on: each file's
/// exported (chunk-scoped) declarations are walked in order, the
/// duplicate list threading through.
pub open spec fn spec_files_env_scan(
    db: DbIndex,
    files: Seq<FileId>,
    fi: int,
    dups: Seq<Seq<char>>,
    tt: Seq<char>,
    tr: TextRange,
) -> (Seq<EnvCompletionView>, Seq<Seq<char>>)
    decreases files.len() - fi,
{
    if fi < 0 || fi >= files.len() {
        (Seq::empty(), dups)
    } else {
        match db.decl_index.spec_get_tree(files[fi]) {
            None => spec_files_env_scan(db, files, fi + 1, dups, tt, tr),
            Some(t) => {
                let one = spec_export_env_scan(
                    db,
                    crate::decl::spec_export_ids(t.decls@, t.root_range),
                    0,
                    dups,
                    tt,
                    tr,
                );
                let rest = spec_files_env_scan(db, files, fi + 1, one.1, tt, tr);
                (one.0 + rest.0, rest.1)
            },
        }
    }
}

/// Offer the exported declarations of every file the source file
/// transitively includes: a name exported by an included file is
/// visible, unfiltered by build scope, in every including file.  The
/// walk covers the whole include closure — no reachable file is
/// missed — and follows the same duplicate and filter rules as the
/// global walk.
pub fn add_include_env(
    db: &DbIndex,
    duplicated_name: &mut Vec<String>,
    source_file_id: FileId,
    trigger_text: &str,
    trigger_range: TextRange,
) -> (r: Vec<EnvCompletion>)
    requires
        db.wf(),
    ensures
        forall|k: int|
            0 <= k < r@.len() ==> spec_env_check_match_word(
                trigger_text@,
                (#[trigger] r@[k]).name@,
            ),
        forall|k: int| 0 <= k < r@.len() ==> !name_in(
            names_view(old(duplicated_name)@),
            (#[trigger] r@[k]).name@,
        ),
        forall|k1: int, k2: int|
            #![trigger r@[k1], r@[k2]]
            0 <= k1 < k2 < r@.len() ==> r@[k1].name@ != r@[k2].name@,
        forall|j: int| 0 <= j < old(duplicated_name)@.len() ==> final(duplicated_name)@[j]
            == old(duplicated_name)@[j],
        final(duplicated_name)@.len() >= old(duplicated_name)@.len(),
        // the walk is drawn from exactly the export declarations of the
        // files reachable over one or more include edges: a witness
        // include closure carries the result
        exists|files: Seq<FileId>|
            {
                &&& #[trigger] spec_closure_ok(db.xmake_index, source_file_id, files)
                &&& completion_views(r@) == spec_files_env_scan(
                    *db,
                    files,
                    0,
                    names_view(old(duplicated_name)@),
                    trigger_text@,
                    trigger_range,
                ).0
                &&& names_view(final(duplicated_name)@) == spec_files_env_scan(
                    *db,
                    files,
                    0,
                    names_view(old(duplicated_name)@),
                    trigger_text@,
                    trigger_range,
                ).1
            },
{
    let files = include_closure(db, source_file_id);
    let ghost fseq = files@;
    let ghost dups0 = names_view(old(duplicated_name)@);
    let mut results: Vec<EnvCompletion> = Vec::new();
    let nf = files.len();
    let mut fi: usize = 0;
    while fi < nf
        invariant
            db.wf(),
            nf == fseq.len(),
            fseq == files@,
            fi <= nf,
            dups0 == names_view(old(duplicated_name)@),
            forall|k: int|
                0 <= k < results@.len() ==> spec_env_check_match_word(
                    trigger_text@,
                    (#[trigger] results@[k]).name@,
                ),
            forall|k: int| 0 <= k < results@.len() ==> name_in(
                names_view(duplicated_name@),
                (#[trigger] results@[k]).name@,
            ),
            forall|k1: int, k2: int|
                #![trigger results@[k1], results@[k2]]
                0 <= k1 < k2 < results@.len() ==> results@[k1].name@ != results@[k2].name@,
            forall|k: int| 0 <= k < results@.len() ==> !name_in(
                names_view(old(duplicated_name)@),
                (#[trigger] results@[k]).name@,
            ),
            forall|j: int| 0 <= j < old(duplicated_name)@.len() ==> duplicated_name@[j] == old(
                duplicated_name,
            )@[j],
            duplicated_name@.len() >= old(duplicated_name)@.len(),
            spec_files_env_scan(*db, fseq, 0, dups0, trigger_text@, trigger_range).0
                == completion_views(results@) + spec_files_env_scan(
                *db,
                fseq,
                fi as int,
                names_view(duplicated_name@),
                trigger_text@,
                trigger_range,
            ).0,
            spec_files_env_scan(*db, fseq, 0, dups0, trigger_text@, trigger_range).1
                == spec_files_env_scan(
                *db,
                fseq,
                fi as int,
                names_view(duplicated_name@),
                trigger_text@,
                trigger_range,
            ).1,
        decreases nf - fi,
    {
        let file_id = files[fi];
        assert(fseq[fi as int] == file_id);
        let ghost dups_file = names_view(duplicated_name@);
        let tree = match db.get_decl_index().get_decl_tree(file_id) {
            Some(t) => t,
            None => {
                proof {
                    assert(db.decl_index.spec_get_tree(file_id) is None);
                }
                fi += 1;
                continue;
            },
        };
        let env_decls = tree.get_export_env_decls();
        let ghost ids = env_decls@;
        proof {
            assert(ids == crate::decl::spec_export_ids(tree.decls@, tree.root_range));
        }
        let ghost file_one = spec_export_env_scan(
            *db,
            ids,
            0,
            dups_file,
            trigger_text@,
            trigger_range,
        );
        let nd = env_decls.len();
        let mut j: usize = 0;
        while j < nd
            invariant
                db.wf(),
                nd == ids.len(),
                ids == env_decls@,
                j <= nd,
                nf == fseq.len(),
                fseq == files@,
                fi < nf,
                dups0 == names_view(old(duplicated_name)@),
                file_one == spec_export_env_scan(
                    *db,
                    ids,
                    0,
                    dups_file,
                    trigger_text@,
                    trigger_range,
                ),
                forall|k: int|
                    0 <= k < results@.len() ==> spec_env_check_match_word(
                        trigger_text@,
                        (#[trigger] results@[k]).name@,
                    ),
                forall|k: int| 0 <= k < results@.len() ==> name_in(
                    names_view(duplicated_name@),
                    (#[trigger] results@[k]).name@,
                ),
                forall|k1: int, k2: int|
                    #![trigger results@[k1], results@[k2]]
                    0 <= k1 < k2 < results@.len() ==> results@[k1].name@ != results@[k2].name@,
                forall|k: int| 0 <= k < results@.len() ==> !name_in(
                    names_view(old(duplicated_name)@),
                    (#[trigger] results@[k]).name@,
                ),
                forall|l: int| 0 <= l < old(duplicated_name)@.len() ==> duplicated_name@[l]
                    == old(duplicated_name)@[l],
                duplicated_name@.len() >= old(duplicated_name)@.len(),
                spec_files_env_scan(*db, fseq, 0, dups0, trigger_text@, trigger_range).0
                    == completion_views(results@) + spec_export_env_scan(
                    *db,
                    ids,
                    j as int,
                    names_view(duplicated_name@),
                    trigger_text@,
                    trigger_range,
                ).0 + spec_files_env_scan(
                    *db,
                    fseq,
                    fi + 1,
                    file_one.1,
                    trigger_text@,
                    trigger_range,
                ).0,
                spec_files_env_scan(*db, fseq, 0, dups0, trigger_text@, trigger_range).1
                    == spec_files_env_scan(
                    *db,
                    fseq,
                    fi + 1,
                    file_one.1,
                    trigger_text@,
                    trigger_range,
                ).1,
                file_one.1 == spec_export_env_scan(
                    *db,
                    ids,
                    j as int,
                    names_view(duplicated_name@),
                    trigger_text@,
                    trigger_range,
                ).1,
            decreases nd - j,
        {
            let ghost dups_cur = names_view(duplicated_name@);
            let ghost rest_cur = spec_export_env_scan(
                *db,
                ids,
                j as int,
                dups_cur,
                trigger_text@,
                trigger_range,
            );
            let decl_id = env_decls[j];
            assert(ids[j as int] == decl_id);
            match db.get_decl_index().get_decl(decl_id) {
                Some(decl) => {
                    let name_chars = str_to_chars(decl.get_name());
                    let name = chars_to_string(&name_chars);
                    let typ = match db.get_type_index().get_type_cache(
                        LuaSemanticDeclId::LuaDecl(decl_id),
                    ) {
                        Some(c) => c.as_type(),
                        None => LuaType::Unknown,
                    };
                    proof {
                        assert(db.decl_index.spec_get_decl(decl_id) == Some(*decl));
                        assert(name_chars@ == decl.name@);
                        assert(typ == spec_cached_type(*db, decl_id));
                    }
                    if contains_name(duplicated_name, name.as_str()) {
                        proof {
                            assert(name_in(dups_cur, decl.name@));
                            assert(rest_cur == spec_export_env_scan(
                                *db,
                                ids,
                                j + 1,
                                dups_cur,
                                trigger_text@,
                                trigger_range,
                            ));
                        }
                        j += 1;
                        continue;
                    }
                    assert(!name_in(dups_cur, decl.name@));
                    if !env_check_match_word(trigger_text, name.as_str()) {
                        let ghost d0 = duplicated_name@;
                        duplicated_name.push(name);
                        proof {
                            assert(names_view(duplicated_name@) =~= names_view(d0).push(
                                name_chars@,
                            ));
                            assert forall|k: int|
                                0 <= k < results@.len() implies name_in(
                                names_view(duplicated_name@),
                                (#[trigger] results@[k]).name@,
                            ) by {
                                let l = choose|l: int|
                                    0 <= l < names_view(d0).len() && names_view(d0)[l]
                                        == results@[k].name@;
                                assert(names_view(duplicated_name@)[l] == results@[k].name@);
                            }
                            assert(!spec_env_check_match_word(trigger_text@, decl.name@));
                            assert(names_view(duplicated_name@) == dups_cur.push(decl.name@));
                            assert(rest_cur == spec_export_env_scan(
                                *db,
                                ids,
                                j + 1,
                                dups_cur.push(decl.name@),
                                trigger_text@,
                                trigger_range,
                            ));
                        }
                        j += 1;
                        continue;
                    }
                    assert(spec_env_check_match_word(trigger_text@, decl.name@));
                    let decl_range = decl.get_range();
                    if decl_range.start == trigger_range.start && decl_range.end
                        == trigger_range.end {
                        proof {
                            assert(decl.range == trigger_range);
                            assert(rest_cur == spec_export_env_scan(
                                *db,
                                ids,
                                j + 1,
                                dups_cur,
                                trigger_text@,
                                trigger_range,
                            ));
                        }
                        j += 1;
                        continue;
                    }
                    assert(decl.range != trigger_range);
                    let ghost d0 = duplicated_name@;
                    let ghost results_pre = results@;
                    let name_for_dup = chars_to_string(&name_chars);
                    duplicated_name.push(name_for_dup);
                    results.push(EnvCompletion { decl_id, name, typ });
                    proof {
                        let cv = ((decl_id, decl.name@, spec_cached_type(*db, decl_id)));
                        assert(results@ == results_pre.push(
                            EnvCompletion { decl_id, name, typ },
                        ));
                        assert(completion_views(results@) =~= completion_views(
                            results_pre,
                        ).push(cv));
                        assert(names_view(duplicated_name@) =~= names_view(d0).push(
                            name_chars@,
                        ));
                        assert(names_view(duplicated_name@) == dups_cur.push(decl.name@));
                        let rest_next = spec_export_env_scan(
                            *db,
                            ids,
                            j + 1,
                            dups_cur.push(decl.name@),
                            trigger_text@,
                            trigger_range,
                        );
                        assert(rest_cur.0 == seq![cv] + rest_next.0);
                        assert(rest_cur.1 == rest_next.1);
                        assert(completion_views(results_pre) + rest_cur.0 =~= completion_views(
                            results@,
                        ) + rest_next.0);
                        assert(completion_views(results_pre) + rest_cur.0 + spec_files_env_scan(
                            *db,
                            fseq,
                            fi + 1,
                            file_one.1,
                            trigger_text@,
                            trigger_range,
                        ).0 =~= completion_views(results@) + rest_next.0
                            + spec_files_env_scan(
                            *db,
                            fseq,
                            fi + 1,
                            file_one.1,
                            trigger_text@,
                            trigger_range,
                        ).0);
                        assert(names_view(duplicated_name@)[d0.len() as int] == name_chars@);
                        assert forall|k: int|
                            0 <= k < results@.len() implies name_in(
                            names_view(duplicated_name@),
                            (#[trigger] results@[k]).name@,
                        ) by {
                            if k < results@.len() - 1 {
                                let l = choose|l: int|
                                    0 <= l < names_view(d0).len() && names_view(d0)[l]
                                        == results@[k].name@;
                                assert(names_view(duplicated_name@)[l] == results@[k].name@);
                            } else {
                                assert(results@[k].name@ == name_chars@);
                            }
                        }
                        assert forall|k1: int, k2: int|
                            #![trigger results@[k1], results@[k2]]
                            0 <= k1 < k2 < results@.len() implies results@[k1].name@
                            != results@[k2].name@ by {
                            if k2 == results@.len() - 1 {
                                assert(name_in(names_view(d0), results@[k1].name@));
                                assert(!name_in(names_view(d0), name_chars@));
                                assert(results@[k2].name@ == name_chars@);
                            }
                        }
                        assert forall|k: int|
                            0 <= k < results@.len() implies !name_in(
                            names_view(old(duplicated_name)@),
                            (#[trigger] results@[k]).name@,
                        ) by {
                            if k == results@.len() - 1 {
                                if name_in(names_view(old(duplicated_name)@), name_chars@) {
                                    let l = choose|l: int|
                                        0 <= l < names_view(old(duplicated_name)@).len()
                                            && names_view(old(duplicated_name)@)[l]
                                            == name_chars@;
                                    assert(d0[l] == old(duplicated_name)@[l]);
                                    assert(names_view(d0)[l] == name_chars@);
                                    assert(name_in(names_view(d0), name_chars@));
                                }
                                assert(results@[k].name@ == name_chars@);
                            }
                        }
                    }
                    j += 1;
                },
                None => {
                    proof {
                        assert(db.decl_index.spec_get_decl(decl_id) is None);
                        assert(rest_cur == spec_export_env_scan(
                            *db,
                            ids,
                            j + 1,
                            dups_cur,
                            trigger_text@,
                            trigger_range,
                        ));
                    }
                    j += 1;
                },
            }
        }
        proof {
            let one_end = spec_export_env_scan(
                *db,
                ids,
                nd as int,
                names_view(duplicated_name@),
                trigger_text@,
                trigger_range,
            );
            assert(one_end.0 =~= Seq::<EnvCompletionView>::empty());
            assert(one_end.1 == names_view(duplicated_name@));
            assert(file_one.1 == names_view(duplicated_name@));
            assert(completion_views(results@) + one_end.0 + spec_files_env_scan(
                *db,
                fseq,
                fi + 1,
                file_one.1,
                trigger_text@,
                trigger_range,
            ).0 =~= completion_views(results@) + spec_files_env_scan(
                *db,
                fseq,
                fi + 1,
                names_view(duplicated_name@),
                trigger_text@,
                trigger_range,
            ).0);
        }
        fi += 1;
    }
    proof {
        let rest_end = spec_files_env_scan(
            *db,
            fseq,
            nf as int,
            names_view(duplicated_name@),
            trigger_text@,
            trigger_range,
        );
        assert(rest_end.0 =~= Seq::<EnvCompletionView>::empty());
        assert(completion_views(results@) + rest_end.0 =~= completion_views(results@));
        assert(spec_closure_ok(db.xmake_index, source_file_id, fseq));
    }
    results
}

} // verus!
