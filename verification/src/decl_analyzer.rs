//! Declaration collection: walk a file's modelled chunk once, creating
//! declaration records and recognizing the built-in call forms that
//! carry analysis significance (import, includes, and the build-scope
//! block openers).

use vstd::prelude::*;
use crate::db::DbIndex;
use crate::decl::{LuaDecl, LuaDeclExtra, LuaDeclarationTree};
use crate::ids::{FileId, LuaDeclId, TextRange};
use crate::module_index::{ModuleInfo, normalize_include, spec_scan_include};
use crate::strutil::{str_eq, str_to_chars, chars_to_string};
use crate::syntax::{SyntaxArgKind, SyntaxCall, SyntaxChunk, SyntaxStat, SyntaxStatKind,
    SyntaxTableField, call_within, chunk_wf};
use crate::xmake_index::{XmakeFunction, XmakeTarget, XmakeTargetKind, get_xmake_function,
    spec_xmake_function_of};

verus! {

/// Whether a recognized call form opens a build-scope block.
pub open spec fn spec_is_opener(f: XmakeFunction) -> bool {
    ||| f is Target
    ||| f is Package
    ||| f is Option
    ||| f is Rule
    ||| f is Task
}

/// The block kind a recognized opener denotes.
pub open spec fn spec_opener_kind(f: XmakeFunction) -> Option<XmakeTargetKind> {
    match f {
        XmakeFunction::Target => Some(XmakeTargetKind::Target),
        XmakeFunction::Package => Some(XmakeTargetKind::Package),
        XmakeFunction::Option => Some(XmakeTargetKind::Option),
        XmakeFunction::Rule => Some(XmakeTargetKind::Rule),
        XmakeFunction::Task => Some(XmakeTargetKind::Task),
        _ => None,
    }
}

/// Whether a recognized call form is the end call matching a kind.
pub open spec fn spec_end_match(f: XmakeFunction, kind: XmakeTargetKind) -> bool {
    match (f, kind) {
        (XmakeFunction::EndTarget, XmakeTargetKind::Target) => true,
        (XmakeFunction::EndPackage, XmakeTargetKind::Package) => true,
        (XmakeFunction::EndOption, XmakeTargetKind::Option) => true,
        (XmakeFunction::EndRule, XmakeTargetKind::Rule) => true,
        (XmakeFunction::EndTask, XmakeTargetKind::Task) => true,
        _ => false,
    }
}

/// Where a block opened just before statement `j` ends: at the matching
/// end call, just before the next block opener of any kind, or at the
/// end of the file.
pub open spec fn spec_end_position(chunk: SyntaxChunk, j: int, kind: XmakeTargetKind) -> u32
    decreases chunk.stats@.len() - j,
{
    if j < 0 || j >= chunk.stats@.len() {
        chunk.range.end
    } else {
        match chunk.stats@[j].kind {
            SyntaxStatKind::Call(c) => match spec_xmake_function_of(c.callee@) {
                Some(f) => if spec_end_match(f, kind) {
                    c.range.end
                } else if spec_is_opener(f) {
                    c.range.start
                } else {
                    spec_end_position(chunk, j + 1, kind)
                },
                None => spec_end_position(chunk, j + 1, kind),
            },
            _ => spec_end_position(chunk, j + 1, kind),
        }
    }
}

/// Find the end boundary for a block opened by statement `stat_idx`,
/// scanning the following sibling statements.
pub fn get_end_position(chunk: &SyntaxChunk, stat_idx: usize, kind: XmakeTargetKind) -> (r: u32)
    requires
        stat_idx < chunk.stats@.len(),
    ensures
        r == spec_end_position(*chunk, stat_idx + 1, kind),
{
    let n = chunk.stats.len();
    let mut j: usize = stat_idx + 1;
    while j < n
        invariant
            n == chunk.stats@.len(),
            stat_idx + 1 <= j <= n,
            spec_end_position(*chunk, stat_idx + 1 as int, kind) == spec_end_position(
                *chunk,
                j as int,
                kind,
            ),
        decreases n - j,
    {
        match &chunk.stats[j].kind {
            SyntaxStatKind::Call(c) => {
                match get_xmake_function(c.callee.as_str()) {
                    Some(f) => {
                        let end_hit = match (f, kind) {
                            (XmakeFunction::EndTarget, XmakeTargetKind::Target) => true,
                            (XmakeFunction::EndPackage, XmakeTargetKind::Package) => true,
                            (XmakeFunction::EndOption, XmakeTargetKind::Option) => true,
                            (XmakeFunction::EndRule, XmakeTargetKind::Rule) => true,
                            (XmakeFunction::EndTask, XmakeTargetKind::Task) => true,
                            _ => false,
                        };
                        if end_hit {
                            return c.range.end;
                        }
                        let opener = matches!(
                            f,
                            XmakeFunction::Target | XmakeFunction::Package | XmakeFunction::Option
                                | XmakeFunction::Rule | XmakeFunction::Task
                        );
                        if opener {
                            return c.range.start;
                        }
                    },
                    None => {},
                }
            },
            _ => {},
        }
        j += 1;
    }
    chunk.range.end
}

/// The first field of a table argument named `alias`.
pub open spec fn spec_first_alias(fields: Seq<SyntaxTableField>) -> Option<SyntaxTableField>
    decreases fields.len(),
{
    if fields.len() == 0 {
        None
    } else if fields[0].name@ == "alias"@ {
        Some(fields[0])
    } else {
        spec_first_alias(fields.skip(1))
    }
}

/// The last dotted segment of an import path.
pub open spec fn spec_last_segment(s: Seq<char>) -> Seq<char> {
    s.skip(crate::module_index::parent_prefix(s).len() as int)
}

/// The name an import call binds: the path's last segment, overridden
/// by a string-valued `alias` field of a same-call table argument.
/// `None` means the call does not match the recognizable shape.
pub open spec fn spec_import_decl(c: SyntaxCall) -> Option<Seq<char>> {
    if c.args@.len() == 0 {
        None
    } else {
        match c.args@[0].kind {
            SyntaxArgKind::StrLiteral(path) => {
                let dflt = spec_last_segment(path@);
                if c.args@.len() >= 2 {
                    match c.args@[1].kind {
                        SyntaxArgKind::Table(fields) => match spec_first_alias(fields@) {
                            Some(fld) => match fld.value {
                                Some(v) => Some(v@),
                                None => Some(dflt),
                            },
                            None => Some(dflt),
                        },
                        _ => Some(dflt),
                    }
                } else {
                    Some(dflt)
                }
            },
            _ => None,
        }
    }
}

/// An alias scan that has not matched yet continues on the rest.
proof fn lemma_first_alias_skip(fields: Seq<SyntaxTableField>, i: int)
    requires
        0 <= i <= fields.len(),
        forall|j: int| 0 <= j < i ==> fields[j].name@ != "alias"@,
    ensures
        spec_first_alias(fields) == spec_first_alias(fields.skip(i)),
    decreases i,
{
    if i > 0 {
        lemma_first_alias_skip(fields, i - 1);
        let t = fields.skip(i - 1);
        assert(t[0] == fields[i - 1]);
        assert(t.skip(1) =~= fields.skip(i));
        assert(spec_first_alias(t) == spec_first_alias(t.skip(1)));
    } else {
        assert(fields.skip(0) =~= fields);
    }
}

/// The last dotted segment of a path, as characters.
fn last_segment_chars(v: &Vec<char>) -> (r: Vec<char>)
    ensures
        r@ == spec_last_segment(v@),
{
    let pre = crate::module_index::parent_prefix_chars(v);
    let k = pre.len();
    assert(k <= v@.len()) by {
        crate::module_index::lemma_parent_prefix_len(v@);
    }
    let mut out: Vec<char> = Vec::new();
    let mut i: usize = k;
    while i < v.len()
        invariant
            k <= v@.len(),
            k <= i <= v@.len(),
            out@ == v@.skip(k as int).take(i - k),
        decreases v@.len() - i,
    {
        out.push(v[i]);
        proof {
            assert(out@ =~= v@.skip(k as int).take(i + 1 - k));
        }
        i += 1;
    }
    proof {
        assert(v@.skip(k as int).take(v@.len() - k) =~= v@.skip(k as int));
    }
    out
}

/// Recognize an import call: create a declaration for the bound local
/// name, covering the call expression, scoped to the whole chunk.
/// A call outside the recognizable shape changes nothing.
pub fn analyze_import(tree: &mut LuaDeclarationTree, call: &SyntaxCall) -> (r: Option<()>)
    requires
        old(tree).wf(),
    ensures
        final(tree).wf(),
        final(tree).file_id == old(tree).file_id,
        final(tree).root_range == old(tree).root_range,
        match spec_import_decl(*call) {
            None => r is None && final(tree).decls@ == old(tree).decls@,
            Some(nm) => r is Some && crate::decl::spec_added_or_replaced(
                old(tree).decls@,
                final(tree).decls@,
                nm,
                old(tree).file_id,
                call.range,
                old(tree).root_range,
                LuaDeclExtra::Local { kind: call.args@[0].syntax_kind },
            ),
        },
{
    if call.args.len() == 0 {
        return None;
    }
    let path = match &call.args[0].kind {
        SyntaxArgKind::StrLiteral(path) => path,
        _ => {
            return None;
        },
    };
    let path_chars = str_to_chars(path.as_str());
    let mut local_chars = last_segment_chars(&path_chars);
    let ghost nm = spec_import_decl(*call)->Some_0;
    if call.args.len() >= 2 {
        if let SyntaxArgKind::Table(fields) = &call.args[1].kind {
            match find_alias(fields) {
                Some(fi) => {
                    proof {
                        lemma_first_alias_skip(fields@, fi as int);
                        assert(fields@.skip(fi as int)[0] == fields@[fi as int]);
                    }
                    match &fields[fi].value {
                        Some(v) => {
                            local_chars = str_to_chars(v.as_str());
                        },
                        None => {},
                    }
                },
                None => {
                    proof {
                        lemma_first_alias_skip(fields@, fields@.len() as int);
                        assert(fields@.skip(fields@.len() as int)
                            =~= Seq::<SyntaxTableField>::empty());
                    }
                },
            }
        }
    }
    assert(local_chars@ == nm);
    let local_name = chars_to_string(&local_chars);
    let decl = LuaDecl::new(
        local_name.as_str(),
        tree.file_id,
        call.range,
        tree.root_range,
        LuaDeclExtra::Local { kind: call.args[0].syntax_kind },
    );
    let ghost s0 = tree.decls@;
    tree.add_decl(decl);
    proof {
        let s1 = tree.decls@;
        if forall|i: int| 0 <= i < s0.len() ==> (#[trigger] s0[i]).range.start
            != decl.range.start {
            assert(s1 == s0.push(decl));
            assert(s1.drop_last() =~= s0);
        } else {
            let i = choose|i: int|
                0 <= i < s0.len() && (#[trigger] s0[i]).range.start == decl.range.start;
            assert(s1 == s0.update(i, decl));
            assert(s1[i] == decl);
            assert(crate::decl::decl_fields_match(
                s1[i],
                nm,
                old(tree).file_id,
                call.range,
                old(tree).root_range,
                LuaDeclExtra::Local { kind: call.args@[0].syntax_kind },
            ));
            assert(forall|j: int| 0 <= j < s0.len() && j != i ==> s1[j] == s0[j]);
            assert((0 <= i < s0.len() && s0[i].range.start == call.range.start
                && crate::decl::decl_fields_match(
                s1[i],
                nm,
                old(tree).file_id,
                call.range,
                old(tree).root_range,
                LuaDeclExtra::Local { kind: call.args@[0].syntax_kind },
            ) && (forall|j: int| 0 <= j < s0.len() && j != i ==> s1[j] == s0[j])));
        }
    }
    Some(())
}

/// The index of the first field named `alias`, if any.
fn find_alias(fields: &Vec<SyntaxTableField>) -> (r: Option<usize>)
    ensures
        match r {
            Some(i) => {
                &&& i < fields@.len()
                &&& fields@[i as int].name@ == "alias"@
                &&& forall|j: int| 0 <= j < i ==> fields@[j].name@ != "alias"@
            },
            None => forall|j: int| 0 <= j < fields@.len() ==> fields@[j].name@ != "alias"@,
        },
{
    let m = fields.len();
    let mut fi: usize = 0;
    while fi < m
        invariant
            m == fields@.len(),
            fi <= m,
            forall|j: int| 0 <= j < fi ==> fields@[j].name@ != "alias"@,
        decreases m - fi,
    {
        if str_eq(fields[fi].name.as_str(), "alias") {
            return Some(fi);
        }
        fi += 1;
    }
    None
}

/// The include edge a recognized includes call contributes, given the
/// module records at that moment.
pub open spec fn spec_includes_edge(c: SyntaxCall, modules: Seq<(FileId, ModuleInfo)>) -> Option<
    FileId,
> {
    if c.args@.len() == 0 {
        None
    } else {
        match c.args@[0].kind {
            SyntaxArgKind::StrLiteral(path) => spec_scan_include(
                modules,
                normalize_include(path@),
            ),
            _ => None,
        }
    }
}

/// Recognize an includes call: resolve its string path against the
/// module index and record the include edge.  A call outside the
/// recognizable shape, or an unresolvable path, changes nothing.
pub fn analyze_includes(db: &mut DbIndex, file_id: FileId, call: &SyntaxCall) -> (r: Option<()>)
    requires
        old(db).wf(),
    ensures
        final(db).wf(),
        final(db).decl_index == old(db).decl_index,
        final(db).type_index == old(db).type_index,
        final(db).property_index == old(db).property_index,
        final(db).global_index == old(db).global_index,
        final(db).module_index == old(db).module_index,
        final(db).xmake_index.targets_or_packages == old(db).xmake_index.targets_or_packages,
        match spec_includes_edge(*call, old(db).module_index.modules@) {
            None => r is None && final(db).xmake_index.includes_file_ids == old(
                db,
            ).xmake_index.includes_file_ids,
            Some(target) => r is Some && final(db).xmake_index.spec_includes_seq(file_id) == old(
                db,
            ).xmake_index.spec_includes_seq(file_id).push(target) && (forall|g: FileId|
                g != file_id ==> final(db).xmake_index.spec_includes(g) == old(
                    db,
                ).xmake_index.spec_includes(g)),
        },
{
    if call.args.len() == 0 {
        return None;
    }
    let path = match &call.args[0].kind {
        SyntaxArgKind::StrLiteral(path) => path,
        _ => {
            return None;
        },
    };
    let found = self_find_include(db, path.as_str(), file_id);
    match found {
        Some(target) => {
            self_add_includes(db, file_id, target);
            Some(())
        },
        None => None,
    }
}

/// Path resolution through the database's module index.
fn self_find_include(db: &DbIndex, path: &str, from: FileId) -> (r: Option<FileId>)
    requires
        db.wf(),
    ensures
        r == spec_scan_include(db.module_index.modules@, normalize_include(path@)),
{
    db.module_index.find_include(path, from)
}

/// Edge recording through the database's build-scope index.
fn self_add_includes(db: &mut DbIndex, file_id: FileId, target: FileId)
    requires
        old(db).wf(),
    ensures
        final(db).wf(),
        final(db).decl_index == old(db).decl_index,
        final(db).type_index == old(db).type_index,
        final(db).property_index == old(db).property_index,
        final(db).global_index == old(db).global_index,
        final(db).module_index == old(db).module_index,
        final(db).xmake_index.targets_or_packages == old(db).xmake_index.targets_or_packages,
        final(db).xmake_index.spec_includes_seq(file_id) == old(db).xmake_index.spec_includes_seq(
            file_id,
        ).push(target),
        forall|g: FileId| g != file_id ==> final(db).xmake_index.spec_includes(g) == old(
            db,
        ).xmake_index.spec_includes(g),
{
    db.xmake_index.add_includes(file_id, target);
}

/// A build-scope block as the specifications see it: name, kind, range.
pub type TargetView = (Seq<char>, XmakeTargetKind, TextRange);

/// The recorded blocks of a file, as the specifications see them.
pub open spec fn target_views(ts: Seq<XmakeTarget>) -> Seq<TargetView> {
    ts.map_values(|t: XmakeTarget| (t.name@, t.kind, t.range))
}

/// The block one statement contributes: an opener call with a string
/// name argument yields one block, whose range is the inline body
/// argument when present, and otherwise runs from the end of the
/// statement to the scanned end boundary.
pub open spec fn spec_stat_targets(chunk: SyntaxChunk, j: int) -> Seq<TargetView> {
    match chunk.stats@[j].kind {
        SyntaxStatKind::Call(c) => match spec_xmake_function_of(c.callee@) {
            Some(f) => match spec_opener_kind(f) {
                Some(k) => if c.args@.len() == 0 {
                    Seq::empty()
                } else {
                    match c.args@[0].kind {
                        SyntaxArgKind::StrLiteral(nm) => if c.args@.len() > 1 {
                            seq![(nm@, k, c.args@[1].range)]
                        } else {
                            let e = spec_end_position(chunk, j + 1, k);
                            if e <= chunk.stats@[j].range.end {
                                Seq::empty()
                            } else {
                                seq![
                                    (
                                        nm@,
                                        k,
                                        TextRange { start: chunk.stats@[j].range.end, end: e },
                                    ),
                                ]
                            }
                        },
                        _ => Seq::empty(),
                    }
                },
                None => Seq::empty(),
            },
            None => Seq::empty(),
        },
        _ => Seq::empty(),
    }
}

/// The blocks contributed by the first `i` statements, in source order.
pub open spec fn spec_targets_upto(chunk: SyntaxChunk, i: int) -> Seq<TargetView>
    decreases i,
{
    if i <= 0 {
        Seq::empty()
    } else {
        spec_targets_upto(chunk, i - 1) + spec_stat_targets(chunk, i - 1)
    }
}

/// Block-range well-formedness: ranges are well-formed and, for any two
/// blocks of the same kind, earlier blocks end before later ones start,
/// so blocks of a kind are pairwise non-overlapping and ordered.
pub open spec fn targets_wellformed(ts: Seq<TargetView>) -> bool {
    &&& forall|i: int| 0 <= i < ts.len() ==> (#[trigger] ts[i]).2.wf()
    &&& forall|i: int, j: int|
        #![trigger ts[i], ts[j]]
        0 <= i < j < ts.len() && ts[i].1 == ts[j].1 ==> ts[i].2.end <= ts[j].2.start
}

/// In a well-formed chunk the scanned end boundary never reaches past
/// the opening call of any block opener at or after the scan start.
proof fn lemma_end_pos_bound(chunk: SyntaxChunk, j: int, kind: XmakeTargetKind)
    requires
        chunk_wf(chunk),
        0 <= j,
    ensures
        forall|l: int|
            j <= l < chunk.stats@.len() ==> match #[trigger] chunk.stats@[l].kind {
                SyntaxStatKind::Call(c) => match spec_xmake_function_of(c.callee@) {
                    Some(f) => spec_is_opener(f) ==> spec_end_position(chunk, j, kind)
                        <= c.range.start,
                    None => true,
                },
                _ => true,
            },
    decreases chunk.stats@.len() - j,
{
    let ss = chunk.stats@;
    if j < ss.len() {
        let recurse = match ss[j].kind {
            SyntaxStatKind::Call(c) => match spec_xmake_function_of(c.callee@) {
                Some(f) => !spec_end_match(f, kind) && !spec_is_opener(f),
                None => true,
            },
            _ => true,
        };
        if recurse {
            lemma_end_pos_bound(chunk, j + 1, kind);
        }
        assert forall|l: int|
            j <= l < ss.len() implies match #[trigger] ss[l].kind {
            SyntaxStatKind::Call(c) => match spec_xmake_function_of(c.callee@) {
                Some(f) => spec_is_opener(f) ==> spec_end_position(chunk, j, kind)
                    <= c.range.start,
                None => true,
            },
            _ => true,
        } by {
            match ss[l].kind {
                SyntaxStatKind::Call(cl) => {
                    match spec_xmake_function_of(cl.callee@) {
                        Some(fl) => {
                            if spec_is_opener(fl) {
                                match ss[j].kind {
                                    SyntaxStatKind::Call(cj) => {
                                        match spec_xmake_function_of(cj.callee@) {
                                            Some(fj) => {
                                                if spec_end_match(fj, kind) {
                                                    assert(l != j);
                                                    assert(call_within(cj, ss[j].range));
                                                    assert(call_within(cl, ss[l].range));
                                                    assert(ss[j].range.end <= ss[l].range.start);
                                                } else if spec_is_opener(fj) {
                                                    if l > j {
                                                        assert(call_within(cj, ss[j].range));
                                                        assert(call_within(cl, ss[l].range));
                                                        assert(ss[j].range.end
                                                            <= ss[l].range.start);
                                                    }
                                                } else {
                                                    assert(l != j);
                                                }
                                            },
                                            None => {
                                                assert(l != j);
                                            },
                                        }
                                    },
                                    _ => {
                                        assert(l != j);
                                    },
                                }
                            }
                        },
                        None => {},
                    }
                },
                _ => {},
            }
        }
    }
}

/// The blocks a well-formed chunk contributes are well-formed: for each
/// kind, pairwise non-overlapping and ordered by source position.  The
/// strengthened conclusion carries the bound against future openers.
proof fn lemma_targets_upto_wf_aux(chunk: SyntaxChunk, i: int)
    requires
        chunk_wf(chunk),
        0 <= i <= chunk.stats@.len(),
    ensures
        ({
            let ts = spec_targets_upto(chunk, i);
            &&& forall|a: int| 0 <= a < ts.len() ==> (#[trigger] ts[a]).2.wf()
            &&& forall|a: int, b: int|
                #![trigger ts[a], ts[b]]
                0 <= a < b < ts.len() ==> ts[a].2.end <= ts[b].2.start
            &&& forall|a: int, l: int|
                #![trigger ts[a], chunk.stats@[l].kind]
                0 <= a < ts.len() && i <= l < chunk.stats@.len() ==> match chunk.stats@[
                    l
                ].kind {
                    SyntaxStatKind::Call(c) => match spec_xmake_function_of(c.callee@) {
                        Some(f) => spec_is_opener(f) ==> ts[a].2.end <= c.range.start,
                        None => true,
                    },
                    _ => true,
                }
        }),
    decreases i,
{
    let ss = chunk.stats@;
    if i > 0 {
        lemma_targets_upto_wf_aux(chunk, i - 1);
        let prev = spec_targets_upto(chunk, i - 1);
        let new = spec_stat_targets(chunk, i - 1);
        let ts = spec_targets_upto(chunk, i);
        assert(ts == prev + new);
        assert(forall|a: int| 0 <= a < prev.len() ==> ts[a] == prev[a]);
        assert(forall|a: int| prev.len() <= a < ts.len() ==> ts[a] == new[a - prev.len()]);
        if new.len() > 0 {
            // the contributing statement is an opener call
            match ss[i - 1].kind {
                SyntaxStatKind::Call(c) => {
                    match spec_xmake_function_of(c.callee@) {
                        Some(f) => {
                            match spec_opener_kind(f) {
                                Some(k) => {
                                    assert(call_within(c, ss[i - 1].range));
                                    let t = new[0];
                                    // the new block's range is well-formed and
                                    // starts at or after the opening call
                                    if c.args@.len() > 1 {
                                        assert(t.2 == c.args@[1].range);
                                        assert(t.2.wf());
                                        assert(c.range.start <= t.2.start);
                                        assert(t.2.end <= ss[i - 1].range.end);
                                    } else {
                                        let e = spec_end_position(chunk, i, k);
                                        assert(t.2.start == ss[i - 1].range.end);
                                        assert(e > ss[i - 1].range.end);
                                        assert(t.2.wf());
                                        lemma_end_pos_bound(chunk, i, k);
                                    }
                                    // earlier blocks end before the opening call
                                    assert forall|a: int|
                                        0 <= a < prev.len() implies prev[a].2.end
                                        <= t.2.start by {
                                        assert(prev[a].2.end <= c.range.start);
                                        if c.args@.len() > 1 {
                                            assert(c.range.start <= c.args@[1].range.start);
                                        } else {
                                            assert(c.range.start <= ss[i - 1].range.end);
                                        }
                                    }
                                    // the new block ends before every later opener
                                    assert forall|l: int|
                                        i <= l < ss.len() implies match #[trigger] ss[l].kind {
                                        SyntaxStatKind::Call(cl) => match spec_xmake_function_of(
                                            cl.callee@,
                                        ) {
                                            Some(fl) => spec_is_opener(fl) ==> t.2.end
                                                <= cl.range.start,
                                            None => true,
                                        },
                                        _ => true,
                                    } by {
                                        match ss[l].kind {
                                            SyntaxStatKind::Call(cl) => {
                                                match spec_xmake_function_of(cl.callee@) {
                                                    Some(fl) => {
                                                        if spec_is_opener(fl) {
                                                            assert(call_within(cl, ss[l].range));
                                                            if c.args@.len() > 1 {
                                                                assert(t.2.end
                                                                    <= ss[i - 1].range.end);
                                                                assert(ss[i - 1].range.end
                                                                    <= ss[l].range.start);
                                                            }
                                                        }
                                                    },
                                                    None => {},
                                                }
                                            },
                                            _ => {},
                                        }
                                    }
                                },
                                None => {},
                            }
                        },
                        None => {},
                    }
                },
                _ => {},
            }
        }
    } else {
        assert(spec_targets_upto(chunk, 0) =~= Seq::<TargetView>::empty());
    }
}

/// Block-range well-formedness: for every file, the build-scope blocks
/// a well-formed chunk contributes have, for each kind, pairwise
/// non-overlapping ranges ordered by source position.
pub proof fn lemma_block_ranges_wellformed(chunk: SyntaxChunk)
    requires
        chunk_wf(chunk),
    ensures
        targets_wellformed(spec_targets_upto(chunk, chunk.stats@.len() as int)),
{
    lemma_targets_upto_wf_aux(chunk, chunk.stats@.len() as int);
}

/// Recognize a block opener: record the named block with its explicit
/// or scanned extent.  A call without a string name argument, or whose
/// scanned boundary does not extend past its statement, records nothing.
pub fn analyze_target(
    db: &mut DbIndex,
    chunk: &SyntaxChunk,
    stat_idx: usize,
    call: &SyntaxCall,
    kind: XmakeTargetKind,
) -> (r: Option<()>)
    requires
        old(db).wf(),
        chunk_wf(*chunk),
        stat_idx < chunk.stats@.len(),
        chunk.stats@[stat_idx as int].kind == SyntaxStatKind::Call(*call),
        spec_xmake_function_of(call.callee@) matches Some(f) && spec_opener_kind(f) == Some(kind),
        forall|t: int|
            0 <= t < old(db).xmake_index.spec_targets_seq(chunk.file_id).len() ==> (#[trigger] old(
                db,
            ).xmake_index.spec_targets_seq(chunk.file_id)[t]).range.end <= call.range.start,
    ensures
        final(db).wf(),
        final(db).decl_index == old(db).decl_index,
        final(db).type_index == old(db).type_index,
        final(db).property_index == old(db).property_index,
        final(db).global_index == old(db).global_index,
        final(db).module_index == old(db).module_index,
        final(db).xmake_index.includes_file_ids == old(db).xmake_index.includes_file_ids,
        target_views(final(db).xmake_index.spec_targets_seq(chunk.file_id)) == target_views(
            old(db).xmake_index.spec_targets_seq(chunk.file_id),
        ) + spec_stat_targets(*chunk, stat_idx as int),
        forall|g: FileId| g != chunk.file_id ==> final(db).xmake_index.spec_targets(g) == old(
            db,
        ).xmake_index.spec_targets(g),
        r is Some <==> spec_stat_targets(*chunk, stat_idx as int).len() > 0,
{
    let ghost contribution = spec_stat_targets(*chunk, stat_idx as int);
    if call.args.len() == 0 {
        proof {
            assert(contribution =~= Seq::<TargetView>::empty());
            assert(target_views(final(db).xmake_index.spec_targets_seq(chunk.file_id))
                =~= target_views(old(db).xmake_index.spec_targets_seq(chunk.file_id))
                + contribution);
        }
        return None;
    }
    let name = match &call.args[0].kind {
        SyntaxArgKind::StrLiteral(nm) => nm,
        _ => {
            proof {
                assert(contribution =~= Seq::<TargetView>::empty());
                assert(target_views(final(db).xmake_index.spec_targets_seq(chunk.file_id))
                    =~= target_views(old(db).xmake_index.spec_targets_seq(chunk.file_id))
                    + contribution);
            }
            return None;
        },
    };
    let range: TextRange = if call.args.len() > 1 {
        call.args[1].range
    } else {
        let end_position = get_end_position(chunk, stat_idx, kind);
        let stat_end = chunk.stats[stat_idx].range.end;
        if end_position <= stat_end {
            proof {
                assert(contribution =~= Seq::<TargetView>::empty());
                assert(target_views(final(db).xmake_index.spec_targets_seq(chunk.file_id))
                    =~= target_views(old(db).xmake_index.spec_targets_seq(chunk.file_id))
                    + contribution);
            }
            return None;
        }
        TextRange { start: stat_end, end: end_position }
    };
    let name_chars = str_to_chars(name.as_str());
    let owned_name = chars_to_string(&name_chars);
    let target = XmakeTarget { name: owned_name, kind, range };
    let ghost old_targets = db.xmake_index.spec_targets_seq(chunk.file_id);
    proof {
        assert(call_within(*call, chunk.stats@[stat_idx as int].range));
        assert(target.range.wf() && call.range.start <= target.range.start) by {
            if call.args@.len() > 1 {
                assert(target.range == call.args@[1].range);
            } else {
                assert(target.range.start == chunk.stats@[stat_idx as int].range.end);
            }
        }
    }
    db.xmake_index.add_target_or_package(chunk.file_id, target);
    proof {
        assert(db.xmake_index.spec_targets_seq(chunk.file_id) == old_targets.push(target));
        assert(target_views(old_targets.push(target)) =~= target_views(old_targets) + seq![
            (target.name@, target.kind, target.range),
        ]);
        assert(contribution =~= seq![(target.name@, target.kind, target.range)]);
    }
    Some(())
}

/// Dispatch one recognized call form of the collection walk.
pub fn analyze_xmake_function_call(
    db: &mut DbIndex,
    tree: &mut LuaDeclarationTree,
    chunk: &SyntaxChunk,
    stat_idx: usize,
    call: &SyntaxCall,
    xmake_function: XmakeFunction,
) -> (r: Option<()>)
    requires
        old(db).wf(),
        old(tree).wf(),
        old(tree).file_id == chunk.file_id,
        chunk_wf(*chunk),
        stat_idx < chunk.stats@.len(),
        chunk.stats@[stat_idx as int].kind == SyntaxStatKind::Call(*call),
        spec_xmake_function_of(call.callee@) == Some(xmake_function),
        spec_is_opener(xmake_function) ==> forall|t: int|
            0 <= t < old(db).xmake_index.spec_targets_seq(chunk.file_id).len() ==> (#[trigger] old(
                db,
            ).xmake_index.spec_targets_seq(chunk.file_id)[t]).range.end <= call.range.start,
    ensures
        final(db).wf(),
        final(tree).wf(),
        final(tree).file_id == old(tree).file_id,
        final(tree).root_range == old(tree).root_range,
        final(db).decl_index == old(db).decl_index,
        final(db).type_index == old(db).type_index,
        final(db).property_index == old(db).property_index,
        final(db).global_index == old(db).global_index,
        final(db).module_index == old(db).module_index,
        // declarations: only an import call adds one
        (match xmake_function {
            XmakeFunction::Import => match spec_import_decl(*call) {
                None => final(tree).decls@ == old(tree).decls@,
                Some(nm) => crate::decl::spec_added_or_replaced(
                    old(tree).decls@,
                    final(tree).decls@,
                    nm,
                    old(tree).file_id,
                    call.range,
                    old(tree).root_range,
                    LuaDeclExtra::Local { kind: call.args@[0].syntax_kind },
                ),
            },
            _ => final(tree).decls@ == old(tree).decls@,
        }),
        // include edges: only an includes call adds one
        (match xmake_function {
            XmakeFunction::Includes => match spec_includes_edge(
                *call,
                old(db).module_index.modules@,
            ) {
                None => final(db).xmake_index.includes_file_ids == old(
                    db,
                ).xmake_index.includes_file_ids,
                Some(target) => final(db).xmake_index.spec_includes_seq(chunk.file_id) == old(
                    db,
                ).xmake_index.spec_includes_seq(chunk.file_id).push(target) && (forall|g: FileId|
                    g != chunk.file_id ==> final(db).xmake_index.spec_includes(g) == old(
                        db,
                    ).xmake_index.spec_includes(g)),
            },
            _ => final(db).xmake_index.includes_file_ids == old(db).xmake_index.includes_file_ids,
        }),
        // blocks: only an opener adds one
        target_views(final(db).xmake_index.spec_targets_seq(chunk.file_id)) == target_views(
            old(db).xmake_index.spec_targets_seq(chunk.file_id),
        ) + spec_stat_targets(*chunk, stat_idx as int),
        forall|g: FileId| g != chunk.file_id ==> final(db).xmake_index.spec_targets(g) == old(
            db,
        ).xmake_index.spec_targets(g),
{
    let ghost contribution = spec_stat_targets(*chunk, stat_idx as int);
    match xmake_function {
        XmakeFunction::Import => {
            analyze_import(tree, call);
            proof {
                assert(contribution =~= Seq::<TargetView>::empty());
                assert(target_views(db.xmake_index.spec_targets_seq(chunk.file_id))
                    =~= target_views(db.xmake_index.spec_targets_seq(chunk.file_id))
                    + contribution);
            }
            Some(())
        },
        XmakeFunction::Includes => {
            analyze_includes(db, chunk.file_id, call);
            proof {
                assert(contribution =~= Seq::<TargetView>::empty());
                assert(target_views(db.xmake_index.spec_targets_seq(chunk.file_id))
                    =~= target_views(db.xmake_index.spec_targets_seq(chunk.file_id))
                    + contribution);
            }
            Some(())
        },
        XmakeFunction::Target => {
            analyze_target(db, chunk, stat_idx, call, XmakeTargetKind::Target);
            Some(())
        },
        XmakeFunction::Package => {
            analyze_target(db, chunk, stat_idx, call, XmakeTargetKind::Package);
            Some(())
        },
        XmakeFunction::Option => {
            analyze_target(db, chunk, stat_idx, call, XmakeTargetKind::Option);
            Some(())
        },
        XmakeFunction::Rule => {
            analyze_target(db, chunk, stat_idx, call, XmakeTargetKind::Rule);
            Some(())
        },
        XmakeFunction::Task => {
            analyze_target(db, chunk, stat_idx, call, XmakeTargetKind::Task);
            Some(())
        },
        _ => {
            proof {
                assert(contribution =~= Seq::<TargetView>::empty());
                assert(target_views(db.xmake_index.spec_targets_seq(chunk.file_id))
                    =~= target_views(db.xmake_index.spec_targets_seq(chunk.file_id))
                    + contribution);
            }
            Some(())
        },
    }
}

/// A declaration as the specifications see it: name, own range, scope
/// range, and extra data.
pub type DeclView = (Seq<char>, TextRange, TextRange, LuaDeclExtra);

/// The declarations of a tree, as the specifications see them.
pub open spec fn decl_views(s: Seq<LuaDecl>) -> Seq<DeclView> {
    s.map_values(|d: LuaDecl| (d.name@, d.range, d.scope, d.extra))
}

/// Inserting one declaration view: it replaces the first record at the
/// same position, or is appended when its position is fresh.
pub open spec fn spec_add_view(s: Seq<DeclView>, d: DeclView) -> Seq<DeclView>
    decreases s.len(),
{
    if s.len() == 0 {
        seq![d]
    } else if s[0].1.start == d.1.start {
        seq![d] + s.skip(1)
    } else {
        seq![s[0]] + spec_add_view(s.skip(1), d)
    }
}

/// Inserting several declaration views, left to right.
pub open spec fn spec_add_views(s: Seq<DeclView>, ds: Seq<DeclView>) -> Seq<DeclView>
    decreases ds.len(),
{
    if ds.len() == 0 {
        s
    } else {
        spec_add_views(spec_add_view(s, ds[0]), ds.skip(1))
    }
}

/// Inserting a single view is one insertion.
proof fn lemma_add_views_single(s: Seq<DeclView>, d: DeclView)
    ensures
        spec_add_views(s, seq![d]) == spec_add_view(s, d),
{
    let ds = seq![d];
    assert(ds[0] == d);
    assert(ds.skip(1) =~= Seq::<DeclView>::empty());
    assert(spec_add_views(spec_add_view(s, d), ds.skip(1)) == spec_add_view(s, d));
}

/// With a fresh position the insertion appends.
proof fn lemma_add_view_fresh(s: Seq<DeclView>, d: DeclView)
    requires
        forall|i: int| 0 <= i < s.len() ==> (#[trigger] s[i]).1.start != d.1.start,
    ensures
        spec_add_view(s, d) == s.push(d),
    decreases s.len(),
{
    if s.len() == 0 {
        assert(spec_add_view(s, d) =~= s.push(d));
    } else {
        assert(forall|i: int| 0 <= i < s.skip(1).len() ==> s.skip(1)[i] == s[i + 1]);
        lemma_add_view_fresh(s.skip(1), d);
        assert(spec_add_view(s, d) =~= s.push(d));
    }
}

/// With a colliding position the insertion replaces that record.
proof fn lemma_add_view_collide(s: Seq<DeclView>, d: DeclView, i: int)
    requires
        0 <= i < s.len(),
        s[i].1.start == d.1.start,
        forall|j: int| 0 <= j < i ==> (#[trigger] s[j]).1.start != d.1.start,
    ensures
        spec_add_view(s, d) == s.update(i, d),
    decreases s.len(),
{
    if i == 0 {
        assert(spec_add_view(s, d) =~= s.update(0, d));
    } else {
        assert(forall|j: int| 0 <= j < s.skip(1).len() ==> s.skip(1)[j] == s[j + 1]);
        lemma_add_view_collide(s.skip(1), d, i - 1);
        assert(s.skip(1).update(i - 1, d) =~= s.update(i, d).skip(1));
        assert(spec_add_view(s, d) =~= s.update(i, d));
    }
}

/// The declaration views one statement contributes, in source order.
pub open spec fn spec_stat_decls(chunk: SyntaxChunk, j: int) -> Seq<DeclView> {
    match chunk.stats@[j].kind {
        SyntaxStatKind::Local(items) => items@.map_values(
            |it: crate::syntax::SyntaxLocalItem|
                (
                    it.name@,
                    it.name_range,
                    chunk.range,
                    LuaDeclExtra::Local { kind: it.init_kind },
                ),
        ),
        SyntaxStatKind::Assign { name, name_range, .. } => seq![
            (name@, name_range, chunk.range, LuaDeclExtra::Global),
        ],
        SyntaxStatKind::Func { name, name_range, .. } => seq![
            (name@, name_range, chunk.range, LuaDeclExtra::Global),
        ],
        SyntaxStatKind::Call(c) => match spec_xmake_function_of(c.callee@) {
            Some(XmakeFunction::Import) => match spec_import_decl(c) {
                Some(nm) => seq![
                    (
                        nm,
                        c.range,
                        chunk.range,
                        LuaDeclExtra::Local { kind: c.args@[0].syntax_kind },
                    ),
                ],
                None => Seq::empty(),
            },
            _ => Seq::empty(),
        },
        _ => Seq::empty(),
    }
}

/// The declaration record of a file after the first `i` statements.
pub open spec fn spec_decls_upto(chunk: SyntaxChunk, i: int) -> Seq<DeclView>
    decreases i,
{
    if i <= 0 {
        Seq::empty()
    } else {
        spec_add_views(spec_decls_upto(chunk, i - 1), spec_stat_decls(chunk, i - 1))
    }
}

/// The global registrations one statement contributes under a name.
pub open spec fn spec_stat_gadds(chunk: SyntaxChunk, j: int, n: Seq<char>) -> Seq<LuaDeclId> {
    match chunk.stats@[j].kind {
        SyntaxStatKind::Assign { name, name_range, .. } => if name@ == n {
            seq![LuaDeclId { file_id: chunk.file_id, position: name_range.start }]
        } else {
            Seq::empty()
        },
        SyntaxStatKind::Func { name, name_range, .. } => if name@ == n {
            seq![LuaDeclId { file_id: chunk.file_id, position: name_range.start }]
        } else {
            Seq::empty()
        },
        _ => Seq::empty(),
    }
}

/// The global registrations of the first `i` statements under a name.
pub open spec fn spec_gadds_upto(chunk: SyntaxChunk, i: int, n: Seq<char>) -> Seq<LuaDeclId>
    decreases i,
{
    if i <= 0 {
        Seq::empty()
    } else {
        spec_gadds_upto(chunk, i - 1, n) + spec_stat_gadds(chunk, i - 1, n)
    }
}

/// The include edges one statement contributes, given the module
/// records at collection time.
pub open spec fn spec_stat_includes(
    chunk: SyntaxChunk,
    j: int,
    modules: Seq<(FileId, ModuleInfo)>,
) -> Seq<FileId> {
    match chunk.stats@[j].kind {
        SyntaxStatKind::Call(c) => match spec_xmake_function_of(c.callee@) {
            Some(XmakeFunction::Includes) => match spec_includes_edge(c, modules) {
                Some(f) => seq![f],
                None => Seq::empty(),
            },
            _ => Seq::empty(),
        },
        _ => Seq::empty(),
    }
}

/// The include edges of the first `i` statements.
pub open spec fn spec_includes_upto(
    chunk: SyntaxChunk,
    i: int,
    modules: Seq<(FileId, ModuleInfo)>,
) -> Seq<FileId>
    decreases i,
{
    if i <= 0 {
        Seq::empty()
    } else {
        spec_includes_upto(chunk, i - 1, modules) + spec_stat_includes(chunk, i - 1, modules)
    }
}

/// Collect one file: walk its chunk once, creating declaration records
/// for bindings and recognizing the built-in call forms, and store the
/// fresh declaration tree.  Earlier state of other files is untouched.
pub fn analyze_file_decls(db: &mut DbIndex, chunk: &SyntaxChunk)
    requires
        old(db).wf(),
        chunk_wf(*chunk),
        old(db).xmake_index.spec_targets(chunk.file_id) is None,
    ensures
        final(db).wf(),
        final(db).type_index == old(db).type_index,
        final(db).property_index == old(db).property_index,
        final(db).module_index == old(db).module_index,
        // the file's declaration tree
        final(db).decl_index.spec_get_tree(chunk.file_id) matches Some(t) && t.wf()
            && t.file_id == chunk.file_id && t.root_range == chunk.range && decl_views(t.decls@)
            == spec_decls_upto(*chunk, chunk.stats@.len() as int),
        forall|g: FileId| g != chunk.file_id ==> final(db).decl_index.spec_get_tree(g) == old(
            db,
        ).decl_index.spec_get_tree(g),
        // the file's build-scope blocks
        target_views(final(db).xmake_index.spec_targets_seq(chunk.file_id))
            == spec_targets_upto(*chunk, chunk.stats@.len() as int),
        forall|g: FileId| g != chunk.file_id ==> final(db).xmake_index.spec_targets(g) == old(
            db,
        ).xmake_index.spec_targets(g),
        // the file's include edges
        final(db).xmake_index.spec_includes_seq(chunk.file_id) == old(
            db,
        ).xmake_index.spec_includes_seq(chunk.file_id) + spec_includes_upto(
            *chunk,
            chunk.stats@.len() as int,
            old(db).module_index.modules@,
        ),
        forall|g: FileId| g != chunk.file_id ==> final(db).xmake_index.spec_includes(g) == old(
            db,
        ).xmake_index.spec_includes(g),
        // global registrations, per name
        forall|n: Seq<char>| #[trigger] final(db).global_index.spec_decl_ids_seq(n) == old(
            db,
        ).global_index.spec_decl_ids_seq(n) + spec_gadds_upto(
            *chunk,
            chunk.stats@.len() as int,
            n,
        ),
        forall|n: Seq<char>|
            #[trigger] final(db).global_index.spec_decl_ids(n) is Some <==> (old(
                db,
            ).global_index.spec_decl_ids(n) is Some || spec_gadds_upto(
                *chunk,
                chunk.stats@.len() as int,
                n,
            ).len() > 0),
{
    let n = chunk.stats.len();
    let mut tree = LuaDeclarationTree::new(chunk.file_id, chunk.range);
    let mut i: usize = 0;
    while i < n
        invariant
            old(db).wf(),
            chunk_wf(*chunk),
            db.wf(),
            n == chunk.stats@.len(),
            i <= n,
            tree.wf(),
            tree.file_id == chunk.file_id,
            tree.root_range == chunk.range,
            decl_views(tree.decls@) == spec_decls_upto(*chunk, i as int),
            db.decl_index == old(db).decl_index,
            db.type_index == old(db).type_index,
            db.property_index == old(db).property_index,
            db.module_index == old(db).module_index,
            target_views(db.xmake_index.spec_targets_seq(chunk.file_id))
                == spec_targets_upto(*chunk, i as int),
            forall|g: FileId| g != chunk.file_id ==> db.xmake_index.spec_targets(g) == old(
                db,
            ).xmake_index.spec_targets(g),
            db.xmake_index.spec_includes_seq(chunk.file_id) == old(
                db,
            ).xmake_index.spec_includes_seq(chunk.file_id) + spec_includes_upto(
                *chunk,
                i as int,
                old(db).module_index.modules@,
            ),
            forall|g: FileId| g != chunk.file_id ==> db.xmake_index.spec_includes(g) == old(
                db,
            ).xmake_index.spec_includes(g),
            forall|n2: Seq<char>| #[trigger] db.global_index.spec_decl_ids_seq(n2) == old(
                db,
            ).global_index.spec_decl_ids_seq(n2) + spec_gadds_upto(*chunk, i as int, n2),
            forall|n2: Seq<char>|
                #[trigger] db.global_index.spec_decl_ids(n2) is Some <==> (old(
                    db,
                ).global_index.spec_decl_ids(n2) is Some || spec_gadds_upto(
                    *chunk,
                    i as int,
                    n2,
                ).len() > 0),
        decreases n - i,
    {
        let ghost decls_pre = decl_views(tree.decls@);
        let ghost targets_pre = target_views(db.xmake_index.spec_targets_seq(chunk.file_id));
        let ghost includes_pre = db.xmake_index.spec_includes_seq(chunk.file_id);
        let ghost gi_pre = db.global_index;
        match &chunk.stats[i].kind {
            SyntaxStatKind::Local(items) => {
                let m = items.len();
                let ghost item_views = spec_stat_decls(*chunk, i as int);
                proof {
                    assert(item_views.skip(0) =~= item_views);
                }
                let mut k: usize = 0;
                while k < m
                    invariant
                        chunk_wf(*chunk),
                        i < n,
                        n == chunk.stats@.len(),
                        m == items@.len(),
                        k <= m,
                        chunk.stats@[i as int].kind == SyntaxStatKind::Local(*items),
                        item_views == spec_stat_decls(*chunk, i as int),
                        item_views.len() == m,
                        forall|l: int|
                            0 <= l < m ==> item_views[l] == ((
                                items@[l].name@,
                                items@[l].name_range,
                                chunk.range,
                                LuaDeclExtra::Local { kind: items@[l].init_kind },
                            )),
                        tree.wf(),
                        tree.file_id == chunk.file_id,
                        tree.root_range == chunk.range,
                        spec_add_views(decls_pre, item_views) == spec_add_views(
                            decl_views(tree.decls@),
                            item_views.skip(k as int),
                        ),
                    decreases m - k,
                {
                    let it = &items[k];
                    let decl = LuaDecl::new(
                        it.name.as_str(),
                        chunk.file_id,
                        it.name_range,
                        chunk.range,
                        LuaDeclExtra::Local { kind: it.init_kind },
                    );
                    let ghost s0 = tree.decls@;
                    let ghost s0_wf = tree.wf();
                    let ghost dv = item_views[k as int];
                    tree.add_decl(decl);
                    proof {
                        assert(item_views.skip(k as int)[0] == dv);
                        assert(item_views.skip(k as int).skip(1) =~= item_views.skip(k + 1));
                        assert(dv == ((decl.name@, decl.range, decl.scope, decl.extra)));
                        decl_add_view_proof(s0, tree.decls@, decl, dv);
                    }
                    k += 1;
                }
                proof {
                    assert(item_views.skip(m as int) =~= Seq::<DeclView>::empty());
                }
            },
            SyntaxStatKind::Assign { name, name_range, .. } => {
                let decl = LuaDecl::new(
                    name.as_str(),
                    chunk.file_id,
                    *name_range,
                    chunk.range,
                    LuaDeclExtra::Global,
                );
                let decl_id = decl.get_id();
                let ghost s0 = tree.decls@;
                let ghost dv = ((name@, *name_range, chunk.range, LuaDeclExtra::Global));
                tree.add_decl(decl);
                proof {
                    decl_add_view_proof(s0, tree.decls@, decl, dv);
                    assert(spec_stat_decls(*chunk, i as int) =~= seq![dv]);
                    lemma_add_views_single(decls_pre, dv);
                }
                db.global_index.add_global_decl(name.as_str(), decl_id);
                proof {
                    assert forall|n2: Seq<char>|
                        #[trigger] db.global_index.spec_decl_ids_seq(n2) == old(
                            db,
                        ).global_index.spec_decl_ids_seq(n2) + spec_gadds_upto(
                            *chunk,
                            i + 1 as int,
                            n2,
                        ) by {
                        assert(gi_pre.spec_decl_ids_seq(n2) == old(
                            db,
                        ).global_index.spec_decl_ids_seq(n2) + spec_gadds_upto(
                            *chunk,
                            i as int,
                            n2,
                        ));
                        if n2 == name@ {
                            assert(spec_stat_gadds(*chunk, i as int, n2) =~= seq![decl_id]);
                            assert(old(db).global_index.spec_decl_ids_seq(n2) + (spec_gadds_upto(
                                *chunk,
                                i as int,
                                n2,
                            ) + seq![decl_id]) =~= (old(db).global_index.spec_decl_ids_seq(n2)
                                + spec_gadds_upto(*chunk, i as int, n2)).push(decl_id));
                        } else {
                            assert(spec_stat_gadds(*chunk, i as int, n2)
                                =~= Seq::<LuaDeclId>::empty());
                            assert(spec_gadds_upto(*chunk, i + 1 as int, n2) =~= spec_gadds_upto(
                                *chunk,
                                i as int,
                                n2,
                            ));
                        }
                    }
                    assert forall|n2: Seq<char>|
                        #[trigger] db.global_index.spec_decl_ids(n2) is Some <==> (old(
                            db,
                        ).global_index.spec_decl_ids(n2) is Some || spec_gadds_upto(
                            *chunk,
                            i + 1 as int,
                            n2,
                        ).len() > 0) by {
                        assert(gi_pre.spec_decl_ids(n2) is Some <==> (old(
                            db,
                        ).global_index.spec_decl_ids(n2) is Some || spec_gadds_upto(
                            *chunk,
                            i as int,
                            n2,
                        ).len() > 0));
                        if n2 == name@ {
                            assert(spec_stat_gadds(*chunk, i as int, n2).len() > 0);
                        } else {
                            assert(spec_gadds_upto(*chunk, i + 1 as int, n2) =~= spec_gadds_upto(
                                *chunk,
                                i as int,
                                n2,
                            ));
                        }
                    }
                }
            },
            SyntaxStatKind::Func { name, name_range, .. } => {
                let decl = LuaDecl::new(
                    name.as_str(),
                    chunk.file_id,
                    *name_range,
                    chunk.range,
                    LuaDeclExtra::Global,
                );
                let decl_id = decl.get_id();
                let ghost s0 = tree.decls@;
                let ghost dv = ((name@, *name_range, chunk.range, LuaDeclExtra::Global));
                tree.add_decl(decl);
                proof {
                    decl_add_view_proof(s0, tree.decls@, decl, dv);
                    assert(spec_stat_decls(*chunk, i as int) =~= seq![dv]);
                    lemma_add_views_single(decls_pre, dv);
                }
                db.global_index.add_global_decl(name.as_str(), decl_id);
                proof {
                    assert forall|n2: Seq<char>|
                        #[trigger] db.global_index.spec_decl_ids_seq(n2) == old(
                            db,
                        ).global_index.spec_decl_ids_seq(n2) + spec_gadds_upto(
                            *chunk,
                            i + 1 as int,
                            n2,
                        ) by {
                        assert(gi_pre.spec_decl_ids_seq(n2) == old(
                            db,
                        ).global_index.spec_decl_ids_seq(n2) + spec_gadds_upto(
                            *chunk,
                            i as int,
                            n2,
                        ));
                        if n2 == name@ {
                            assert(spec_stat_gadds(*chunk, i as int, n2) =~= seq![decl_id]);
                            assert(old(db).global_index.spec_decl_ids_seq(n2) + (spec_gadds_upto(
                                *chunk,
                                i as int,
                                n2,
                            ) + seq![decl_id]) =~= (old(db).global_index.spec_decl_ids_seq(n2)
                                + spec_gadds_upto(*chunk, i as int, n2)).push(decl_id));
                        } else {
                            assert(spec_stat_gadds(*chunk, i as int, n2)
                                =~= Seq::<LuaDeclId>::empty());
                            assert(spec_gadds_upto(*chunk, i + 1 as int, n2) =~= spec_gadds_upto(
                                *chunk,
                                i as int,
                                n2,
                            ));
                        }
                    }
                    assert forall|n2: Seq<char>|
                        #[trigger] db.global_index.spec_decl_ids(n2) is Some <==> (old(
                            db,
                        ).global_index.spec_decl_ids(n2) is Some || spec_gadds_upto(
                            *chunk,
                            i + 1 as int,
                            n2,
                        ).len() > 0) by {
                        assert(gi_pre.spec_decl_ids(n2) is Some <==> (old(
                            db,
                        ).global_index.spec_decl_ids(n2) is Some || spec_gadds_upto(
                            *chunk,
                            i as int,
                            n2,
                        ).len() > 0));
                        if n2 == name@ {
                            assert(spec_stat_gadds(*chunk, i as int, n2).len() > 0);
                        } else {
                            assert(spec_gadds_upto(*chunk, i + 1 as int, n2) =~= spec_gadds_upto(
                                *chunk,
                                i as int,
                                n2,
                            ));
                        }
                    }
                }
            },
            SyntaxStatKind::Call(c) => {
                match get_xmake_function(c.callee.as_str()) {
                    Some(f) => {
                        let ghost tdecls0 = tree.decls@;
                        proof {
                            if spec_is_opener(f) {
                                lemma_targets_upto_wf_aux(*chunk, i as int);
                                let ts = spec_targets_upto(*chunk, i as int);
                                let cur = db.xmake_index.spec_targets_seq(chunk.file_id);
                                assert(target_views(cur) == ts);
                                assert forall|t: int|
                                    0 <= t < cur.len() implies (#[trigger] cur[
                                    t
                                ]).range.end <= c.range.start by {
                                    assert(target_views(cur)[t] == (
                                        cur[t].name@,
                                        cur[t].kind,
                                        cur[t].range,
                                    ));
                                    assert(ts[t].2 == cur[t].range);
                                    assert(chunk.stats@[i as int].kind
                                        == SyntaxStatKind::Call(*c));
                                }
                            }
                        }
                        analyze_xmake_function_call(db, &mut tree, chunk, i, c, f);
                        proof {
                            match f {
                                XmakeFunction::Import => {
                                    match spec_import_decl(*c) {
                                        Some(nm) => {
                                            let dv = ((
                                                nm,
                                                c.range,
                                                chunk.range,
                                                LuaDeclExtra::Local {
                                                    kind: c.args@[0].syntax_kind,
                                                },
                                            ));
                                            assert(spec_stat_decls(*chunk, i as int)
                                                =~= seq![dv]);
                                            lemma_add_views_single(decls_pre, dv);
                                            added_or_replaced_view_proof(
                                                tdecls0,
                                                tree.decls@,
                                                nm,
                                                chunk.file_id,
                                                c.range,
                                                chunk.range,
                                                LuaDeclExtra::Local {
                                                    kind: c.args@[0].syntax_kind,
                                                },
                                            );
                                        },
                                        None => {
                                            assert(spec_stat_decls(*chunk, i as int)
                                                =~= Seq::<DeclView>::empty());
                                        },
                                    }
                                },
                                XmakeFunction::Includes => {
                                    match spec_includes_edge(*c, old(db).module_index.modules@) {
                                        Some(t) => {
                                            assert(spec_stat_includes(
                                                *chunk,
                                                i as int,
                                                old(db).module_index.modules@,
                                            ) =~= seq![t]);
                                            assert(includes_pre.push(t) =~= includes_pre + seq![
                                                t,
                                            ]);
                                        },
                                        None => {
                                            assert(spec_stat_includes(
                                                *chunk,
                                                i as int,
                                                old(db).module_index.modules@,
                                            ) =~= Seq::<FileId>::empty());
                                        },
                                    }
                                    assert(spec_stat_decls(*chunk, i as int)
                                        =~= Seq::<DeclView>::empty());
                                },
                                _ => {
                                    assert(spec_stat_decls(*chunk, i as int)
                                        =~= Seq::<DeclView>::empty());
                                    assert(spec_stat_includes(
                                        *chunk,
                                        i as int,
                                        old(db).module_index.modules@,
                                    ) =~= Seq::<FileId>::empty());
                                },
                            }
                        }
                    },
                    None => {
                        proof {
                            assert(spec_stat_decls(*chunk, i as int)
                                =~= Seq::<DeclView>::empty());
                            assert(spec_stat_targets(*chunk, i as int)
                                =~= Seq::<TargetView>::empty());
                            assert(spec_stat_includes(
                                *chunk,
                                i as int,
                                old(db).module_index.modules@,
                            ) =~= Seq::<FileId>::empty());
                        }
                    },
                }
            },
            _ => {
                proof {
                    assert(spec_stat_decls(*chunk, i as int) =~= Seq::<DeclView>::empty());
                    assert(spec_stat_targets(*chunk, i as int) =~= Seq::<TargetView>::empty());
                    assert(spec_stat_includes(*chunk, i as int, old(db).module_index.modules@)
                        =~= Seq::<FileId>::empty());
                }
            },
        }
        proof {
            // fold the statement's contribution into the per-prefix forms
            assert(spec_decls_upto(*chunk, i + 1 as int) == spec_add_views(
                spec_decls_upto(*chunk, i as int),
                spec_stat_decls(*chunk, i as int),
            ));
            if spec_stat_decls(*chunk, i as int).len() == 0 {
                assert(spec_add_views(decls_pre, spec_stat_decls(*chunk, i as int))
                    == decls_pre);
            }
            assert(spec_targets_upto(*chunk, i + 1 as int) == spec_targets_upto(
                *chunk,
                i as int,
            ) + spec_stat_targets(*chunk, i as int));
            assert(target_views(db.xmake_index.spec_targets_seq(chunk.file_id))
                =~= spec_targets_upto(*chunk, i + 1 as int));
            assert(spec_includes_upto(*chunk, i + 1 as int, old(db).module_index.modules@)
                == spec_includes_upto(*chunk, i as int, old(db).module_index.modules@)
                + spec_stat_includes(*chunk, i as int, old(db).module_index.modules@));
            assert(db.xmake_index.spec_includes_seq(chunk.file_id) =~= old(
                db,
            ).xmake_index.spec_includes_seq(chunk.file_id) + spec_includes_upto(
                *chunk,
                i + 1 as int,
                old(db).module_index.modules@,
            ));
            assert forall|n2: Seq<char>|
                #[trigger] db.global_index.spec_decl_ids_seq(n2) == old(
                    db,
                ).global_index.spec_decl_ids_seq(n2) + spec_gadds_upto(
                    *chunk,
                    i + 1 as int,
                    n2,
                ) by {
                if spec_stat_gadds(*chunk, i as int, n2).len() == 0 {
                    assert(spec_gadds_upto(*chunk, i + 1 as int, n2) =~= spec_gadds_upto(
                        *chunk,
                        i as int,
                        n2,
                    ));
                }
            }
            assert forall|n2: Seq<char>|
                #[trigger] db.global_index.spec_decl_ids(n2) is Some <==> (old(
                    db,
                ).global_index.spec_decl_ids(n2) is Some || spec_gadds_upto(
                    *chunk,
                    i + 1 as int,
                    n2,
                ).len() > 0) by {
                if spec_stat_gadds(*chunk, i as int, n2).len() == 0 {
                    assert(spec_gadds_upto(*chunk, i + 1 as int, n2) =~= spec_gadds_upto(
                        *chunk,
                        i as int,
                        n2,
                    ));
                }
            }
        }
        i += 1;
    }
    db.decl_index.add_decl_tree(tree);
}

/// The view of an inserted declaration relates old and new trees.
proof fn decl_add_view_proof(s0: Seq<LuaDecl>, s1: Seq<LuaDecl>, decl: LuaDecl, dv: DeclView)
    requires
        dv == ((decl.name@, decl.range, decl.scope, decl.extra)),
        forall|i: int, j: int|
            #![trigger s0[i], s0[j]]
            0 <= i < j < s0.len() ==> s0[i].range.start != s0[j].range.start,
        (forall|i: int| 0 <= i < s0.len() ==> (#[trigger] s0[i]).range.start != decl.range.start)
            ==> s1 == s0.push(decl),
        forall|i: int|
            0 <= i < s0.len() && (#[trigger] s0[i]).range.start == decl.range.start ==> s1
                == s0.update(i, decl),
    ensures
        decl_views(s1) == spec_add_view(decl_views(s0), dv),
{
    if forall|i: int| 0 <= i < s0.len() ==> (#[trigger] s0[i]).range.start != decl.range.start {
        assert(s1 == s0.push(decl));
        assert(decl_views(s1) =~= decl_views(s0).push(dv));
        assert(forall|i: int|
            0 <= i < decl_views(s0).len() ==> (#[trigger] decl_views(s0)[i]).1.start
                != dv.1.start);
        lemma_add_view_fresh(decl_views(s0), dv);
    } else {
        let lf = choose|lf: int|
            0 <= lf < s0.len() && (#[trigger] s0[lf]).range.start == decl.range.start;
        assert(s1 == s0.update(lf, decl));
        assert forall|j2: int| 0 <= j2 < lf implies (#[trigger] decl_views(s0)[j2]).1.start
            != dv.1.start by {
            assert(s0[j2].range.start != s0[lf].range.start);
        }
        assert(decl_views(s1) =~= decl_views(s0).update(lf, dv));
        assert(decl_views(s0)[lf].1.start == dv.1.start);
        lemma_add_view_collide(decl_views(s0), dv, lf);
    }
}

/// An added-or-replaced record, inserted into a duplicate-free tree, is
/// an inserted view.
proof fn added_or_replaced_view_proof(
    s0: Seq<LuaDecl>,
    s1: Seq<LuaDecl>,
    nm: Seq<char>,
    file: FileId,
    range: TextRange,
    scope: TextRange,
    extra: LuaDeclExtra,
)
    requires
        forall|i: int, j: int|
            #![trigger s0[i], s0[j]]
            0 <= i < j < s0.len() ==> s0[i].range.start != s0[j].range.start,
        crate::decl::spec_added_or_replaced(s0, s1, nm, file, range, scope, extra),
    ensures
        decl_views(s1) == spec_add_view(decl_views(s0), (nm, range, scope, extra)),
{
    let dv = ((nm, range, scope, extra));
    if forall|i: int| 0 <= i < s0.len() ==> (#[trigger] s0[i]).range.start != range.start {
        assert(s1.drop_last() == s0 && s1.len() == s0.len() + 1);
        assert(forall|i: int| 0 <= i < s0.len() ==> s1[i] == s0[i]);
        assert(crate::decl::decl_fields_match(s1.last(), nm, file, range, scope, extra));
        assert(decl_views(s1) =~= decl_views(s0).push(dv));
        assert(forall|i: int|
            0 <= i < decl_views(s0).len() ==> (#[trigger] decl_views(s0)[i]).1.start
                != dv.1.start);
        lemma_add_view_fresh(decl_views(s0), dv);
    } else {
        let lf = choose|i: int|
            #![auto]
            0 <= i < s0.len() && s0[i].range.start == range.start
                && crate::decl::decl_fields_match(s1[i], nm, file, range, scope, extra) && (
            forall|j: int| 0 <= j < s0.len() && j != i ==> s1[j] == s0[j]);
        assert forall|j2: int| 0 <= j2 < lf implies (#[trigger] decl_views(s0)[j2]).1.start
            != dv.1.start by {
            assert(s0[j2].range.start != s0[lf].range.start);
        }
        assert(decl_views(s1) =~= decl_views(s0).update(lf, dv));
        assert(decl_views(s0)[lf].1.start == dv.1.start);
        lemma_add_view_collide(decl_views(s0), dv, lf);
    }
}

} // verus!
