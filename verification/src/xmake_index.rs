//! Build-scope constructs: recognized call forms, target kinds, per-file
//! target ranges and include edges.

use vstd::prelude::*;
use crate::ids::{FileId, TextRange};
use crate::assoc::{alookup, akeys_unique, lemma_alookup_found, lemma_alookup_absent,
    lemma_alookup_update, lemma_alookup_push, lemma_alookup_remove};
use crate::strutil::str_eq;

verus! {

/// The recognized built-in call forms with analysis significance.  Every
/// component switches on this classification instead of re-matching the
/// callee name.
#[derive(Debug, Clone, Copy, PartialEq, Eq, Structural)]
pub enum XmakeFunction {
    AddFiles,
    Includes,
    Import,
    AddDeps,
    Target,
    Package,
    Option,
    Rule,
    Task,
    EndTarget,
    EndPackage,
    EndOption,
    EndRule,
    EndTask,
}

/// The classification a callee name falls under.
pub open spec fn spec_xmake_function_of(name: Seq<char>) -> Option<XmakeFunction> {
    if name == "add_files"@ {
        Some(XmakeFunction::AddFiles)
    } else if name == "includes"@ {
        Some(XmakeFunction::Includes)
    } else if name == "import"@ {
        Some(XmakeFunction::Import)
    } else if name == "add_deps"@ {
        Some(XmakeFunction::AddDeps)
    } else if name == "target"@ {
        Some(XmakeFunction::Target)
    } else if name == "end_target"@ {
        Some(XmakeFunction::EndTarget)
    } else if name == "package"@ {
        Some(XmakeFunction::Package)
    } else if name == "end_package"@ {
        Some(XmakeFunction::EndPackage)
    } else if name == "option"@ {
        Some(XmakeFunction::Option)
    } else if name == "end_option"@ {
        Some(XmakeFunction::EndOption)
    } else if name == "rule"@ {
        Some(XmakeFunction::Rule)
    } else if name == "end_rule"@ {
        Some(XmakeFunction::EndRule)
    } else if name == "task"@ {
        Some(XmakeFunction::Task)
    } else if name == "end_task"@ {
        Some(XmakeFunction::EndTask)
    } else {
        None
    }
}

/// Classify a call by its callee name.  Calls whose callee is not a plain
/// name never reach this point: recognition aborts silently upstream.
pub fn get_xmake_function(name: &str) -> (r: Option<XmakeFunction>)
    ensures
        r == spec_xmake_function_of(name@),
{
    if str_eq(name, "add_files") {
        Some(XmakeFunction::AddFiles)
    } else if str_eq(name, "includes") {
        Some(XmakeFunction::Includes)
    } else if str_eq(name, "import") {
        Some(XmakeFunction::Import)
    } else if str_eq(name, "add_deps") {
        Some(XmakeFunction::AddDeps)
    } else if str_eq(name, "target") {
        Some(XmakeFunction::Target)
    } else if str_eq(name, "end_target") {
        Some(XmakeFunction::EndTarget)
    } else if str_eq(name, "package") {
        Some(XmakeFunction::Package)
    } else if str_eq(name, "end_package") {
        Some(XmakeFunction::EndPackage)
    } else if str_eq(name, "option") {
        Some(XmakeFunction::Option)
    } else if str_eq(name, "end_option") {
        Some(XmakeFunction::EndOption)
    } else if str_eq(name, "rule") {
        Some(XmakeFunction::Rule)
    } else if str_eq(name, "end_rule") {
        Some(XmakeFunction::EndRule)
    } else if str_eq(name, "task") {
        Some(XmakeFunction::Task)
    } else if str_eq(name, "end_task") {
        Some(XmakeFunction::EndTask)
    } else {
        None
    }
}

/// The kind of a build-scope block.
#[derive(Debug, Clone, Copy, PartialEq, Eq, Structural, Hash)]
pub enum XmakeTargetKind {
    Target,
    Package,
    Rule,
    Option,
    Task,
}

/// The kind a block-opener name denotes.
pub open spec fn spec_target_kind_of(name: Seq<char>) -> Option<XmakeTargetKind> {
    if name == "target"@ {
        Some(XmakeTargetKind::Target)
    } else if name == "package"@ {
        Some(XmakeTargetKind::Package)
    } else if name == "rule"@ {
        Some(XmakeTargetKind::Rule)
    } else if name == "option"@ {
        Some(XmakeTargetKind::Option)
    } else if name == "task"@ {
        Some(XmakeTargetKind::Task)
    } else {
        None
    }
}

impl XmakeTargetKind {
    pub fn parse(name: &str) -> (r: Option<XmakeTargetKind>)
        ensures
            r == spec_target_kind_of(name@),
    {
        if str_eq(name, "target") {
            Some(XmakeTargetKind::Target)
        } else if str_eq(name, "package") {
            Some(XmakeTargetKind::Package)
        } else if str_eq(name, "rule") {
            Some(XmakeTargetKind::Rule)
        } else if str_eq(name, "option") {
            Some(XmakeTargetKind::Option)
        } else if str_eq(name, "task") {
            Some(XmakeTargetKind::Task)
        } else {
            None
        }
    }

    pub fn is_target(&self) -> (r: bool)
        ensures
            r == (self is Target),
    {
        matches!(self, XmakeTargetKind::Target)
    }

    pub fn is_package(&self) -> (r: bool)
        ensures
            r == (self is Package),
    {
        matches!(self, XmakeTargetKind::Package)
    }

    pub fn is_rule(&self) -> (r: bool)
        ensures
            r == (self is Rule),
    {
        matches!(self, XmakeTargetKind::Rule)
    }

    pub fn is_option(&self) -> (r: bool)
        ensures
            r == (self is Option),
    {
        matches!(self, XmakeTargetKind::Option)
    }

    pub fn is_task(&self) -> (r: bool)
        ensures
            r == (self is Task),
    {
        matches!(self, XmakeTargetKind::Task)
    }
}

/// A named build-scope block and its textual extent within its file.
#[derive(Debug, Clone, PartialEq, Eq, Hash)]
pub struct XmakeTarget {
    pub name: String,
    pub kind: XmakeTargetKind,
    pub range: TextRange,
}

/// A target-or-package record, as handed to consumers that only care
/// whether a block builds a target.
#[derive(Debug, Clone, PartialEq, Eq, Hash)]
pub struct XmakeTargetOrPackage {
    pub name: String,
    pub is_target: bool,
    pub range: TextRange,
}

/// Per-file build-scope state: include edges and target ranges.
#[derive(Debug)]
pub struct LuaXmakeIndex {
    pub includes_file_ids: Vec<(FileId, Vec<FileId>)>,
    pub targets_or_packages: Vec<(FileId, Vec<XmakeTarget>)>,
}

/// Blocks in source order: well-formed ranges, each ending at or
/// before the next one starts (so, for any kind, pairwise
/// non-overlapping and ordered).
pub open spec fn targets_ordered(s: Seq<XmakeTarget>) -> bool {
    &&& forall|i: int| 0 <= i < s.len() ==> (#[trigger] s[i]).range.wf()
    &&& forall|i: int, j: int|
        #![trigger s[i], s[j]]
        0 <= i < j < s.len() ==> s[i].range.end <= s[j].range.start
}

impl LuaXmakeIndex {
    pub open spec fn wf(self) -> bool {
        &&& akeys_unique(self.includes_file_ids@)
        &&& akeys_unique(self.targets_or_packages@)
        &&& forall|k: int|
            0 <= k < self.targets_or_packages@.len() ==> targets_ordered(
                (#[trigger] self.targets_or_packages@[k]).1@,
            )
    }

    /// The include edges recorded for a file.
    pub open spec fn spec_includes(self, file_id: FileId) -> Option<Vec<FileId>> {
        alookup(self.includes_file_ids@, file_id)
    }

    /// The targets recorded for a file.
    pub open spec fn spec_targets(self, file_id: FileId) -> Option<Vec<XmakeTarget>> {
        alookup(self.targets_or_packages@, file_id)
    }

    /// The target sequence of a file, empty when none was recorded.
    pub open spec fn spec_targets_seq(self, file_id: FileId) -> Seq<XmakeTarget> {
        match self.spec_targets(file_id) {
            Some(v) => v@,
            None => Seq::empty(),
        }
    }

    /// The include-edge sequence of a file, empty when none was recorded.
    pub open spec fn spec_includes_seq(self, file_id: FileId) -> Seq<FileId> {
        match self.spec_includes(file_id) {
            Some(v) => v@,
            None => Seq::empty(),
        }
    }

    pub fn new() -> (r: LuaXmakeIndex)
        ensures
            r.wf(),
            forall|f: FileId| r.spec_includes(f) is None,
            forall|f: FileId| r.spec_targets(f) is None,
    {
        let r = LuaXmakeIndex { includes_file_ids: Vec::new(), targets_or_packages: Vec::new() };
        proof {
            assert forall|f: FileId| r.spec_includes(f) is None by {
                lemma_alookup_absent(r.includes_file_ids@, f);
            }
            assert forall|f: FileId| r.spec_targets(f) is None by {
                lemma_alookup_absent(r.targets_or_packages@, f);
            }
        }
        r
    }

    fn find_includes_idx(&self, file_id: FileId) -> (r: Option<usize>)
        ensures
            match r {
                Some(i) => {
                    &&& i < self.includes_file_ids@.len()
                    &&& self.includes_file_ids@[i as int].0 == file_id
                    &&& forall|j: int| 0 <= j < i ==> self.includes_file_ids@[j].0 != file_id
                },
                None => forall|j: int|
                    0 <= j < self.includes_file_ids@.len()
                        ==> self.includes_file_ids@[j].0 != file_id,
            },
    {
        let n = self.includes_file_ids.len();
        let mut i: usize = 0;
        while i < n
            invariant
                n == self.includes_file_ids@.len(),
                i <= n,
                forall|j: int| 0 <= j < i ==> self.includes_file_ids@[j].0 != file_id,
            decreases n - i,
        {
            if self.includes_file_ids[i].0 == file_id {
                return Some(i);
            }
            i += 1;
        }
        None
    }

    fn find_targets_idx(&self, file_id: FileId) -> (r: Option<usize>)
        ensures
            match r {
                Some(i) => {
                    &&& i < self.targets_or_packages@.len()
                    &&& self.targets_or_packages@[i as int].0 == file_id
                    &&& forall|j: int| 0 <= j < i ==> self.targets_or_packages@[j].0 != file_id
                },
                None => forall|j: int|
                    0 <= j < self.targets_or_packages@.len()
                        ==> self.targets_or_packages@[j].0 != file_id,
            },
    {
        let n = self.targets_or_packages.len();
        let mut i: usize = 0;
        while i < n
            invariant
                n == self.targets_or_packages@.len(),
                i <= n,
                forall|j: int| 0 <= j < i ==> self.targets_or_packages@[j].0 != file_id,
            decreases n - i,
        {
            if self.targets_or_packages[i].0 == file_id {
                return Some(i);
            }
            i += 1;
        }
        None
    }

    /// Record one include edge from `file_id` to `include_file_id`,
    /// appended after the edges already recorded for the file.
    pub fn add_includes(&mut self, file_id: FileId, include_file_id: FileId)
        requires
            old(self).wf(),
        ensures
            final(self).wf(),
            final(self).spec_includes_seq(file_id) == old(self).spec_includes_seq(
                file_id,
            ).push(include_file_id),
            forall|g: FileId| g != file_id ==> final(self).spec_includes(g) == old(
                self,
            ).spec_includes(g),
            final(self).targets_or_packages == old(self).targets_or_packages,
    {
        let ghost s0 = self.includes_file_ids@;
        match self.find_includes_idx(file_id) {
            Some(i) => {
                proof {
                    lemma_alookup_found(s0, file_id, i as int);
                }
                self.includes_file_ids[i].1.push(include_file_id);
                proof {
                    assert(self.includes_file_ids@ =~= s0.update(
                        i as int,
                        (file_id, self.includes_file_ids@[i as int].1),
                    ));
                    lemma_alookup_update(s0, i as int, self.includes_file_ids@[i as int].1);
                    assert(self.spec_includes_seq(file_id) =~= old(self).spec_includes_seq(
                        file_id,
                    ).push(include_file_id));
                }
            },
            None => {
                proof {
                    lemma_alookup_absent(s0, file_id);
                }
                let mut ids: Vec<FileId> = Vec::new();
                ids.push(include_file_id);
                self.includes_file_ids.push((file_id, ids));
                proof {
                    lemma_alookup_push(s0, file_id, self.includes_file_ids@[s0.len() as int].1);
                    assert(self.spec_includes_seq(file_id) =~= old(self).spec_includes_seq(
                        file_id,
                    ).push(include_file_id));
                }
            },
        }
    }

    /// The include edges of a file, in insertion order.
    pub fn get_includes(&self, file_id: FileId) -> (r: Option<&Vec<FileId>>)
        requires
            self.wf(),
        ensures
            match r {
                Some(v) => self.spec_includes(file_id) == Some(*v),
                None => self.spec_includes(file_id) is None,
            },
    {
        match self.find_includes_idx(file_id) {
            Some(i) => {
                proof {
                    lemma_alookup_found(self.includes_file_ids@, file_id, i as int);
                }
                Some(&self.includes_file_ids[i].1)
            },
            None => {
                proof {
                    lemma_alookup_absent(self.includes_file_ids@, file_id);
                }
                None
            },
        }
    }

    /// Record one build-scope block for a file, appended after the blocks
    /// already recorded, in source order.
    pub fn add_target_or_package(&mut self, file_id: FileId, target_or_package: XmakeTarget)
        requires
            old(self).wf(),
            target_or_package.range.wf(),
            forall|t: int|
                0 <= t < old(self).spec_targets_seq(file_id).len() ==> (#[trigger] old(
                    self,
                ).spec_targets_seq(file_id)[t]).range.end <= target_or_package.range.start,
        ensures
            final(self).wf(),
            final(self).spec_targets_seq(file_id) == old(self).spec_targets_seq(file_id).push(
                target_or_package,
            ),
            forall|g: FileId| g != file_id ==> final(self).spec_targets(g) == old(
                self,
            ).spec_targets(g),
            final(self).includes_file_ids == old(self).includes_file_ids,
    {
        let ghost s0 = self.targets_or_packages@;
        match self.find_targets_idx(file_id) {
            Some(i) => {
                proof {
                    lemma_alookup_found(s0, file_id, i as int);
                }
                self.targets_or_packages[i].1.push(target_or_package);
                proof {
                    assert(self.targets_or_packages@ =~= s0.update(
                        i as int,
                        (file_id, self.targets_or_packages@[i as int].1),
                    ));
                    lemma_alookup_update(s0, i as int, self.targets_or_packages@[i as int].1);
                    assert(self.spec_targets_seq(file_id) =~= old(self).spec_targets_seq(
                        file_id,
                    ).push(target_or_package));
                    assert forall|k: int|
                        0 <= k < self.targets_or_packages@.len() implies targets_ordered(
                        (#[trigger] self.targets_or_packages@[k]).1@,
                    ) by {
                        if k != i as int {
                            assert(self.targets_or_packages@[k] == s0[k]);
                        } else {
                            let nv = self.targets_or_packages@[k].1@;
                            let ov = s0[i as int].1@;
                            assert(nv == ov.push(target_or_package));
                            assert(ov == old(self).spec_targets_seq(file_id));
                            assert(targets_ordered(ov));
                            assert forall|a: int, b: int|
                                #![trigger nv[a], nv[b]]
                                0 <= a < b < nv.len() implies nv[a].range.end
                                <= nv[b].range.start by {
                                if b < ov.len() {
                                    assert(nv[a] == ov[a] && nv[b] == ov[b]);
                                } else {
                                    assert(nv[b] == target_or_package);
                                    assert(nv[a] == ov[a]);
                                }
                            }
                            assert(forall|a: int|
                                0 <= a < nv.len() ==> (#[trigger] nv[a]).range.wf());
                        }
                    }
                }
            },
            None => {
                proof {
                    lemma_alookup_absent(s0, file_id);
                }
                let mut ts: Vec<XmakeTarget> = Vec::new();
                ts.push(target_or_package);
                self.targets_or_packages.push((file_id, ts));
                proof {
                    lemma_alookup_push(s0, file_id, self.targets_or_packages@[s0.len() as int].1);
                    assert(self.spec_targets_seq(file_id) =~= old(self).spec_targets_seq(
                        file_id,
                    ).push(target_or_package));
                    assert forall|k: int|
                        0 <= k < self.targets_or_packages@.len() implies targets_ordered(
                        (#[trigger] self.targets_or_packages@[k]).1@,
                    ) by {
                        if k < s0.len() {
                            assert(self.targets_or_packages@[k] == s0[k]);
                        } else {
                            assert(self.targets_or_packages@[k].1@ =~= seq![
                                target_or_package,
                            ]);
                        }
                    }
                }
            },
        }
    }

    /// The build-scope blocks of a file: `None` iff no block was
    /// recorded, and the returned entries are in source order, each
    /// ending at or before the next one starts — so for any kind the
    /// ranges are pairwise non-overlapping and ordered by start.
    pub fn get_targets_or_packages(&self, file_id: FileId) -> (r: Option<&Vec<XmakeTarget>>)
        requires
            self.wf(),
        ensures
            match r {
                Some(v) => self.spec_targets(file_id) == Some(*v) && targets_ordered(v@),
                None => self.spec_targets(file_id) is None,
            },
    {
        match self.find_targets_idx(file_id) {
            Some(i) => {
                proof {
                    lemma_alookup_found(self.targets_or_packages@, file_id, i as int);
                }
                Some(&self.targets_or_packages[i].1)
            },
            None => {
                proof {
                    lemma_alookup_absent(self.targets_or_packages@, file_id);
                }
                None
            },
        }
    }

    /// Purge every record of a file, so that re-indexing it starts clean.
    pub fn remove(&mut self, file_id: FileId)
        requires
            old(self).wf(),
        ensures
            final(self).wf(),
            final(self).spec_includes(file_id) is None,
            final(self).spec_targets(file_id) is None,
            forall|g: FileId| g != file_id ==> final(self).spec_includes(g) == old(
                self,
            ).spec_includes(g),
            forall|g: FileId| g != file_id ==> final(self).spec_targets(g) == old(
                self,
            ).spec_targets(g),
    {
        let ghost s0 = self.includes_file_ids@;
        match self.find_includes_idx(file_id) {
            Some(i) => {
                self.includes_file_ids.remove(i);
                proof {
                    lemma_alookup_remove(s0, i as int);
                }
            },
            None => {
                proof {
                    lemma_alookup_absent(s0, file_id);
                }
            },
        }
        let ghost t0 = self.targets_or_packages@;
        match self.find_targets_idx(file_id) {
            Some(i) => {
                self.targets_or_packages.remove(i);
                proof {
                    lemma_alookup_remove(t0, i as int);
                }
            },
            None => {
                proof {
                    lemma_alookup_absent(t0, file_id);
                }
            },
        }
    }

    /// Drop everything.
    pub fn clear(&mut self)
        ensures
            final(self).wf(),
            forall|f: FileId| final(self).spec_includes(f) is None,
            forall|f: FileId| final(self).spec_targets(f) is None,
    {
        self.includes_file_ids.clear();
        self.targets_or_packages.clear();
        proof {
            assert forall|f: FileId| alookup(self.includes_file_ids@, f) is None by {
                lemma_alookup_absent(self.includes_file_ids@, f);
            }
            assert forall|f: FileId| alookup(self.targets_or_packages@, f) is None by {
                lemma_alookup_absent(self.targets_or_packages@, f);
            }
        }
    }
}

/// Whether consecutive entries of a file list are joined by include
/// edges.
pub open spec fn spec_include_path(x: LuaXmakeIndex, p: Seq<FileId>) -> bool {
    forall|k: int|
        0 <= k < p.len() - 1 ==> (#[trigger] x.spec_includes_seq(p[k])).contains(p[k + 1])
}

/// Whether a file is reachable from a source file over one or more
/// include edges.
pub open spec fn spec_include_reachable(x: LuaXmakeIndex, src: FileId, f: FileId) -> bool {
    exists|p: Seq<FileId>|
        p.len() >= 2 && p[0] == src && p.last() == f && spec_include_path(x, p)
}

/// What a computed include closure promises: distinct files, the
/// source excluded, every direct include of the source present, the
/// list closed under include edges, and every member reachable.
pub open spec fn spec_closure_ok(x: LuaXmakeIndex, src: FileId, files: Seq<FileId>) -> bool {
    &&& files.no_duplicates()
    &&& !files.contains(src)
    &&& forall|d: FileId| x.spec_includes_seq(src).contains(d) ==> d == src || files.contains(d)
    &&& forall|k: int|
        0 <= k < files.len() ==> forall|d: FileId|
            (#[trigger] x.spec_includes_seq(files[k])).contains(d) ==> d == src
                || files.contains(d)
    &&& forall|k: int| 0 <= k < files.len() ==> spec_include_reachable(
        x,
        src,
        #[trigger] files[k],
    )
}

/// The end of a valid include path from the source lands in any list
/// that holds the source's direct includes and is closed under edges.
proof fn lemma_path_end_in_closure(
    x: LuaXmakeIndex,
    src: FileId,
    files: Seq<FileId>,
    p: Seq<FileId>,
)
    requires
        forall|d: FileId| x.spec_includes_seq(src).contains(d) ==> d == src || files.contains(
            d,
        ),
        forall|k: int|
            0 <= k < files.len() ==> forall|d: FileId|
                (#[trigger] x.spec_includes_seq(files[k])).contains(d) ==> d == src
                    || files.contains(d),
        p.len() >= 2,
        p[0] == src,
        spec_include_path(x, p),
    ensures
        p.last() == src || files.contains(p.last()),
    decreases p.len(),
{
    if p.len() == 2 {
        assert(x.spec_includes_seq(src).contains(p[1]));
    } else {
        let q = p.drop_last();
        assert(spec_include_path(x, q)) by {
            assert(forall|k: int| 0 <= k < q.len() ==> #[trigger] q[k] == p[k]);
        }
        lemma_path_end_in_closure(x, src, files, q);
        let prev = q.last();
        assert(prev == p[p.len() - 2]);
        assert(x.spec_includes_seq(prev).contains(p.last()));
        if prev != src {
            let k = choose|k: int| 0 <= k < files.len() && files[k] == prev;
            assert(x.spec_includes_seq(files[k]).contains(p.last()));
        }
    }
}

/// Completeness of an include closure: a list holding the source's
/// direct includes and closed under include edges holds every file
/// reachable over one or more include edges, so transitive include
/// visibility misses nothing.
pub proof fn lemma_closure_complete(x: LuaXmakeIndex, src: FileId, files: Seq<FileId>)
    requires
        forall|d: FileId| x.spec_includes_seq(src).contains(d) ==> d == src || files.contains(
            d,
        ),
        forall|k: int|
            0 <= k < files.len() ==> forall|d: FileId|
                (#[trigger] x.spec_includes_seq(files[k])).contains(d) ==> d == src
                    || files.contains(d),
    ensures
        forall|f: FileId|
            f != src && spec_include_reachable(x, src, f) ==> #[trigger] files.contains(f),
{
    assert forall|f: FileId|
        f != src && spec_include_reachable(x, src, f) implies #[trigger] files.contains(
        f,
    ) by {
        let p = choose|p: Seq<FileId>|
            p.len() >= 2 && p[0] == src && p.last() == f && spec_include_path(x, p);
        lemma_path_end_in_closure(x, src, files, p);
    }
}

} // verus!
