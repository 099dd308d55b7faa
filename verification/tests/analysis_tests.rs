use xmake_analysis::analysis::analyze_files;
use xmake_analysis::db::DbIndex;
use xmake_analysis::ids::{FileId, LuaDeclId, LuaSemanticDeclId, TextRange};
use xmake_analysis::overload::{resolve_signature_by_args, LuaFunctionType, LuaParamInfo};
use xmake_analysis::syntax::{
    SyntaxArg, SyntaxArgKind, SyntaxCall, SyntaxChunk, SyntaxExpr, SyntaxStat, SyntaxStatKind,
    SyntaxTableField,
};
use xmake_analysis::property_index::XmakeScope;
use xmake_analysis::types::{InferFailReason, LuaType, LuaTypeCache};
use xmake_analysis::workspace::WorkspaceId;
use xmake_analysis::xmake_index::{get_xmake_function, XmakeFunction, XmakeTargetKind};
use xmake_analysis::decl::{LuaDecl, LuaDeclExtra, LuaDeclarationTree};
use xmake_analysis::global::LuaGlobalIndex;
use xmake_analysis::module_index::LuaModuleIndex;
use xmake_analysis::auto_import::{find_auto_import_anchor, AutoImportAnchor};
use xmake_analysis::diagnostic::CodeStyleCheckChecker;
use xmake_analysis::env::{add_global_env, add_include_env, include_closure};
use xmake_analysis::module_analyzer::analyze_xmake_export;

fn r(start: u32, end: u32) -> TextRange {
    TextRange::new(start, end)
}

fn str_arg(value: &str, start: u32, end: u32) -> SyntaxArg {
    SyntaxArg {
        range: r(start, end),
        syntax_kind: 5,
        kind: SyntaxArgKind::StrLiteral(value.to_string()),
    }
}

fn call_stat(stat: (u32, u32), call: (u32, u32), callee: &str, args: Vec<SyntaxArg>) -> SyntaxStat {
    SyntaxStat {
        range: r(stat.0, stat.1),
        kind: SyntaxStatKind::Call(SyntaxCall {
            range: r(call.0, call.1),
            callee: callee.to_string(),
            args,
        }),
    }
}

fn main_ws() -> WorkspaceId {
    WorkspaceId { id: 1 }
}

#[test]
fn test_implicit_block_end_at_next_opener() {
    // target("demo") with no end call, later target("demo2"): the first
    // block must end exactly where the second opening call starts.
    let f1 = FileId { id: 1 };
    let chunk = SyntaxChunk {
        file_id: f1,
        range: r(0, 100),
        stats: vec![
            call_stat((0, 20), (0, 18), "target", vec![str_arg("demo", 7, 13)]),
            call_stat((30, 50), (30, 48), "target", vec![str_arg("demo2", 37, 44)]),
        ],
    };
    let mut db = DbIndex::new();
    db.module_index.add_module(f1, "proj.xmake".to_string(), main_ws());
    analyze_files(&mut db, &vec![chunk]);
    let targets = db.get_xmake_index().get_targets_or_packages(f1).unwrap();
    assert_eq!(targets.len(), 2);
    assert_eq!(targets[0].name, "demo");
    assert_eq!(targets[0].range.start, 20);
    assert_eq!(targets[0].range.end, 30);
    assert_eq!(targets[1].name, "demo2");
    assert_eq!(targets[1].range.start, 50);
    assert_eq!(targets[1].range.end, 100);
}

#[test]
fn test_explicit_end_call_bounds_block() {
    let f1 = FileId { id: 1 };
    let chunk = SyntaxChunk {
        file_id: f1,
        range: r(0, 100),
        stats: vec![
            call_stat((0, 20), (0, 18), "package", vec![str_arg("zlib", 9, 15)]),
            call_stat((30, 45), (30, 43), "end_package", vec![]),
        ],
    };
    let mut db = DbIndex::new();
    analyze_files(&mut db, &vec![chunk]);
    let targets = db.get_xmake_index().get_targets_or_packages(f1).unwrap();
    assert_eq!(targets.len(), 1);
    assert_eq!(targets[0].kind, XmakeTargetKind::Package);
    // the block runs from the end of the opening statement to the end
    // of the matching end call
    assert_eq!(targets[0].range.start, 20);
    assert_eq!(targets[0].range.end, 43);
}

#[test]
fn test_block_ranges_ordered_and_disjoint() {
    let f1 = FileId { id: 1 };
    let chunk = SyntaxChunk {
        file_id: f1,
        range: r(0, 300),
        stats: vec![
            call_stat((0, 20), (0, 18), "target", vec![str_arg("a", 7, 10)]),
            call_stat((30, 50), (30, 48), "rule", vec![str_arg("b", 37, 40)]),
            call_stat((60, 80), (60, 78), "target", vec![str_arg("c", 67, 70)]),
        ],
    };
    let mut db = DbIndex::new();
    analyze_files(&mut db, &vec![chunk]);
    let targets = db.get_xmake_index().get_targets_or_packages(f1).unwrap();
    assert_eq!(targets.len(), 3);
    for i in 0..targets.len() {
        assert!(targets[i].range.start <= targets[i].range.end);
        for j in (i + 1)..targets.len() {
            if targets[i].kind == targets[j].kind {
                assert!(targets[i].range.end <= targets[j].range.start);
            }
        }
    }
}

#[test]
fn test_import_aliasing_binds_export_type() {
    // import("core.base.json", {alias = "j"}): expect a declaration
    // named `j` covering the call expression, typed with the export of
    // the file the path resolves to.
    let f1 = FileId { id: 1 };
    let f2 = FileId { id: 2 };
    let import_call = SyntaxStat {
        range: r(0, 50),
        kind: SyntaxStatKind::Call(SyntaxCall {
            range: r(0, 48),
            callee: "import".to_string(),
            args: vec![
                str_arg("core.base.json", 7, 23),
                SyntaxArg {
                    range: r(25, 40),
                    syntax_kind: 9,
                    kind: SyntaxArgKind::Table(vec![SyntaxTableField {
                        name: "alias".to_string(),
                        value: Some("j".to_string()),
                    }]),
                },
            ],
        }),
    };
    let chunk1 = SyntaxChunk { file_id: f1, range: r(0, 100), stats: vec![import_call] };
    let chunk2 = SyntaxChunk {
        file_id: f2,
        range: r(0, 10),
        stats: vec![SyntaxStat {
            range: r(0, 9),
            kind: SyntaxStatKind::Return(SyntaxExpr::Literal {
                ty: LuaType::Number,
                position: 7,
            }),
        }],
    };
    let mut db = DbIndex::new();
    db.module_index.add_module(f1, "proj.xmake".to_string(), main_ws());
    db.module_index
        .add_module(f2, "core.base.json".to_string(), WorkspaceId { id: 65000 });
    // the importing file comes first, so its binding must wait on the
    // deferred worklist until the exporting file is typed
    analyze_files(&mut db, &vec![chunk1, chunk2]);

    let tree = db.get_decl_index().get_decl_tree(f1).unwrap();
    let decl = tree.find_local_decl("j", 60).unwrap();
    assert_eq!(decl.get_range().start, 0);
    assert_eq!(decl.get_range().end, 48);

    let export = db.get_module_index().get_module(f2).unwrap().export_type;
    assert_eq!(export, Some(LuaType::Number));

    let cache = db
        .get_type_index()
        .get_type_cache(LuaSemanticDeclId::LuaDecl(LuaDeclId { file_id: f1, position: 0 }))
        .unwrap();
    assert_eq!(*cache, LuaTypeCache::InferType(LuaType::Number));
}

#[test]
fn test_global_scope_filtering_picks_matching_scope() {
    // two globals named set_flag, one Package-scoped, one Target-scoped;
    // a lookup inside a Target block must answer the Target one.
    let f1 = FileId { id: 1 };
    let chunk = SyntaxChunk {
        file_id: f1,
        range: r(0, 200),
        stats: vec![
            SyntaxStat {
                range: r(0, 30),
                kind: SyntaxStatKind::Func {
                    name: "set_flag".to_string(),
                    name_range: r(9, 17),
                    closure_pos: 20,
                    scope: Some(XmakeScope::Package),
                },
            },
            SyntaxStat {
                range: r(40, 70),
                kind: SyntaxStatKind::Func {
                    name: "set_flag".to_string(),
                    name_range: r(49, 57),
                    closure_pos: 60,
                    scope: Some(XmakeScope::Target),
                },
            },
            call_stat((80, 100), (80, 98), "target", vec![str_arg("demo", 87, 93)]),
        ],
    };
    let mut db = DbIndex::new();
    analyze_files(&mut db, &vec![chunk]);

    let resolved = db
        .get_global_index()
        .resolve_global_decl_id(&db, "set_flag", f1, 150)
        .unwrap();
    assert_eq!(resolved, LuaDeclId { file_id: f1, position: 49 });

    // global resolution is deterministic: the same lookup answers the
    // same declaration
    let again = db
        .get_global_index()
        .resolve_global_decl_id(&db, "set_flag", f1, 150)
        .unwrap();
    assert_eq!(resolved, again);
}

#[test]
fn test_include_cycle_terminates_with_unknown() {
    // a imports b and b imports a: the drain loop must terminate and
    // both exports must settle on the Unknown sentinel.
    let f1 = FileId { id: 1 };
    let f2 = FileId { id: 2 };
    let chunk1 = SyntaxChunk {
        file_id: f1,
        range: r(0, 20),
        stats: vec![SyntaxStat {
            range: r(0, 19),
            kind: SyntaxStatKind::Return(SyntaxExpr::ImportCall {
                path: "b".to_string(),
                position: 5,
            }),
        }],
    };
    let chunk2 = SyntaxChunk {
        file_id: f2,
        range: r(0, 20),
        stats: vec![SyntaxStat {
            range: r(0, 19),
            kind: SyntaxStatKind::Return(SyntaxExpr::ImportCall {
                path: "a".to_string(),
                position: 5,
            }),
        }],
    };
    let mut db = DbIndex::new();
    db.module_index.add_module(f1, "a".to_string(), main_ws());
    db.module_index.add_module(f2, "b".to_string(), main_ws());
    analyze_files(&mut db, &vec![chunk1, chunk2]);

    assert_eq!(
        db.get_module_index().get_module(f1).unwrap().export_type,
        Some(LuaType::Unknown)
    );
    assert_eq!(
        db.get_module_index().get_module(f2).unwrap().export_type,
        Some(LuaType::Unknown)
    );
}

fn demo_chunks() -> Vec<SyntaxChunk> {
    let f1 = FileId { id: 1 };
    let f2 = FileId { id: 2 };
    let chunk1 = SyntaxChunk {
        file_id: f1,
        range: r(0, 100),
        stats: vec![
            SyntaxStat {
                range: r(0, 18),
                kind: SyntaxStatKind::Local(vec![xmake_analysis::syntax::SyntaxLocalItem {
                    name: "cfg".to_string(),
                    name_range: r(6, 9),
                    init_kind: 3,
                }]),
            },
            call_stat((20, 40), (20, 38), "target", vec![str_arg("demo", 27, 33)]),
            call_stat((50, 70), (50, 68), "includes", vec![str_arg("sub/utils.lua", 59, 66)]),
        ],
    };
    let chunk2 = SyntaxChunk {
        file_id: f2,
        range: r(0, 30),
        stats: vec![SyntaxStat {
            range: r(0, 29),
            kind: SyntaxStatKind::Return(SyntaxExpr::Table { position: 7 }),
        }],
    };
    vec![chunk1, chunk2]
}

fn snapshot(db: &DbIndex) -> (Vec<(String, u32, u32)>, Vec<(String, u32, u32)>, Vec<Option<LuaType>>) {
    let f1 = FileId { id: 1 };
    let f2 = FileId { id: 2 };
    let mut decls = Vec::new();
    let tree = db.get_decl_index().get_decl_tree(f1).unwrap();
    for d in &tree.decls {
        decls.push((d.name.clone(), d.range.start, d.range.end));
    }
    let mut targets = Vec::new();
    if let Some(ts) = db.get_xmake_index().get_targets_or_packages(f1) {
        for t in ts {
            targets.push((t.name.clone(), t.range.start, t.range.end));
        }
    }
    let exports = vec![
        db.get_module_index().get_module(f1).and_then(|m| m.export_type),
        db.get_module_index().get_module(f2).and_then(|m| m.export_type),
    ];
    (decls, targets, exports)
}

#[test]
fn test_full_analysis_is_idempotent() {
    // re-running the full analysis on an unchanged file set yields
    // bit-identical declaration ranges, export types and block ranges.
    let f1 = FileId { id: 1 };
    let f2 = FileId { id: 2 };

    let mut db1 = DbIndex::new();
    db1.module_index.add_module(f1, "proj.xmake".to_string(), main_ws());
    db1.module_index.add_module(f2, "proj.sub.utils".to_string(), main_ws());
    analyze_files(&mut db1, &demo_chunks());
    let first = snapshot(&db1);

    let mut db2 = DbIndex::new();
    db2.module_index.add_module(f1, "proj.xmake".to_string(), main_ws());
    db2.module_index.add_module(f2, "proj.sub.utils".to_string(), main_ws());
    analyze_files(&mut db2, &demo_chunks());
    let second = snapshot(&db2);

    assert_eq!(first, second);

    // and after purging the file, re-analysis restores the same state
    let mut db3 = DbIndex::new();
    db3.module_index.add_module(f1, "proj.xmake".to_string(), main_ws());
    db3.module_index.add_module(f2, "proj.sub.utils".to_string(), main_ws());
    analyze_files(&mut db3, &demo_chunks());
    db3.remove(f1);
    db3.remove(f2);
    db3.module_index.add_module(f1, "proj.xmake".to_string(), main_ws());
    db3.module_index.add_module(f2, "proj.sub.utils".to_string(), main_ws());
    analyze_files(&mut db3, &demo_chunks());
    assert_eq!(snapshot(&db3), first);
}

#[test]
fn test_includes_edge_recorded_by_suffix_match() {
    let f1 = FileId { id: 1 };
    let f2 = FileId { id: 2 };
    let mut db = DbIndex::new();
    db.module_index.add_module(f1, "proj.xmake".to_string(), main_ws());
    db.module_index.add_module(f2, "proj.sub.utils".to_string(), main_ws());
    analyze_files(&mut db, &demo_chunks());
    let includes = db.get_xmake_index().get_includes(f1).unwrap();
    assert_eq!(includes.len(), 1);
    assert_eq!(includes[0], f2);
}

#[test]
fn test_export_fallback_without_return() {
    // no return statement and no typed main: the file exports the
    // self-reference marker
    let f1 = FileId { id: 1 };
    let chunk = SyntaxChunk {
        file_id: f1,
        range: r(0, 40),
        stats: vec![SyntaxStat {
            range: r(0, 18),
            kind: SyntaxStatKind::Local(vec![xmake_analysis::syntax::SyntaxLocalItem {
                name: "x".to_string(),
                name_range: r(6, 7),
                init_kind: 3,
            }]),
        }],
    };
    let mut db = DbIndex::new();
    db.module_index.add_module(f1, "proj.xmake".to_string(), main_ws());
    analyze_files(&mut db, &vec![chunk]);
    assert_eq!(
        db.get_module_index().get_module(f1).unwrap().export_type,
        Some(LuaType::ModuleRef(f1))
    );
}

#[test]
fn test_db_remove_purges_every_structure() {
    let f1 = FileId { id: 1 };
    let f2 = FileId { id: 2 };
    let mut db = DbIndex::new();
    db.module_index.add_module(f1, "proj.xmake".to_string(), main_ws());
    db.module_index.add_module(f2, "proj.sub.utils".to_string(), main_ws());
    analyze_files(&mut db, &demo_chunks());
    assert!(db.get_decl_index().get_decl_tree(f1).is_some());
    db.remove(f1);
    assert!(db.get_decl_index().get_decl_tree(f1).is_none());
    assert!(db.get_xmake_index().get_targets_or_packages(f1).is_none());
    assert!(db.get_xmake_index().get_includes(f1).is_none());
    assert!(db.get_module_index().get_module(f1).is_none());
    // the other file's records stay
    assert!(db.get_decl_index().get_decl_tree(f2).is_some());
}

#[test]
fn test_overload_short_circuit_picks_two_param_signature() {
    // overloads f(a: number) and f(a: number, b: number); a call with
    // two number arguments answers the two-parameter overload.
    let db = DbIndex::new();
    let one = LuaFunctionType {
        is_colon_define: false,
        params: vec![LuaParamInfo { name: "a".to_string(), ty: Some(LuaType::Number) }],
    };
    let two = LuaFunctionType {
        is_colon_define: false,
        params: vec![
            LuaParamInfo { name: "a".to_string(), ty: Some(LuaType::Number) },
            LuaParamInfo { name: "b".to_string(), ty: Some(LuaType::Number) },
        ],
    };
    let overloads = vec![one, two];
    let args = vec![LuaType::Number, LuaType::Number];
    let chosen = resolve_signature_by_args(&db, &overloads, &args, false, Some(2)).unwrap();
    assert_eq!(chosen.params.len(), 2);
}

#[test]
fn test_overload_edge_rules() {
    let db = DbIndex::new();
    let empty: Vec<LuaFunctionType> = Vec::new();
    let no_args: Vec<LuaType> = Vec::new();
    assert!(matches!(
        resolve_signature_by_args(&db, &empty, &no_args, false, None),
        Err(InferFailReason::Unresolvable)
    ));

    let zero = LuaFunctionType { is_colon_define: false, params: vec![] };
    let one = LuaFunctionType {
        is_colon_define: false,
        params: vec![LuaParamInfo { name: "a".to_string(), ty: None }],
    };
    // a single overload answers immediately
    let only = vec![one];
    let chosen = resolve_signature_by_args(&db, &only, &no_args, false, None).unwrap();
    assert_eq!(chosen.params.len(), 1);
    // with no arguments, the first zero-parameter overload wins
    let one2 = LuaFunctionType {
        is_colon_define: false,
        params: vec![LuaParamInfo { name: "a".to_string(), ty: None }],
    };
    let pair = vec![one2, zero];
    let chosen = resolve_signature_by_args(&db, &pair, &no_args, false, None).unwrap();
    assert_eq!(chosen.params.len(), 0);
}

#[test]
fn test_variadic_tail_accepts_extra_arguments() {
    let db = DbIndex::new();
    let variadic = LuaFunctionType {
        is_colon_define: false,
        params: vec![
            LuaParamInfo { name: "a".to_string(), ty: Some(LuaType::Str) },
            LuaParamInfo { name: "...".to_string(), ty: None },
        ],
    };
    let fixed = LuaFunctionType {
        is_colon_define: false,
        params: vec![LuaParamInfo { name: "a".to_string(), ty: Some(LuaType::Number) }],
    };
    let overloads = vec![variadic, fixed];
    let args = vec![LuaType::Str, LuaType::Str, LuaType::Str];
    let chosen = resolve_signature_by_args(&db, &overloads, &args, false, None).unwrap();
    assert_eq!(chosen.params.len(), 2);
    assert_eq!(chosen.params[1].name, "...");
}

#[test]
fn test_call_form_classification() {
    assert_eq!(get_xmake_function("import"), Some(XmakeFunction::Import));
    assert_eq!(get_xmake_function("includes"), Some(XmakeFunction::Includes));
    assert_eq!(get_xmake_function("target"), Some(XmakeFunction::Target));
    assert_eq!(get_xmake_function("end_target"), Some(XmakeFunction::EndTarget));
    assert_eq!(get_xmake_function("package"), Some(XmakeFunction::Package));
    assert_eq!(get_xmake_function("end_package"), Some(XmakeFunction::EndPackage));
    assert_eq!(get_xmake_function("option"), Some(XmakeFunction::Option));
    assert_eq!(get_xmake_function("rule"), Some(XmakeFunction::Rule));
    assert_eq!(get_xmake_function("task"), Some(XmakeFunction::Task));
    assert_eq!(get_xmake_function("add_files"), Some(XmakeFunction::AddFiles));
    assert_eq!(get_xmake_function("add_deps"), Some(XmakeFunction::AddDeps));
    assert_eq!(get_xmake_function("print"), None);

    assert_eq!(XmakeTargetKind::parse("target"), Some(XmakeTargetKind::Target));
    assert_eq!(XmakeTargetKind::parse("package"), Some(XmakeTargetKind::Package));
    assert_eq!(XmakeTargetKind::parse("option"), Some(XmakeTargetKind::Option));
    assert_eq!(XmakeTargetKind::parse("rule"), Some(XmakeTargetKind::Rule));
    assert_eq!(XmakeTargetKind::parse("task"), Some(XmakeTargetKind::Task));
    assert_eq!(XmakeTargetKind::parse("unknown"), None);
    assert!(XmakeTargetKind::Target.is_target());
    assert!(XmakeTargetKind::Package.is_package());
    assert!(XmakeTargetKind::Rule.is_rule());
    assert!(XmakeTargetKind::Option.is_option());
    assert!(XmakeTargetKind::Task.is_task());
}

#[test]
fn test_find_local_decl_innermost_wins() {
    let f1 = FileId { id: 1 };
    let mut tree = LuaDeclarationTree::new(f1, r(0, 100));
    tree.add_decl(LuaDecl::new("x", f1, r(0, 5), r(0, 100), LuaDeclExtra::Local { kind: 1 }));
    tree.add_decl(LuaDecl::new("x", f1, r(20, 25), r(10, 60), LuaDeclExtra::Local { kind: 1 }));
    tree.add_decl(LuaDecl::new("y", f1, r(30, 35), r(0, 100), LuaDeclExtra::Local { kind: 1 }));
    // at position 50 both x declarations are visible; the later one wins
    let d = tree.find_local_decl("x", 50).unwrap();
    assert_eq!(d.get_range().start, 20);
    // at position 70 the inner scope is closed
    let d = tree.find_local_decl("x", 70).unwrap();
    assert_eq!(d.get_range().start, 0);
    // a name bound nowhere resolves to nothing
    assert!(tree.find_local_decl("z", 50).is_none());
}

#[test]
fn test_global_index_buckets_and_removal() {
    let f1 = FileId { id: 1 };
    let f2 = FileId { id: 2 };
    let mut index = LuaGlobalIndex::new();
    index.add_global_decl("helper", LuaDeclId { file_id: f1, position: 3 });
    index.add_global_decl("helper", LuaDeclId { file_id: f2, position: 7 });
    index.add_global_decl("other", LuaDeclId { file_id: f1, position: 9 });
    assert!(index.is_exist_global_decl("helper"));
    assert_eq!(index.get_global_decl_ids("helper").unwrap().len(), 2);
    assert_eq!(index.get_all_global_decl_ids().len(), 3);
    index.remove(f1);
    assert_eq!(index.get_global_decl_ids("helper").unwrap().len(), 1);
    assert!(!index.is_exist_global_decl("other"));
}

#[test]
fn test_module_path_resolution() {
    let f1 = FileId { id: 1 };
    let f2 = FileId { id: 2 };
    let f3 = FileId { id: 3 };
    let mut index = LuaModuleIndex::new();
    index.add_module(f1, "proj.app.main".to_string(), main_ws());
    index.add_module(f2, "proj.app.util".to_string(), main_ws());
    index.add_module(f3, "util".to_string(), WorkspaceId { id: 65000 });

    assert_eq!(index.find_module("proj.app.util"), Some(f2));
    assert_eq!(index.find_module("missing"), None);
    // a colocated module wins over the builtin import root
    assert_eq!(index.find_import("util", f1), Some(f2));
    // without a colocated match the builtin root answers
    assert_eq!(index.find_import("util", f3), Some(f3));
    // include paths match by dot-separated suffix, extension dropped
    assert_eq!(index.find_include("app/util.lua", f1), Some(f2));
    assert_eq!(index.find_include("util.lua", f1), Some(f2));
    assert_eq!(index.find_include("nothing/here.lua", f1), None);
}

#[test]
fn test_text_range_contains() {
    let range = r(10, 20);
    assert!(!range.contains(9));
    assert!(range.contains(10));
    assert!(range.contains(19));
    assert!(!range.contains(20));
}

#[test]
fn test_auto_import_anchor_rules() {
    let f1 = FileId { id: 1 };
    let chunk = SyntaxChunk {
        file_id: f1,
        range: r(0, 100),
        stats: vec![
            call_stat((0, 20), (0, 18), "import", vec![str_arg("core.base.json", 7, 16)]),
            call_stat((30, 50), (30, 48), "target", vec![str_arg("demo", 37, 43)]),
        ],
    };
    // below both statements: insert after the import, which ends at 20
    assert_eq!(
        find_auto_import_anchor(&chunk, 90),
        Some(AutoImportAnchor::AfterImport(20))
    );
    // above every import: insert before the first statement
    let chunk2 = SyntaxChunk {
        file_id: f1,
        range: r(0, 100),
        stats: vec![call_stat((5, 25), (5, 23), "target", vec![str_arg("demo", 12, 18)])],
    };
    assert_eq!(
        find_auto_import_anchor(&chunk2, 90),
        Some(AutoImportAnchor::BeforeFirst(5))
    );
    // an empty chunk offers no anchor
    let empty = SyntaxChunk { file_id: f1, range: r(0, 0), stats: vec![] };
    assert_eq!(find_auto_import_anchor(&empty, 0), None);
}

#[test]
fn test_code_style_checker_reports_nothing() {
    let db = DbIndex::new();
    assert!(CodeStyleCheckChecker::check(&db, FileId { id: 1 }).is_empty());
}

#[test]
fn test_empty_workspace_analysis() {
    let mut db = DbIndex::new();
    analyze_files(&mut db, &vec![]);
    assert!(db.get_decl_index().get_decl_tree(FileId { id: 1 }).is_none());
}

#[test]
fn test_global_resolution_single_candidate_wins() {
    let f1 = FileId { id: 1 };
    let mut db = DbIndex::new();
    db.global_index
        .add_global_decl("only", LuaDeclId { file_id: f1, position: 4 });
    let resolved = db.get_global_index().resolve_global_decl_id(&db, "only", f1, 0);
    assert_eq!(resolved, Some(LuaDeclId { file_id: f1, position: 4 }));
    assert_eq!(
        db.get_global_index().resolve_global_decl_id(&db, "absent", f1, 0),
        None
    );
}

#[test]
fn test_env_completions_respect_duplicates_and_filter() {
    let f1 = FileId { id: 1 };
    let chunk = SyntaxChunk {
        file_id: f1,
        range: r(0, 100),
        stats: vec![
            SyntaxStat {
                range: r(0, 20),
                kind: SyntaxStatKind::Func {
                    name: "set_flag".to_string(),
                    name_range: r(9, 17),
                    closure_pos: 18,
                    scope: None,
                },
            },
            SyntaxStat {
                range: r(30, 50),
                kind: SyntaxStatKind::Func {
                    name: "other".to_string(),
                    name_range: r(39, 44),
                    closure_pos: 45,
                    scope: None,
                },
            },
        ],
    };
    let mut db = DbIndex::new();
    analyze_files(&mut db, &vec![chunk]);
    let mut dups = vec!["other".to_string()];
    let completions = add_global_env(&db, &mut dups, "se", r(90, 95));
    assert_eq!(completions.len(), 1);
    assert_eq!(completions[0].name, "set_flag");
    assert!(dups.contains(&"set_flag".to_string()));
}

#[test]
fn test_export_fallback_typed_main() {
    // a top-level function named main with a committed signature type:
    // the file exports that type
    let f1 = FileId { id: 1 };
    let chunk = SyntaxChunk {
        file_id: f1,
        range: r(0, 60),
        stats: vec![SyntaxStat {
            range: r(0, 40),
            kind: SyntaxStatKind::Func {
                name: "main".to_string(),
                name_range: r(9, 13),
                closure_pos: 15,
                scope: None,
            },
        }],
    };
    let mut db = DbIndex::new();
    db.module_index.add_module(f1, "proj.xmake".to_string(), main_ws());
    analyze_files(&mut db, &vec![chunk]);
    assert_eq!(
        db.get_module_index().get_module(f1).unwrap().export_type,
        Some(LuaType::Signature(xmake_analysis::ids::LuaSignatureId {
            file_id: f1,
            position: 15
        }))
    );
}

#[test]
fn test_export_fallback_untyped_main_is_self_reference() {
    // a top-level local named main without any cached type: the file
    // still exports the self-reference marker
    let f1 = FileId { id: 1 };
    let mut db = DbIndex::new();
    db.module_index.add_module(f1, "proj.xmake".to_string(), main_ws());
    let mut tree = LuaDeclarationTree::new(f1, r(0, 60));
    tree.add_decl(LuaDecl::new("main", f1, r(6, 10), r(0, 60), LuaDeclExtra::Local {
        kind: 0,
    }));
    db.decl_index.add_decl_tree(tree);
    let chunk = SyntaxChunk { file_id: f1, range: r(0, 60), stats: vec![] };
    analyze_xmake_export(&mut db, &chunk);
    assert_eq!(
        db.get_module_index().get_module(f1).unwrap().export_type,
        Some(LuaType::ModuleRef(f1))
    );
}

#[test]
fn test_include_env_walks_transitive_closure() {
    // f1 includes f2, f2 includes f3: exports of both f2 and f3 are
    // offered from f1, and the closure misses neither file
    let f1 = FileId { id: 1 };
    let f2 = FileId { id: 2 };
    let f3 = FileId { id: 3 };
    let chunk1 = SyntaxChunk {
        file_id: f1,
        range: r(0, 100),
        stats: vec![call_stat((0, 30), (0, 28), "includes", vec![str_arg("two.lua", 10, 20)])],
    };
    let chunk2 = SyntaxChunk {
        file_id: f2,
        range: r(0, 100),
        stats: vec![
            call_stat((0, 30), (0, 28), "includes", vec![str_arg("three.lua", 10, 20)]),
            SyntaxStat {
                range: r(40, 60),
                kind: SyntaxStatKind::Local(vec![xmake_analysis::syntax::SyntaxLocalItem {
                    name: "helper_two".to_string(),
                    name_range: r(46, 56),
                    init_kind: 0,
                }]),
            },
        ],
    };
    let chunk3 = SyntaxChunk {
        file_id: f3,
        range: r(0, 100),
        stats: vec![SyntaxStat {
            range: r(0, 24),
            kind: SyntaxStatKind::Local(vec![xmake_analysis::syntax::SyntaxLocalItem {
                name: "helper_three".to_string(),
                name_range: r(6, 18),
                init_kind: 0,
            }]),
        }],
    };
    let mut db = DbIndex::new();
    db.module_index.add_module(f1, "proj.one".to_string(), main_ws());
    db.module_index.add_module(f2, "proj.two".to_string(), main_ws());
    db.module_index.add_module(f3, "proj.three".to_string(), main_ws());
    analyze_files(&mut db, &vec![chunk1, chunk2, chunk3]);

    let closure = include_closure(&db, f1);
    assert!(closure.contains(&f2));
    assert!(closure.contains(&f3));
    assert_eq!(closure.len(), 2);

    let mut dups: Vec<String> = Vec::new();
    let completions = add_include_env(&db, &mut dups, f1, "help", r(90, 95));
    let names: Vec<&str> = completions.iter().map(|c| c.name.as_str()).collect();
    assert!(names.contains(&"helper_two"));
    assert!(names.contains(&"helper_three"));
    assert_eq!(completions.len(), 2);
}
