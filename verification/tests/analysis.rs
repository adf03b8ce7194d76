//! End-to-end scenarios over the analysis entry point, and unit tests of
//! the value machinery.

use module_refs::analyze::{module_references, ModuleAssetType, CompileTarget, Severity,
    DiagnosticCode, Diagnostic};
use module_refs::ast::{Expr, MemberProp, Callee, VarDeclarator, Stmt, ImportSpecifier,
    ImportDecl, ModuleItem, CommentKind, Comment, Module, ParseResult};
use module_refs::graph::Span;
use module_refs::host::{HostAnswers, CjsAnswer, ResolveEntry};
use module_refs::graph::Span as GSpan;
use module_refs::pattern::{Pattern, pattern_has_constant_parts, eq_pattern, pattern_matches};
use module_refs::refs::{AssetReference, WebpackRuntime, ResolvePlan, u64_to_string,
    i64_to_string, WebpackChunkAssetReference};
use module_refs::value::{JsValue, JsConst, FreeVarKind, eq_value, dup};
use module_refs::normalize::normalize;
use module_refs::analyze::parse_ts_directive;
use module_refs::refs::{WebpackRuntimeAssetReference, TsReferencePathAssetReference, Request};
use module_refs::graph::VarGraph;
use module_refs::link::link;

fn host(source_path: &str, source_dir: &str) -> HostAnswers {
    HostAnswers {
        source_path: source_path.to_string(),
        source_dir: source_dir.to_string(),
        resolve: Vec::new(),
        package_json: None,
        tsconfig: None,
        webpack: Vec::new(),
    }
}

fn sp(lo: u32) -> Span {
    Span { lo, hi: lo + 1 }
}

fn lit(s: &str) -> Expr {
    Expr::Lit(JsConst::Str(s.to_string()))
}

fn ident(s: &str) -> Expr {
    Expr::Ident(s.to_string())
}

fn call(callee: Expr, args: Vec<Expr>, lo: u32) -> Expr {
    Expr::Call {
        callee: Box::new(Callee::Expr(Box::new(callee))),
        args,
        span: sp(lo),
    }
}

fn member(obj: Expr, prop: &str) -> Expr {
    Expr::Member { obj: Box::new(obj), prop: MemberProp::Ident(prop.to_string()) }
}

fn default_import(local: &str, src: &str) -> ModuleItem {
    ModuleItem::Import(ImportDecl {
        src: src.to_string(),
        type_only: false,
        specifiers: vec![ImportSpecifier::Default { local: local.to_string() }],
    })
}

fn namespace_import(local: &str, src: &str) -> ModuleItem {
    ModuleItem::Import(ImportDecl {
        src: src.to_string(),
        type_only: false,
        specifiers: vec![ImportSpecifier::Namespace { local: local.to_string() }],
    })
}

fn bare_import(src: &str) -> ModuleItem {
    ModuleItem::Import(ImportDecl {
        src: src.to_string(),
        type_only: false,
        specifiers: Vec::new(),
    })
}

fn analyze(ty: ModuleAssetType, m: Module, h: &HostAnswers) -> module_refs::analyze::AnalysisResult {
    module_references(ty, CompileTarget { is_server: false }, &ParseResult::Parsed(m), h)
}

fn esm_request(r: &AssetReference) -> Option<String> {
    match r {
        AssetReference::Esm(e) => match &e.request.request {
            Pattern::Constant(s) => Some(s.clone()),
            _ => None,
        },
        _ => None,
    }
}

#[test]
fn two_imports_two_esm_references() {
    let m = Module {
        items: vec![default_import("x", "./a"), bare_import("./b")],
        leading_comments: Vec::new(),
    };
    let r = analyze(ModuleAssetType::Ecmascript, m, &host("src/index.js", "src"));
    assert_eq!(r.references.len(), 2);
    assert_eq!(esm_request(&r.references[0]).unwrap(), "./a");
    assert_eq!(esm_request(&r.references[1]).unwrap(), "./b");
    assert_eq!(r.diagnostics.len(), 0);
}

#[test]
fn dynamic_require_emits_reference_and_lint() {
    // const m = "./" + pkg + ".js"; require(m); inside a function taking pkg
    let body = vec![
        Stmt::VarDecl(vec![VarDeclarator {
            name: Some("m".to_string()),
            init: Some(Expr::Bin {
                left: Box::new(Expr::Bin {
                    left: Box::new(lit("./")),
                    right: Box::new(ident("pkg")),
                }),
                right: Box::new(lit(".js")),
            }),
        }]),
        Stmt::Expr(call(ident("require"), vec![ident("m")], 7)),
    ];
    let m = Module {
        items: vec![ModuleItem::Stmt(Stmt::FnDecl {
            name: "load".to_string(),
            params: vec!["pkg".to_string()],
            body,
        })],
        leading_comments: Vec::new(),
    };
    let r = analyze(ModuleAssetType::Ecmascript, m, &host("src/index.js", "src"));
    assert_eq!(r.references.len(), 1);
    match &r.references[0] {
        AssetReference::Cjs(c) => {
            assert!(!pattern_has_constant_parts(&c.request.request));
            match &c.request.request {
                Pattern::Concatenation(parts) => {
                    assert_eq!(parts.len(), 2);
                    assert!(matches!(&parts[1], Pattern::Constant(s) if s == ".js"));
                }
                other => panic!("unexpected pattern {other:?}"),
            }
        }
        other => panic!("unexpected reference {other:?}"),
    }
    assert_eq!(r.diagnostics.len(), 1);
    assert_eq!(r.diagnostics[0].severity, Severity::Lint);
    assert_eq!(r.diagnostics[0].code, DiagnosticCode::Require);
    assert_eq!(r.diagnostics[0].span, sp(7));
}

#[test]
fn require_resolve_with_two_arguments_is_an_error() {
    // require.resolve("foo", otherArg);
    let m = Module {
        items: vec![ModuleItem::Stmt(Stmt::Expr(call(
            member(ident("require"), "resolve"),
            vec![lit("foo"), ident("otherArg")],
            3,
        )))],
        leading_comments: Vec::new(),
    };
    let r = analyze(ModuleAssetType::Ecmascript, m, &host("src/index.js", "src"));
    assert_eq!(r.references.len(), 0);
    assert_eq!(r.diagnostics.len(), 1);
    assert_eq!(r.diagnostics[0].severity, Severity::Error);
    assert_eq!(r.diagnostics[0].code, DiagnosticCode::RequireResolve);
}

#[test]
fn leading_types_directive_in_typescript() {
    let m = Module {
        items: vec![default_import("x", "./a")],
        leading_comments: vec![Comment {
            kind: CommentKind::Line,
            text: "/ <reference types=\"node\" />".to_string(),
        }],
    };
    let r = analyze(ModuleAssetType::Typescript, m, &host("src/index.ts", "src"));
    assert_eq!(r.references.len(), 2);
    match &r.references[0] {
        AssetReference::TsReferenceType(t) => assert_eq!(t.module, "node"),
        other => panic!("unexpected reference {other:?}"),
    }
    assert_eq!(esm_request(&r.references[1]).unwrap(), "./a");
    assert_eq!(r.diagnostics.len(), 0);
}

#[test]
fn webpack_runtime_entry_and_chunks() {
    // var __webpack_require__ = require("./runtime.js");
    // __webpack_require__.C(); __webpack_require__.X(0, ["a", 7], f);
    let decl = Stmt::VarDecl(vec![VarDeclarator {
        name: Some("__webpack_require__".to_string()),
        init: Some(call(ident("require"), vec![lit("./runtime.js")], 1)),
    }]);
    let entry = Stmt::Expr(call(member(ident("__webpack_require__"), "C"), Vec::new(), 2));
    let chunks = Stmt::Expr(call(
        member(ident("__webpack_require__"), "X"),
        vec![
            Expr::Lit(JsConst::Num(0)),
            Expr::Array {
                elems: vec![
                    lit("a"),
                    Expr::Lit(JsConst::Num(7)),
                    Expr::Lit(JsConst::Bool(true)),
                    ident("f"),
                ],
            },
            ident("f"),
        ],
        3,
    ));
    let m = Module {
        items: vec![
            ModuleItem::Stmt(decl),
            ModuleItem::Stmt(entry),
            ModuleItem::Stmt(chunks),
        ],
        leading_comments: Vec::new(),
    };
    let mut h = host("src/index.js", "src");
    h.webpack = vec![(
        "./runtime.js".to_string(),
        WebpackRuntime::Webpack5 { context_path: "src".to_string() },
    )];
    let r = analyze(ModuleAssetType::Ecmascript, m, &h);
    assert_eq!(r.references.len(), 4);
    assert!(matches!(&r.references[0], AssetReference::WebpackRuntime(_)));
    assert!(matches!(&r.references[1], AssetReference::WebpackEntry(_)));
    match (&r.references[2], &r.references[3]) {
        (AssetReference::WebpackChunk(a), AssetReference::WebpackChunk(b)) => {
            assert!(matches!(&a.chunk_id, JsConst::Str(s) if s == "a"));
            assert!(matches!(&b.chunk_id, JsConst::Num(7)));
        }
        other => panic!("unexpected references {other:?}"),
    }
    // The require("./runtime.js") call itself is suppressed: no CJS edge.
    assert_eq!(r.diagnostics.len(), 0);
}

#[test]
fn path_join_and_fs_read() {
    // const p = path.join(__dirname, "data", name + ".json"); fs.readFile(p);
    let body = vec![
        Stmt::VarDecl(vec![VarDeclarator {
            name: Some("p".to_string()),
            init: Some(call(
                member(ident("path"), "join"),
                vec![
                    ident("__dirname"),
                    lit("data"),
                    Expr::Bin {
                        left: Box::new(ident("name")),
                        right: Box::new(lit(".json")),
                    },
                ],
                5,
            )),
        }]),
        Stmt::Expr(call(member(ident("fs"), "readFile"), vec![ident("p")], 6)),
    ];
    let m = Module {
        items: vec![
            namespace_import("path", "path"),
            namespace_import("fs", "fs"),
            ModuleItem::Stmt(Stmt::FnDecl {
                name: "read".to_string(),
                params: vec!["name".to_string()],
                body,
            }),
        ],
        leading_comments: Vec::new(),
    };
    let r = analyze(ModuleAssetType::Ecmascript, m, &host("src/index.js", "src"));
    // Two ESM edges for the imports, the raw reference of the join call,
    // and the raw reference of the read call.
    assert_eq!(r.references.len(), 4);
    match &r.references[3] {
        AssetReference::Source(s) => match &s.path {
            Pattern::Concatenation(parts) => {
                assert!(matches!(&parts[0], Pattern::Constant(c) if c == "/ROOT/src/data/"));
            }
            other => panic!("unexpected pattern {other:?}"),
        },
        other => panic!("unexpected reference {other:?}"),
    }
    let fs_lints: Vec<_> = r
        .diagnostics
        .iter()
        .filter(|d| d.code == DiagnosticCode::FsMethod)
        .collect();
    assert_eq!(fs_lints.len(), 1);
    assert_eq!(fs_lints[0].severity, Severity::Lint);
}

#[test]
fn require_resolve_folds_through_the_resolver_table() {
    // const p = require.resolve("dep"); require(p);
    let m = Module {
        items: vec![
            ModuleItem::Stmt(Stmt::VarDecl(vec![VarDeclarator {
                name: Some("p".to_string()),
                init: Some(call(member(ident("require"), "resolve"), vec![lit("dep")], 4)),
            }])),
            ModuleItem::Stmt(Stmt::Expr(call(ident("require"), vec![ident("p")], 5))),
        ],
        leading_comments: Vec::new(),
    };
    let mut h = host("src/index.js", "src");
    h.resolve = vec![ResolveEntry {
        pattern: Pattern::Constant("dep".to_string()),
        answer: CjsAnswer::Single("node_modules/dep/index.js".to_string()),
    }];
    let r = analyze(ModuleAssetType::Ecmascript, m, &h);
    // The require.resolve call emits a CJS edge, and the require of the
    // folded absolute path emits another with the resolved path.
    assert_eq!(r.references.len(), 2);
    match &r.references[1] {
        AssetReference::Cjs(c) => match &c.request.request {
            Pattern::Constant(s) => assert_eq!(s, "/ROOT/node_modules/dep/index.js"),
            other => panic!("unexpected pattern {other:?}"),
        },
        other => panic!("unexpected reference {other:?}"),
    }
    assert_eq!(r.diagnostics.len(), 0);
}

#[test]
fn unparseable_input_gives_no_references() {
    let mut h = host("src/index.js", "src");
    h.package_json = Some("package.json".to_string());
    let r = module_references(
        ModuleAssetType::Ecmascript,
        CompileTarget { is_server: false },
        &ParseResult::Unparseable,
        &h,
    );
    assert_eq!(r.references.len(), 0);
    assert_eq!(r.diagnostics.len(), 0);
    let n = module_references(
        ModuleAssetType::Ecmascript,
        CompileTarget { is_server: false },
        &ParseResult::NotFound,
        &h,
    );
    assert_eq!(n.references.len(), 0);
}

#[test]
fn package_json_and_tsconfig_lead_the_list() {
    let m = Module { items: vec![bare_import("./a")], leading_comments: Vec::new() };
    let mut h = host("src/index.ts", "src");
    h.package_json = Some("package.json".to_string());
    h.tsconfig = Some("tsconfig.json".to_string());
    let r = analyze(ModuleAssetType::Typescript, m, &h);
    assert_eq!(r.references.len(), 3);
    assert!(matches!(&r.references[0], AssetReference::PackageJson(_)));
    assert!(matches!(&r.references[1], AssetReference::TsConfig(_)));
    assert_eq!(esm_request(&r.references[2]).unwrap(), "./a");
}

#[test]
fn normalize_is_idempotent_on_a_value() {
    let v = JsValue::Add(vec![
        JsValue::Constant(JsConst::Str("a".to_string())),
        JsValue::Constant(JsConst::Str("b".to_string())),
        JsValue::Alternatives(vec![
            JsValue::Constant(JsConst::Num(1)),
            JsValue::Constant(JsConst::Num(1)),
        ]),
    ]);
    let once = normalize(&v);
    let twice = normalize(&once);
    assert!(eq_value(&once, &twice));
    match &once {
        JsValue::Add(parts) => {
            assert_eq!(parts.len(), 2);
            assert!(matches!(&parts[0], JsValue::Constant(JsConst::Str(s)) if s == "ab"));
            assert!(matches!(&parts[1], JsValue::Constant(JsConst::Num(1))));
        }
        other => panic!("unexpected value {other:?}"),
    }
}

#[test]
fn chunk_reference_resolves_to_the_chunk_path() {
    let c = WebpackChunkAssetReference {
        chunk_id: JsConst::Num(7),
        runtime: WebpackRuntime::Webpack5 { context_path: "out".to_string() },
    };
    match c.resolve_reference() {
        ResolvePlan::SingleAsset { path } => assert_eq!(path, "out/chunks/7.js"),
        other => panic!("unexpected plan {other:?}"),
    }
    let s = WebpackChunkAssetReference {
        chunk_id: JsConst::Str("a".to_string()),
        runtime: WebpackRuntime::NoRuntime,
    };
    assert!(matches!(s.resolve_reference(), ResolvePlan::Unresolveable));
}

#[test]
fn number_formatting() {
    assert_eq!(u64_to_string(0), "0");
    assert_eq!(u64_to_string(907), "907");
    assert_eq!(i64_to_string(-45), "-45");
}

#[test]
fn pattern_matching_and_constant_parts() {
    let full = Pattern::Concatenation(vec![
        Pattern::Constant("a".to_string()),
        Pattern::Constant("b".to_string()),
    ]);
    assert!(pattern_has_constant_parts(&full));
    assert!(pattern_matches(&full, &"ab".to_string()));
    let partial = Pattern::Concatenation(vec![
        Pattern::Constant("a".to_string()),
        Pattern::Dynamic,
    ]);
    assert!(!pattern_has_constant_parts(&partial));
    assert!(!pattern_matches(&partial, &"ab".to_string()));
    assert!(eq_pattern(&full, &full));
    assert!(!eq_pattern(&full, &partial));
}

#[test]
fn deep_copy_is_equal() {
    let v = JsValue::Member(
        Box::new(JsValue::Object(vec![(
            "k".to_string(),
            JsValue::Constant(JsConst::Num(3)),
        )])),
        Box::new(JsValue::Constant(JsConst::Str("k".to_string()))),
    );
    let w = dup(&v);
    assert!(eq_value(&v, &w));
}

#[test]
fn directive_grammar_is_flexible() {
    let spaced = "/   <reference   path = 'a b.d.ts'  />   ".to_string();
    match parse_ts_directive(&spaced) {
        Some((is_types, value)) => {
            assert!(!is_types);
            assert_eq!(value, "a b.d.ts");
        }
        None => panic!("directive not recognized"),
    }
    let tight = "/<reference types=\"node\"/>".to_string();
    match parse_ts_directive(&tight) {
        Some((is_types, value)) => {
            assert!(is_types);
            assert_eq!(value, "node");
        }
        None => panic!("directive not recognized"),
    }
    assert!(parse_ts_directive(&"/ <reference kind=\"x\"/>".to_string()).is_none());
    assert!(parse_ts_directive(&"/ <reference types=\"\"/>".to_string()).is_none());
    assert!(parse_ts_directive(&"no directive here".to_string()).is_none());
}

#[test]
fn webpack_signature_found_in_nested_expression() {
    // var t = [__webpack_require__.X(0, ["c"], f)];
    let decl = Stmt::VarDecl(vec![VarDeclarator {
        name: Some("__webpack_require__".to_string()),
        init: Some(call(ident("require"), vec![lit("./runtime.js")], 1)),
    }]);
    let nested = Stmt::VarDecl(vec![VarDeclarator {
        name: Some("t".to_string()),
        init: Some(Expr::Array {
            elems: vec![call(
                member(ident("__webpack_require__"), "X"),
                vec![
                    Expr::Lit(JsConst::Num(0)),
                    Expr::Array { elems: vec![lit("c")] },
                    ident("f"),
                ],
                4,
            )],
        }),
    }]);
    let m = Module {
        items: vec![ModuleItem::Stmt(decl), ModuleItem::Stmt(nested)],
        leading_comments: Vec::new(),
    };
    let mut h = host("src/index.js", "src");
    h.webpack = vec![(
        "./runtime.js".to_string(),
        WebpackRuntime::Webpack5 { context_path: "src".to_string() },
    )];
    let r = analyze(ModuleAssetType::Ecmascript, m, &h);
    let chunk_count = r
        .references
        .iter()
        .filter(|x| matches!(x, AssetReference::WebpackChunk(_)))
        .count();
    assert_eq!(chunk_count, 1);
}

#[test]
fn host_answer_decisions() {
    let wr = WebpackRuntimeAssetReference {
        source: "src/index.js".to_string(),
        request: Request { request: Pattern::Constant("./runtime.js".to_string()) },
        runtime: WebpackRuntime::NoRuntime,
    };
    match wr.wrap_resolved(&CjsAnswer::Single("src/runtime.js".to_string())) {
        ResolvePlan::SingleAsset { path } => assert_eq!(path, "src/runtime.js"),
        other => panic!("unexpected plan {other:?}"),
    }
    assert!(matches!(
        wr.wrap_resolved(&CjsAnswer::Unresolveable),
        ResolvePlan::Unresolveable
    ));
    let tp = TsReferencePathAssetReference {
        source: "src/index.ts".to_string(),
        path: "./other.d.ts".to_string(),
    };
    match tp.resolve_joined(&Some("src/other.d.ts".to_string())) {
        ResolvePlan::SingleAsset { path } => assert_eq!(path, "src/other.d.ts"),
        other => panic!("unexpected plan {other:?}"),
    }
    assert!(matches!(tp.resolve_joined(&None), ResolvePlan::Unresolveable));
}

#[test]
fn diagnostic_messages() {
    let d = Diagnostic {
        severity: Severity::Lint,
        span: GSpan { lo: 0, hi: 1 },
        code: DiagnosticCode::Require,
    };
    assert_eq!(d.message(), "require(..) is very dynamic");
    let e = Diagnostic {
        severity: Severity::Error,
        span: GSpan { lo: 0, hi: 1 },
        code: DiagnosticCode::DynamicImport,
    };
    assert_eq!(e.message(), "import(..) is not statically analyse-able");
}

#[test]
fn linking_twice_changes_nothing() {
    let g = VarGraph {
        values: vec![JsValue::Add(vec![
            JsValue::Constant(JsConst::Str("./".to_string())),
            JsValue::Variable(1),
        ])],
        effects: Vec::new(),
    };
    let h = host("src/index.js", "src");
    let v = JsValue::Call(
        Box::new(JsValue::FreeVar(FreeVarKind::Require)),
        vec![JsValue::Variable(0)],
    );
    let once = link(&g, &h, &v);
    let twice = link(&g, &h, &once);
    assert!(eq_value(&once, &twice));
}

