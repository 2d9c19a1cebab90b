use cargo_canister::audit::{Builder, Mode};
use cargo_canister::model::{
    AssocItem, ContainerKind, CrateInfo, Decl, Expr, ImplBlock, Module, OriginKind, Program,
    SymbolInfo,
};
use cargo_canister::report::{render_report, Finding, FindingKind};

fn sym(krate: usize, name: &str, rel: &[&str], body: Option<Expr>) -> SymbolInfo {
    SymbolInfo {
        krate,
        name: name.to_string(),
        rel_path: rel.iter().map(|s| s.to_string()).collect(),
        container: ContainerKind::FreeFunction,
        export_name: None,
        attrs: vec![],
        params: vec![],
        ret: "()".to_string(),
        is_async: false,
        async_ret: None,
        body,
    }
}

fn simple_crate(name: &str, origin: OriginKind, root: &str, fns: Vec<usize>) -> CrateInfo {
    CrateInfo {
        display_name: Some(name.to_string()),
        version: None,
        origin,
        root_path: root.to_string(),
        root_module: Module { decls: fns.into_iter().map(Decl::Function).collect() },
        impls: vec![],
    }
}

fn call(target: usize) -> Expr {
    Expr::CallSite { target: Some(target), children: vec![] }
}

fn kinds(findings: &[Finding]) -> Vec<FindingKind> {
    findings.iter().map(|f| f.kind).collect()
}

/// Mutual recursion terminates and visits each symbol exactly once.
#[test]
fn mutual_recursion_visits_each_once() {
    // a -> b -> a
    let p = Program {
        crates: vec![simple_crate("app", OriginKind::Workspace, "/app/lib.rs", vec![0])],
        symbols: vec![
            sym(0, "a", &["a"], Some(call(1))),
            sym(0, "b", &["b"], Some(call(0))),
        ],
    };
    let mut b = Builder::new(&p, 0, vec![], Mode::TraceFunctions);
    b.build(&p);
    assert!(b.visited[0]);
    assert!(b.visited[1]);
    assert_eq!(b.visited_count(), 2);
    assert!(b.findings.is_empty());
}

/// A whitelisted crate's function is still traversed; only reporting is
/// suppressed.  The one finding is for the non-whitelisted callee.
#[test]
fn whitelist_suppresses_reporting_not_traversal() {
    // app::main -> x::w -> y::n, n contains an unsafe region; x whitelisted.
    let p = Program {
        crates: vec![
            simple_crate("app", OriginKind::Workspace, "/app/lib.rs", vec![0]),
            simple_crate("x", OriginKind::External, "/x/lib.rs", vec![]),
            simple_crate("y", OriginKind::External, "/y/lib.rs", vec![]),
        ],
        symbols: vec![
            sym(0, "main", &["main"], Some(call(1))),
            sym(1, "w", &["w"], Some(call(2))),
            sym(2, "n", &["n"], Some(Expr::UnsafeBlock { children: vec![] })),
        ],
    };
    let mut b = Builder::new(&p, 0, vec![1], Mode::TraceFunctions);
    b.build(&p);
    // all three symbols were traversed
    assert_eq!(b.visited_count(), 3);
    assert_eq!(b.findings.len(), 1);
    let f = &b.findings[0];
    assert_eq!(f.kind, FindingKind::UnsafeRegion);
    assert_eq!(f.symbol, 2);
    assert_eq!(f.name, "y::n");
    assert!(!f.whitelisted);
}

/// A whitelisted symbol's finding is tallied but renders to no lines.
#[test]
fn whitelisted_finding_is_not_reported() {
    let p = Program {
        crates: vec![
            simple_crate("app", OriginKind::Workspace, "/app/lib.rs", vec![0]),
            simple_crate("x", OriginKind::External, "/x/lib.rs", vec![]),
        ],
        symbols: vec![
            sym(0, "main", &["main"], Some(call(1))),
            sym(1, "w", &["w"], Some(Expr::UnsafeBlock { children: vec![] })),
        ],
    };
    let mut b = Builder::new(&p, 0, vec![1], Mode::TraceFunctions);
    b.build(&p);
    assert_eq!(b.findings.len(), 1);
    assert!(b.findings[0].whitelisted);
    assert!(render_report(&b.findings).is_empty());
}

/// Builtin exclusion is absolute: calls into builtin crates never yield a
/// finding, whatever the whitelist holds.
#[test]
fn builtin_exclusion_is_absolute() {
    let mut std_fn = sym(1, "transmute", &["mem", "transmute"], Some(Expr::UnsafeBlock {
        children: vec![],
    }));
    std_fn.container = ContainerKind::ForeignImport;
    let p = Program {
        crates: vec![
            simple_crate("app", OriginKind::Workspace, "/app/lib.rs", vec![0]),
            simple_crate("core", OriginKind::Builtin, "/core/lib.rs", vec![]),
        ],
        symbols: vec![sym(0, "main", &["main"], Some(call(1))), std_fn],
    };
    // not whitelisted
    let mut b = Builder::new(&p, 0, vec![], Mode::TraceFunctions);
    b.build(&p);
    assert!(b.findings.is_empty());
    // whitelisting the builtin crate changes nothing
    let mut b2 = Builder::new(&p, 0, vec![1], Mode::TraceFunctions);
    b2.build(&p);
    assert!(b2.findings.is_empty());
}

/// A body that is just a macro invocation expanding to an unsafe block
/// yields exactly one unsafe-region finding.
#[test]
fn macro_revealed_unsafe() {
    let body = Expr::MacroCall {
        expansion: Some(Box::new(Expr::UnsafeBlock { children: vec![] })),
    };
    let p = Program {
        crates: vec![simple_crate("app", OriginKind::Workspace, "/app/lib.rs", vec![0])],
        symbols: vec![sym(0, "f", &["f"], Some(body))],
    };
    let mut b = Builder::new(&p, 0, vec![], Mode::TraceFunctions);
    b.build(&p);
    assert_eq!(kinds(&b.findings), vec![FindingKind::UnsafeRegion]);
    assert_eq!(b.findings[0].name, "app::f");
}

/// A macro whose expansion is unavailable contributes nothing.
#[test]
fn failed_macro_expansion_is_recoverable() {
    let p = Program {
        crates: vec![simple_crate("app", OriginKind::Workspace, "/app/lib.rs", vec![0])],
        symbols: vec![sym(0, "f", &["f"], Some(Expr::MacroCall { expansion: None }))],
    };
    let mut b = Builder::new(&p, 0, vec![], Mode::TraceFunctions);
    b.build(&p);
    assert!(b.findings.is_empty());
    assert_eq!(b.visited_count(), 1);
}

/// A missing body stops that edge only; the sibling edge is still walked.
#[test]
fn missing_body_is_recoverable() {
    let body = Expr::Other { children: vec![call(1), call(2)] };
    let p = Program {
        crates: vec![simple_crate("app", OriginKind::Workspace, "/app/lib.rs", vec![0])],
        symbols: vec![
            sym(0, "main", &["main"], Some(body)),
            sym(0, "no_source", &["no_source"], None),
            sym(0, "with_unsafe", &["with_unsafe"], Some(Expr::UnsafeBlock { children: vec![] })),
        ],
    };
    let mut b = Builder::new(&p, 0, vec![], Mode::TraceFunctions);
    b.build(&p);
    assert_eq!(b.visited_count(), 3);
    assert_eq!(kinds(&b.findings), vec![FindingKind::UnsafeRegion]);
    assert_eq!(b.findings[0].symbol, 2);
}

/// The scan policy characterizes the declared surface only: it reports the
/// export but never descends into the body.
#[test]
fn scan_never_descends() {
    let mut exported = sym(
        1,
        "f",
        &["f"],
        Some(Expr::Other { children: vec![Expr::UnsafeBlock { children: vec![] }, call(2)] }),
    );
    exported.export_name = Some("canister_update f".to_string());
    let p = Program {
        crates: vec![
            simple_crate("app", OriginKind::Workspace, "/app/lib.rs", vec![]),
            simple_crate("dep", OriginKind::External, "/dep/lib.rs", vec![0]),
        ],
        symbols: vec![
            exported,
            sym(1, "inner", &["inner"], Some(Expr::UnsafeBlock { children: vec![] })),
        ],
    };
    let mut b = Builder::new(&p, 1, vec![], Mode::ScanExports);
    b.build(&p);
    assert_eq!(kinds(&b.findings), vec![FindingKind::ForeignExport]);
    assert_eq!(b.findings[0].export.as_deref(), Some("canister_update f"));
    // the callee of the body was never visited
    assert_eq!(b.visited_count(), 1);
}

/// A foreign-import declaration is reported in either mode.
#[test]
fn foreign_import_reported() {
    let mut imp = sym(1, "stable64_size", &["stable64_size"], None);
    imp.container = ContainerKind::ForeignImport;
    let p = Program {
        crates: vec![
            simple_crate("app", OriginKind::Workspace, "/app/lib.rs", vec![0]),
            simple_crate("my-library", OriginKind::External, "/lib/lib.rs", vec![]),
        ],
        symbols: vec![sym(0, "main", &["main"], Some(call(1))), imp],
    };
    let mut b = Builder::new(&p, 0, vec![], Mode::TraceFunctions);
    b.build(&p);
    assert_eq!(kinds(&b.findings), vec![FindingKind::ForeignImport]);
    // the crate display name has its dash normalized
    assert_eq!(b.findings[0].name, "my_library::stable64_size");
}

/// Impl blocks are walked as a second pass over the crate.
#[test]
fn impl_blocks_are_walked() {
    let mut c = simple_crate("app", OriginKind::Workspace, "/app/lib.rs", vec![]);
    c.impls = vec![ImplBlock {
        items: vec![AssocItem::Function(0), AssocItem::Other],
    }];
    let p = Program {
        crates: vec![c],
        symbols: vec![sym(0, "method", &["T", "method"], Some(Expr::UnsafeBlock {
            children: vec![],
        }))],
    };
    let mut b = Builder::new(&p, 0, vec![], Mode::TraceFunctions);
    b.build(&p);
    assert_eq!(kinds(&b.findings), vec![FindingKind::UnsafeRegion]);
    assert_eq!(b.findings[0].name, "app::T::method");
}

/// Nested modules are walked depth first in declaration order.
#[test]
fn nested_modules_walked_in_order() {
    let inner = Module { decls: vec![Decl::Function(1)] };
    let c = CrateInfo {
        display_name: Some("app".to_string()),
        version: None,
        origin: OriginKind::Workspace,
        root_path: "/app/lib.rs".to_string(),
        root_module: Module {
            decls: vec![Decl::Function(0), Decl::Module(inner), Decl::Other, Decl::Function(2)],
        },
        impls: vec![],
    };
    let p = Program {
        crates: vec![c],
        symbols: vec![
            sym(0, "a", &["a"], Some(Expr::UnsafeBlock { children: vec![] })),
            sym(0, "b", &["m", "b"], Some(Expr::UnsafeBlock { children: vec![] })),
            sym(0, "c", &["c"], Some(Expr::UnsafeBlock { children: vec![] })),
        ],
    };
    let mut b = Builder::new(&p, 0, vec![], Mode::TraceFunctions);
    b.build(&p);
    let names: Vec<&str> = b.findings.iter().map(|f| f.name.as_str()).collect();
    assert_eq!(names, vec!["app::a", "app::m::b", "app::c"]);
}

/// The whole-crate short-circuit: auditing a whitelisted crate does
/// nothing at all.
#[test]
fn whitelisted_crate_short_circuits() {
    let p = Program {
        crates: vec![simple_crate("app", OriginKind::Workspace, "/app/lib.rs", vec![0])],
        symbols: vec![sym(0, "f", &["f"], Some(Expr::UnsafeBlock { children: vec![] }))],
    };
    let mut b = Builder::new(&p, 0, vec![0], Mode::TraceFunctions);
    b.build(&p);
    assert_eq!(b.visited_count(), 0);
    assert!(b.findings.is_empty());
}

/// Unsafe regions nested below other expressions are still found, and a
/// region's own children are walked further.
#[test]
fn nested_unsafe_and_calls_inside_unsafe() {
    let body = Expr::Other {
        children: vec![Expr::UnsafeBlock { children: vec![call(1)] }],
    };
    let p = Program {
        crates: vec![simple_crate("app", OriginKind::Workspace, "/app/lib.rs", vec![0])],
        symbols: vec![
            sym(0, "outer", &["outer"], Some(body)),
            sym(0, "inner", &["inner"], Some(Expr::UnsafeBlock { children: vec![] })),
        ],
    };
    let mut b = Builder::new(&p, 0, vec![], Mode::TraceFunctions);
    b.build(&p);
    assert_eq!(
        kinds(&b.findings),
        vec![FindingKind::UnsafeRegion, FindingKind::UnsafeRegion]
    );
    assert_eq!(b.findings[0].name, "app::outer");
    assert_eq!(b.findings[1].name, "app::inner");
}

/// Two runs that differ only in the whitelist visit the same symbols and
/// emit the same findings, up to the whitelisted flags.
#[test]
fn whitelist_changes_flags_only() {
    let p = Program {
        crates: vec![
            simple_crate("app", OriginKind::Workspace, "/app/lib.rs", vec![0]),
            simple_crate("x", OriginKind::External, "/x/lib.rs", vec![]),
        ],
        symbols: vec![
            sym(0, "main", &["main"], Some(call(1))),
            sym(1, "w", &["w"], Some(Expr::UnsafeBlock { children: vec![] })),
        ],
    };
    let mut plain = Builder::new(&p, 0, vec![], Mode::TraceFunctions);
    plain.build(&p);
    let mut listed = Builder::new(&p, 0, vec![1], Mode::TraceFunctions);
    listed.build(&p);
    assert_eq!(plain.visited, listed.visited);
    assert_eq!(plain.findings.len(), listed.findings.len());
    for (a, b) in plain.findings.iter().zip(listed.findings.iter()) {
        assert_eq!(a.kind, b.kind);
        assert_eq!(a.symbol, b.symbol);
        assert_eq!(a.name, b.name);
        assert_eq!(a.path, b.path);
    }
    assert!(!plain.findings[0].whitelisted);
    assert!(listed.findings[0].whitelisted);
    assert_eq!(render_report(&plain.findings).len(), 2);
    assert!(render_report(&listed.findings).is_empty());
}
