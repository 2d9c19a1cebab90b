use cargo_canister::classify::TargetInfo;
use cargo_canister::driver::{run_audit, Command, Options};
use cargo_canister::model::{
    ContainerKind, CrateInfo, Decl, Expr, Module, OriginKind, Program, SymbolInfo,
};
use cargo_canister::report::{render_report, FindingKind};

fn sym(krate: usize, name: &str, rel: &[&str], body: Option<Expr>) -> SymbolInfo {
    SymbolInfo {
        krate,
        name: name.to_string(),
        rel_path: rel.iter().map(|s| s.to_string()).collect(),
        container: ContainerKind::FreeFunction,
        export_name: None,
        attrs: vec![],
        params: vec![],
        ret: "()".to_string(),
        is_async: false,
        async_ret: None,
        body,
    }
}

fn simple_crate(name: &str, origin: OriginKind, root: &str, fns: Vec<usize>) -> CrateInfo {
    CrateInfo {
        display_name: Some(name.to_string()),
        version: None,
        origin,
        root_path: root.to_string(),
        root_module: Module { decls: fns.into_iter().map(Decl::Function).collect() },
        impls: vec![],
    }
}

fn call(target: usize) -> Expr {
    Expr::CallSite { target: Some(target), children: vec![] }
}

fn target(root: &str) -> TargetInfo {
    TargetInfo { name: "app".to_string(), root: root.to_string() }
}

/// End to end: the root crate's entry point calls a dependency's safe
/// wrapper, which executes one unsafe block; the dependency is not
/// whitelisted, so the trace run yields exactly one unsafe-region finding
/// with the two-hop path.
#[test]
fn end_to_end_trace_scenario() {
    let p = Program {
        crates: vec![
            simple_crate("app", OriginKind::Workspace, "/app/lib.rs", vec![0]),
            simple_crate("libX", OriginKind::External, "/libx/lib.rs", vec![]),
        ],
        symbols: vec![
            sym(0, "main", &["main"], Some(call(1))),
            sym(
                1,
                "safe_wrapper",
                &["safe_wrapper"],
                Some(Expr::UnsafeBlock { children: vec![] }),
            ),
        ],
    };
    let out = run_audit(&p, &target("/app/lib.rs"), vec![], true).unwrap();
    assert_eq!(out.findings.len(), 1);
    let f = &out.findings[0];
    assert_eq!(f.kind, FindingKind::UnsafeRegion);
    assert_eq!(f.name, "libX::safe_wrapper");
    assert_eq!(f.path, vec!["app::main".to_string(), "libX::safe_wrapper".to_string()]);
    assert_eq!(out.visited, 2);
    let lines = render_report(&out.findings);
    assert_eq!(
        lines,
        vec![
            "[Unsafe] libX::safe_wrapper contains unsafe blocks!".to_string(),
            "  [Path] app::main -> libX::safe_wrapper".to_string(),
        ]
    );
}

/// Path rendering: entry -> helper -> unsafe_fn, hops joined by an arrow,
/// entry first.
#[test]
fn path_rendering_three_hops() {
    let p = Program {
        crates: vec![simple_crate("app", OriginKind::Workspace, "/app/lib.rs", vec![0])],
        symbols: vec![
            sym(0, "main", &["main"], Some(call(1))),
            sym(0, "helper", &["helper"], Some(call(2))),
            sym(
                0,
                "unsafe_fn",
                &["unsafe_fn"],
                Some(Expr::UnsafeBlock { children: vec![] }),
            ),
        ],
    };
    let out = run_audit(&p, &target("/app/lib.rs"), vec![], true).unwrap();
    assert_eq!(out.findings.len(), 1);
    let lines = render_report(&out.findings);
    assert_eq!(lines.len(), 2);
    assert_eq!(lines[1], "  [Path] app::main -> app::helper -> app::unsafe_fn");
}

/// Scan mode audits each non-root, non-builtin crate independently: two
/// crates declaring a same-named exported function are both reported.
#[test]
fn scan_per_crate_isolation() {
    let mut f1 = sym(1, "f", &["f"], None);
    f1.export_name = Some("canister_update f".to_string());
    let mut f2 = sym(2, "f", &["f"], None);
    f2.export_name = Some("canister_update f".to_string());
    let p = Program {
        crates: vec![
            simple_crate("app", OriginKind::Workspace, "/app/lib.rs", vec![]),
            simple_crate("dep1", OriginKind::External, "/dep1/lib.rs", vec![0]),
            simple_crate("dep2", OriginKind::External, "/dep2/lib.rs", vec![1]),
            simple_crate("std", OriginKind::Builtin, "/std/lib.rs", vec![]),
        ],
        symbols: vec![f1, f2],
    };
    let out = run_audit(&p, &target("/app/lib.rs"), vec![], false).unwrap();
    assert_eq!(out.findings.len(), 2);
    assert_eq!(out.findings[0].kind, FindingKind::ForeignExport);
    assert_eq!(out.findings[0].name, "dep1::f");
    assert_eq!(out.findings[1].kind, FindingKind::ForeignExport);
    assert_eq!(out.findings[1].name, "dep2::f");
    assert_eq!(out.visited, 2);
}

/// Scan mode skips whitelisted dependency crates entirely.
#[test]
fn scan_skips_whitelisted_crate() {
    let mut f1 = sym(1, "f", &["f"], None);
    f1.export_name = Some("canister_update f".to_string());
    let p = Program {
        crates: vec![
            simple_crate("app", OriginKind::Workspace, "/app/lib.rs", vec![]),
            simple_crate("dep1", OriginKind::External, "/dep1/lib.rs", vec![0]),
        ],
        symbols: vec![f1],
    };
    let out = run_audit(&p, &target("/app/lib.rs"), vec![1], false).unwrap();
    assert!(out.findings.is_empty());
    assert_eq!(out.visited, 0);
}

/// The trace run fails when the designated target crate cannot be found.
#[test]
fn trace_requires_target_crate() {
    let p = Program {
        crates: vec![simple_crate("app", OriginKind::Workspace, "/app/lib.rs", vec![])],
        symbols: vec![],
    };
    let r = run_audit(&p, &target("/missing/lib.rs"), vec![], true);
    assert!(r.is_err());
}

#[test]
fn command_verbosity() {
    let opts = |verbose: bool| Options {
        manifest_path: ".".to_string(),
        package: None,
        no_default_features: false,
        all_features: false,
        features: vec![],
        verbose,
        expand_proc_macros: false,
    };
    assert!(!Command::Audit { options: opts(false), trace_functions: true, whitelist: vec![] }
        .is_verbose());
    assert!(Command::Audit { options: opts(true), trace_functions: false, whitelist: vec![] }
        .is_verbose());
    assert!(!Command::Candid { options: opts(false) }.is_verbose());
    assert!(Command::Bindgen { canister_path: ".".to_string() }.is_verbose());
}
