use cargo_canister::candid::{get_cdk_attr, Builder};
use cargo_canister::model::{
    AttrPath, ContainerKind, CrateInfo, Decl, Expr, Module, OriginKind, Program, SymbolInfo,
};

fn attr(segments: &[&str]) -> AttrPath {
    AttrPath { segments: segments.iter().map(|s| s.to_string()).collect() }
}

fn service_sym(
    name: &str,
    mode: Option<&[&str]>,
    params: &[&str],
    ret: &str,
    is_async: bool,
) -> SymbolInfo {
    SymbolInfo {
        krate: 0,
        name: name.to_string(),
        rel_path: vec![name.to_string()],
        container: ContainerKind::FreeFunction,
        export_name: None,
        attrs: mode.map(|m| vec![attr(m)]).unwrap_or_default(),
        params: params.iter().map(|s| s.to_string()).collect(),
        ret: ret.to_string(),
        is_async,
        async_ret: if is_async { Some(ret.to_string()) } else { None },
        body: Some(Expr::Other { children: vec![] }),
    }
}

fn program(symbols: Vec<SymbolInfo>) -> Program {
    let n = symbols.len();
    Program {
        crates: vec![CrateInfo {
            display_name: Some("app".to_string()),
            version: None,
            origin: OriginKind::Workspace,
            root_path: "/app/lib.rs".to_string(),
            root_module: Module { decls: (0..n).map(Decl::Function).collect() },
            impls: vec![],
        }],
        symbols,
    }
}

#[test]
fn attr_last_segment_decides() {
    let s = service_sym("greet", Some(&["ic_cdk", "query"]), &[], "String", false);
    let a = get_cdk_attr(&s).unwrap();
    assert_eq!(a.mode, "query");
    let plain = service_sym("helper", Some(&["inline"]), &[], "()", false);
    assert!(get_cdk_attr(&plain).is_none());
    let none = service_sym("helper", None, &[], "()", false);
    assert!(get_cdk_attr(&none).is_none());
}

#[test]
fn build_collects_service_methods_in_order() {
    let p = program(vec![
        service_sym("init", Some(&["ic_cdk", "init"]), &[], "()", false),
        service_sym("helper", None, &[], "()", false),
        service_sym("greet", Some(&["update"]), &["String"], "String", false),
    ]);
    let mut b = Builder::new(0);
    b.build(&p);
    assert_eq!(b.methods, vec![0, 2]);
}

#[test]
fn emit_methods_renders_lines() {
    let p = program(vec![
        service_sym("greet", Some(&["ic_cdk", "query"]), &["String"], "String", false),
        service_sym(
            "get_profile",
            Some(&["update"]),
            &["u64"],
            "Result<Profile, String>",
            true,
        ),
    ]);
    let mut b = Builder::new(0);
    b.build(&p);
    let out = b.emit_methods(&p);
    assert_eq!(
        out,
        "greet : (String) -> (String) query;\n\
         get_profile : (u64) -> (Result<Profile, String>);\n"
    );
}

#[test]
fn emit_methods_joins_parameters() {
    let p = program(vec![service_sym(
        "transfer",
        Some(&["update"]),
        &["Principal", "u64", "Option<Memo>"],
        "u64",
        false,
    )]);
    let mut b = Builder::new(0);
    b.build(&p);
    assert_eq!(b.emit_methods(&p), "transfer : (Principal, u64, Option<Memo>) -> (u64);\n");
}
