use cargo_canister::model::{CrateInfo, Module, OriginKind, Program, SymbolInfo, ContainerKind};
use cargo_canister::report::{message, render_finding, render_report, Finding, FindingKind};
use cargo_canister::samples::{List, MyTrait, Profile, T};
use cargo_canister::utils::{crate_name, display_path, join_strings, str_eq};

fn finding(kind: FindingKind, name: &str, path: &[&str], whitelisted: bool) -> Finding {
    Finding {
        kind,
        symbol: 0,
        name: name.to_string(),
        export: if matches!(kind, FindingKind::ForeignExport) {
            Some("canister_update f".to_string())
        } else {
            None
        },
        path: path.iter().map(|s| s.to_string()).collect(),
        whitelisted,
    }
}

#[test]
fn message_texts() {
    assert_eq!(
        message(&finding(FindingKind::UnsafeRegion, "x::f", &["x::f"], false)),
        "[Unsafe] x::f contains unsafe blocks!"
    );
    assert_eq!(
        message(&finding(FindingKind::ForeignImport, "ic0::call", &["ic0::call"], false)),
        "[Import] ic0::call is an external import!"
    );
    assert_eq!(
        message(&finding(FindingKind::ForeignExport, "dep::f", &["dep::f"], false)),
        "[Export] dep::f exports canister_update f"
    );
}

#[test]
fn whitelisted_renders_nothing() {
    let f = finding(FindingKind::UnsafeRegion, "x::f", &["a", "b"], true);
    assert!(render_finding(&f).is_empty());
}

#[test]
fn single_hop_has_no_path_line() {
    let f = finding(FindingKind::UnsafeRegion, "x::f", &["x::f"], false);
    assert_eq!(render_finding(&f), vec!["[Unsafe] x::f contains unsafe blocks!".to_string()]);
}

#[test]
fn multi_hop_renders_path_line() {
    let f = finding(FindingKind::UnsafeRegion, "c", &["a", "b", "c"], false);
    let lines = render_finding(&f);
    assert_eq!(lines.len(), 2);
    assert_eq!(lines[1], "  [Path] a -> b -> c");
}

#[test]
fn report_concatenates_in_order() {
    let fs = vec![
        finding(FindingKind::UnsafeRegion, "x::f", &["x::f"], false),
        finding(FindingKind::UnsafeRegion, "x::g", &["x::g"], true),
        finding(FindingKind::ForeignExport, "dep::f", &["dep::f"], false),
    ];
    let lines = render_report(&fs);
    assert_eq!(
        lines,
        vec![
            "[Unsafe] x::f contains unsafe blocks!".to_string(),
            "[Export] dep::f exports canister_update f".to_string(),
        ]
    );
}

#[test]
fn join_and_eq_helpers() {
    let parts = vec!["a".to_string(), "b".to_string(), "c".to_string()];
    assert_eq!(join_strings(&parts, " -> "), "a -> b -> c");
    assert_eq!(join_strings(&vec![], "::"), "");
    assert_eq!(join_strings(&vec!["one".to_string()], "::"), "one");
    assert!(str_eq("abc", "abc"));
    assert!(!str_eq("abc", "abd"));
    assert!(!str_eq("abc", "ab"));
}

#[test]
fn crate_and_display_names() {
    let p = Program {
        crates: vec![CrateInfo {
            display_name: Some("my-great-lib".to_string()),
            version: None,
            origin: OriginKind::External,
            root_path: "/lib.rs".to_string(),
            root_module: Module { decls: vec![] },
            impls: vec![],
        }],
        symbols: vec![SymbolInfo {
            krate: 0,
            name: "chain".to_string(),
            rel_path: vec!["T".to_string(), "chain".to_string()],
            container: ContainerKind::InherentMethod,
            export_name: None,
            attrs: vec![],
            params: vec![],
            ret: "()".to_string(),
            is_async: false,
            async_ret: None,
            body: None,
        }],
    };
    assert_eq!(crate_name(&p, 0), "my_great_lib");
    assert_eq!(display_path(&p, 0), "my_great_lib::T::chain");
}

#[test]
fn unknown_crate_name_placeholder() {
    let p = Program {
        crates: vec![CrateInfo {
            display_name: None,
            version: None,
            origin: OriginKind::External,
            root_path: "/lib.rs".to_string(),
            root_module: Module { decls: vec![] },
            impls: vec![],
        }],
        symbols: vec![],
    };
    assert_eq!(crate_name(&p, 0), "<unknown>");
}

#[test]
fn sample_subjects_behave() {
    let t = T;
    assert!(t.chain().chain().unsafe_inner().is_ok());
    assert_eq!(<T as MyTrait>::trait_func(), 43);
    let l = List(Some((1, Box::new(List(None)))));
    assert!(l.0.is_some());
    let p = Profile { age: 30, name: "ada".to_string() };
    assert_eq!(p.age, 30);
    assert_eq!(p.name, "ada");
}
