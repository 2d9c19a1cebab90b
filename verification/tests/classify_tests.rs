use cargo_canister::classify::{
    find_crate, find_non_root_crates, find_package, find_whitelisted_crates, ClassifyError,
    Package, TargetInfo, Workspace,
};
use cargo_canister::model::{CrateInfo, Module, OriginKind, Program};

fn pk(name: &str, version: &str, member: bool, root: Option<&str>) -> Package {
    Package {
        name: name.to_string(),
        version: version.to_string(),
        is_member: member,
        lib: root.map(|r| TargetInfo { name: name.to_string(), root: r.to_string() }),
    }
}

fn bare_crate(name: &str, origin: OriginKind, root: &str) -> CrateInfo {
    CrateInfo {
        display_name: Some(name.to_string()),
        version: None,
        origin,
        root_path: root.to_string(),
        root_module: Module { decls: vec![] },
        impls: vec![],
    }
}

#[test]
fn find_package_by_name() {
    let ws = Workspace {
        packages: vec![
            pk("serde", "1.0.0", false, Some("/serde/lib.rs")),
            pk("app", "0.1.0", true, Some("/app/lib.rs")),
        ],
    };
    let t = find_package(&ws, Some("serde"), None).unwrap();
    assert_eq!(t.root, "/serde/lib.rs");
}

#[test]
fn find_package_by_name_and_version() {
    let ws = Workspace {
        packages: vec![
            pk("serde", "1.0.0", false, Some("/serde1/lib.rs")),
            pk("serde", "2.0.0", false, Some("/serde2/lib.rs")),
        ],
    };
    let t = find_package(&ws, Some("serde"), Some("2.0.0")).unwrap();
    assert_eq!(t.root, "/serde2/lib.rs");
}

/// An unqualified request matching several versions is ambiguous and
/// fails.
#[test]
fn find_package_ambiguous_versions() {
    let ws = Workspace {
        packages: vec![
            pk("serde", "1.0.0", false, Some("/serde1/lib.rs")),
            pk("serde", "2.0.0", false, Some("/serde2/lib.rs")),
        ],
    };
    assert_eq!(
        find_package(&ws, Some("serde"), None),
        Err(ClassifyError::MultiplePackages)
    );
}

#[test]
fn find_package_not_found() {
    let ws = Workspace { packages: vec![pk("app", "0.1.0", true, Some("/app/lib.rs"))] };
    assert_eq!(
        find_package(&ws, Some("missing"), None),
        Err(ClassifyError::PackageNotFound)
    );
}

#[test]
fn find_package_no_lib_target() {
    let ws = Workspace { packages: vec![pk("app", "0.1.0", true, None)] };
    assert_eq!(find_package(&ws, Some("app"), None), Err(ClassifyError::NoLibTarget));
}

/// With no name given, the one workspace member is selected.
#[test]
fn find_package_member() {
    let ws = Workspace {
        packages: vec![
            pk("serde", "1.0.0", false, Some("/serde/lib.rs")),
            pk("app", "0.1.0", true, Some("/app/lib.rs")),
        ],
    };
    let t = find_package(&ws, None, None).unwrap();
    assert_eq!(t.root, "/app/lib.rs");
}

#[test]
fn find_crate_by_target_root() {
    let p = Program {
        crates: vec![
            bare_crate("app", OriginKind::Workspace, "/app/lib.rs"),
            bare_crate("dep", OriginKind::External, "/dep/lib.rs"),
        ],
        symbols: vec![],
    };
    let t = TargetInfo { name: "dep".to_string(), root: "/dep/lib.rs".to_string() };
    assert_eq!(find_crate(&p, &t), Ok(1));
    let missing = TargetInfo { name: "x".to_string(), root: "/x/lib.rs".to_string() };
    assert_eq!(find_crate(&p, &missing), Err(ClassifyError::CrateNotFound));
}

#[test]
fn non_root_crates_exclude_target_and_builtin() {
    let p = Program {
        crates: vec![
            bare_crate("app", OriginKind::Workspace, "/app/lib.rs"),
            bare_crate("dep", OriginKind::External, "/dep/lib.rs"),
            bare_crate("std", OriginKind::Builtin, "/std/lib.rs"),
            bare_crate("other", OriginKind::External, "/other/lib.rs"),
        ],
        symbols: vec![],
    };
    let t = TargetInfo { name: "app".to_string(), root: "/app/lib.rs".to_string() };
    assert_eq!(find_non_root_crates(&p, &t), vec![1, 3]);
}

/// A whitelist entry whose package is missing is skipped, qualified
/// entries select by version, and the rest resolve to crate indices.
#[test]
fn whitelist_resolution() {
    let ws = Workspace {
        packages: vec![
            pk("ic0", "0.18.0", false, Some("/ic0/lib.rs")),
            pk("ic-cdk", "0.5.0", false, Some("/cdk5/lib.rs")),
            pk("ic-cdk", "0.6.0", false, Some("/cdk6/lib.rs")),
        ],
    };
    let p = Program {
        crates: vec![
            bare_crate("app", OriginKind::Workspace, "/app/lib.rs"),
            bare_crate("ic0", OriginKind::External, "/ic0/lib.rs"),
            bare_crate("ic-cdk", OriginKind::External, "/cdk6/lib.rs"),
        ],
        symbols: vec![],
    };
    let entries = vec![
        "ic0".to_string(),
        "ic-cdk@0.6.0".to_string(),
        "not-there".to_string(),
    ];
    let r = find_whitelisted_crates(&ws, &p, &entries).unwrap();
    assert_eq!(r, vec![1, 2]);
}

/// An unqualified entry matching two versions fails the whole run.
#[test]
fn whitelist_ambiguous_entry_fails() {
    let ws = Workspace {
        packages: vec![
            pk("ic-cdk", "0.5.0", false, Some("/cdk5/lib.rs")),
            pk("ic-cdk", "0.6.0", false, Some("/cdk6/lib.rs")),
        ],
    };
    let p = Program { crates: vec![], symbols: vec![] };
    let entries = vec!["ic-cdk".to_string()];
    assert_eq!(
        find_whitelisted_crates(&ws, &p, &entries),
        Err(ClassifyError::MultiplePackages)
    );
}
