use cargo_canister::bindgen::{
    output_mode, report_unused, run, BindgenError, DidSource, Entry, GenKind, Item, MethodSel,
    Opt, OutputMode, ServiceAction,
};

fn item() -> Item {
    Item { path: None, canister_id: None, output_dir: None, template: None, methods: None }
}

fn service(path: Option<&str>) -> Item {
    Item { path: path.map(|p| p.to_string()), ..item() }
}

#[test]
fn service_must_not_select_methods() {
    let config = Entry {
        service: Some(Item {
            path: Some("app.did".to_string()),
            methods: Some(vec!["greet".to_string()]),
            ..item()
        }),
        imports: vec![],
    };
    let e = match run(&config, false) {
        Err(e) => e,
        Ok(_) => panic!("expected an error"),
    };
    assert_eq!(e, BindgenError::ServiceMethodsPresent);
    assert_eq!(e.message(), "service.methods shouldn't be present");
}

#[test]
fn service_requires_path() {
    let config = Entry { service: Some(service(None)), imports: vec![] };
    let e = match run(&config, false) {
        Err(e) => e,
        Ok(_) => panic!("expected an error"),
    };
    assert_eq!(e, BindgenError::ServicePathRequired);
    assert_eq!(e.message(), "service.path is required");
}

#[test]
fn import_requires_some_source() {
    let config = Entry {
        service: None,
        imports: vec![("ledger".to_string(), item())],
    };
    let e = match run(&config, false) {
        Err(e) => e,
        Ok(_) => panic!("expected an error"),
    };
    assert_eq!(e, BindgenError::NoCandidSource);
    assert_eq!(e.message(), "path or canister_id must be provided");
}

#[test]
fn service_generated_when_main_missing() {
    let config = Entry { service: Some(service(Some("app.did"))), imports: vec![] };
    let plan = run(&config, false).unwrap();
    match plan.service.unwrap() {
        ServiceAction::Generate(t) => {
            assert_eq!(t.out_file, "./src/lib.rs");
            assert!(matches!(t.source, DidSource::FromFile(ref p) if p == "app.did"));
            assert!(matches!(t.methods, MethodSel::All));
            assert_eq!(t.target.target, "stub");
            assert_eq!(t.kind, GenKind::Service);
        }
        ServiceAction::Check { .. } => panic!("expected generation"),
    }
}

#[test]
fn service_checked_when_main_exists() {
    let config = Entry { service: Some(service(Some("app.did"))), imports: vec![] };
    let plan = run(&config, true).unwrap();
    match plan.service.unwrap() {
        ServiceAction::Check { main_file, did } => {
            assert_eq!(main_file, "./src/lib.rs");
            assert_eq!(did, "app.did");
        }
        ServiceAction::Generate(_) => panic!("expected a check"),
    }
}

#[test]
fn service_output_dir_moves_every_default() {
    let config = Entry {
        service: Some(Item {
            path: Some("app.did".to_string()),
            output_dir: Some("gen".to_string()),
            ..item()
        }),
        imports: vec![(
            "ledger".to_string(),
            Item { path: Some("ledger.did".to_string()), ..item() },
        )],
    };
    let plan = run(&config, false).unwrap();
    match plan.service.unwrap() {
        ServiceAction::Generate(t) => assert_eq!(t.out_file, "gen/lib.rs"),
        _ => panic!("expected generation"),
    }
    assert_eq!(plan.imports[0].out_file, "gen/ledger.rs");
}

#[test]
fn import_plan_fields() {
    let config = Entry {
        service: None,
        imports: vec![
            (
                "ledger".to_string(),
                Item {
                    canister_id: Some("ryjl3-tyaaa-aaaaa-aaaba-cai".to_string()),
                    template: Some("my_template".to_string()),
                    methods: Some(vec![]),
                    ..item()
                },
            ),
            (
                "governance".to_string(),
                Item {
                    path: Some("gov.did".to_string()),
                    output_dir: Some("declarations".to_string()),
                    methods: Some(vec!["vote".to_string(), "follow".to_string()]),
                    ..item()
                },
            ),
        ],
    };
    let plan = run(&config, false).unwrap();
    assert!(plan.service.is_none());
    assert_eq!(plan.imports.len(), 2);

    let t0 = &plan.imports[0];
    assert_eq!(t0.out_file, "./src/ledger.rs");
    assert!(matches!(t0.source, DidSource::Fetch(ref c) if c == "ryjl3-tyaaa-aaaaa-aaaba-cai"));
    assert!(matches!(t0.methods, MethodSel::DropActor));
    assert_eq!(t0.target.target, "custom");
    assert_eq!(t0.target.template.as_deref(), Some("my_template"));
    assert_eq!(t0.kind, GenKind::Import);

    let t1 = &plan.imports[1];
    assert_eq!(t1.out_file, "declarations/governance.rs");
    assert!(matches!(t1.source, DidSource::FromFile(ref p) if p == "gov.did"));
    match &t1.methods {
        MethodSel::Project(ms) => assert_eq!(ms, &vec!["vote".to_string(), "follow".to_string()]),
        _ => panic!("expected a projection"),
    }
    assert_eq!(t1.target.target, "canister_call");
    assert!(t1.target.template.is_none());
}

#[test]
fn output_mode_decision() {
    let w = Opt { is_write: true, line_diff: false };
    let dl = Opt { is_write: false, line_diff: true };
    let dc = Opt { is_write: false, line_diff: false };
    assert_eq!(output_mode(&w, true), OutputMode::Write);
    assert_eq!(output_mode(&w, false), OutputMode::Write);
    assert_eq!(output_mode(&dl, true), OutputMode::DiffLines);
    assert_eq!(output_mode(&dc, true), OutputMode::DiffChars);
    assert_eq!(output_mode(&dl, false), OutputMode::Print);
}

#[test]
fn unused_selectors_are_reported() {
    let lines = report_unused(&vec!["a.b".to_string(), "c".to_string()]);
    assert_eq!(
        lines,
        vec!["Path a.b is unused".to_string(), "Path c is unused".to_string()]
    );
}
