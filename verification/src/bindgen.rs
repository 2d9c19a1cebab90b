//! The binding-generation planner.
//!
//! Binding generation reads a canister configuration, validates it, and
//! decides which files to produce from which interface sources.  Compiling
//! an interface into source text, formatting it, diffing it against what
//! is on disk and writing it are the work of external collaborators; this
//! module makes every decision that leads up to them and says exactly
//! which error each configuration earns.

use vstd::prelude::*;
use crate::utils::clone_strings;

verus! {

/// Output options of a generation run.
pub struct Opt {
    /// Write the generated files instead of showing them.
    pub is_write: bool,
    /// Show line diffs instead of character diffs.
    pub line_diff: bool,
}

/// One configured canister: a service or an import.
pub struct Item {
    /// Path of the interface file.
    pub path: Option<String>,
    /// Canister to fetch the interface from, when no path is given.
    pub canister_id: Option<String>,
    /// Directory the generated file goes to.
    pub output_dir: Option<String>,
    /// A custom binding template.
    pub template: Option<String>,
    /// The methods to keep; absent keeps all of them.
    pub methods: Option<Vec<String>>,
}

/// The whole configuration: an optional service and named imports, in
/// file order.
pub struct Entry {
    pub service: Option<Item>,
    pub imports: Vec<(String, Item)>,
}

#[derive(Clone, Copy, PartialEq, Eq, Structural, Debug)]
pub enum BindgenError {
    /// The service section must not select methods.
    ServiceMethodsPresent,
    /// The service section must name its interface file.
    ServicePathRequired,
    /// An import names neither a path nor a canister.
    NoCandidSource,
}

impl BindgenError {
    pub fn message(&self) -> (r: String)
        ensures
            r@ == match self {
                BindgenError::ServiceMethodsPresent => "service.methods shouldn't be present"@,
                BindgenError::ServicePathRequired => "service.path is required"@,
                BindgenError::NoCandidSource => "path or canister_id must be provided"@,
            },
    {
        match self {
            BindgenError::ServiceMethodsPresent => String::from_str(
                "service.methods shouldn't be present",
            ),
            BindgenError::ServicePathRequired => String::from_str("service.path is required"),
            BindgenError::NoCandidSource => String::from_str("path or canister_id must be provided"),
        }
    }
}

/// Where an interface comes from.
pub enum DidSource {
    /// Load the interface from a file.
    FromFile(String),
    /// Fetch the interface from a deployed canister's metadata.
    Fetch(String),
}

/// Which methods of the interface to keep.
pub enum MethodSel {
    /// Keep the whole service.
    All,
    /// Drop the service actor altogether (an empty selection).
    DropActor,
    /// Project the service onto the named methods.
    Project(Vec<String>),
}

/// Which binding target to compile for.
pub struct TargetChoice {
    pub target: String,
    pub template: Option<String>,
}

#[derive(Clone, Copy, PartialEq, Eq, Structural, Debug)]
pub enum GenKind {
    /// A service stub; its metadata is attached at generation time.
    Service,
    /// An import binding.
    Import,
}

/// One file to generate.
pub struct GenTask {
    pub out_file: String,
    pub source: DidSource,
    pub methods: MethodSel,
    pub target: TargetChoice,
    pub kind: GenKind,
}

/// What to do about the service section.
pub enum ServiceAction {
    /// The main file already exists: check it against the interface.
    Check { main_file: String, did: String },
    /// Generate the main file.
    Generate(GenTask),
}

/// The whole plan of a generation run.
pub struct Plan {
    pub service: Option<ServiceAction>,
    pub imports: Vec<GenTask>,
}

/// The directory generated files default to.
pub open spec fn src_dir_spec(config: Entry) -> Seq<char> {
    match config.service {
        Option::Some(s) => match s.output_dir {
            Option::Some(d) => d@,
            Option::None => "./src"@,
        },
        Option::None => "./src"@,
    }
}

/// What the service section earns: selecting methods there is an error,
/// and its interface file is required.
pub open spec fn service_error(config: Entry) -> Option<BindgenError> {
    match config.service {
        Option::None => Option::None,
        Option::Some(s) => {
            if s.methods is Some {
                Option::Some(BindgenError::ServiceMethodsPresent)
            } else if s.path is None {
                Option::Some(BindgenError::ServicePathRequired)
            } else {
                Option::None
            }
        },
    }
}

/// The first import, from `i` on, that names neither a path nor a
/// canister.
pub open spec fn first_import_error(imports: Seq<(String, Item)>, i: int) -> Option<BindgenError>
    decreases imports.len() - i,
{
    if i < 0 || i >= imports.len() {
        Option::None
    } else if imports[i].1.path is None && imports[i].1.canister_id is None {
        Option::Some(BindgenError::NoCandidSource)
    } else {
        first_import_error(imports, i + 1)
    }
}

/// The error a configuration earns, if any: the service's first, then the
/// first failing import.
pub open spec fn run_error(config: Entry) -> Option<BindgenError> {
    match service_error(config) {
        Option::Some(e) => Option::Some(e),
        Option::None => first_import_error(config.imports@, 0),
    }
}

/// How an item's interface is obtained.
pub open spec fn source_ok(item: Item, s: DidSource) -> bool {
    match item.path {
        Option::Some(ref p) => s matches DidSource::FromFile(f) && f@ == p@,
        Option::None => match item.canister_id {
            Option::Some(ref id) => s matches DidSource::Fetch(c) && c@ == id@,
            Option::None => false,
        },
    }
}

/// How an item's method selection is read: absent keeps all, an empty
/// list drops the actor, anything else projects.
pub open spec fn sel_ok(item: Item, s: MethodSel) -> bool {
    match item.methods {
        Option::None => s is All,
        Option::Some(ref ms) => {
            if ms@.len() == 0 {
                s is DropActor
            } else {
                s matches MethodSel::Project(v) && v.deep_view() == ms.deep_view()
            }
        },
    }
}

/// How an item's target is chosen: a template makes it custom, else the
/// caller's default stands.
pub open spec fn choice_ok(item: Item, dflt: Seq<char>, c: TargetChoice) -> bool {
    match item.template {
        Option::Some(ref t) => c.target@ == "custom"@ && (c.template matches Option::Some(ct)
            && ct@ == t@),
        Option::None => c.target@ == dflt && c.template is None,
    }
}

/// What the task of import `j` must hold.
pub open spec fn import_task_ok(config: Entry, j: int, t: GenTask) -> bool {
    let nm = config.imports@[j].0;
    let item = config.imports@[j].1;
    let dir = match item.output_dir {
        Option::Some(d) => d@,
        Option::None => src_dir_spec(config),
    };
    &&& t.out_file@ == dir + "/"@ + nm@ + ".rs"@
    &&& source_ok(item, t.source)
    &&& sel_ok(item, t.methods)
    &&& choice_ok(item, "canister_call"@, t.target)
    &&& t.kind is Import
}

/// What the service part of the plan must hold.
pub open spec fn service_plan_ok(config: Entry, main_exists: bool, s: Option<ServiceAction>) -> bool {
    match config.service {
        Option::None => s is None,
        Option::Some(serv) => {
            let main = src_dir_spec(config) + "/lib.rs"@;
            let did = match serv.path {
                Option::Some(p) => p@,
                Option::None => ""@,
            };
            if main_exists {
                s matches Option::Some(ServiceAction::Check { main_file, did: d }) && main_file@
                    == main && d@ == did
            } else {
                s matches Option::Some(ServiceAction::Generate(t)) && (t.out_file@ == main
                    && source_ok(serv, t.source) && t.methods is All && choice_ok(
                    serv,
                    "stub"@,
                    t.target,
                ) && t.kind is Service)
            }
        },
    }
}

fn target_choice(item: &Item, dflt: &str) -> (c: TargetChoice)
    ensures
        choice_ok(*item, dflt@, c),
{
    match &item.template {
        Option::Some(t) => TargetChoice {
            target: String::from_str("custom"),
            template: Option::Some(t.clone()),
        },
        Option::None => TargetChoice { target: String::from_str(dflt), template: Option::None },
    }
}

fn item_source(item: &Item) -> (r: Result<DidSource, BindgenError>)
    ensures
        match r {
            Result::Ok(s) => source_ok(*item, s),
            Result::Err(e) => item.path is None && item.canister_id is None && e
                == BindgenError::NoCandidSource,
        },
{
    match &item.path {
        Option::Some(p) => Result::Ok(DidSource::FromFile(p.clone())),
        Option::None => match &item.canister_id {
            Option::Some(id) => Result::Ok(DidSource::Fetch(id.clone())),
            Option::None => Result::Err(BindgenError::NoCandidSource),
        },
    }
}

fn method_selection(item: &Item) -> (s: MethodSel)
    ensures
        sel_ok(*item, s),
{
    match &item.methods {
        Option::None => MethodSel::All,
        Option::Some(ms) => {
            if ms.len() == 0 {
                MethodSel::DropActor
            } else {
                let v = clone_strings(ms);
                MethodSel::Project(v)
            }
        },
    }
}

fn join_path(dir: &str, name: &str, suffix: &str) -> (r: String)
    ensures
        r@ == dir@ + "/"@ + name@ + suffix@,
{
    let r = String::from_str(dir).concat("/").concat(name).concat(suffix);
    proof {
        assert(r@ =~= dir@ + "/"@ + name@ + suffix@);
    }
    r
}

/// Plan a generation run over a loaded configuration.  `main_exists` says
/// whether the service's main file is already on disk; when it is, the
/// service is checked instead of generated.
pub fn run(config: &Entry, main_exists: bool) -> (r: Result<Plan, BindgenError>)
    ensures
        match r {
            Result::Ok(plan) => {
                &&& run_error(*config) is None
                &&& service_plan_ok(*config, main_exists, plan.service)
                &&& plan.imports@.len() == config.imports@.len()
                &&& forall|j: int|
                    0 <= j < config.imports@.len() ==> import_task_ok(
                        *config,
                        j,
                        #[trigger] plan.imports@[j],
                    )
            },
            Result::Err(e) => run_error(*config) == Option::Some(e),
        },
{
    let src_dir: String = match &config.service {
        Option::Some(s) => match &s.output_dir {
            Option::Some(d) => d.clone(),
            Option::None => String::from_str("./src"),
        },
        Option::None => String::from_str("./src"),
    };
    proof {
        assert(src_dir@ == src_dir_spec(*config));
    }
    let service: Option<ServiceAction> = match &config.service {
        Option::None => Option::None,
        Option::Some(serv) => {
            if serv.methods.is_some() {
                return Result::Err(BindgenError::ServiceMethodsPresent);
            }
            let did: &String = match &serv.path {
                Option::Some(p) => p,
                Option::None => {
                    return Result::Err(BindgenError::ServicePathRequired);
                },
            };
            let main_file = join_path(src_dir.as_str(), "lib", ".rs");
            proof {
                reveal_strlit("/");
                reveal_strlit("lib");
                reveal_strlit(".rs");
                reveal_strlit("/lib.rs");
                assert(main_file@ =~= src_dir_spec(*config) + "/lib.rs"@);
            }
            if main_exists {
                Option::Some(ServiceAction::Check { main_file, did: did.clone() })
            } else {
                let task = GenTask {
                    out_file: main_file,
                    source: DidSource::FromFile(did.clone()),
                    methods: MethodSel::All,
                    target: target_choice(serv, "stub"),
                    kind: GenKind::Service,
                };
                Option::Some(ServiceAction::Generate(task))
            }
        },
    };
    let mut imports: Vec<GenTask> = Vec::new();
    let mut i: usize = 0;
    proof {
        assert(imports@ =~= Seq::<GenTask>::empty());
    }
    while i < config.imports.len()
        invariant
            i <= config.imports@.len(),
            imports@.len() == i,
            src_dir@ == src_dir_spec(*config),
            service_error(*config) is None,
            service_plan_ok(*config, main_exists, service),
            first_import_error(config.imports@, 0) == first_import_error(
                config.imports@,
                i as int,
            ),
            forall|j: int|
                0 <= j < i ==> import_task_ok(*config, j, #[trigger] imports@[j]),
        decreases config.imports@.len() - i,
    {
        let pair = &config.imports[i];
        let name = &pair.0;
        let item = &pair.1;
        let source = match item_source(item) {
            Result::Ok(s) => s,
            Result::Err(e) => {
                return Result::Err(e);
            },
        };
        let dir: &String = match &item.output_dir {
            Option::Some(d) => d,
            Option::None => &src_dir,
        };
        let out_file = join_path(dir.as_str(), name.as_str(), ".rs");
        let task = GenTask {
            out_file,
            source,
            methods: method_selection(item),
            target: target_choice(item, "canister_call"),
            kind: GenKind::Import,
        };
        proof {
            assert(*item == config.imports@[i as int].1);
            assert(name@ == config.imports@[i as int].0@);
            assert(src_dir@ == src_dir_spec(*config));
            assert(!(config.imports@[i as int].1.path is None
                && config.imports@[i as int].1.canister_id is None));
            assert(first_import_error(config.imports@, i as int) == first_import_error(
                config.imports@,
                i + 1 as int,
            ));
            assert(task.out_file@ =~= (match config.imports@[i as int].1.output_dir {
                Option::Some(d) => d@,
                Option::None => src_dir_spec(*config),
            }) + "/"@ + config.imports@[i as int].0@ + ".rs"@);
            assert(import_task_ok(*config, i as int, task));
        }
        imports.push(task);
        i += 1;
    }
    Result::Ok(Plan { service, imports })
}

/// How the produced text is delivered.
#[derive(Clone, Copy, PartialEq, Eq, Structural, Debug)]
pub enum OutputMode {
    /// Write the file.
    Write,
    /// Show a line diff against the existing file.
    DiffLines,
    /// Show a character diff against the existing file.
    DiffChars,
    /// Show the produced text itself.
    Print,
}

/// The delivery decision: write when asked to, diff when the file already
/// exists, show otherwise.
pub fn output_mode(opt: &Opt, exists: bool) -> (m: OutputMode)
    ensures
        m == (if opt.is_write {
            OutputMode::Write
        } else if exists {
            if opt.line_diff {
                OutputMode::DiffLines
            } else {
                OutputMode::DiffChars
            }
        } else {
            OutputMode::Print
        }),
{
    if opt.is_write {
        OutputMode::Write
    } else if exists {
        if opt.line_diff {
            OutputMode::DiffLines
        } else {
            OutputMode::DiffChars
        }
    } else {
        OutputMode::Print
    }
}

/// A diagnostic line for each unused selector of a generation run.
pub open spec fn unused_from(unused: Seq<Seq<char>>, i: int, acc: Seq<Seq<char>>) -> Seq<Seq<char>>
    decreases unused.len() - i,
{
    if i < 0 || i >= unused.len() {
        acc
    } else {
        unused_from(unused, i + 1, acc.push("Path "@ + unused[i] + " is unused"@))
    }
}

pub fn report_unused(unused: &Vec<String>) -> (lines: Vec<String>)
    ensures
        lines.deep_view() == unused_from(unused.deep_view(), 0, Seq::empty()),
{
    let mut lines: Vec<String> = Vec::new();
    let mut i: usize = 0;
    proof {
        assert(lines.deep_view() =~= Seq::<Seq<char>>::empty());
    }
    while i < unused.len()
        invariant
            i <= unused@.len(),
            unused_from(unused.deep_view(), 0, Seq::empty()) == unused_from(
                unused.deep_view(),
                i as int,
                lines.deep_view(),
            ),
        decreases unused@.len() - i,
    {
        let line = String::from_str("Path ").concat(unused[i].as_str()).concat(" is unused");
        proof {
            assert(line@ =~= "Path "@ + unused.deep_view()[i as int] + " is unused"@);
        }
        let ghost lv = lines.deep_view();
        let ghost linev = line@;
        lines.push(line);
        proof {
            assert(lines.deep_view() =~= lv.push(linev));
        }
        i += 1;
    }
    lines
}

} // verus!
