//! The mode/driver: command options and the audit driver.
//!
//! Two policies share the engine.  Trace runs once against the program's
//! designated target crate and follows call edges transitively.  Scan runs
//! once per non-target, non-builtin crate, each with a fresh engine and
//! visited set: crates' export surfaces are independent.

use vstd::prelude::*;
use crate::audit::{
    AState, Builder, Ctx, Mode, build_spec, n_unvisited, st_of, cx_of, lemma_unvisited_prefix,
};
use crate::classify::{ClassifyError, TargetInfo, find_crate, find_crate_spec, find_non_root_crates,
    non_root_from};
use crate::model::Program;
use crate::report::{Finding, FindingV, findings_view};
use crate::utils::clone_usizes;

verus! {

/// The common command options.
pub struct Options {
    /// The path of the cargo project root.
    pub manifest_path: String,
    /// The package to process.
    pub package: Option<String>,
    /// Do not activate the `default` feature.
    pub no_default_features: bool,
    /// Activate all features.
    pub all_features: bool,
    /// The features to activate.
    pub features: Vec<String>,
    /// Disable the progress bar and log instead.
    pub verbose: bool,
    pub expand_proc_macros: bool,
}

/// The tool's commands.
pub enum Command {
    /// Audit dependent crates for unsafe functions and foreign
    /// imports/exports.
    Audit { options: Options, trace_functions: bool, whitelist: Vec<String> },
    /// Export the service interface of a project.
    Candid { options: Options },
    /// Generate source bindings from service interfaces.
    Bindgen { canister_path: String },
}

impl Command {
    pub fn is_verbose(&self) -> (r: bool)
        ensures
            r == match self {
                Command::Audit { options, .. } => options.verbose,
                Command::Candid { options } => options.verbose,
                Command::Bindgen { .. } => true,
            },
    {
        match self {
            Command::Audit { options, .. } => options.verbose,
            Command::Candid { options } => options.verbose,
            Command::Bindgen { .. } => true,
        }
    }
}

/// The engine state every run starts from: nothing visited, nothing found.
pub open spec fn fresh_state(p: Program) -> AState {
    AState { visited: Seq::new(p.symbols@.len(), |i: int| false), found: Seq::empty() }
}

/// One whole-crate audit from a fresh state, with fuel enough for every
/// symbol of the program.
pub open spec fn audit_crate_spec(p: Program, mode: Mode, wl: Seq<usize>, k: usize) -> AState {
    build_spec(Ctx { p, mode, wl }, fresh_state(p), k, p.symbols@.len() as nat)
}

/// How many symbols a finished state has visited.
pub open spec fn visited_of(p: Program, st: AState) -> nat {
    (p.symbols@.len() - n_unvisited(st.visited)) as nat
}

/// Scan the crates from index `i` on, each with a fresh engine,
/// accumulating findings in crate order and summing the visited counts.
pub open spec fn scan_crates_from(
    p: Program,
    wl: Seq<usize>,
    crates: Seq<usize>,
    i: int,
    found: Seq<FindingV>,
    count: nat,
) -> (Seq<FindingV>, nat)
    decreases crates.len() - i,
{
    if i < 0 || i >= crates.len() {
        (found, count)
    } else {
        let st = audit_crate_spec(p, Mode::ScanExports, wl, crates[i]);
        scan_crates_from(p, wl, crates, i + 1, found + st.found, count + visited_of(p, st))
    }
}

/// What an audit run reports back.
pub struct AuditOutcome {
    pub findings: Vec<Finding>,
    /// How many functions were audited.
    pub visited: usize,
}

pub proof fn lemma_unvisited_all_false(v: Seq<bool>)
    requires
        forall|j: int| 0 <= j < v.len() ==> !v[j],
    ensures
        n_unvisited(v) == v.len(),
    decreases v.len(),
{
    if v.len() > 0 {
        lemma_unvisited_all_false(v.drop_first());
    }
}

/// Run the audit: under the trace policy, once over the target crate;
/// under the scan policy, once per other (non-builtin) crate, each run
/// independent of the others.
pub fn run_audit(p: &Program, target: &TargetInfo, whitelist: Vec<usize>, trace_functions: bool)
    -> (r: Result<AuditOutcome, ClassifyError>)
    requires
        p.wf(),
        p.crates@.len() * p.symbols@.len() + p.symbols@.len() < usize::MAX,
    ensures
        match r {
            Result::Ok(out) => {
                if trace_functions {
                    match find_crate_spec(*p, target.root@) {
                        Result::Ok(k) => {
                            let st = audit_crate_spec(
                                *p,
                                Mode::TraceFunctions,
                                whitelist@,
                                k,
                            );
                            findings_view(out.findings@) == st.found && out.visited == visited_of(
                                *p,
                                st,
                            )
                        },
                        Result::Err(_) => false,
                    }
                } else {
                    let crates = non_root_from(*p, target.root@, 0, Seq::empty());
                    let (found, count) = scan_crates_from(
                        *p,
                        whitelist@,
                        crates,
                        0,
                        Seq::empty(),
                        0,
                    );
                    findings_view(out.findings@) == found && out.visited == count
                }
            },
            Result::Err(e) => trace_functions && find_crate_spec(*p, target.root@)
                == Result::<usize, ClassifyError>::Err(e),
        },
{
    let n = p.symbols.len();
    if trace_functions {
        let k = match find_crate(p, target) {
            Result::Ok(k) => k,
            Result::Err(e) => {
                return Result::Err(e);
            },
        };
        let mut builder = Builder::new(p, k, whitelist, Mode::TraceFunctions);
        proof {
            lemma_unvisited_all_false(builder.visited@);
            assert(st_of(builder) =~= fresh_state(*p));
            assert(findings_view(builder.findings@) =~= Seq::<FindingV>::empty());
        }
        let ghost b0 = builder;
        builder.build(p);
        proof {
            assert(cx_of(*p, b0) == Ctx {
                p: *p,
                mode: Mode::TraceFunctions,
                wl: b0.whitelist@,
            });
            assert(st_of(builder) == build_spec(
                cx_of(*p, b0),
                fresh_state(*p),
                k,
                p.symbols@.len() as nat,
            ));
            lemma_unvisited_prefix(builder.visited@, builder.visited@.len() as int);
            assert(builder.visited@.take(builder.visited@.len() as int) =~= builder.visited@);
        }
        let count = builder.visited_count();
        Result::Ok(AuditOutcome { findings: builder.findings, visited: count })
    } else {
        let crates = find_non_root_crates(p, target);
        let ghost cseq = crates@;
        proof {
            crate::classify::lemma_non_root_len(*p, target.root@, 0, Seq::empty());
            assert(cseq.len() <= p.crates@.len());
        }
        let mut findings: Vec<Finding> = Vec::new();
        let mut count: usize = 0;
        let mut i: usize = 0;
        proof {
            assert(findings_view(findings@) =~= Seq::<FindingV>::empty());
        }
        while i < crates.len()
            invariant
                i <= cseq.len(),
                cseq == crates@,
                p.wf(),
                p.crates@.len() * p.symbols@.len() + p.symbols@.len() < usize::MAX,
                n == p.symbols@.len(),
                forall|j: int| 0 <= j < cseq.len() ==> cseq[j] < p.crates@.len(),
                count <= i * n,
                cseq.len() <= p.crates@.len(),
                scan_crates_from(*p, whitelist@, cseq, 0, Seq::empty(), 0) == scan_crates_from(
                    *p,
                    whitelist@,
                    cseq,
                    i as int,
                    findings_view(findings@),
                    count as nat,
                ),
            decreases cseq.len() - i,
        {
            let wl = clone_usizes(&whitelist);
            let mut builder = Builder::new(p, crates[i], wl, Mode::ScanExports);
            proof {
                lemma_unvisited_all_false(builder.visited@);
                assert(st_of(builder) =~= fresh_state(*p));
                assert(findings_view(builder.findings@) =~= Seq::<FindingV>::empty());
            }
            let ghost b0 = builder;
            builder.build(p);
            proof {
                assert(st_of(builder) == build_spec(
                    cx_of(*p, b0),
                    fresh_state(*p),
                    cseq[i as int] as usize,
                    p.symbols@.len() as nat,
                ));
                assert(cx_of(*p, b0) == Ctx { p: *p, mode: Mode::ScanExports, wl: whitelist@ });
                lemma_unvisited_prefix(builder.visited@, builder.visited@.len() as int);
                assert(builder.visited@.take(builder.visited@.len() as int) =~= builder.visited@);
            }
            let c = builder.visited_count();
            let mut fs = builder.findings;
            let ghost old_fv = findings_view(findings@);
            let ghost new_fv = findings_view(fs@);
            let ghost st_i = st_of(builder);
            findings.append(&mut fs);
            proof {
                assert(c <= n);
                assert(count + c <= i * n + n) by (nonlinear_arith)
                    requires
                        count <= i * n,
                        c <= n,
                ;
                assert(i * n + n == (i + 1) * n) by (nonlinear_arith);
                assert((i + 1) * n <= p.crates@.len() * p.symbols@.len()) by (nonlinear_arith)
                    requires
                        i + 1 <= p.crates@.len(),
                        n == p.symbols@.len(),
                        n >= 0,
                ;
            }
            count = count + c;
            proof {
                assert(findings_view(findings@) =~= old_fv + new_fv);
                assert(new_fv == st_i.found);
            }
            i += 1;
        }
        proof {
            assert(cseq.len() <= p.crates@.len());
        }
        Result::Ok(AuditOutcome { findings, visited: count })
    }
}

} // verus!
