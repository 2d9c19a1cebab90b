//! Proved properties of the audit engine.
//!
//! These laws relate the engine's components across calls: what any
//! emitted finding can say, that memoization makes re-audits no-ops, that
//! the whitelist gates reporting but not traversal, and that a macro's
//! expansion is audited like written-out code.

use vstd::prelude::*;
use crate::audit::{
    AState, Ctx, Mode, build_spec, mk_finding, visit_decl, visit_decls, visit_expr, visit_exprs,
    visit_fn, visit_impl_items, visit_impls, visit_module,
};
use crate::driver::audit_crate_spec;
use crate::model::{AssocItem, Decl, Expr, ImplBlock, Module, Program, dsize, dsizes, esize,
    esizes, msize};
use crate::report::{FindingKind, FindingV, render_finding_spec};
use crate::utils::display_path_spec;

verus! {

/// What is true of every finding an audit run can emit: its symbol is a
/// real symbol of a non-builtin crate, its whitelisted flag says whether
/// that symbol's crate is whitelisted, its name is the symbol's display
/// path, a scan run never emits unsafe-region findings, an import finding
/// concerns a foreign-import declaration, and an export finding concerns
/// an exported symbol under the scan policy.
pub open spec fn ok_finding(cx: Ctx, fv: FindingV) -> bool {
    &&& 0 <= fv.symbol < cx.p.symbols@.len()
    &&& !(cx.p.crates@[cx.p.symbols@[fv.symbol].krate as int].origin is Builtin)
    &&& fv.whitelisted == cx.wl.contains(cx.p.symbols@[fv.symbol].krate)
    &&& (cx.mode is ScanExports ==> !(fv.kind is UnsafeRegion))
    &&& (fv.kind is ForeignImport ==> cx.p.symbols@[fv.symbol].container is ForeignImport)
    &&& (fv.kind is ForeignExport ==> cx.p.symbols@[fv.symbol].export_name is Some
        && cx.mode is ScanExports)
    &&& fv.name == display_path_spec(cx.p, fv.symbol)
}

/// One traversal step is sound: the visited set only grows, earlier
/// findings are kept unchanged, and every new finding is justified.
pub open spec fn sound_step(cx: Ctx, st: AState, r: AState) -> bool {
    &&& r.visited.len() == st.visited.len()
    &&& (forall|j: int| 0 <= j < st.visited.len() && st.visited[j] ==> r.visited[j])
    &&& st.found.len() <= r.found.len()
    &&& (forall|j: int| 0 <= j < st.found.len() ==> r.found[j] == st.found[j])
    &&& (forall|j: int|
        st.found.len() <= j < r.found.len() ==> ok_finding(cx, #[trigger] r.found[j]))
}

pub proof fn lemma_sound_trans(cx: Ctx, a: AState, m: AState, r: AState)
    requires
        sound_step(cx, a, m),
        sound_step(cx, m, r),
    ensures
        sound_step(cx, a, r),
{
    assert forall|j: int| a.found.len() <= j < r.found.len() implies ok_finding(
        cx,
        #[trigger] r.found[j],
    ) by {
        if j < m.found.len() {
            assert(r.found[j] == m.found[j]);
        }
    }
}

pub proof fn lemma_visit_fn_sound(cx: Ctx, st: AState, path: Seq<Seq<char>>, f: int, b: nat)
    requires
        cx.p.wf(),
        st.visited.len() == cx.p.symbols@.len(),
    ensures
        sound_step(cx, st, visit_fn(cx, st, path, f, b)),
    decreases b, 0nat, 0nat,
{
    if 0 <= f < st.visited.len() && !st.visited[f] && b != 0 {
        let st1 = AState { visited: st.visited.update(f, true), found: st.found };
        let sym = cx.p.symbols@[f];
        if !(cx.p.crates@[sym.krate as int].origin is Builtin) {
            let is_wl = cx.wl.contains(sym.krate);
            let name = display_path_spec(cx.p, f);
            let path1 = path.push(name);
            let st2 = if sym.container is ForeignImport {
                AState {
                    visited: st1.visited,
                    found: st1.found.push(
                        mk_finding(FindingKind::ForeignImport, f, name, Option::None, path1, is_wl),
                    ),
                }
            } else {
                st1
            };
            assert(sound_step(cx, st, st2));
            match cx.mode {
                Mode::TraceFunctions => match sym.body {
                    Option::None => {},
                    Option::Some(body) => {
                        lemma_visit_expr_sound(cx, st2, path1, f, name, is_wl, body, (b - 1) as nat);
                        lemma_sound_trans(
                            cx,
                            st,
                            st2,
                            visit_expr(cx, st2, path1, f, name, is_wl, body, (b - 1) as nat),
                        );
                    },
                },
                Mode::ScanExports => {},
            }
        }
    }
}

pub proof fn lemma_visit_expr_sound(
    cx: Ctx,
    st: AState,
    path1: Seq<Seq<char>>,
    f: int,
    name: Seq<char>,
    is_wl: bool,
    e: Expr,
    b: nat,
)
    requires
        cx.p.wf(),
        st.visited.len() == cx.p.symbols@.len(),
        cx.mode is TraceFunctions,
        0 <= f < cx.p.symbols@.len(),
        !(cx.p.crates@[cx.p.symbols@[f].krate as int].origin is Builtin),
        is_wl == cx.wl.contains(cx.p.symbols@[f].krate),
        name == display_path_spec(cx.p, f),
    ensures
        sound_step(cx, st, visit_expr(cx, st, path1, f, name, is_wl, e, b)),
    decreases b, esize(e), 0nat,
{
    match e {
        Expr::MacroCall { expansion } => match expansion {
            Option::None => {},
            Option::Some(x) => {
                lemma_visit_expr_sound(cx, st, path1, f, name, is_wl, *x, b);
            },
        },
        Expr::UnsafeBlock { children } => {
            let st1 = AState {
                visited: st.visited,
                found: st.found.push(
                    mk_finding(FindingKind::UnsafeRegion, f, name, Option::None, path1, is_wl),
                ),
            };
            assert(sound_step(cx, st, st1));
            lemma_visit_exprs_sound(cx, st1, path1, f, name, is_wl, children@, b);
            lemma_sound_trans(
                cx,
                st,
                st1,
                visit_exprs(cx, st1, path1, f, name, is_wl, children@, b),
            );
        },
        Expr::CallSite { target, children } => {
            let st1 = match target {
                Option::None => st,
                Option::Some(t) => visit_fn(cx, st, path1, t as int, b),
            };
            match target {
                Option::None => {},
                Option::Some(t) => {
                    lemma_visit_fn_sound(cx, st, path1, t as int, b);
                },
            }
            lemma_visit_exprs_sound(cx, st1, path1, f, name, is_wl, children@, b);
            lemma_sound_trans(
                cx,
                st,
                st1,
                visit_exprs(cx, st1, path1, f, name, is_wl, children@, b),
            );
        },
        Expr::Other { children } => {
            lemma_visit_exprs_sound(cx, st, path1, f, name, is_wl, children@, b);
        },
    }
}

pub proof fn lemma_visit_exprs_sound(
    cx: Ctx,
    st: AState,
    path1: Seq<Seq<char>>,
    f: int,
    name: Seq<char>,
    is_wl: bool,
    es: Seq<Expr>,
    b: nat,
)
    requires
        cx.p.wf(),
        st.visited.len() == cx.p.symbols@.len(),
        cx.mode is TraceFunctions,
        0 <= f < cx.p.symbols@.len(),
        !(cx.p.crates@[cx.p.symbols@[f].krate as int].origin is Builtin),
        is_wl == cx.wl.contains(cx.p.symbols@[f].krate),
        name == display_path_spec(cx.p, f),
    ensures
        sound_step(cx, st, visit_exprs(cx, st, path1, f, name, is_wl, es, b)),
    decreases b, esizes(es), es.len(),
{
    if es.len() != 0 {
        let st1 = visit_expr(cx, st, path1, f, name, is_wl, es[0], b);
        lemma_visit_expr_sound(cx, st, path1, f, name, is_wl, es[0], b);
        lemma_visit_exprs_sound(cx, st1, path1, f, name, is_wl, es.drop_first(), b);
        lemma_sound_trans(
            cx,
            st,
            st1,
            visit_exprs(cx, st1, path1, f, name, is_wl, es.drop_first(), b),
        );
    }
}

pub proof fn lemma_visit_module_sound(cx: Ctx, st: AState, m: Module, b: nat)
    requires
        cx.p.wf(),
        st.visited.len() == cx.p.symbols@.len(),
    ensures
        sound_step(cx, st, visit_module(cx, st, m, b)),
    decreases b, msize(m), 0nat,
{
    lemma_visit_decls_sound(cx, st, m.decls@, b);
}

pub proof fn lemma_visit_decls_sound(cx: Ctx, st: AState, ds: Seq<Decl>, b: nat)
    requires
        cx.p.wf(),
        st.visited.len() == cx.p.symbols@.len(),
    ensures
        sound_step(cx, st, visit_decls(cx, st, ds, b)),
    decreases b, dsizes(ds), ds.len(),
{
    if ds.len() != 0 {
        let st1 = visit_decl(cx, st, ds[0], b);
        lemma_visit_decl_sound(cx, st, ds[0], b);
        lemma_visit_decls_sound(cx, st1, ds.drop_first(), b);
        lemma_sound_trans(cx, st, st1, visit_decls(cx, st1, ds.drop_first(), b));
    }
}

pub proof fn lemma_visit_decl_sound(cx: Ctx, st: AState, d: Decl, b: nat)
    requires
        cx.p.wf(),
        st.visited.len() == cx.p.symbols@.len(),
    ensures
        sound_step(cx, st, visit_decl(cx, st, d, b)),
    decreases b, dsize(d), 0nat,
{
    match d {
        Decl::Module(m) => {
            lemma_visit_module_sound(cx, st, m, b);
        },
        Decl::Function(f) => {
            lemma_visit_fn_sound(cx, st, Seq::empty(), f as int, b);
        },
        Decl::Other => {},
    }
}

pub proof fn lemma_visit_impl_items_sound(cx: Ctx, st: AState, items: Seq<AssocItem>, b: nat)
    requires
        cx.p.wf(),
        st.visited.len() == cx.p.symbols@.len(),
    ensures
        sound_step(cx, st, visit_impl_items(cx, st, items, b)),
    decreases b, 0nat, items.len(),
{
    if items.len() != 0 {
        let st1 = match items[0] {
            AssocItem::Function(f) => visit_fn(cx, st, Seq::empty(), f as int, b),
            AssocItem::Other => st,
        };
        match items[0] {
            AssocItem::Function(f) => {
                lemma_visit_fn_sound(cx, st, Seq::empty(), f as int, b);
            },
            AssocItem::Other => {},
        }
        lemma_visit_impl_items_sound(cx, st1, items.drop_first(), b);
        lemma_sound_trans(cx, st, st1, visit_impl_items(cx, st1, items.drop_first(), b));
    }
}

pub proof fn lemma_visit_impls_sound(cx: Ctx, st: AState, is: Seq<ImplBlock>, b: nat)
    requires
        cx.p.wf(),
        st.visited.len() == cx.p.symbols@.len(),
    ensures
        sound_step(cx, st, visit_impls(cx, st, is, b)),
    decreases b, 1nat, is.len(),
{
    if is.len() != 0 {
        let st1 = visit_impl_items(cx, st, is[0].items@, b);
        lemma_visit_impl_items_sound(cx, st, is[0].items@, b);
        lemma_visit_impls_sound(cx, st1, is.drop_first(), b);
        lemma_sound_trans(cx, st, st1, visit_impls(cx, st1, is.drop_first(), b));
    }
}

pub proof fn lemma_build_sound(cx: Ctx, st: AState, krate: usize, b: nat)
    requires
        cx.p.wf(),
        st.visited.len() == cx.p.symbols@.len(),
    ensures
        sound_step(cx, st, build_spec(cx, st, krate, b)),
{
    if !cx.wl.contains(krate) {
        let st1 = visit_module(cx, st, cx.p.crates@[krate as int].root_module, b);
        lemma_visit_module_sound(cx, st, cx.p.crates@[krate as int].root_module, b);
        lemma_visit_impls_sound(cx, st1, cx.p.crates@[krate as int].impls@, b);
        lemma_sound_trans(cx, st, st1, visit_impls(cx, st1, cx.p.crates@[krate as int].impls@, b));
    }
}

/// Every finding of a whole-crate audit is justified (see `ok_finding`).
pub proof fn lemma_audit_sound(p: Program, mode: Mode, wl: Seq<usize>, k: usize, j: int)
    requires
        p.wf(),
        0 <= j < audit_crate_spec(p, mode, wl, k).found.len(),
    ensures
        ok_finding(Ctx { p, mode, wl }, audit_crate_spec(p, mode, wl, k).found[j]),
{
    let cx = Ctx { p, mode, wl };
    let init = crate::driver::fresh_state(p);
    lemma_build_sound(cx, init, k, p.symbols@.len() as nat);
}

/// Builtin exclusion is absolute: no finding of an audit run concerns a
/// symbol of a builtin crate, whatever the whitelist holds.
pub proof fn lemma_builtin_exclusion(p: Program, mode: Mode, wl: Seq<usize>, k: usize, j: int)
    requires
        p.wf(),
        0 <= j < audit_crate_spec(p, mode, wl, k).found.len(),
    ensures
        ({
            let fv = audit_crate_spec(p, mode, wl, k).found[j];
            &&& 0 <= fv.symbol < p.symbols@.len()
            &&& !(p.crates@[p.symbols@[fv.symbol].krate as int].origin is Builtin)
        }),
{
    lemma_audit_sound(p, mode, wl, k, j);
}

/// Every finding's whitelisted flag says exactly whether its symbol's
/// crate is in the whitelist.
pub proof fn lemma_whitelist_flag(p: Program, mode: Mode, wl: Seq<usize>, k: usize, j: int)
    requires
        p.wf(),
        0 <= j < audit_crate_spec(p, mode, wl, k).found.len(),
    ensures
        ({
            let fv = audit_crate_spec(p, mode, wl, k).found[j];
            fv.whitelisted == wl.contains(p.symbols@[fv.symbol].krate)
        }),
{
    lemma_audit_sound(p, mode, wl, k, j);
}

/// The scan policy never descends: a scan run cannot emit an
/// unsafe-region finding.
pub proof fn lemma_scan_never_unsafe(p: Program, wl: Seq<usize>, k: usize, j: int)
    requires
        p.wf(),
        0 <= j < audit_crate_spec(p, Mode::ScanExports, wl, k).found.len(),
    ensures
        !(audit_crate_spec(p, Mode::ScanExports, wl, k).found[j].kind is UnsafeRegion),
{
    lemma_audit_sound(p, Mode::ScanExports, wl, k, j);
}

/// Memoization is idempotent: auditing an already-visited symbol changes
/// nothing, so cyclic and mutually recursive call graphs visit each symbol
/// at most once.
pub proof fn lemma_memoized(cx: Ctx, st: AState, path: Seq<Seq<char>>, f: int, b: nat)
    requires
        0 <= f < st.visited.len(),
        st.visited[f],
    ensures
        visit_fn(cx, st, path, f, b) == st,
{
}

/// The whitelist suppresses reporting: a finding renders to no lines
/// exactly when it is whitelisted.
pub proof fn lemma_whitelist_suppresses_reporting(fv: FindingV)
    ensures
        (render_finding_spec(fv).len() == 0) == fv.whitelisted,
{
}

/// A finding with its whitelisted flag cleared.
pub open spec fn strip(fv: FindingV) -> FindingV {
    FindingV { whitelisted: false, ..fv }
}

/// Two run states that agree on everything but the whitelisted flags of
/// their findings.
pub open spec fn similar_states(a: AState, b: AState) -> bool {
    &&& a.visited == b.visited
    &&& a.found.len() == b.found.len()
    &&& forall|j: int| 0 <= j < a.found.len() ==> strip(a.found[j]) == strip(#[trigger] b.found[j])
}

pub proof fn lemma_similar_push(a: AState, b: AState, fa: FindingV, fb: FindingV)
    requires
        similar_states(a, b),
        strip(fa) == strip(fb),
    ensures
        similar_states(
            AState { visited: a.visited, found: a.found.push(fa) },
            AState { visited: b.visited, found: b.found.push(fb) },
        ),
{
    let a1 = AState { visited: a.visited, found: a.found.push(fa) };
    let b1 = AState { visited: b.visited, found: b.found.push(fb) };
    assert forall|j: int| 0 <= j < a1.found.len() implies strip(a1.found[j]) == strip(
        #[trigger] b1.found[j],
    ) by {
        if j < a.found.len() {
            assert(strip(a.found[j]) == strip(b.found[j]));
        }
    }
}

/// The whitelist does not gate traversal: two symbol audits that differ
/// only in their whitelist visit exactly the same symbols and emit the
/// same findings up to their whitelisted flags.
pub proof fn lemma_wl_ind_fn(
    cx1: Ctx,
    cx2: Ctx,
    st1: AState,
    st2: AState,
    path: Seq<Seq<char>>,
    f: int,
    b: nat,
)
    requires
        cx2.p == cx1.p,
        cx2.mode == cx1.mode,
        similar_states(st1, st2),
    ensures
        similar_states(visit_fn(cx1, st1, path, f, b), visit_fn(cx2, st2, path, f, b)),
    decreases b, 0nat, 0nat,
{
    if 0 <= f < st1.visited.len() && !st1.visited[f] && b != 0 {
        let sym = cx1.p.symbols@[f];
        let u1 = AState { visited: st1.visited.update(f, true), found: st1.found };
        let u2 = AState { visited: st2.visited.update(f, true), found: st2.found };
        if !(cx1.p.crates@[sym.krate as int].origin is Builtin) {
            let name = display_path_spec(cx1.p, f);
            let path1 = path.push(name);
            let wl1 = cx1.wl.contains(sym.krate);
            let wl2 = cx2.wl.contains(sym.krate);
            let imp1 = mk_finding(FindingKind::ForeignImport, f, name, Option::None, path1, wl1);
            let imp2 = mk_finding(FindingKind::ForeignImport, f, name, Option::None, path1, wl2);
            let m1 = if sym.container is ForeignImport {
                AState { visited: u1.visited, found: u1.found.push(imp1) }
            } else {
                u1
            };
            let m2 = if sym.container is ForeignImport {
                AState { visited: u2.visited, found: u2.found.push(imp2) }
            } else {
                u2
            };
            if sym.container is ForeignImport {
                lemma_similar_push(u1, u2, imp1, imp2);
            }
            match cx1.mode {
                Mode::TraceFunctions => match sym.body {
                    Option::None => {},
                    Option::Some(body) => {
                        lemma_wl_ind_expr(
                            cx1,
                            cx2,
                            m1,
                            m2,
                            path1,
                            f,
                            name,
                            wl1,
                            wl2,
                            body,
                            (b - 1) as nat,
                        );
                    },
                },
                Mode::ScanExports => match sym.export_name {
                    Option::None => {},
                    Option::Some(e) => {
                        lemma_similar_push(
                            m1,
                            m2,
                            mk_finding(
                                FindingKind::ForeignExport,
                                f,
                                name,
                                Option::Some(e@),
                                path1,
                                wl1,
                            ),
                            mk_finding(
                                FindingKind::ForeignExport,
                                f,
                                name,
                                Option::Some(e@),
                                path1,
                                wl2,
                            ),
                        );
                    },
                },
            }
        }
    }
}

pub proof fn lemma_wl_ind_expr(
    cx1: Ctx,
    cx2: Ctx,
    st1: AState,
    st2: AState,
    path1: Seq<Seq<char>>,
    f: int,
    name: Seq<char>,
    wl1: bool,
    wl2: bool,
    e: Expr,
    b: nat,
)
    requires
        cx2.p == cx1.p,
        cx2.mode == cx1.mode,
        similar_states(st1, st2),
    ensures
        similar_states(
            visit_expr(cx1, st1, path1, f, name, wl1, e, b),
            visit_expr(cx2, st2, path1, f, name, wl2, e, b),
        ),
    decreases b, esize(e), 0nat,
{
    match e {
        Expr::MacroCall { expansion } => match expansion {
            Option::None => {},
            Option::Some(x) => {
                lemma_wl_ind_expr(cx1, cx2, st1, st2, path1, f, name, wl1, wl2, *x, b);
            },
        },
        Expr::UnsafeBlock { children } => {
            let f1 = mk_finding(FindingKind::UnsafeRegion, f, name, Option::None, path1, wl1);
            let f2 = mk_finding(FindingKind::UnsafeRegion, f, name, Option::None, path1, wl2);
            let a1 = AState { visited: st1.visited, found: st1.found.push(f1) };
            let a2 = AState { visited: st2.visited, found: st2.found.push(f2) };
            lemma_similar_push(st1, st2, f1, f2);
            lemma_wl_ind_exprs(cx1, cx2, a1, a2, path1, f, name, wl1, wl2, children@, b);
        },
        Expr::CallSite { target, children } => {
            let a1 = match target {
                Option::None => st1,
                Option::Some(t) => visit_fn(cx1, st1, path1, t as int, b),
            };
            let a2 = match target {
                Option::None => st2,
                Option::Some(t) => visit_fn(cx2, st2, path1, t as int, b),
            };
            match target {
                Option::None => {},
                Option::Some(t) => {
                    lemma_wl_ind_fn(cx1, cx2, st1, st2, path1, t as int, b);
                },
            }
            lemma_wl_ind_exprs(cx1, cx2, a1, a2, path1, f, name, wl1, wl2, children@, b);
        },
        Expr::Other { children } => {
            lemma_wl_ind_exprs(cx1, cx2, st1, st2, path1, f, name, wl1, wl2, children@, b);
        },
    }
}

pub proof fn lemma_wl_ind_exprs(
    cx1: Ctx,
    cx2: Ctx,
    st1: AState,
    st2: AState,
    path1: Seq<Seq<char>>,
    f: int,
    name: Seq<char>,
    wl1: bool,
    wl2: bool,
    es: Seq<Expr>,
    b: nat,
)
    requires
        cx2.p == cx1.p,
        cx2.mode == cx1.mode,
        similar_states(st1, st2),
    ensures
        similar_states(
            visit_exprs(cx1, st1, path1, f, name, wl1, es, b),
            visit_exprs(cx2, st2, path1, f, name, wl2, es, b),
        ),
    decreases b, esizes(es), es.len(),
{
    if es.len() != 0 {
        let a1 = visit_expr(cx1, st1, path1, f, name, wl1, es[0], b);
        let a2 = visit_expr(cx2, st2, path1, f, name, wl2, es[0], b);
        lemma_wl_ind_expr(cx1, cx2, st1, st2, path1, f, name, wl1, wl2, es[0], b);
        lemma_wl_ind_exprs(cx1, cx2, a1, a2, path1, f, name, wl1, wl2, es.drop_first(), b);
    }
}

pub proof fn lemma_wl_ind_decl(cx1: Ctx, cx2: Ctx, st1: AState, st2: AState, d: Decl, b: nat)
    requires
        cx2.p == cx1.p,
        cx2.mode == cx1.mode,
        similar_states(st1, st2),
    ensures
        similar_states(visit_decl(cx1, st1, d, b), visit_decl(cx2, st2, d, b)),
    decreases b, dsize(d), 0nat,
{
    match d {
        Decl::Module(m) => {
            lemma_wl_ind_module(cx1, cx2, st1, st2, m, b);
        },
        Decl::Function(f) => {
            lemma_wl_ind_fn(cx1, cx2, st1, st2, Seq::empty(), f as int, b);
        },
        Decl::Other => {},
    }
}

pub proof fn lemma_wl_ind_decls(cx1: Ctx, cx2: Ctx, st1: AState, st2: AState, ds: Seq<Decl>, b: nat)
    requires
        cx2.p == cx1.p,
        cx2.mode == cx1.mode,
        similar_states(st1, st2),
    ensures
        similar_states(visit_decls(cx1, st1, ds, b), visit_decls(cx2, st2, ds, b)),
    decreases b, dsizes(ds), ds.len(),
{
    if ds.len() != 0 {
        let a1 = visit_decl(cx1, st1, ds[0], b);
        let a2 = visit_decl(cx2, st2, ds[0], b);
        lemma_wl_ind_decl(cx1, cx2, st1, st2, ds[0], b);
        lemma_wl_ind_decls(cx1, cx2, a1, a2, ds.drop_first(), b);
    }
}

pub proof fn lemma_wl_ind_module(cx1: Ctx, cx2: Ctx, st1: AState, st2: AState, m: Module, b: nat)
    requires
        cx2.p == cx1.p,
        cx2.mode == cx1.mode,
        similar_states(st1, st2),
    ensures
        similar_states(visit_module(cx1, st1, m, b), visit_module(cx2, st2, m, b)),
    decreases b, msize(m), 0nat,
{
    lemma_wl_ind_decls(cx1, cx2, st1, st2, m.decls@, b);
}

pub proof fn lemma_wl_ind_impl_items(
    cx1: Ctx,
    cx2: Ctx,
    st1: AState,
    st2: AState,
    items: Seq<AssocItem>,
    b: nat,
)
    requires
        cx2.p == cx1.p,
        cx2.mode == cx1.mode,
        similar_states(st1, st2),
    ensures
        similar_states(
            visit_impl_items(cx1, st1, items, b),
            visit_impl_items(cx2, st2, items, b),
        ),
    decreases b, 0nat, items.len(),
{
    if items.len() != 0 {
        let a1 = match items[0] {
            AssocItem::Function(f) => visit_fn(cx1, st1, Seq::empty(), f as int, b),
            AssocItem::Other => st1,
        };
        let a2 = match items[0] {
            AssocItem::Function(f) => visit_fn(cx2, st2, Seq::empty(), f as int, b),
            AssocItem::Other => st2,
        };
        match items[0] {
            AssocItem::Function(f) => {
                lemma_wl_ind_fn(cx1, cx2, st1, st2, Seq::empty(), f as int, b);
            },
            AssocItem::Other => {},
        }
        lemma_wl_ind_impl_items(cx1, cx2, a1, a2, items.drop_first(), b);
    }
}

pub proof fn lemma_wl_ind_impls(
    cx1: Ctx,
    cx2: Ctx,
    st1: AState,
    st2: AState,
    is: Seq<ImplBlock>,
    b: nat,
)
    requires
        cx2.p == cx1.p,
        cx2.mode == cx1.mode,
        similar_states(st1, st2),
    ensures
        similar_states(visit_impls(cx1, st1, is, b), visit_impls(cx2, st2, is, b)),
    decreases b, 1nat, is.len(),
{
    if is.len() != 0 {
        let a1 = visit_impl_items(cx1, st1, is[0].items@, b);
        let a2 = visit_impl_items(cx2, st2, is[0].items@, b);
        lemma_wl_ind_impl_items(cx1, cx2, st1, st2, is[0].items@, b);
        lemma_wl_ind_impls(cx1, cx2, a1, a2, is.drop_first(), b);
    }
}

/// The whitelist gates reporting only.  Two whole-crate audits of the same
/// program under the same policy, differing only in their whitelists —
/// neither of which whitelists the audited crate itself — visit exactly
/// the same symbols and emit the same findings, up to the whitelisted
/// flags that the reporter suppresses on.
pub proof fn lemma_whitelist_gates_reporting_only(
    p: Program,
    mode: Mode,
    wl1: Seq<usize>,
    wl2: Seq<usize>,
    k: usize,
)
    requires
        !wl1.contains(k),
        !wl2.contains(k),
    ensures
        similar_states(audit_crate_spec(p, mode, wl1, k), audit_crate_spec(p, mode, wl2, k)),
{
    let cx1 = Ctx { p, mode, wl: wl1 };
    let cx2 = Ctx { p, mode, wl: wl2 };
    let init = crate::driver::fresh_state(p);
    let b = p.symbols@.len() as nat;
    let m1 = visit_module(cx1, init, p.crates@[k as int].root_module, b);
    let m2 = visit_module(cx2, init, p.crates@[k as int].root_module, b);
    lemma_wl_ind_module(cx1, cx2, init, init, p.crates@[k as int].root_module, b);
    lemma_wl_ind_impls(cx1, cx2, m1, m2, p.crates@[k as int].impls@, b);
}

/// A body that is just a macro invocation expanding to an unsafe block
/// yields exactly one finding: an unsafe region for the audited symbol.
pub proof fn lemma_macro_revealed_unsafe(cx: Ctx, st: AState, path: Seq<Seq<char>>, f: int, b: nat)
    requires
        0 <= f < st.visited.len(),
        st.visited.len() == cx.p.symbols@.len(),
        !st.visited[f],
        b >= 1,
        cx.mode is TraceFunctions,
        !(cx.p.crates@[cx.p.symbols@[f].krate as int].origin is Builtin),
        !(cx.p.symbols@[f].container is ForeignImport),
        cx.p.symbols@[f].body matches Option::Some(body) && body matches Expr::MacroCall {
            expansion,
        } && expansion matches Option::Some(x) && *x matches Expr::UnsafeBlock { children }
            && children@.len() == 0,
    ensures
        ({
            let name = display_path_spec(cx.p, f);
            visit_fn(cx, st, path, f, b).found == st.found.push(
                mk_finding(
                    FindingKind::UnsafeRegion,
                    f,
                    name,
                    Option::None,
                    path.push(name),
                    cx.wl.contains(cx.p.symbols@[f].krate),
                ),
            )
        }),
{
    let sym = cx.p.symbols@[f];
    let name = display_path_spec(cx.p, f);
    let path1 = path.push(name);
    let is_wl = cx.wl.contains(sym.krate);
    let st1 = AState { visited: st.visited.update(f, true), found: st.found };
    match sym.body {
        Option::Some(body) => match body {
            Expr::MacroCall { expansion } => match expansion {
                Option::Some(x) => match *x {
                    Expr::UnsafeBlock { children } => {
                        let b1 = (b - 1) as nat;
                        let st_push = AState {
                            visited: st1.visited,
                            found: st1.found.push(
                                mk_finding(
                                    FindingKind::UnsafeRegion,
                                    f,
                                    name,
                                    Option::None,
                                    path1,
                                    is_wl,
                                ),
                            ),
                        };
                        assert(visit_fn(cx, st, path, f, b) == visit_expr(
                            cx,
                            st1,
                            path1,
                            f,
                            name,
                            is_wl,
                            body,
                            b1,
                        ));
                        assert(visit_expr(cx, st1, path1, f, name, is_wl, body, b1) == visit_expr(
                            cx,
                            st1,
                            path1,
                            f,
                            name,
                            is_wl,
                            *x,
                            b1,
                        ));
                        assert(visit_expr(cx, st1, path1, f, name, is_wl, *x, b1) == visit_exprs(
                            cx,
                            st_push,
                            path1,
                            f,
                            name,
                            is_wl,
                            children@,
                            b1,
                        ));
                        assert(visit_exprs(cx, st_push, path1, f, name, is_wl, children@, b1)
                            == st_push);
                    },
                    _ => {},
                },
                Option::None => {},
            },
            _ => {},
        },
        Option::None => {},
    }
}

} // verus!
