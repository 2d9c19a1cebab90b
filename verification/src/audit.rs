//! The traversal engine.
//!
//! One audit run walks a crate: its module tree first, then its impl
//! blocks, auditing every function declaration and — under the trace
//! policy — every callee the resolution service could resolve, to any
//! depth.  Symbols are memoized in a visited set, inserted *before* their
//! body is walked, so cyclic and mutually recursive call graphs terminate
//! and every symbol is processed at most once per run.
//!
//! The whole walk is specified by the `visit_*` spec functions below; each
//! executable method is proved to produce exactly the state those
//! functions describe.  The spec functions carry a fuel bound `b`; any
//! bound at least the number of unvisited symbols yields the same result,
//! which is how the executable contracts quantify over it.

use vstd::prelude::*;
use crate::model::{
    AssocItem, ContainerKind, Decl, Expr, ImplBlock, Module, OriginKind, Program, decl_wf,
    decls_wf, dsize, dsizes, esize, esizes, expr_wf, exprs_wf, impl_wf, module_wf, msize, sym_wf,
};
use crate::report::{Finding, FindingKind, FindingV, findings_view};
use crate::utils::{clone_strings, contains_usize, display_path, display_path_spec};

verus! {

/// The two traversal policies sharing this engine.
#[derive(Clone, Copy, PartialEq, Eq, Structural, Debug)]
pub enum Mode {
    /// Follow call edges transitively from the crate's declarations.
    TraceFunctions,
    /// Characterize only the crate's declared surface; never descend into
    /// bodies.
    ScanExports,
}

/// Number of unvisited entries of a visited set.
pub open spec fn n_unvisited(v: Seq<bool>) -> nat
    decreases v,
{
    if v.len() == 0 {
        0
    } else {
        (if v[0] {
            0nat
        } else {
            1nat
        }) + n_unvisited(v.drop_first())
    }
}

pub proof fn lemma_unvisited_update(v: Seq<bool>, i: int)
    requires
        0 <= i < v.len(),
        !v[i],
    ensures
        n_unvisited(v.update(i, true)) + 1 == n_unvisited(v),
    decreases v.len(),
{
    let w = v.update(i, true);
    if i == 0 {
        assert(w.drop_first() =~= v.drop_first());
    } else {
        assert(w.drop_first() =~= v.drop_first().update(i - 1, true));
        lemma_unvisited_update(v.drop_first(), i - 1);
    }
}

/// The read-only context of a run.
pub struct Ctx {
    pub p: Program,
    pub mode: Mode,
    pub wl: Seq<usize>,
}

/// The mutable state of a run: the visited set and the findings so far.
#[verifier::ext_equal]
pub struct AState {
    pub visited: Seq<bool>,
    pub found: Seq<FindingV>,
}

pub open spec fn mk_finding(
    kind: FindingKind,
    f: int,
    name: Seq<char>,
    export: Option<Seq<char>>,
    path: Seq<Seq<char>>,
    is_wl: bool,
) -> FindingV {
    FindingV { kind, symbol: f, name, export, path, whitelisted: is_wl }
}

/// Audit one symbol: memoization gate, unconditional builtin exclusion,
/// foreign-import finding, then the mode dispatch.
pub open spec fn visit_fn(cx: Ctx, st: AState, path: Seq<Seq<char>>, f: int, b: nat) -> AState
    decreases b, 0nat, 0nat,
{
    if !(0 <= f < st.visited.len()) {
        st
    } else if st.visited[f] {
        st
    } else if b == 0 {
        st
    } else {
        let st1 = AState { visited: st.visited.update(f, true), found: st.found };
        let sym = cx.p.symbols@[f];
        if cx.p.crates@[sym.krate as int].origin is Builtin {
            st1
        } else {
            let is_wl = cx.wl.contains(sym.krate);
            let name = display_path_spec(cx.p, f);
            let path1 = path.push(name);
            let st2 = if sym.container is ForeignImport {
                AState {
                    visited: st1.visited,
                    found: st1.found.push(
                        mk_finding(FindingKind::ForeignImport, f, name, Option::None, path1, is_wl),
                    ),
                }
            } else {
                st1
            };
            match cx.mode {
                Mode::TraceFunctions => match sym.body {
                    Option::None => st2,
                    Option::Some(body) => visit_expr(
                        cx,
                        st2,
                        path1,
                        f,
                        name,
                        is_wl,
                        body,
                        (b - 1) as nat,
                    ),
                },
                Mode::ScanExports => match sym.export_name {
                    Option::None => st2,
                    Option::Some(e) => AState {
                        visited: st2.visited,
                        found: st2.found.push(
                            mk_finding(
                                FindingKind::ForeignExport,
                                f,
                                name,
                                Option::Some(e@),
                                path1,
                                is_wl,
                            ),
                        ),
                    },
                },
            }
        }
    }
}

/// Walk one expression node, pre-order (trace policy only).
pub open spec fn visit_expr(
    cx: Ctx,
    st: AState,
    path1: Seq<Seq<char>>,
    f: int,
    name: Seq<char>,
    is_wl: bool,
    e: Expr,
    b: nat,
) -> AState
    decreases b, esize(e), 0nat,
{
    match e {
        Expr::MacroCall { expansion } => match expansion {
            Option::None => st,
            Option::Some(x) => visit_expr(cx, st, path1, f, name, is_wl, *x, b),
        },
        Expr::UnsafeBlock { children } => {
            let st1 = AState {
                visited: st.visited,
                found: st.found.push(
                    mk_finding(FindingKind::UnsafeRegion, f, name, Option::None, path1, is_wl),
                ),
            };
            visit_exprs(cx, st1, path1, f, name, is_wl, children@, b)
        },
        Expr::CallSite { target, children } => {
            let st1 = match target {
                Option::None => st,
                Option::Some(t) => visit_fn(cx, st, path1, t as int, b),
            };
            visit_exprs(cx, st1, path1, f, name, is_wl, children@, b)
        },
        Expr::Other { children } => visit_exprs(cx, st, path1, f, name, is_wl, children@, b),
    }
}

pub open spec fn visit_exprs(
    cx: Ctx,
    st: AState,
    path1: Seq<Seq<char>>,
    f: int,
    name: Seq<char>,
    is_wl: bool,
    es: Seq<Expr>,
    b: nat,
) -> AState
    decreases b, esizes(es), es.len(),
{
    if es.len() == 0 {
        st
    } else {
        let st1 = visit_expr(cx, st, path1, f, name, is_wl, es[0], b);
        visit_exprs(cx, st1, path1, f, name, is_wl, es.drop_first(), b)
    }
}

/// Walk a module's declarations, depth first, in declaration order.
pub open spec fn visit_module(cx: Ctx, st: AState, m: Module, b: nat) -> AState
    decreases b, msize(m), 0nat,
{
    visit_decls(cx, st, m.decls@, b)
}

pub open spec fn visit_decls(cx: Ctx, st: AState, ds: Seq<Decl>, b: nat) -> AState
    decreases b, dsizes(ds), ds.len(),
{
    if ds.len() == 0 {
        st
    } else {
        let st1 = visit_decl(cx, st, ds[0], b);
        visit_decls(cx, st1, ds.drop_first(), b)
    }
}

/// Nested modules recurse; functions are audited with a fresh call path;
/// all other declarations are inert.
pub open spec fn visit_decl(cx: Ctx, st: AState, d: Decl, b: nat) -> AState
    decreases b, dsize(d), 0nat,
{
    match d {
        Decl::Module(m) => visit_module(cx, st, m, b),
        Decl::Function(f) => visit_fn(cx, st, Seq::empty(), f as int, b),
        Decl::Other => st,
    }
}

pub open spec fn visit_impl_items(cx: Ctx, st: AState, items: Seq<AssocItem>, b: nat) -> AState
    decreases b, 0nat, items.len(),
{
    if items.len() == 0 {
        st
    } else {
        let st1 = match items[0] {
            AssocItem::Function(f) => visit_fn(cx, st, Seq::empty(), f as int, b),
            AssocItem::Other => st,
        };
        visit_impl_items(cx, st1, items.drop_first(), b)
    }
}

pub open spec fn visit_impls(cx: Ctx, st: AState, is: Seq<ImplBlock>, b: nat) -> AState
    decreases b, 1nat, is.len(),
{
    if is.len() == 0 {
        st
    } else {
        let st1 = visit_impl_items(cx, st, is[0].items@, b);
        visit_impls(cx, st1, is.drop_first(), b)
    }
}

/// One whole crate audit: the whole-crate whitelist short-circuit, then the
/// module tree, then the impl blocks.
pub open spec fn build_spec(cx: Ctx, st: AState, krate: usize, b: nat) -> AState {
    if cx.wl.contains(krate) {
        st
    } else {
        visit_impls(
            cx,
            visit_module(cx, st, cx.p.crates@[krate as int].root_module, b),
            cx.p.crates@[krate as int].impls@,
            b,
        )
    }
}

/// Audits one crate against a whitelist under a traversal policy.
pub struct Builder {
    pub mode: Mode,
    /// Indices of the whitelisted crates.
    pub whitelist: Vec<usize>,
    /// Index of the crate this run audits.
    pub krate: usize,
    /// One entry per symbol of the program; set before the body is walked.
    pub visited: Vec<bool>,
    /// All findings, whitelisted ones included (they are tallied but not
    /// reported).
    pub findings: Vec<Finding>,
}

pub open spec fn st_of(bld: Builder) -> AState {
    AState { visited: bld.visited@, found: findings_view(bld.findings@) }
}

pub open spec fn cx_of(p: Program, bld: Builder) -> Ctx {
    Ctx { p: p, mode: bld.mode, wl: bld.whitelist@ }
}

/// The run's configuration is never changed by the walk.
pub open spec fn same_cfg(a: Builder, b: Builder) -> bool {
    a.mode == b.mode && a.whitelist == b.whitelist && a.krate == b.krate
}

impl Builder {
    pub open spec fn wf(self, p: Program) -> bool {
        self.visited@.len() == p.symbols@.len()
    }

    pub fn new(p: &Program, krate: usize, whitelist: Vec<usize>, mode: Mode) -> (bld: Builder)
        requires
            krate < p.crates@.len(),
        ensures
            bld.wf(*p),
            bld.mode == mode,
            bld.krate == krate,
            bld.whitelist == whitelist,
            forall|j: int| 0 <= j < bld.visited@.len() ==> !bld.visited@[j],
            bld.findings@ == Seq::<Finding>::empty(),
    {
        let mut visited: Vec<bool> = Vec::new();
        let n = p.symbols.len();
        let mut i: usize = 0;
        while i < n
            invariant
                i <= n,
                visited@.len() == i,
                forall|j: int| 0 <= j < i ==> !visited@[j],
            decreases n - i,
        {
            visited.push(false);
            i += 1;
        }
        Builder { mode, whitelist, krate, visited, findings: Vec::new() }
    }

    fn report(&mut self, fnd: Finding)
        ensures
            same_cfg(*old(self), *final(self)),
            final(self).visited == old(self).visited,
            final(self).findings@ == old(self).findings@.push(fnd),
            findings_view(final(self).findings@) == findings_view(old(self).findings@).push(fnd@),
    {
        self.findings.push(fnd);
        proof {
            assert(findings_view(self.findings@) =~= findings_view(old(self).findings@).push(fnd@));
        }
    }

    pub fn build(&mut self, p: &Program)
        requires
            old(self).wf(*p),
            p.wf(),
            old(self).krate < p.crates@.len(),
        ensures
            final(self).wf(*p),
            same_cfg(*old(self), *final(self)),
            n_unvisited(final(self).visited@) <= n_unvisited(old(self).visited@),
            forall|b: nat|
                b >= n_unvisited(old(self).visited@) ==> st_of(*final(self)) == #[trigger] build_spec(
                    cx_of(*p, *old(self)),
                    st_of(*old(self)),
                    old(self).krate,
                    b,
                ),
    {
        let ghost st0 = st_of(*self);
        let ghost cx = cx_of(*p, *self);
        let krate = self.krate;
        if contains_usize(&self.whitelist, krate) {
            return;
        }
        let root = &p.crates[krate].root_module;
        self.process_module(p, root);
        let ghost mid = *self;
        self.process_impls(p, &p.crates[krate].impls, 0);
        proof {
            assert(p.crates@[krate as int].impls@.skip(0) =~= p.crates@[krate as int].impls@);
            assert forall|b: nat| b >= n_unvisited(st0.visited) implies st_of(*self)
                == #[trigger] build_spec(cx, st0, krate, b) by {
                assert(cx_of(*p, mid) == cx);
                assert(st_of(mid) == visit_module(cx, st0, p.crates@[krate as int].root_module, b));
                assert(st_of(*self) == visit_impls(
                    cx,
                    st_of(mid),
                    p.crates@[krate as int].impls@,
                    b,
                ));
            }
        }
    }

    fn process_module(&mut self, p: &Program, m: &Module)
        requires
            old(self).wf(*p),
            p.wf(),
            module_wf(*m, p.symbols@.len() as nat),
        ensures
            final(self).wf(*p),
            same_cfg(*old(self), *final(self)),
            n_unvisited(final(self).visited@) <= n_unvisited(old(self).visited@),
            forall|b: nat|
                b >= n_unvisited(old(self).visited@) ==> st_of(*final(self)) == #[trigger] visit_module(
                    cx_of(*p, *old(self)),
                    st_of(*old(self)),
                    *m,
                    b,
                ),
        decreases n_unvisited(self.visited@), msize(*m), 0nat,
    {
        let ghost st0 = st_of(*self);
        let ghost cx = cx_of(*p, *self);
        proof {
            assert(m.decls@.skip(0) =~= m.decls@);
        }
        self.process_decls(p, &m.decls, 0);
        proof {
            assert forall|b: nat| b >= n_unvisited(st0.visited) implies st_of(*self)
                == #[trigger] visit_module(cx, st0, *m, b) by {
                assert(st_of(*self) == visit_decls(cx, st0, m.decls@, b));
            }
        }
    }

    fn process_decls(&mut self, p: &Program, ds: &Vec<Decl>, i: usize)
        requires
            old(self).wf(*p),
            p.wf(),
            i <= ds@.len(),
            decls_wf(ds@.skip(i as int), p.symbols@.len() as nat),
        ensures
            final(self).wf(*p),
            same_cfg(*old(self), *final(self)),
            n_unvisited(final(self).visited@) <= n_unvisited(old(self).visited@),
            forall|b: nat|
                b >= n_unvisited(old(self).visited@) ==> st_of(*final(self)) == #[trigger] visit_decls(
                    cx_of(*p, *old(self)),
                    st_of(*old(self)),
                    ds@.skip(i as int),
                    b,
                ),
        decreases n_unvisited(self.visited@), dsizes(ds@.skip(i as int)), ds@.len() - i,
    {
        let ghost tail = ds@.skip(i as int);
        if i == ds.len() {
            proof {
                assert(tail =~= Seq::<Decl>::empty());
            }
            return;
        }
        proof {
            assert(tail[0] == ds@[i as int]);
            assert(tail.drop_first() =~= ds@.skip(i + 1 as int));
        }
        let ghost st0 = st_of(*self);
        let ghost cx = cx_of(*p, *self);
        self.process_decl(p, &ds[i]);
        let ghost mid = *self;
        self.process_decls(p, ds, i + 1);
        proof {
            assert forall|b: nat| b >= n_unvisited(st0.visited) implies st_of(*self)
                == #[trigger] visit_decls(cx, st0, tail, b) by {
                assert(st_of(mid) == visit_decl(cx, st0, tail[0], b));
                assert(st_of(*self) == visit_decls(cx, st_of(mid), tail.drop_first(), b));
            }
        }
    }

    fn process_decl(&mut self, p: &Program, d: &Decl)
        requires
            old(self).wf(*p),
            p.wf(),
            decl_wf(*d, p.symbols@.len() as nat),
        ensures
            final(self).wf(*p),
            same_cfg(*old(self), *final(self)),
            n_unvisited(final(self).visited@) <= n_unvisited(old(self).visited@),
            forall|b: nat|
                b >= n_unvisited(old(self).visited@) ==> st_of(*final(self)) == #[trigger] visit_decl(
                    cx_of(*p, *old(self)),
                    st_of(*old(self)),
                    *d,
                    b,
                ),
        decreases n_unvisited(self.visited@), dsize(*d), 0nat,
    {
        let ghost st0 = st_of(*self);
        let ghost cx = cx_of(*p, *self);
        match d {
            Decl::Module(m) => {
                self.process_module(p, m);
                proof {
                    assert forall|b: nat| b >= n_unvisited(st0.visited) implies st_of(*self)
                        == #[trigger] visit_decl(cx, st0, *d, b) by {
                        assert(st_of(*self) == visit_module(cx, st0, *m, b));
                    }
                }
            },
            Decl::Function(fid) => {
                let empty_path: Vec<String> = Vec::new();
                self.process_function(p, *fid, &empty_path);
                proof {
                    assert(empty_path.deep_view() =~= Seq::<Seq<char>>::empty());
                    assert forall|b: nat| b >= n_unvisited(st0.visited) implies st_of(*self)
                        == #[trigger] visit_decl(cx, st0, *d, b) by {
                        assert(st_of(*self) == visit_fn(
                            cx,
                            st0,
                            empty_path.deep_view(),
                            *fid as int,
                            b,
                        ));
                    }
                }
            },
            Decl::Other => {},
        }
    }

    fn process_impls(&mut self, p: &Program, is: &Vec<ImplBlock>, i: usize)
        requires
            old(self).wf(*p),
            p.wf(),
            i <= is@.len(),
            forall|j: int|
                i <= j < is@.len() ==> impl_wf(#[trigger] is@[j], p.symbols@.len() as nat),
        ensures
            final(self).wf(*p),
            same_cfg(*old(self), *final(self)),
            n_unvisited(final(self).visited@) <= n_unvisited(old(self).visited@),
            forall|b: nat|
                b >= n_unvisited(old(self).visited@) ==> st_of(*final(self)) == #[trigger] visit_impls(
                    cx_of(*p, *old(self)),
                    st_of(*old(self)),
                    is@.skip(i as int),
                    b,
                ),
        decreases n_unvisited(self.visited@), 1nat, is@.len() - i,
    {
        let ghost tail = is@.skip(i as int);
        if i == is.len() {
            proof {
                assert(tail =~= Seq::<ImplBlock>::empty());
            }
            return;
        }
        proof {
            assert(tail[0] == is@[i as int]);
            assert(tail.drop_first() =~= is@.skip(i + 1 as int));
        }
        let ghost st0 = st_of(*self);
        let ghost cx = cx_of(*p, *self);
        self.process_impl(p, &is[i]);
        let ghost mid = *self;
        self.process_impls(p, is, i + 1);
        proof {
            assert forall|b: nat| b >= n_unvisited(st0.visited) implies st_of(*self)
                == #[trigger] visit_impls(cx, st0, tail, b) by {
                assert(st_of(mid) == visit_impl_items(cx, st0, tail[0].items@, b));
                assert(st_of(*self) == visit_impls(cx, st_of(mid), tail.drop_first(), b));
            }
        }
    }

    fn process_impl(&mut self, p: &Program, ib: &ImplBlock)
        requires
            old(self).wf(*p),
            p.wf(),
            impl_wf(*ib, p.symbols@.len() as nat),
        ensures
            final(self).wf(*p),
            same_cfg(*old(self), *final(self)),
            n_unvisited(final(self).visited@) <= n_unvisited(old(self).visited@),
            forall|b: nat|
                b >= n_unvisited(old(self).visited@) ==> st_of(*final(self))
                    == #[trigger] visit_impl_items(
                    cx_of(*p, *old(self)),
                    st_of(*old(self)),
                    ib.items@,
                    b,
                ),
        decreases n_unvisited(self.visited@), 0nat, ib.items@.len() + 1,
    {
        let ghost st0 = st_of(*self);
        let ghost cx = cx_of(*p, *self);
        proof {
            assert(ib.items@.skip(0) =~= ib.items@);
        }
        self.process_impl_items(p, &ib.items, 0);
        proof {
            assert forall|b: nat| b >= n_unvisited(st0.visited) implies st_of(*self)
                == #[trigger] visit_impl_items(cx, st0, ib.items@, b) by {
                assert(st_of(*self) == visit_impl_items(cx, st0, ib.items@.skip(0), b));
            }
        }
    }

    fn process_impl_items(&mut self, p: &Program, items: &Vec<AssocItem>, i: usize)
        requires
            old(self).wf(*p),
            p.wf(),
            i <= items@.len(),
            forall|j: int|
                i <= j < items@.len() ==> match #[trigger] items@[j] {
                    AssocItem::Function(f) => f < p.symbols@.len(),
                    AssocItem::Other => true,
                },
        ensures
            final(self).wf(*p),
            same_cfg(*old(self), *final(self)),
            n_unvisited(final(self).visited@) <= n_unvisited(old(self).visited@),
            forall|b: nat|
                b >= n_unvisited(old(self).visited@) ==> st_of(*final(self))
                    == #[trigger] visit_impl_items(
                    cx_of(*p, *old(self)),
                    st_of(*old(self)),
                    items@.skip(i as int),
                    b,
                ),
        decreases n_unvisited(self.visited@), 0nat, items@.len() - i,
    {
        let ghost tail = items@.skip(i as int);
        if i == items.len() {
            proof {
                assert(tail =~= Seq::<AssocItem>::empty());
            }
            return;
        }
        proof {
            assert(tail[0] == items@[i as int]);
            assert(tail.drop_first() =~= items@.skip(i + 1 as int));
        }
        let ghost st0 = st_of(*self);
        let ghost cx = cx_of(*p, *self);
        match &items[i] {
            AssocItem::Function(fid) => {
                let empty_path: Vec<String> = Vec::new();
                self.process_function(p, *fid, &empty_path);
                proof {
                    assert(empty_path.deep_view() =~= Seq::<Seq<char>>::empty());
                }
            },
            AssocItem::Other => {},
        }
        let ghost mid = *self;
        self.process_impl_items(p, items, i + 1);
        proof {
            assert forall|b: nat| b >= n_unvisited(st0.visited) implies st_of(*self)
                == #[trigger] visit_impl_items(cx, st0, tail, b) by {
                assert(st_of(*self) == visit_impl_items(cx, st_of(mid), tail.drop_first(), b));
            }
        }
    }

    /// Audit one symbol.  The call path is passed by value down the
    /// recursion: each audited symbol sees the path from the run's entry
    /// point to itself, and sibling branches never see each other's hops.
    fn process_function(&mut self, p: &Program, f: usize, path: &Vec<String>)
        requires
            old(self).wf(*p),
            p.wf(),
            f < p.symbols@.len(),
        ensures
            final(self).wf(*p),
            same_cfg(*old(self), *final(self)),
            n_unvisited(final(self).visited@) <= n_unvisited(old(self).visited@),
            forall|b: nat|
                b >= n_unvisited(old(self).visited@) ==> st_of(*final(self)) == #[trigger] visit_fn(
                    cx_of(*p, *old(self)),
                    st_of(*old(self)),
                    path.deep_view(),
                    f as int,
                    b,
                ),
        decreases n_unvisited(self.visited@), 0nat, 0nat,
    {
        let ghost st0 = st_of(*self);
        let ghost cx = cx_of(*p, *self);
        let ghost pathv = path.deep_view();
        if self.visited[f] {
            return;
        }
        self.visited.set(f, true);
        proof {
            lemma_unvisited_update(st0.visited, f as int);
        }
        let ghost st1 = st_of(*self);
        let sym = &p.symbols[f];
        proof {
            assert(sym_wf(p.symbols@[f as int], p.crates@.len() as nat, p.symbols@.len() as nat));
        }
        if matches!(p.crates[sym.krate].origin, OriginKind::Builtin) {
            return;
        }
        let is_wl = contains_usize(&self.whitelist, sym.krate);
        let name = display_path(p, f);
        let mut path1 = clone_strings(path);
        path1.push(name.clone());
        proof {
            assert(path1.deep_view() =~= pathv.push(name@));
        }
        let ghost path1v = path1.deep_view();
        if matches!(sym.container, ContainerKind::ForeignImport) {
            let fnd = Finding {
                kind: FindingKind::ForeignImport,
                symbol: f,
                name: name.clone(),
                export: Option::None,
                path: clone_strings(&path1),
                whitelisted: is_wl,
            };
            proof {
                assert(fnd@ =~= mk_finding(
                    FindingKind::ForeignImport,
                    f as int,
                    name@,
                    Option::None,
                    path1v,
                    is_wl,
                ));
            }
            self.report(fnd);
        }
        let ghost st2 = st_of(*self);
        proof {
            assert(st2.visited == st1.visited);
            assert(st2.found =~= if p.symbols@[f as int].container is ForeignImport {
                st1.found.push(
                    mk_finding(
                        FindingKind::ForeignImport,
                        f as int,
                        name@,
                        Option::None,
                        path1v,
                        is_wl,
                    ),
                )
            } else {
                st1.found
            });
        }
        match self.mode {
            Mode::TraceFunctions => {
                match &sym.body {
                    Option::None => {
                        proof {
                            assert forall|b: nat| b >= n_unvisited(st0.visited) implies st_of(
                                *self,
                            ) == #[trigger] visit_fn(cx, st0, pathv, f as int, b) by {
                                assert(b >= 1);
                            }
                        }
                    },
                    Option::Some(body) => {
                        let ghost mid = *self;
                        self.process_syntax_node(p, body, &path1, f, &name, is_wl);
                        proof {
                            assert(cx_of(*p, mid) == cx);
                            assert(st_of(mid) == st2);
                            assert forall|b: nat| b >= n_unvisited(st0.visited) implies st_of(
                                *self,
                            ) == #[trigger] visit_fn(cx, st0, pathv, f as int, b) by {
                                assert(b >= 1);
                                assert(n_unvisited(st2.visited) <= (b - 1) as nat);
                                assert(st_of(*self) == visit_expr(
                                    cx,
                                    st2,
                                    path1v,
                                    f as int,
                                    name@,
                                    is_wl,
                                    *body,
                                    (b - 1) as nat,
                                ));
                            }
                        }
                    },
                }
            },
            Mode::ScanExports => {
                match &sym.export_name {
                    Option::None => {
                        proof {
                            assert forall|b: nat| b >= n_unvisited(st0.visited) implies st_of(
                                *self,
                            ) == #[trigger] visit_fn(cx, st0, pathv, f as int, b) by {
                                assert(b >= 1);
                            }
                        }
                    },
                    Option::Some(e) => {
                        let fnd = Finding {
                            kind: FindingKind::ForeignExport,
                            symbol: f,
                            name: name.clone(),
                            export: Option::Some(e.clone()),
                            path: clone_strings(&path1),
                            whitelisted: is_wl,
                        };
                        proof {
                            assert(fnd@ =~= mk_finding(
                                FindingKind::ForeignExport,
                                f as int,
                                name@,
                                Option::Some(e@),
                                path1v,
                                is_wl,
                            ));
                        }
                        self.report(fnd);
                        proof {
                            assert forall|b: nat| b >= n_unvisited(st0.visited) implies st_of(
                                *self,
                            ) == #[trigger] visit_fn(cx, st0, pathv, f as int, b) by {
                                assert(b >= 1);
                            }
                        }
                    },
                }
            },
        }
    }

    /// Walk an expression tree of symbol `f` (trace policy), reporting
    /// unsafe regions and auditing every resolved callable site.
    fn process_syntax_node(
        &mut self,
        p: &Program,
        e: &Expr,
        path1: &Vec<String>,
        f: usize,
        name: &String,
        is_wl: bool,
    )
        requires
            old(self).wf(*p),
            p.wf(),
            expr_wf(*e, p.symbols@.len() as nat),
        ensures
            final(self).wf(*p),
            same_cfg(*old(self), *final(self)),
            n_unvisited(final(self).visited@) <= n_unvisited(old(self).visited@),
            forall|b: nat|
                b >= n_unvisited(old(self).visited@) ==> st_of(*final(self)) == #[trigger] visit_expr(
                    cx_of(*p, *old(self)),
                    st_of(*old(self)),
                    path1.deep_view(),
                    f as int,
                    name@,
                    is_wl,
                    *e,
                    b,
                ),
        decreases n_unvisited(self.visited@), esize(*e), 0nat,
    {
        let ghost st0 = st_of(*self);
        let ghost cx = cx_of(*p, *self);
        let ghost path1v = path1.deep_view();
        match e {
            Expr::MacroCall { expansion } => {
                match expansion {
                    Option::None => {},
                    Option::Some(x) => {
                        self.process_syntax_node(p, x, path1, f, name, is_wl);
                        proof {
                            assert forall|b: nat| b >= n_unvisited(st0.visited) implies st_of(
                                *self,
                            ) == #[trigger] visit_expr(
                                cx,
                                st0,
                                path1v,
                                f as int,
                                name@,
                                is_wl,
                                *e,
                                b,
                            ) by {
                                assert(st_of(*self) == visit_expr(
                                    cx,
                                    st0,
                                    path1v,
                                    f as int,
                                    name@,
                                    is_wl,
                                    **x,
                                    b,
                                ));
                            }
                        }
                    },
                }
            },
            Expr::UnsafeBlock { children } => {
                let fnd = Finding {
                    kind: FindingKind::UnsafeRegion,
                    symbol: f,
                    name: name.clone(),
                    export: Option::None,
                    path: clone_strings(path1),
                    whitelisted: is_wl,
                };
                proof {
                    assert(fnd@ =~= mk_finding(
                        FindingKind::UnsafeRegion,
                        f as int,
                        name@,
                        Option::None,
                        path1v,
                        is_wl,
                    ));
                }
                self.report(fnd);
                let ghost st1 = st_of(*self);
                proof {
                    assert(children@.skip(0) =~= children@);
                }
                self.process_exprs(p, children, 0, path1, f, name, is_wl);
                proof {
                    assert forall|b: nat| b >= n_unvisited(st0.visited) implies st_of(*self)
                        == #[trigger] visit_expr(cx, st0, path1v, f as int, name@, is_wl, *e, b) by {
                        assert(st_of(*self) == visit_exprs(
                            cx,
                            st1,
                            path1v,
                            f as int,
                            name@,
                            is_wl,
                            children@,
                            b,
                        ));
                    }
                }
            },
            Expr::CallSite { target, children } => {
                match target {
                    Option::None => {
                        proof {
                            assert(children@.skip(0) =~= children@);
                        }
                        self.process_exprs(p, children, 0, path1, f, name, is_wl);
                        proof {
                            assert forall|b: nat| b >= n_unvisited(st0.visited) implies st_of(
                                *self,
                            ) == #[trigger] visit_expr(
                                cx,
                                st0,
                                path1v,
                                f as int,
                                name@,
                                is_wl,
                                *e,
                                b,
                            ) by {
                                assert(st_of(*self) == visit_exprs(
                                    cx,
                                    st0,
                                    path1v,
                                    f as int,
                                    name@,
                                    is_wl,
                                    children@,
                                    b,
                                ));
                            }
                        }
                    },
                    Option::Some(t) => {
                        self.process_function(p, *t, path1);
                        let ghost mid = *self;
                        proof {
                            assert(children@.skip(0) =~= children@);
                            assert(cx_of(*p, mid) == cx);
                        }
                        self.process_exprs(p, children, 0, path1, f, name, is_wl);
                        proof {
                            assert forall|b: nat| b >= n_unvisited(st0.visited) implies st_of(
                                *self,
                            ) == #[trigger] visit_expr(
                                cx,
                                st0,
                                path1v,
                                f as int,
                                name@,
                                is_wl,
                                *e,
                                b,
                            ) by {
                                assert(st_of(mid) == visit_fn(cx, st0, path1v, *t as int, b));
                                assert(st_of(*self) == visit_exprs(
                                    cx,
                                    st_of(mid),
                                    path1v,
                                    f as int,
                                    name@,
                                    is_wl,
                                    children@,
                                    b,
                                ));
                            }
                        }
                    },
                }
            },
            Expr::Other { children } => {
                proof {
                    assert(children@.skip(0) =~= children@);
                }
                self.process_exprs(p, children, 0, path1, f, name, is_wl);
                proof {
                    assert forall|b: nat| b >= n_unvisited(st0.visited) implies st_of(*self)
                        == #[trigger] visit_expr(cx, st0, path1v, f as int, name@, is_wl, *e, b) by {
                        assert(st_of(*self) == visit_exprs(
                            cx,
                            st0,
                            path1v,
                            f as int,
                            name@,
                            is_wl,
                            children@,
                            b,
                        ));
                    }
                }
            },
        }
    }

    fn process_exprs(
        &mut self,
        p: &Program,
        es: &Vec<Expr>,
        i: usize,
        path1: &Vec<String>,
        f: usize,
        name: &String,
        is_wl: bool,
    )
        requires
            old(self).wf(*p),
            p.wf(),
            i <= es@.len(),
            exprs_wf(es@.skip(i as int), p.symbols@.len() as nat),
        ensures
            final(self).wf(*p),
            same_cfg(*old(self), *final(self)),
            n_unvisited(final(self).visited@) <= n_unvisited(old(self).visited@),
            forall|b: nat|
                b >= n_unvisited(old(self).visited@) ==> st_of(*final(self)) == #[trigger] visit_exprs(
                    cx_of(*p, *old(self)),
                    st_of(*old(self)),
                    path1.deep_view(),
                    f as int,
                    name@,
                    is_wl,
                    es@.skip(i as int),
                    b,
                ),
        decreases n_unvisited(self.visited@), esizes(es@.skip(i as int)), es@.len() - i,
    {
        let ghost tail = es@.skip(i as int);
        if i == es.len() {
            proof {
                assert(tail =~= Seq::<Expr>::empty());
            }
            return;
        }
        proof {
            assert(tail[0] == es@[i as int]);
            assert(tail.drop_first() =~= es@.skip(i + 1 as int));
        }
        let ghost st0 = st_of(*self);
        let ghost cx = cx_of(*p, *self);
        self.process_syntax_node(p, &es[i], path1, f, name, is_wl);
        let ghost mid = *self;
        self.process_exprs(p, es, i + 1, path1, f, name, is_wl);
        proof {
            assert forall|b: nat| b >= n_unvisited(st0.visited) implies st_of(*self)
                == #[trigger] visit_exprs(
                cx,
                st0,
                path1.deep_view(),
                f as int,
                name@,
                is_wl,
                tail,
                b,
            ) by {
                assert(st_of(mid) == visit_expr(
                    cx,
                    st0,
                    path1.deep_view(),
                    f as int,
                    name@,
                    is_wl,
                    tail[0],
                    b,
                ));
                assert(st_of(*self) == visit_exprs(
                    cx,
                    st_of(mid),
                    path1.deep_view(),
                    f as int,
                    name@,
                    is_wl,
                    tail.drop_first(),
                    b,
                ));
            }
        }
    }

    /// How many symbols this run has visited.
    pub fn visited_count(&self) -> (n: usize)
        ensures
            n == self.visited@.len() - n_unvisited(self.visited@),
    {
        let mut n: usize = 0;
        let mut i: usize = 0;
        proof {
            lemma_unvisited_prefix(self.visited@, 0);
        }
        while i < self.visited.len()
            invariant
                i <= self.visited@.len(),
                n <= i,
                i - n == n_unvisited(self.visited@.take(i as int)),
            decreases self.visited@.len() - i,
        {
            proof {
                lemma_unvisited_snoc(self.visited@.take(i + 1 as int));
                assert(self.visited@.take(i + 1 as int).drop_last() =~= self.visited@.take(i as int));
            }
            if self.visited[i] {
                n += 1;
            }
            i += 1;
        }
        proof {
            assert(self.visited@.take(self.visited@.len() as int) =~= self.visited@);
        }
        n
    }
}

pub proof fn lemma_unvisited_prefix(v: Seq<bool>, i: int)
    requires
        0 <= i <= v.len(),
    ensures
        n_unvisited(v.take(i)) <= i,
    decreases i,
{
    if i > 0 {
        lemma_unvisited_prefix(v, i - 1);
        lemma_unvisited_snoc(v.take(i));
        assert(v.take(i).drop_last() =~= v.take(i - 1));
    }
}

/// Snoc characterization of `n_unvisited`.
pub proof fn lemma_unvisited_snoc(v: Seq<bool>)
    requires
        v.len() >= 1,
    ensures
        n_unvisited(v) == n_unvisited(v.drop_last()) + (if v.last() {
            0nat
        } else {
            1nat
        }),
    decreases v.len(),
{
    if v.len() == 1 {
        assert(v.drop_last() =~= Seq::<bool>::empty());
        assert(v.drop_first() =~= Seq::<bool>::empty());
    } else {
        lemma_unvisited_snoc(v.drop_first());
        assert(v.drop_first().drop_last() =~= v.drop_last().drop_first());
        assert(v.drop_first().last() == v.last());
        assert(v.drop_last()[0] == v[0]);
        assert(v.drop_last().len() >= 1);
    }
}

} // verus!
