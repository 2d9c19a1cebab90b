//! The interface extractor: collects the service-annotated functions of a
//! crate's module tree and renders their signatures as an interface
//! description, one method per line.

use vstd::prelude::*;
use crate::model::{Decl, Module, Program, SymbolInfo, dsize, dsizes, msize};
use crate::utils::{join_with, join_strings, str_eq};

verus! {

/// A service annotation: the mode is the attribute path's last segment.
pub struct CDKAttr {
    pub mode: String,
}

/// The mode an attribute declares, when its last path segment is one of
/// the service markers.
pub open spec fn attr_mode(segs: Seq<Seq<char>>) -> Option<Seq<char>> {
    if segs.len() > 0 && (segs.last() == "update"@ || segs.last() == "query"@ || segs.last()
        == "init"@) {
        Option::Some(segs.last())
    } else {
        Option::None
    }
}

/// The first service annotation among a symbol's attributes, from `i` on.
pub open spec fn cdk_attr_from(sym: SymbolInfo, i: int) -> Option<Seq<char>>
    decreases sym.attrs@.len() - i,
{
    if i < 0 || i >= sym.attrs@.len() {
        Option::None
    } else {
        match attr_mode(sym.attrs@[i].segments.deep_view()) {
            Option::Some(m) => Option::Some(m),
            Option::None => cdk_attr_from(sym, i + 1),
        }
    }
}

pub open spec fn cdk_attr_spec(sym: SymbolInfo) -> Option<Seq<char>> {
    cdk_attr_from(sym, 0)
}

/// The first service annotation on the symbol, if any.
pub fn get_cdk_attr(sym: &SymbolInfo) -> (r: Option<CDKAttr>)
    ensures
        match r {
            Option::Some(a) => cdk_attr_spec(*sym) == Option::Some(a.mode@),
            Option::None => cdk_attr_spec(*sym) is None,
        },
{
    let mut i: usize = 0;
    while i < sym.attrs.len()
        invariant
            i <= sym.attrs@.len(),
            cdk_attr_spec(*sym) == cdk_attr_from(*sym, i as int),
        decreases sym.attrs@.len() - i,
    {
        let segs = &sym.attrs[i].segments;
        let n = segs.len();
        if n > 0 {
            let last = &segs[n - 1];
            proof {
                assert(segs.deep_view().last() == segs@[n - 1 as int]@);
            }
            if str_eq(last.as_str(), "update") || str_eq(last.as_str(), "query") || str_eq(
                last.as_str(),
                "init",
            ) {
                return Option::Some(CDKAttr { mode: last.clone() });
            }
        }
        proof {
            if segs.deep_view().len() > 0 {
                assert(segs.deep_view().last() == segs@[segs@.len() - 1]@);
            }
        }
        i += 1;
    }
    Option::None
}

/// Whether a symbol index can stand in the method list.
pub open spec fn method_ok(p: Program, f: usize) -> bool {
    f < p.symbols@.len() && cdk_attr_spec(p.symbols@[f as int]) is Some
}

/// Collect the service methods of a declaration, in declaration order.
pub open spec fn collect_decl(p: Program, d: Decl, acc: Seq<usize>) -> Seq<usize>
    decreases dsize(d), 0nat,
{
    match d {
        Decl::Module(m) => collect_module(p, m, acc),
        Decl::Function(f) => {
            if f < p.symbols@.len() && cdk_attr_spec(p.symbols@[f as int]) is Some {
                acc.push(f)
            } else {
                acc
            }
        },
        Decl::Other => acc,
    }
}

pub open spec fn collect_decls(p: Program, ds: Seq<Decl>, acc: Seq<usize>) -> Seq<usize>
    decreases dsizes(ds), ds.len(),
{
    if ds.len() == 0 {
        acc
    } else {
        collect_decls(p, ds.drop_first(), collect_decl(p, ds[0], acc))
    }
}

pub open spec fn collect_module(p: Program, m: Module, acc: Seq<usize>) -> Seq<usize>
    decreases msize(m), 0nat,
{
    collect_decls(p, m.decls@, acc)
}

/// Scans a crate's module tree for its service methods.
pub struct Builder {
    pub krate: usize,
    pub methods: Vec<usize>,
}

impl Builder {
    pub fn new(krate: usize) -> (b: Builder)
        ensures
            b.krate == krate,
            b.methods@ == Seq::<usize>::empty(),
    {
        Builder { krate, methods: Vec::new() }
    }

    pub open spec fn methods_ok(self, p: Program) -> bool {
        forall|j: int| 0 <= j < self.methods@.len() ==> method_ok(p, #[trigger] self.methods@[j])
    }

    pub fn build(&mut self, p: &Program)
        requires
            old(self).krate < p.crates@.len(),
            old(self).methods_ok(*p),
        ensures
            final(self).krate == old(self).krate,
            final(self).methods@ == collect_module(
                *p,
                p.crates@[old(self).krate as int].root_module,
                old(self).methods@,
            ),
            final(self).methods_ok(*p),
    {
        let krate = self.krate;
        let root = &p.crates[krate].root_module;
        self.process_module(p, root);
    }

    fn process_module(&mut self, p: &Program, m: &Module)
        requires
            old(self).methods_ok(*p),
        ensures
            final(self).krate == old(self).krate,
            final(self).methods@ == collect_module(*p, *m, old(self).methods@),
            final(self).methods_ok(*p),
        decreases msize(*m), 0nat,
    {
        proof {
            assert(m.decls@.skip(0) =~= m.decls@);
        }
        self.process_decls(p, &m.decls, 0);
    }

    fn process_decls(&mut self, p: &Program, ds: &Vec<Decl>, i: usize)
        requires
            old(self).methods_ok(*p),
            i <= ds@.len(),
        ensures
            final(self).krate == old(self).krate,
            final(self).methods@ == collect_decls(*p, ds@.skip(i as int), old(self).methods@),
            final(self).methods_ok(*p),
        decreases dsizes(ds@.skip(i as int)), ds@.len() - i,
    {
        let ghost tail = ds@.skip(i as int);
        if i == ds.len() {
            proof {
                assert(tail =~= Seq::<Decl>::empty());
            }
            return;
        }
        proof {
            assert(tail[0] == ds@[i as int]);
            assert(tail.drop_first() =~= ds@.skip(i + 1 as int));
        }
        self.process_def(p, &ds[i]);
        self.process_decls(p, ds, i + 1);
    }

    fn process_def(&mut self, p: &Program, d: &Decl)
        requires
            old(self).methods_ok(*p),
        ensures
            final(self).krate == old(self).krate,
            final(self).methods@ == collect_decl(*p, *d, old(self).methods@),
            final(self).methods_ok(*p),
        decreases dsize(*d), 0nat,
    {
        match d {
            Decl::Module(m) => {
                self.process_module(p, m);
            },
            Decl::Function(f) => {
                if *f < p.symbols.len() {
                    self.process_function(p, *f);
                }
            },
            Decl::Other => {},
        }
    }

    fn process_function(&mut self, p: &Program, f: usize)
        requires
            old(self).methods_ok(*p),
            f < p.symbols@.len(),
        ensures
            final(self).krate == old(self).krate,
            final(self).methods@ == if cdk_attr_spec(p.symbols@[f as int]) is Some {
                old(self).methods@.push(f)
            } else {
                old(self).methods@
            },
            final(self).methods_ok(*p),
    {
        let sym = &p.symbols[f];
        match get_cdk_attr(sym) {
            Option::Some(_) => {
                self.methods.push(f);
            },
            Option::None => {},
        }
    }

    /// Render the collected methods as interface lines.
    pub fn emit_methods(&self, p: &Program) -> (r: String)
        requires
            p.wf(),
            self.methods_ok(*p),
        ensures
            r@ == emit_from(*p, self.methods@, 0, Seq::empty()),
    {
        let mut r = String::new();
        let mut i: usize = 0;
        while i < self.methods.len()
            invariant
                p.wf(),
                self.methods_ok(*p),
                i <= self.methods@.len(),
                emit_from(*p, self.methods@, 0, Seq::empty()) == emit_from(
                    *p,
                    self.methods@,
                    i as int,
                    r@,
                ),
            decreases self.methods@.len() - i,
        {
            let f = self.methods[i];
            let line = method_line(p, f);
            r.append(line.as_str());
            i += 1;
        }
        r
    }
}

/// The interface line of one method:
/// `name : (arg types) -> (return type) mode;`
/// with the mode shown only for queries, and the future's output type for
/// async methods.
pub open spec fn method_line_spec(p: Program, f: usize) -> Seq<char> {
    let sym = p.symbols@[f as int];
    let mode = match cdk_attr_spec(sym) {
        Option::Some(m) => {
            if m == "query"@ {
                " query"@
            } else {
                ""@
            }
        },
        Option::None => ""@,
    };
    let args = join_with(sym.params.deep_view(), ", "@);
    let ret = if sym.is_async {
        match sym.async_ret {
            Option::Some(ar) => ar@,
            Option::None => sym.ret@,
        }
    } else {
        sym.ret@
    };
    sym.name@ + " : ("@ + args + ") -> ("@ + ret + ")"@ + mode + ";\n"@
}

pub open spec fn emit_from(p: Program, ms: Seq<usize>, i: int, acc: Seq<char>) -> Seq<char>
    decreases ms.len() - i,
{
    if i < 0 || i >= ms.len() {
        acc
    } else {
        emit_from(p, ms, i + 1, acc + method_line_spec(p, ms[i]))
    }
}

fn method_line(p: &Program, f: usize) -> (r: String)
    requires
        p.wf(),
        method_ok(*p, f),
    ensures
        r@ == method_line_spec(*p, f),
{
    let sym = &p.symbols[f];
    let mode: &str = match get_cdk_attr(sym) {
        Option::Some(a) => {
            if str_eq(a.mode.as_str(), "query") {
                " query"
            } else {
                ""
            }
        },
        Option::None => "",
    };
    let args = join_strings(&sym.params, ", ");
    let ret: &String = if sym.is_async {
        match &sym.async_ret {
            Option::Some(ar) => ar,
            Option::None => &sym.ret,
        }
    } else {
        &sym.ret
    };
    let r = sym.name.clone().concat(" : (").concat(args.as_str()).concat(") -> (").concat(
        ret.as_str(),
    ).concat(")").concat(mode).concat(";\n");
    proof {
        assert(r@ =~= method_line_spec(*p, f));
    }
    r
}

} // verus!
