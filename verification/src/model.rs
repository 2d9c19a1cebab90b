//! The audited program as plain data.
//!
//! The audit runs against a snapshot of what the semantic-resolution
//! service can answer about a program: its crates, their module trees and
//! impl blocks, and one record per callable symbol.  Call sites inside a
//! body carry the resolution result (the callee's symbol index, if the
//! service could resolve one), and macro invocations carry their expansion
//! (if the service could produce one).

use vstd::prelude::*;

verus! {

/// Where a crate comes from.  Builtin (standard/compiler) crates are never
/// audited.
#[derive(Clone, Copy, PartialEq, Eq, Structural, Debug)]
pub enum OriginKind {
    /// A member of the audited workspace.
    Workspace,
    /// A standard-library or compiler-provided crate.
    Builtin,
    /// An external library dependency.
    External,
}

/// The container a callable definition lives in.  Only foreign-import
/// declarations get special treatment in the audit.
#[derive(Clone, Copy, PartialEq, Eq, Structural, Debug)]
pub enum ContainerKind {
    FreeFunction,
    InherentMethod,
    TraitMethod,
    /// A declaration without a local body, linked from outside the program.
    ForeignImport,
}

/// A node of a symbol's (macro-expanded) expression tree, pre-order.
pub enum Expr {
    /// A macro invocation; `expansion` is the service's expansion of it,
    /// absent when expansion failed.
    MacroCall { expansion: Option<Box<Expr>> },
    /// An explicit unsafe block and the expressions inside it.
    UnsafeBlock { children: Vec<Expr> },
    /// Any callable-valued expression site (call, method call, operator,
    /// index, await, try, path reference, ...); `target` is the symbol the
    /// service resolved it to, absent when resolution failed.
    CallSite { target: Option<usize>, children: Vec<Expr> },
    /// Any other expression kind: contributes only its children.
    Other { children: Vec<Expr> },
}

/// A declaration inside a module.
pub enum Decl {
    Module(Module),
    Function(usize),
    /// Types, constants, statics, trait declarations, ...: inert.
    Other,
}

/// A module and its declarations, in declaration order.
pub struct Module {
    pub decls: Vec<Decl>,
}

/// An item of an impl block.
pub enum AssocItem {
    Function(usize),
    Other,
}

/// An impl block; these are not reachable through module declarations and
/// are walked as a separate pass over the crate.
pub struct ImplBlock {
    pub items: Vec<AssocItem>,
}

/// One attribute on a symbol, as its path segments.
pub struct AttrPath {
    pub segments: Vec<String>,
}

/// One callable definition.
pub struct SymbolInfo {
    /// Index of the owning crate.
    pub krate: usize,
    /// The bare name of the symbol.
    pub name: String,
    /// Path segments of the symbol within its crate (module path, or
    /// container type/trait path for associated items, ending in the bare
    /// name); empty when the service cannot name it.
    pub rel_path: Vec<String>,
    pub container: ContainerKind,
    /// Explicit external-linkage name, when the symbol is exported.
    pub export_name: Option<String>,
    /// The attributes on the symbol.
    pub attrs: Vec<AttrPath>,
    /// Rendered types of the parameters (without any self parameter).
    pub params: Vec<String>,
    /// Rendered return type.
    pub ret: String,
    pub is_async: bool,
    /// Rendered output type of the returned future, for async symbols.
    pub async_ret: Option<String>,
    /// The symbol's source body; absent for foreign or compiler-synthesized
    /// symbols, or when the service cannot fetch it.
    pub body: Option<Expr>,
}

/// One crate of the audited program.
pub struct CrateInfo {
    /// The crate's display name, when known.
    pub display_name: Option<String>,
    pub version: Option<String>,
    pub origin: OriginKind,
    /// Path of the crate's root file; used to match crates to targets.
    pub root_path: String,
    pub root_module: Module,
    pub impls: Vec<ImplBlock>,
}

/// The whole snapshot: crates and the symbol table.
pub struct Program {
    pub crates: Vec<CrateInfo>,
    pub symbols: Vec<SymbolInfo>,
}

/// Size of an expression tree; the traversal measure decreases on it.
pub open spec fn esize(e: Expr) -> nat
    decreases e,
{
    match e {
        Expr::MacroCall { expansion } => match expansion {
            Option::None => 1,
            Option::Some(b) => 1 + esize(*b),
        },
        Expr::UnsafeBlock { children } => 1 + esizes(children@),
        Expr::CallSite { target: _, children } => 1 + esizes(children@),
        Expr::Other { children } => 1 + esizes(children@),
    }
}

pub open spec fn esizes(es: Seq<Expr>) -> nat
    decreases es,
{
    if es.len() == 0 {
        0
    } else {
        esize(es[0]) + esizes(es.drop_first())
    }
}

/// Size of a module tree; the traversal measure decreases on it.
pub open spec fn msize(m: Module) -> nat
    decreases m,
{
    1 + dsizes(m.decls@)
}

pub open spec fn dsizes(ds: Seq<Decl>) -> nat
    decreases ds,
{
    if ds.len() == 0 {
        0
    } else {
        dsize(ds[0]) + dsizes(ds.drop_first())
    }
}

pub open spec fn dsize(d: Decl) -> nat
    decreases d,
{
    match d {
        Decl::Module(m) => 1 + msize(m),
        Decl::Function(_) => 1,
        Decl::Other => 1,
    }
}

/// All call targets in the tree lie below `n`.
pub open spec fn expr_wf(e: Expr, n: nat) -> bool
    decreases e,
{
    match e {
        Expr::MacroCall { expansion } => match expansion {
            Option::None => true,
            Option::Some(b) => expr_wf(*b, n),
        },
        Expr::UnsafeBlock { children } => exprs_wf(children@, n),
        Expr::CallSite { target, children } => {
            &&& match target {
                Option::None => true,
                Option::Some(t) => t < n,
            }
            &&& exprs_wf(children@, n)
        },
        Expr::Other { children } => exprs_wf(children@, n),
    }
}

pub open spec fn exprs_wf(es: Seq<Expr>, n: nat) -> bool
    decreases es,
{
    if es.len() == 0 {
        true
    } else {
        expr_wf(es[0], n) && exprs_wf(es.drop_first(), n)
    }
}

/// All function declarations in the module tree refer to symbols below `n`.
pub open spec fn module_wf(m: Module, n: nat) -> bool
    decreases m,
{
    decls_wf(m.decls@, n)
}

pub open spec fn decls_wf(ds: Seq<Decl>, n: nat) -> bool
    decreases ds,
{
    if ds.len() == 0 {
        true
    } else {
        decl_wf(ds[0], n) && decls_wf(ds.drop_first(), n)
    }
}

pub open spec fn decl_wf(d: Decl, n: nat) -> bool
    decreases d,
{
    match d {
        Decl::Module(m) => module_wf(m, n),
        Decl::Function(f) => f < n,
        Decl::Other => true,
    }
}

pub open spec fn impl_wf(i: ImplBlock, n: nat) -> bool {
    forall|j: int|
        0 <= j < i.items@.len() ==> match #[trigger] i.items@[j] {
            AssocItem::Function(f) => f < n,
            AssocItem::Other => true,
        }
}

pub open spec fn sym_wf(s: SymbolInfo, n_crates: nat, n_syms: nat) -> bool {
    &&& s.krate < n_crates
    &&& match s.body {
        Option::None => true,
        Option::Some(b) => expr_wf(b, n_syms),
    }
    &&& (s.is_async ==> s.async_ret is Some)
}

pub open spec fn crate_wf(c: CrateInfo, n_syms: nat) -> bool {
    &&& module_wf(c.root_module, n_syms)
    &&& forall|j: int| 0 <= j < c.impls@.len() ==> impl_wf(#[trigger] c.impls@[j], n_syms)
}

impl Program {
    /// Every internal reference of the snapshot is in bounds.
    pub open spec fn wf(self) -> bool {
        &&& forall|k: int|
            0 <= k < self.crates@.len() ==> crate_wf(#[trigger] self.crates@[k], self.symbols@.len())
        &&& forall|i: int|
            0 <= i < self.symbols@.len() ==> sym_wf(
                #[trigger] self.symbols@[i],
                self.crates@.len(),
                self.symbols@.len(),
            )
    }
}

} // verus!
