//! The crate classifier: package selection, whitelist resolution and crate
//! lookup over the loaded workspace.
//!
//! Whitelist entries are `name` or `name@version`.  An entry that matches
//! no package is skipped (non-fatal); an unqualified entry that matches
//! several packages fails the whole run (ambiguous).

use vstd::prelude::*;
use crate::model::{OriginKind, Program};
use crate::utils::str_eq;

verus! {

/// A library target of a package: its name and the path of its root file.
#[derive(Debug, PartialEq, Eq)]
pub struct TargetInfo {
    pub name: String,
    pub root: String,
}

/// One package of the loaded workspace.
pub struct Package {
    pub name: String,
    pub version: String,
    /// Whether the package is a member of the workspace.
    pub is_member: bool,
    /// The package's library target, when it has one.
    pub lib: Option<TargetInfo>,
}

/// The loaded cargo workspace.
pub struct Workspace {
    pub packages: Vec<Package>,
}

#[derive(Clone, Copy, PartialEq, Eq, Structural, Debug)]
pub enum ClassifyError {
    /// No package matches the request.
    PackageNotFound,
    /// More than one package matches the request.
    MultiplePackages,
    /// The selected package has no library target.
    NoLibTarget,
    /// No crate of the program has the target's root file.
    CrateNotFound,
}

pub open spec fn opt_str_view(o: Option<&str>) -> Option<Seq<char>> {
    match o {
        Option::Some(s) => Option::Some(s@),
        Option::None => Option::None,
    }
}

/// Whether a package matches a selection request: by name (and version, if
/// given), or — with no name — by workspace membership.
pub open spec fn pk_match(pk: Package, name: Option<Seq<char>>, ver: Option<Seq<char>>) -> bool {
    match name {
        Option::Some(n) => pk.name@ == n && match ver {
            Option::None => true,
            Option::Some(v) => pk.version@ == v,
        },
        Option::None => pk.is_member,
    }
}

/// How many packages from index `i` on match the request.
pub open spec fn count_matches_from(
    ws: Workspace,
    name: Option<Seq<char>>,
    ver: Option<Seq<char>>,
    i: int,
) -> nat
    decreases ws.packages@.len() - i,
{
    if i < 0 || i >= ws.packages@.len() {
        0
    } else {
        (if pk_match(ws.packages@[i], name, ver) {
            1nat
        } else {
            0nat
        }) + count_matches_from(ws, name, ver, i + 1)
    }
}

/// Index of the first matching package from `i` on.
pub open spec fn first_match_from(
    ws: Workspace,
    name: Option<Seq<char>>,
    ver: Option<Seq<char>>,
    i: int,
) -> Option<int>
    decreases ws.packages@.len() - i,
{
    if i < 0 || i >= ws.packages@.len() {
        Option::None
    } else if pk_match(ws.packages@[i], name, ver) {
        Option::Some(i)
    } else {
        first_match_from(ws, name, ver, i + 1)
    }
}

/// Exactly one package must match; it must have a library target.
pub open spec fn find_package_spec(
    ws: Workspace,
    name: Option<Seq<char>>,
    ver: Option<Seq<char>>,
) -> Result<TargetInfo, ClassifyError> {
    let c = count_matches_from(ws, name, ver, 0);
    if c == 0 {
        Result::Err(ClassifyError::PackageNotFound)
    } else if c > 1 {
        Result::Err(ClassifyError::MultiplePackages)
    } else {
        match first_match_from(ws, name, ver, 0) {
            Option::None => Result::Err(ClassifyError::PackageNotFound),
            Option::Some(k) => match ws.packages@[k].lib {
                Option::Some(t) => Result::Ok(t),
                Option::None => Result::Err(ClassifyError::NoLibTarget),
            },
        }
    }
}

/// Select the one package the request names and return its library target.
pub fn find_package(ws: &Workspace, name: Option<&str>, version: Option<&str>) -> (r: Result<
    TargetInfo,
    ClassifyError,
>)
    ensures
        r == find_package_spec(*ws, opt_str_view(name), opt_str_view(version)),
{
    let ghost nv = opt_str_view(name);
    let ghost vv = opt_str_view(version);
    let mut count: usize = 0;
    let mut first: usize = 0;
    let mut i: usize = 0;
    while i < ws.packages.len()
        invariant
            i <= ws.packages@.len(),
            count <= i,
            nv == opt_str_view(name),
            vv == opt_str_view(version),
            count_matches_from(*ws, nv, vv, 0) == count + count_matches_from(*ws, nv, vv, i as int),
            count > 0 ==> first < i && first_match_from(*ws, nv, vv, 0) == Option::Some(
                first as int,
            ),
            count == 0 ==> first_match_from(*ws, nv, vv, 0) == first_match_from(
                *ws,
                nv,
                vv,
                i as int,
            ),
        decreases ws.packages@.len() - i,
    {
        let pk = &ws.packages[i];
        let m: bool = match name {
            Option::Some(n) => {
                if str_eq(pk.name.as_str(), n) {
                    match version {
                        Option::None => true,
                        Option::Some(v) => str_eq(pk.version.as_str(), v),
                    }
                } else {
                    false
                }
            },
            Option::None => pk.is_member,
        };
        proof {
            assert(m == pk_match(ws.packages@[i as int], nv, vv));
        }
        if m {
            if count == 0 {
                first = i;
            }
            count += 1;
        }
        i += 1;
    }
    if count == 0 {
        Result::Err(ClassifyError::PackageNotFound)
    } else if count > 1 {
        Result::Err(ClassifyError::MultiplePackages)
    } else {
        match &ws.packages[first].lib {
            Option::Some(t) => {
                let out = TargetInfo { name: t.name.clone(), root: t.root.clone() };
                Result::Ok(out)
            },
            Option::None => Result::Err(ClassifyError::NoLibTarget),
        }
    }
}

/// Index of the first crate whose root file is `root`, scanning from `i`.
pub open spec fn first_crate_from(p: Program, root: Seq<char>, i: int) -> Option<int>
    decreases p.crates@.len() - i,
{
    if i < 0 || i >= p.crates@.len() {
        Option::None
    } else if p.crates@[i].root_path@ == root {
        Option::Some(i)
    } else {
        first_crate_from(p, root, i + 1)
    }
}

pub open spec fn find_crate_spec(p: Program, root: Seq<char>) -> Result<usize, ClassifyError> {
    match first_crate_from(p, root, 0) {
        Option::Some(k) => Result::Ok(k as usize),
        Option::None => Result::Err(ClassifyError::CrateNotFound),
    }
}

/// The crate whose root file is the target's root file.
pub fn find_crate(p: &Program, target: &TargetInfo) -> (r: Result<usize, ClassifyError>)
    ensures
        r == find_crate_spec(*p, target.root@),
        r matches Result::Ok(k) ==> k < p.crates@.len(),
{
    let mut i: usize = 0;
    while i < p.crates.len()
        invariant
            i <= p.crates@.len(),
            first_crate_from(*p, target.root@, 0) == first_crate_from(*p, target.root@, i as int),
        decreases p.crates@.len() - i,
    {
        if str_eq(p.crates[i].root_path.as_str(), target.root.as_str()) {
            return Result::Ok(i);
        }
        i += 1;
    }
    Result::Err(ClassifyError::CrateNotFound)
}

/// The crates to scan: every crate that is not the audited target and not
/// builtin, in index order, appended to `acc`.
pub open spec fn non_root_from(p: Program, root: Seq<char>, i: int, acc: Seq<usize>) -> Seq<usize>
    decreases p.crates@.len() - i,
{
    if i < 0 || i >= p.crates@.len() {
        acc
    } else {
        let keep = p.crates@[i].root_path@ != root && !(p.crates@[i].origin is Builtin);
        non_root_from(
            p,
            root,
            i + 1,
            if keep {
                acc.push(i as usize)
            } else {
                acc
            },
        )
    }
}

/// At most one crate is collected per index.
pub proof fn lemma_non_root_len(p: Program, root: Seq<char>, i: int, acc: Seq<usize>)
    requires
        0 <= i <= p.crates@.len(),
    ensures
        non_root_from(p, root, i, acc).len() <= acc.len() + p.crates@.len() - i,
    decreases p.crates@.len() - i,
{
    if i < p.crates@.len() {
        let keep = p.crates@[i].root_path@ != root && !(p.crates@[i].origin is Builtin);
        if keep {
            lemma_non_root_len(p, root, i + 1, acc.push(i as usize));
        } else {
            lemma_non_root_len(p, root, i + 1, acc);
        }
    }
}

/// All non-target, non-builtin crates of the program.
pub fn find_non_root_crates(p: &Program, target: &TargetInfo) -> (r: Vec<usize>)
    ensures
        r@ == non_root_from(*p, target.root@, 0, Seq::empty()),
        forall|j: int| 0 <= j < r@.len() ==> r@[j] < p.crates@.len(),
{
    let mut r: Vec<usize> = Vec::new();
    let mut i: usize = 0;
    while i < p.crates.len()
        invariant
            i <= p.crates@.len(),
            forall|j: int| 0 <= j < r@.len() ==> r@[j] < p.crates@.len(),
            non_root_from(*p, target.root@, 0, Seq::empty()) == non_root_from(
                *p,
                target.root@,
                i as int,
                r@,
            ),
        decreases p.crates@.len() - i,
    {
        let not_root = !str_eq(p.crates[i].root_path.as_str(), target.root.as_str());
        let not_builtin = !matches!(p.crates[i].origin, OriginKind::Builtin);
        if not_root && not_builtin {
            r.push(i);
        }
        i += 1;
    }
    r
}

/// Index of the first `@` of `s` at or after `i`.
pub open spec fn first_at(s: Seq<char>, i: int) -> Option<int>
    decreases s.len() - i,
{
    if i < 0 || i >= s.len() {
        Option::None
    } else if s[i] == '@' {
        Option::Some(i)
    } else {
        first_at(s, i + 1)
    }
}

/// The name part of a whitelist entry: everything before the first `@`.
pub open spec fn entry_name(s: Seq<char>) -> Seq<char> {
    match first_at(s, 0) {
        Option::None => s,
        Option::Some(i) => s.take(i),
    }
}

/// The version part of a whitelist entry: between the first `@` and the
/// next one (or the end); absent when the entry is unqualified.
pub open spec fn entry_version(s: Seq<char>) -> Option<Seq<char>> {
    match first_at(s, 0) {
        Option::None => Option::None,
        Option::Some(i) => match first_at(s, i + 1) {
            Option::None => Option::Some(s.skip(i + 1)),
            Option::Some(j) => Option::Some(s.subrange(i + 1, j)),
        },
    }
}

fn find_at(s: &str, from: usize) -> (r: Option<usize>)
    requires
        from <= s@.len(),
    ensures
        match r {
            Option::Some(i) => from <= i < s@.len() && Option::Some(i as int) == first_at(
                s@,
                from as int,
            ),
            Option::None => first_at(s@, from as int) is None,
        },
{
    let n = s.unicode_len();
    let mut i: usize = from;
    while i < n
        invariant
            from <= i <= n,
            n == s@.len(),
            first_at(s@, from as int) == first_at(s@, i as int),
        decreases n - i,
    {
        if s.get_char(i) == '@' {
            return Option::Some(i);
        }
        i += 1;
    }
    Option::None
}

/// Resolve whitelist entries from index `i` on, with `acc` the crates
/// already resolved: an entry whose package is missing is skipped; any
/// other selection error fails the run.
pub open spec fn resolve_from(
    ws: Workspace,
    p: Program,
    entries: Seq<Seq<char>>,
    i: int,
    acc: Seq<usize>,
) -> Result<Seq<usize>, ClassifyError>
    decreases entries.len() - i,
{
    if i < 0 || i >= entries.len() {
        Result::Ok(acc)
    } else {
        let e = entries[i];
        match find_package_spec(ws, Option::Some(entry_name(e)), entry_version(e)) {
            Result::Err(ClassifyError::PackageNotFound) => resolve_from(ws, p, entries, i + 1, acc),
            Result::Err(err) => Result::Err(err),
            Result::Ok(t) => match find_crate_spec(p, t.root@) {
                Result::Err(e2) => Result::Err(e2),
                Result::Ok(k) => resolve_from(ws, p, entries, i + 1, acc.push(k)),
            },
        }
    }
}

/// Resolve the user-supplied whitelist into crate indices.
pub fn find_whitelisted_crates(ws: &Workspace, p: &Program, whitelist: &Vec<String>) -> (r: Result<
    Vec<usize>,
    ClassifyError,
>)
    ensures
        resolve_from(*ws, *p, whitelist.deep_view(), 0, Seq::empty()) == match r {
            Result::Ok(v) => Result::<Seq<usize>, ClassifyError>::Ok(v@),
            Result::Err(e) => Result::<Seq<usize>, ClassifyError>::Err(e),
        },
{
    let ghost entries = whitelist.deep_view();
    let mut res: Vec<usize> = Vec::new();
    let mut i: usize = 0;
    while i < whitelist.len()
        invariant
            i <= whitelist@.len(),
            entries == whitelist.deep_view(),
            entries.len() == whitelist@.len(),
            forall|j: int| 0 <= j < entries.len() ==> entries[j] == whitelist@[j]@,
            resolve_from(*ws, *p, entries, 0, Seq::empty()) == resolve_from(
                *ws,
                *p,
                entries,
                i as int,
                res@,
            ),
        decreases whitelist@.len() - i,
    {
        let item = &whitelist[i];
        let n = item.as_str().unicode_len();
        let (name, version) = match find_at(item.as_str(), 0) {
            Option::None => (item.as_str(), Option::None),
            Option::Some(at) => {
                let rest_from = at + 1;
                let ver = match find_at(item.as_str(), rest_from) {
                    Option::None => item.as_str().substring_char(rest_from, n),
                    Option::Some(j) => item.as_str().substring_char(rest_from, j),
                };
                (item.as_str().substring_char(0, at), Option::Some(ver))
            },
        };
        proof {
            assert(name@ == entry_name(entries[i as int]));
            assert(opt_str_view(version) == entry_version(entries[i as int]));
        }
        match find_package(ws, Option::Some(name), version) {
            Result::Err(ClassifyError::PackageNotFound) => {},
            Result::Err(err) => {
                return Result::Err(err);
            },
            Result::Ok(target) => {
                match find_crate(p, &target) {
                    Result::Err(e2) => {
                        return Result::Err(e2);
                    },
                    Result::Ok(k) => {
                        res.push(k);
                    },
                }
            },
        }
        i += 1;
    }
    Result::Ok(res)
}

} // verus!
