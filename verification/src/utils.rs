//! Display names and small string/vector helpers.

use vstd::prelude::*;
use crate::model::{CrateInfo, Program};

verus! {

/// Crate display names are normalized by turning every `-` into `_`.
pub open spec fn dash_to_underscore(s: Seq<char>) -> Seq<char> {
    s.map_values(|c: char| if c == '-' { '_' } else { c })
}

/// Relies on str::replace with a char pattern: every occurrence of the
/// pattern character is replaced by the replacement string and all other
/// characters are kept in order; with a one-character replacement the
/// result maps the characters one for one.
#[verifier::external_body]
fn replace_dashes(s: &str) -> (r: String)
    ensures
        r@ == dash_to_underscore(s@),
{
    s.replace('-', "_")
}

/// The name a crate is displayed under: its display name (or a placeholder)
/// with dashes normalized.
pub open spec fn crate_name_spec(c: CrateInfo) -> Seq<char> {
    match c.display_name {
        Option::Some(n) => dash_to_underscore(n@),
        Option::None => dash_to_underscore("<unknown>"@),
    }
}

pub fn crate_name(p: &Program, k: usize) -> (r: String)
    requires
        k < p.crates@.len(),
    ensures
        r@ == crate_name_spec(p.crates@[k as int]),
{
    match &p.crates[k].display_name {
        Option::Some(n) => replace_dashes(n.as_str()),
        Option::None => replace_dashes("<unknown>"),
    }
}

/// The parts joined with the separator between consecutive parts.
pub open spec fn join_with(parts: Seq<Seq<char>>, sep: Seq<char>) -> Seq<char>
    decreases parts,
{
    if parts.len() == 0 {
        Seq::empty()
    } else if parts.len() == 1 {
        parts[0]
    } else {
        parts[0] + sep + join_with(parts.drop_first(), sep)
    }
}

/// Snoc characterization of `join_with`, used to grow a join left to right.
pub proof fn lemma_join_snoc(parts: Seq<Seq<char>>, sep: Seq<char>)
    requires
        parts.len() >= 2,
    ensures
        join_with(parts, sep) == join_with(parts.drop_last(), sep) + sep + parts.last(),
    decreases parts.len(),
{
    let rest = parts.drop_first();
    if parts.len() == 2 {
        assert(rest.len() == 1);
        assert(parts.drop_last() =~= seq![parts[0]]);
        assert(join_with(rest, sep) == rest[0]);
        assert(join_with(parts, sep) == parts[0] + sep + rest[0]);
        assert(join_with(parts.drop_last(), sep) == parts[0]);
        assert(rest[0] == parts.last());
    } else {
        lemma_join_snoc(rest, sep);
        assert(rest.drop_last() =~= parts.drop_last().drop_first());
        assert(rest.last() == parts.last());
        assert(parts.drop_last().len() >= 2);
        assert(join_with(parts.drop_last(), sep) == parts.drop_last()[0] + sep + join_with(
            parts.drop_last().drop_first(),
            sep,
        ));
        assert(parts.drop_last()[0] == parts[0]);
        assert(join_with(parts, sep) == parts[0] + sep + (join_with(rest.drop_last(), sep) + sep
            + rest.last()));
        assert(parts[0] + sep + (join_with(rest.drop_last(), sep) + sep + rest.last()) =~= (parts[0]
            + sep + join_with(rest.drop_last(), sep)) + sep + rest.last());
    }
}

/// Join the strings with the separator.
pub fn join_strings(parts: &Vec<String>, sep: &str) -> (r: String)
    ensures
        r@ == join_with(parts.deep_view(), sep@),
{
    let ghost pv = parts.deep_view();
    let mut r = String::new();
    let mut i: usize = 0;
    while i < parts.len()
        invariant
            i <= parts@.len(),
            pv == parts.deep_view(),
            pv.len() == parts@.len(),
            forall|j: int| 0 <= j < pv.len() ==> pv[j] == parts@[j]@,
            r@ == join_with(pv.take(i as int), sep@),
        decreases parts@.len() - i,
    {
        if i > 0 {
            r.append(sep);
        }
        r.append(parts[i].as_str());
        proof {
            let taken = pv.take(i + 1 as int);
            assert(taken.drop_last() =~= pv.take(i as int));
            assert(taken.last() == pv[i as int]);
            if i == 0 {
                assert(taken.len() == 1);
                assert(r@ =~= join_with(taken, sep@));
            } else {
                lemma_join_snoc(taken, sep@);
                assert(r@ =~= join_with(taken.drop_last(), sep@) + sep@ + taken.last());
            }
        }
        i += 1;
    }
    proof {
        assert(pv.take(parts@.len() as int) =~= pv);
    }
    r
}

/// Character-exact string equality.
pub fn str_eq(a: &str, b: &str) -> (r: bool)
    ensures
        r == (a@ == b@),
{
    let na = a.unicode_len();
    let nb = b.unicode_len();
    if na != nb {
        return false;
    }
    let mut i: usize = 0;
    while i < na
        invariant
            na == a@.len(),
            nb == b@.len(),
            na == nb,
            i <= na,
            forall|j: int| 0 <= j < i ==> a@[j] == b@[j],
        decreases na - i,
    {
        if a.get_char(i) != b.get_char(i) {
            return false;
        }
        i += 1;
    }
    proof {
        assert(a@ =~= b@);
    }
    true
}

/// Clone a vector of strings, character for character.
pub fn clone_strings(v: &Vec<String>) -> (r: Vec<String>)
    ensures
        r.deep_view() == v.deep_view(),
        r@.len() == v@.len(),
{
    let mut r: Vec<String> = Vec::new();
    let mut i: usize = 0;
    while i < v.len()
        invariant
            i <= v@.len(),
            r@.len() == i,
            forall|j: int| 0 <= j < i ==> r@[j]@ == v@[j]@,
        decreases v@.len() - i,
    {
        r.push(v[i].clone());
        i += 1;
    }
    proof {
        assert(r.deep_view() =~= v.deep_view());
    }
    r
}

/// Clone a vector of indices.
pub fn clone_usizes(v: &Vec<usize>) -> (r: Vec<usize>)
    ensures
        r@ == v@,
{
    let mut r: Vec<usize> = Vec::new();
    let mut i: usize = 0;
    while i < v.len()
        invariant
            i <= v@.len(),
            r@ == v@.take(i as int),
        decreases v@.len() - i,
    {
        r.push(v[i]);
        proof {
            assert(r@ =~= v@.take(i + 1 as int));
        }
        i += 1;
    }
    proof {
        assert(v@.take(v@.len() as int) =~= v@);
    }
    r
}

/// Membership test for a vector of indices.
pub fn contains_usize(v: &Vec<usize>, x: usize) -> (r: bool)
    ensures
        r == v@.contains(x),
{
    let mut i: usize = 0;
    while i < v.len()
        invariant
            i <= v@.len(),
            forall|j: int| 0 <= j < i ==> v@[j] != x,
        decreases v@.len() - i,
    {
        if v[i] == x {
            return true;
        }
        i += 1;
    }
    false
}

/// The full display path of a symbol: normalized crate name, then the
/// symbol's path segments within the crate, `::`-separated.
pub open spec fn display_path_spec(p: Program, f: int) -> Seq<char> {
    let sym = p.symbols@[f];
    let cn = crate_name_spec(p.crates@[sym.krate as int]);
    if sym.rel_path@.len() == 0 {
        cn
    } else {
        cn + "::"@ + join_with(sym.rel_path.deep_view(), "::"@)
    }
}

pub fn display_path(p: &Program, f: usize) -> (r: String)
    requires
        p.wf(),
        f < p.symbols@.len(),
    ensures
        r@ == display_path_spec(*p, f as int),
{
    let sym = &p.symbols[f];
    let cn = crate_name(p, sym.krate);
    if sym.rel_path.len() == 0 {
        cn
    } else {
        let joined = join_strings(&sym.rel_path, "::");
        let r = cn.concat("::").concat(joined.as_str());
        proof {
            assert(r@ =~= display_path_spec(*p, f as int));
        }
        r
    }
}

} // verus!
