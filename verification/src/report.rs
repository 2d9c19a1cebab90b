//! Findings and the diagnostic reporter.
//!
//! A finding records what the audit discovered about one symbol, together
//! with the call path at discovery time and whether the owning crate was
//! whitelisted.  The reporter renders non-whitelisted findings as message
//! lines; when the call path has more than one hop it also renders the full
//! chain, entry first, hops joined by an arrow.

use vstd::prelude::*;
use crate::utils::{join_strings, join_with};

verus! {

#[derive(Clone, Copy, PartialEq, Eq, Structural, Debug)]
pub enum FindingKind {
    /// An explicit unsafe block inside the symbol's body.
    UnsafeRegion,
    /// A foreign-import declaration, linked from outside the program.
    ForeignImport,
    /// A symbol explicitly annotated for external linkage.
    ForeignExport,
}

pub struct Finding {
    pub kind: FindingKind,
    /// Index of the symbol the finding is about.
    pub symbol: usize,
    /// Display path of that symbol.
    pub name: String,
    /// The external-linkage name, for `ForeignExport` findings.
    pub export: Option<String>,
    /// Call path from the run's entry point to the symbol, entry first.
    pub path: Vec<String>,
    /// Whether the symbol's crate was whitelisted; gates reporting only.
    pub whitelisted: bool,
}

/// Mathematical image of a finding.
#[verifier::ext_equal]
pub struct FindingV {
    pub kind: FindingKind,
    pub symbol: int,
    pub name: Seq<char>,
    pub export: Option<Seq<char>>,
    pub path: Seq<Seq<char>>,
    pub whitelisted: bool,
}

impl View for Finding {
    type V = FindingV;

    open spec fn view(&self) -> FindingV {
        FindingV {
            kind: self.kind,
            symbol: self.symbol as int,
            name: self.name@,
            export: match self.export {
                Option::Some(e) => Option::Some(e@),
                Option::None => Option::None,
            },
            path: self.path.deep_view(),
            whitelisted: self.whitelisted,
        }
    }
}

pub open spec fn findings_view(s: Seq<Finding>) -> Seq<FindingV> {
    s.map_values(|f: Finding| f@)
}

/// The kind-tagged message line of a finding.
pub open spec fn message_spec(fv: FindingV) -> Seq<char> {
    match fv.kind {
        FindingKind::UnsafeRegion => "[Unsafe] "@ + fv.name + " contains unsafe blocks!"@,
        FindingKind::ForeignImport => "[Import] "@ + fv.name + " is an external import!"@,
        FindingKind::ForeignExport => "[Export] "@ + fv.name + " exports "@ + match fv.export {
            Option::Some(e) => e,
            Option::None => Seq::empty(),
        },
    }
}

/// The rendered call path: hops joined by an arrow, entry first.
pub open spec fn path_line_spec(path: Seq<Seq<char>>) -> Seq<char> {
    "  [Path] "@ + join_with(path, " -> "@)
}

/// The lines one finding contributes to the report: nothing when the
/// finding is whitelisted; otherwise its message, plus the call path when
/// it has more than one hop.
pub open spec fn render_finding_spec(fv: FindingV) -> Seq<Seq<char>> {
    if fv.whitelisted {
        Seq::empty()
    } else if fv.path.len() > 1 {
        seq![message_spec(fv), path_line_spec(fv.path)]
    } else {
        seq![message_spec(fv)]
    }
}

pub open spec fn render_report_spec(fs: Seq<FindingV>) -> Seq<Seq<char>>
    decreases fs,
{
    if fs.len() == 0 {
        Seq::empty()
    } else {
        render_finding_spec(fs[0]) + render_report_spec(fs.drop_first())
    }
}

pub proof fn lemma_render_snoc(fs: Seq<FindingV>)
    requires
        fs.len() >= 1,
    ensures
        render_report_spec(fs) == render_report_spec(fs.drop_last()) + render_finding_spec(
            fs.last(),
        ),
    decreases fs.len(),
{
    if fs.len() == 1 {
        assert(fs.drop_last() =~= Seq::empty());
        assert(render_report_spec(fs.drop_first()) == Seq::<Seq<char>>::empty());
        assert(render_report_spec(fs) =~= render_report_spec(fs.drop_last()) + render_finding_spec(
            fs.last(),
        ));
    } else {
        let rest = fs.drop_first();
        lemma_render_snoc(rest);
        assert(rest.drop_last() =~= fs.drop_last().drop_first());
        assert(rest.last() == fs.last());
        assert(fs.drop_last()[0] == fs[0]);
        assert(fs.drop_last().len() >= 1);
        assert(render_report_spec(fs) == render_finding_spec(fs[0]) + (render_report_spec(
            rest.drop_last(),
        ) + render_finding_spec(fs.last())));
        assert(render_finding_spec(fs[0]) + (render_report_spec(rest.drop_last())
            + render_finding_spec(fs.last())) =~= (render_finding_spec(fs[0])
            + render_report_spec(rest.drop_last())) + render_finding_spec(fs.last()));
    }
}

pub fn message(f: &Finding) -> (r: String)
    ensures
        r@ == message_spec(f@),
{
    match f.kind {
        FindingKind::UnsafeRegion => {
            let r = String::from_str("[Unsafe] ").concat(f.name.as_str()).concat(
                " contains unsafe blocks!",
            );
            proof {
                assert(r@ =~= message_spec(f@));
            }
            r
        },
        FindingKind::ForeignImport => {
            let r = String::from_str("[Import] ").concat(f.name.as_str()).concat(
                " is an external import!",
            );
            proof {
                assert(r@ =~= message_spec(f@));
            }
            r
        },
        FindingKind::ForeignExport => {
            let head = String::from_str("[Export] ").concat(f.name.as_str()).concat(" exports ");
            let r = match &f.export {
                Option::Some(e) => head.concat(e.as_str()),
                Option::None => head,
            };
            proof {
                assert(r@ =~= message_spec(f@));
            }
            r
        },
    }
}

/// Render one finding; nothing when it is whitelisted.
pub fn render_finding(f: &Finding) -> (lines: Vec<String>)
    ensures
        lines.deep_view() == render_finding_spec(f@),
{
    let mut lines: Vec<String> = Vec::new();
    if f.whitelisted {
        proof {
            assert(lines.deep_view() =~= render_finding_spec(f@));
        }
        return lines;
    }
    lines.push(message(f));
    if f.path.len() > 1 {
        let joined = join_strings(&f.path, " -> ");
        lines.push(String::from_str("  [Path] ").concat(joined.as_str()));
        proof {
            assert(lines.deep_view()[1] =~= path_line_spec(f@.path));
        }
    }
    proof {
        assert(lines.deep_view() =~= render_finding_spec(f@));
    }
    lines
}

/// Render a whole report: the lines of every non-whitelisted finding, in
/// finding order.
pub fn render_report(findings: &Vec<Finding>) -> (lines: Vec<String>)
    ensures
        lines.deep_view() == render_report_spec(findings_view(findings@)),
{
    let ghost fv = findings_view(findings@);
    let mut lines: Vec<String> = Vec::new();
    let mut i: usize = 0;
    proof {
        assert(lines.deep_view() =~= render_report_spec(fv.take(0)));
    }
    while i < findings.len()
        invariant
            i <= findings@.len(),
            fv == findings_view(findings@),
            fv.len() == findings@.len(),
            forall|j: int| 0 <= j < fv.len() ==> fv[j] == findings@[j]@,
            lines.deep_view() == render_report_spec(fv.take(i as int)),
        decreases findings@.len() - i,
    {
        let mut more = render_finding(&findings[i]);
        let ghost lines_before = lines.deep_view();
        let ghost more_v = more.deep_view();
        lines.append(&mut more);
        proof {
            let taken = fv.take(i + 1 as int);
            assert(taken.drop_last() =~= fv.take(i as int));
            assert(taken.last() == fv[i as int]);
            lemma_render_snoc(taken);
            assert(lines.deep_view() =~= lines_before + more_v);
            assert(lines.deep_view() =~= render_report_spec(taken));
        }
        i += 1;
    }
    proof {
        assert(fv.take(findings@.len() as int) =~= fv);
    }
    lines
}

} // verus!
