//! The `handoff-gaps` report: per rig, the pushed work branches that no
//! tracker assignment accounts for.
use super::color::{glyph, glyph_spec};
use super::{
    append_doc, concat_all, doc_view, is_painting, lemma_concat_all_push, one, plain, push_owned,
    push_piece, push_span, render_doc, Span, Style,
};
use crate::model::{HandoffGap, HandoffGapReport, Health, RigHandoffGaps};
use crate::text::{nat_decimal, pad_right};
use vstd::prelude::*;

verus! {

/// The header of a rig's gap table.
pub open spec fn gap_header() -> Seq<char> {
    "  BEAD               STATUS       ASSIGNEE                     BRANCH"@
}

/// One gap's line: its bead, the tracker's status and assignee (or
/// placeholders), and the branch.
pub open spec fn gap_line(g: HandoffGap) -> Seq<(Seq<char>, Style)> {
    let status = match g.bead_status {
        Some(s) => s@,
        None => "(no bd record)"@,
    };
    let assignee = match g.bead_assignee {
        Some(a) => a@,
        None => "(unassigned)"@,
    };
    plain("  "@) + seq![glyph_spec(Health::Dead)] + plain(
        " "@ + pad_right(g.bead_id@, 18) + " "@ + pad_right(status, 12) + " "@ + pad_right(
            assignee,
            28,
        ) + " "@,
    ) + one(g.branch@, Style::Dimmed) + plain("\n"@)
}

/// The gaps a rig's section lists: none when the rig was skipped.
pub open spec fn listed_gaps(r: RigHandoffGaps) -> nat {
    if r.error is None && r.base_branch is Some {
        r.gaps@.len()
    } else {
        0
    }
}

/// The gaps listed over all rigs.
pub open spec fn gap_count(rigs: Seq<RigHandoffGaps>) -> nat
    decreases rigs.len(),
{
    if rigs.len() == 0 {
        0
    } else {
        gap_count(rigs.drop_last()) + listed_gaps(rigs.last())
    }
}

/// One rig's section: skipped with the fetch error, skipped for want of a
/// base branch, or the base branch and its gaps.
pub open spec fn rig_section(r: RigHandoffGaps) -> Seq<(Seq<char>, Style)> {
    one(r.rig_name@, Style::Bold) + match r.error {
        Some(e) => plain("  "@) + one("skipped: "@ + e@, Style::Red) + plain("\n\n"@),
        None => match r.base_branch {
            None => plain("  "@) + one(
                "skipped: couldn't determine origin's default branch"@,
                Style::Yellow,
            ) + plain("\n\n"@),
            Some(b) => plain(" "@) + one("(base: "@ + b@ + ")"@, Style::Dimmed) + plain("\n"@) + (if r.gaps@.len() == 0 {
                plain("  "@) + seq![glyph_spec(Health::Healthy)] + plain(" no handoff gaps\n"@)
            } else {
                plain(gap_header() + "\n"@) + concat_all(r.gaps@.map_values(|g: HandoffGap| gap_line(g)))
            }) + plain("\n"@),
        },
    }
}

/// The whole report.
pub open spec fn handoff_doc(r: HandoffGapReport) -> Seq<(Seq<char>, Style)> {
    if r.rigs@.len() == 0 {
        plain("(no rigs to check)\n"@)
    } else {
        concat_all(r.rigs@.map_values(|g: RigHandoffGaps| rig_section(g))) + if gap_count(r.rigs@)
            > 0 {
            one(
                nat_decimal(gap_count(r.rigs@))
                    + " handoff gap(s) found -- real pushed work with no matching bd assignment"@,
                Style::RedBold,
            ) + plain("\n"@)
        } else {
            seq![glyph_spec(Health::Healthy)] + plain(" all clear -- no orphaned polecat branches\n"@)
        }
    }
}

proof fn lemma_gap_count_prefix(rigs: Seq<RigHandoffGaps>, i: int)
    requires
        0 <= i <= rigs.len(),
    ensures
        gap_count(rigs.take(i)) <= gap_count(rigs),
    decreases rigs.len(),
{
    if i == rigs.len() {
        assert(rigs.take(i) =~= rigs);
    } else {
        assert(rigs.drop_last().take(i) =~= rigs.take(i));
        lemma_gap_count_prefix(rigs.drop_last(), i);
    }
}

/// Lays out one gap's line.
pub fn gap_line_doc(g: &HandoffGap) -> (d: Vec<Span>)
    ensures
        doc_view(d@) == gap_line(*g),
{
    let status = match &g.bead_status {
        Some(s) => s.clone(),
        None => crate::text::owned("(no bd record)"),
    };
    let assignee = match &g.bead_assignee {
        Some(a) => a.clone(),
        None => crate::text::owned("(unassigned)"),
    };
    let ghost sv = match &g.bead_status {
        Some(s) => s@,
        None => "(no bd record)"@,
    };
    let ghost av = match &g.bead_assignee {
        Some(a) => a@,
        None => "(unassigned)"@,
    };
    assert(status@ == sv && assignee@ == av);
    let mut d: Vec<Span> = Vec::new();
    push_span(&mut d, "  ", Style::Plain);
    push_piece(&mut d, glyph(Health::Dead));
    let c1 = crate::text::concat(" ", crate::text::pad(g.bead_id.as_str(), 18).as_str());
    let c2 = crate::text::concat(c1.as_str(), " ");
    let c3 = crate::text::concat(c2.as_str(), crate::text::pad(status.as_str(), 12).as_str());
    let c4 = crate::text::concat(c3.as_str(), " ");
    let c5 = crate::text::concat(c4.as_str(), crate::text::pad(assignee.as_str(), 28).as_str());
    push_owned(&mut d, crate::text::concat(c5.as_str(), " "), Style::Plain);
    push_span(&mut d, g.branch.as_str(), Style::Dimmed);
    push_span(&mut d, "\n", Style::Plain);
    assert(doc_view(d@) =~= gap_line(*g));
    d
}

fn gap_table(gaps: &Vec<HandoffGap>) -> (d: Vec<Span>)
    ensures
        doc_view(d@) == plain(gap_header() + "\n"@) + concat_all(
            gaps@.map_values(|g: HandoffGap| gap_line(g)),
        ),
{
    let mut d: Vec<Span> = Vec::new();
    push_span(&mut d, "  BEAD               STATUS       ASSIGNEE                     BRANCH\n", Style::Plain);
    let ghost head = doc_view(d@);
    assert(head =~= plain(gap_header() + "\n"@)) by {
        reveal_strlit("  BEAD               STATUS       ASSIGNEE                     BRANCH\n");
        reveal_strlit("  BEAD               STATUS       ASSIGNEE                     BRANCH");
        reveal_strlit("\n");
        assert(gap_header() + "\n"@ =~= "  BEAD               STATUS       ASSIGNEE                     BRANCH\n"@);
    }
    let ghost f = |g: HandoffGap| gap_line(g);
    let mut i: usize = 0;
    while i < gaps.len()
        invariant
            i <= gaps@.len(),
            f == (|g: HandoffGap| gap_line(g)),
            doc_view(d@) == head + concat_all(gaps@.take(i as int).map_values(f)),
        decreases gaps@.len() - i,
    {
        append_doc(&mut d, gap_line_doc(&gaps[i]));
        proof {
            let gs = gaps@;
            assert(gs.take(i + 1).map_values(f) =~= gs.take(i as int).map_values(f).push(f(gs[i as int])));
            lemma_concat_all_push(gs.take(i as int).map_values(f), f(gs[i as int]));
        }
        i += 1;
    }
    assert(gaps@.take(gaps@.len() as int) =~= gaps@);
    d
}

/// Lays out one rig's section.
pub fn rig_section_doc(r: &RigHandoffGaps) -> (d: Vec<Span>)
    ensures
        doc_view(d@) == rig_section(*r),
{
    let mut d: Vec<Span> = Vec::new();
    push_span(&mut d, r.rig_name.as_str(), Style::Bold);
    match &r.error {
        Some(e) => {
            push_span(&mut d, "  ", Style::Plain);
            push_owned(&mut d, crate::text::concat("skipped: ", e.as_str()), Style::Red);
            push_span(&mut d, "\n\n", Style::Plain);
        },
        None => match &r.base_branch {
            None => {
                push_span(&mut d, "  ", Style::Plain);
                push_span(&mut d, "skipped: couldn't determine origin's default branch", Style::Yellow);
                push_span(&mut d, "\n\n", Style::Plain);
            },
            Some(b) => {
                push_span(&mut d, " ", Style::Plain);
                let t = crate::text::concat(crate::text::concat("(base: ", b.as_str()).as_str(), ")");
                push_owned(&mut d, t, Style::Dimmed);
                push_span(&mut d, "\n", Style::Plain);
                if r.gaps.len() == 0 {
                    push_span(&mut d, "  ", Style::Plain);
                    push_piece(&mut d, glyph(Health::Healthy));
                    push_span(&mut d, " no handoff gaps\n", Style::Plain);
                } else {
                    append_doc(&mut d, gap_table(&r.gaps));
                }
                push_span(&mut d, "\n", Style::Plain);
            },
        },
    }
    assert(doc_view(d@) =~= rig_section(*r));
    d
}

/// Lays out the `handoff-gaps` report.
pub fn doc(r: &HandoffGapReport) -> (d: Vec<Span>)
    requires
        gap_count(r.rigs@) <= usize::MAX,
    ensures
        doc_view(d@) == handoff_doc(*r),
{
    let mut d: Vec<Span> = Vec::new();
    if r.rigs.len() == 0 {
        push_span(&mut d, "(no rigs to check)\n", Style::Plain);
        assert(doc_view(d@) =~= handoff_doc(*r));
        return d;
    }
    let ghost f = |g: RigHandoffGaps| rig_section(g);
    let mut total: usize = 0;
    let mut i: usize = 0;
    while i < r.rigs.len()
        invariant
            i <= r.rigs@.len(),
            gap_count(r.rigs@) <= usize::MAX,
            f == (|g: RigHandoffGaps| rig_section(g)),
            total == gap_count(r.rigs@.take(i as int)),
            doc_view(d@) == concat_all(r.rigs@.take(i as int).map_values(f)),
        decreases r.rigs@.len() - i,
    {
        let rig = &r.rigs[i];
        append_doc(&mut d, rig_section_doc(rig));
        proof {
            let rs = r.rigs@;
            assert(rs.take(i + 1).map_values(f) =~= rs.take(i as int).map_values(f).push(f(rs[i as int])));
            lemma_concat_all_push(rs.take(i as int).map_values(f), f(rs[i as int]));
            assert(rs.take(i + 1).drop_last() =~= rs.take(i as int));
            lemma_gap_count_prefix(rs, i + 1);
        }
        if rig.error.is_none() && rig.base_branch.is_some() {
            total = total + rig.gaps.len();
        }
        i += 1;
    }
    assert(r.rigs@.take(r.rigs@.len() as int) =~= r.rigs@);
    if total > 0 {
        let t = crate::text::concat(
            crate::text::usize_to_string(total).as_str(),
            " handoff gap(s) found -- real pushed work with no matching bd assignment",
        );
        push_owned(&mut d, t, Style::RedBold);
        push_span(&mut d, "\n", Style::Plain);
    } else {
        push_piece(&mut d, glyph(Health::Healthy));
        push_span(&mut d, " all clear -- no orphaned polecat branches\n", Style::Plain);
    }
    assert(doc_view(d@) =~= handoff_doc(*r));
    d
}

/// Renders the `handoff-gaps` report: the laid-out report, printed.
pub fn render(r: &HandoffGapReport) -> (out: String)
    requires
        gap_count(r.rigs@) <= usize::MAX,
    ensures
        is_painting(out@, handoff_doc(*r)),
{
    render_doc(&doc(r))
}

} // verus!
