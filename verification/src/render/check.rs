//! The `check` report: every problem found, or an all-clear line.
use super::color::{glyph, glyph_spec};
use super::{
    append_doc, concat_all, doc_view, is_painting, lemma_concat_all_push, one, plain, push_owned,
    push_piece, push_span, render_doc, Span, Style,
};
use crate::model::{CheckIssue, CheckReport, Health};
use crate::text::nat_decimal;
use vstd::prelude::*;

verus! {

/// One issue's line: its glyph, scope and message.
pub open spec fn issue_line(i: CheckIssue) -> Seq<(Seq<char>, Style)> {
    seq![glyph_spec(i.health)] + plain(" "@) + one(i.scope@, Style::Bold) + plain(
        " "@ + i.message@ + "\n"@,
    )
}

/// The whole report: all clear, or every issue and their count.
pub open spec fn check_doc(r: CheckReport) -> Seq<(Seq<char>, Style)> {
    if r.issues@.len() == 0 {
        seq![glyph_spec(Health::Healthy)] + plain(" all clear -- nothing stale or dead\n"@)
    } else {
        concat_all(r.issues@.map_values(|i: CheckIssue| issue_line(i))) + plain("\n"@) + one(
            nat_decimal(r.issues@.len()) + " issue(s) found"@,
            Style::RedBold,
        ) + plain("\n"@)
    }
}

/// Lays out the `check` report.
pub fn doc(r: &CheckReport) -> (d: Vec<Span>)
    ensures
        doc_view(d@) == check_doc(*r),
{
    let mut d: Vec<Span> = Vec::new();
    if r.issues.len() == 0 {
        push_piece(&mut d, glyph(Health::Healthy));
        push_span(&mut d, " all clear -- nothing stale or dead\n", Style::Plain);
        assert(doc_view(d@) =~= check_doc(*r));
        return d;
    }
    let ghost f = |i: CheckIssue| issue_line(i);
    let mut k: usize = 0;
    while k < r.issues.len()
        invariant
            k <= r.issues@.len(),
            f == (|i: CheckIssue| issue_line(i)),
            doc_view(d@) == concat_all(r.issues@.take(k as int).map_values(f)),
        decreases r.issues@.len() - k,
    {
        let issue = &r.issues[k];
        let mut line: Vec<Span> = Vec::new();
        push_piece(&mut line, glyph(issue.health));
        push_span(&mut line, " ", Style::Plain);
        push_span(&mut line, issue.scope.as_str(), Style::Bold);
        let t = crate::text::concat(crate::text::concat(" ", issue.message.as_str()).as_str(), "\n");
        push_owned(&mut line, t, Style::Plain);
        assert(doc_view(line@) =~= f(r.issues@[k as int]));
        append_doc(&mut d, line);
        proof {
            let is = r.issues@;
            assert(is.take(k + 1).map_values(f) =~= is.take(k as int).map_values(f).push(f(is[k as int])));
            lemma_concat_all_push(is.take(k as int).map_values(f), f(is[k as int]));
        }
        k += 1;
    }
    assert(r.issues@.take(r.issues@.len() as int) =~= r.issues@);
    push_span(&mut d, "\n", Style::Plain);
    let t = crate::text::concat(crate::text::usize_to_string(r.issues.len()).as_str(), " issue(s) found");
    push_owned(&mut d, t, Style::RedBold);
    push_span(&mut d, "\n", Style::Plain);
    assert(doc_view(d@) =~= check_doc(*r));
    d
}

/// Renders the `check` report: the laid-out report, printed.
pub fn render(r: &CheckReport) -> (out: String)
    ensures
        is_painting(out@, check_doc(*r)),
{
    render_doc(&doc(r))
}

} // verus!
