//! The `queue` view: a rig's bead counts per state and its in-progress
//! beads, stalest first.
use super::color::{glyph_live, glyph_live_spec, humanize_age, humanize_age_spec};
use super::{
    append_doc, concat_all, doc_view, is_painting, lemma_concat_all_push, one, plain, push_owned,
    push_piece, push_span, render_doc, Span, Style,
};
use crate::model::{BeadRef, Health, QueueView};
use crate::text::{ellipsize, int_decimal, nat_decimal, pad_right};
use vstd::prelude::*;

verus! {

/// Stale first, then unknown, then everything else.
pub open spec fn class_of(b: BeadRef) -> int {
    match b.health {
        Health::Stale => 0,
        Health::Unknown => 1,
        _ => 2,
    }
}

/// The age a bead is ordered by within its class (an unknown bead's age
/// doesn't count; a missing one counts as zero).
pub open spec fn age_key(b: BeadRef) -> int {
    match b.health {
        Health::Unknown => 0,
        _ => match b.age_secs {
            Some(a) => a as int,
            None => 0,
        },
    }
}

/// Bead `i` is listed before bead `j`: by class, then the older first,
/// then by their order in the input (the sort is stable).
pub open spec fn listed_before(beads: Seq<BeadRef>, i: int, j: int) -> bool {
    let ci = class_of(beads[i]);
    let cj = class_of(beads[j]);
    let ai = age_key(beads[i]);
    let aj = age_key(beads[j]);
    ci < cj || (ci == cj && (ai > aj || (ai == aj && i < j)))
}

/// `order` lists every bead index exactly once, stalest first.
pub open spec fn stale_first_order(beads: Seq<BeadRef>, order: Seq<int>) -> bool {
    &&& order.len() == beads.len()
    &&& forall|k: int| 0 <= k < order.len() ==> 0 <= #[trigger] order[k] < beads.len()
    &&& forall|j: int| 0 <= j < beads.len() ==> #[trigger] order.contains(j)
    &&& forall|a: int, b: int|
        0 <= a < b < order.len() ==> listed_before(beads, #[trigger] order[a], #[trigger] order[b])
}

/// The title line's running tag.
pub open spec fn running_tag(r: Option<bool>) -> Seq<(Seq<char>, Style)> {
    match r {
        Some(true) => one(" (running)"@, Style::Green),
        Some(false) => one(" (not running)"@, Style::Red),
        None => Seq::empty(),
    }
}

/// The priority column: "P<n>", or "-" when unset.
pub open spec fn priority_text(p: Option<i64>) -> Seq<char> {
    match p {
        Some(n) => "P"@ + int_decimal(n as int),
        None => "-"@,
    }
}

/// One in-progress bead's row (titles past 60 characters cut to 57 plus
/// "...").
pub open spec fn bead_row(b: BeadRef, tick: Option<u64>) -> Seq<(Seq<char>, Style)> {
    let assignee = match b.assignee {
        Some(a) => a@,
        None => "(unassigned)"@,
    };
    plain("  "@) + seq![glyph_live_spec(b.health, tick)] + plain(
        " "@ + pad_right(priority_text(b.priority), 3) + " "@ + pad_right(b.id@, 14) + " "@
            + pad_right(humanize_age_spec(b.age_secs), 9) + " "@ + pad_right(assignee, 24) + " "@
            + ellipsize(b.title@, 60, 57, "..."@) + "\n"@,
    )
}

/// The column header of the bead list.
pub open spec fn header() -> Seq<char> {
    "  P   ID             AGE       ASSIGNEE                 TITLE"@
}

/// The counts line.
pub open spec fn counts_doc(v: QueueView) -> Seq<(Seq<char>, Style)> {
    let s = v.summary;
    plain("  "@) + plain(int_decimal(s.total as int) + " total"@) + plain("  "@) + one(
        int_decimal(s.ready as int) + " ready"@,
        Style::Green,
    ) + plain("  "@) + one(int_decimal(s.in_progress as int) + " in_progress"@, Style::Cyan)
        + plain("  "@) + one(int_decimal(s.blocked as int) + " blocked"@, Style::Yellow) + plain(
        "  "@,
    ) + one(int_decimal(s.deferred as int) + " deferred"@, Style::Dimmed) + plain("  "@) + one(
        int_decimal(s.closed as int) + " closed"@,
        Style::Gray,
    ) + plain("\n\n"@)
}

/// The counts line reads, as text, each of the six counts of the rig's
/// summary in decimal followed by that count's own name -- total, ready,
/// in_progress, blocked, deferred, closed, in that order.
pub proof fn law_counts_line_names_each_count(v: QueueView)
    ensures
        super::doc_text(counts_doc(v)) == "  "@ + int_decimal(v.summary.total as int) + " total"@ + "  "@
            + int_decimal(v.summary.ready as int) + " ready"@ + "  "@ + int_decimal(
            v.summary.in_progress as int,
        ) + " in_progress"@ + "  "@ + int_decimal(v.summary.blocked as int) + " blocked"@ + "  "@
            + int_decimal(v.summary.deferred as int) + " deferred"@ + "  "@ + int_decimal(
            v.summary.closed as int,
        ) + " closed"@ + "\n\n"@,
{
    broadcast use super::lemma_doc_text_concat, super::lemma_doc_text_one;

    let s = v.summary;
    assert(super::doc_text(counts_doc(v)) =~= "  "@ + int_decimal(s.total as int) + " total"@ + "  "@
        + int_decimal(s.ready as int) + " ready"@ + "  "@ + int_decimal(s.in_progress as int)
        + " in_progress"@ + "  "@ + int_decimal(s.blocked as int) + " blocked"@ + "  "@ + int_decimal(
        s.deferred as int,
    ) + " deferred"@ + "  "@ + int_decimal(s.closed as int) + " closed"@ + "\n\n"@);
}

/// The bead list: the first `limit` beads in `order`, and a note of how
/// many more there are.
pub open spec fn list_doc(v: QueueView, order: Seq<int>, tick: Option<u64>, limit: nat) -> Seq<
    (Seq<char>, Style),
> {
    let n = v.in_progress@.len();
    let shown = if n < limit {
        n
    } else {
        limit
    };
    plain(header() + "\n"@) + concat_all(
        order.take(shown as int).map_values(|k: int| bead_row(v.in_progress@[k], tick)),
    ) + if shown < n {
        plain("  "@) + one(
            "... "@ + nat_decimal((n - shown) as nat) + " more in progress not shown (--limit "@
                + nat_decimal(limit) + ")"@,
            Style::Dimmed,
        ) + plain("\n"@)
    } else {
        Seq::empty()
    }
}

/// The whole view for a given listing order.
pub open spec fn queue_doc(v: QueueView, order: Seq<int>, tick: Option<u64>, limit: nat) -> Seq<
    (Seq<char>, Style),
> {
    seq![glyph_live_spec(v.health, tick)] + plain(" "@) + one(v.rig_name@, Style::Bold) + running_tag(
        v.rig_running,
    ) + plain("  "@) + one(v.rig_path@, Style::Dimmed) + plain("\n\n"@) + counts_doc(v) + if v.in_progress@.len()
        == 0 {
        plain("  (nothing in progress)\n"@)
    } else {
        list_doc(v, order, tick, limit)
    }
}

fn class_code(b: &BeadRef) -> (r: u8)
    ensures
        r == class_of(*b),
{
    match b.health {
        Health::Stale => 0,
        Health::Unknown => 1,
        _ => 2,
    }
}

fn age_code(b: &BeadRef) -> (r: i64)
    ensures
        r == age_key(*b),
{
    match b.health {
        Health::Unknown => 0,
        _ => match b.age_secs {
            Some(a) => a,
            None => 0,
        },
    }
}

fn before(beads: &Vec<BeadRef>, i: usize, j: usize) -> (r: bool)
    requires
        i < beads@.len(),
        j < beads@.len(),
    ensures
        r == listed_before(beads@, i as int, j as int),
{
    let ci = class_code(&beads[i]);
    let cj = class_code(&beads[j]);
    let ai = age_code(&beads[i]);
    let aj = age_code(&beads[j]);
    ci < cj || (ci == cj && (ai > aj || (ai == aj && i < j)))
}

/// The listing order of the in-progress beads: stalest (and least known)
/// first, a stable sort.
pub fn stale_first(beads: &Vec<BeadRef>) -> (order: Vec<usize>)
    ensures
        stale_first_order(beads@, order@.map_values(|k: usize| k as int)),
{
    let mut order: Vec<usize> = Vec::new();
    let mut i: usize = 0;
    while i < beads.len()
        invariant
            i <= beads@.len(),
            order@.len() == i,
            forall|k: int| 0 <= k < order@.len() ==> (#[trigger] order@[k]) < i,
            forall|j: usize| j < i ==> #[trigger] order@.contains(j),
            forall|a: int, b: int|
                0 <= a < b < order@.len() ==> listed_before(
                    beads@,
                    #[trigger] order@[a] as int,
                    #[trigger] order@[b] as int,
                ),
        decreases beads@.len() - i,
    {
        let mut pos: usize = 0;
        while pos < order.len() && !before(beads, i, order[pos])
            invariant
                i < beads@.len(),
                pos <= order@.len(),
                forall|k: int| 0 <= k < order@.len() ==> (#[trigger] order@[k]) < i,
                forall|a: int| 0 <= a < pos ==> !listed_before(beads@, i as int, #[trigger] order@[a] as int),
            decreases order@.len() - pos,
        {
            pos += 1;
        }
        let ghost old_order = order@;
        order.insert(pos, i);
        proof {
            assert forall|a: int, b: int|
                0 <= a < b < order@.len() implies listed_before(
                    beads@,
                    #[trigger] order@[a] as int,
                    #[trigger] order@[b] as int,
                ) by {
                if b < pos {
                    assert(order@[a] == old_order[a] && order@[b] == old_order[b]);
                } else if b == pos {
                    assert(order@[a] == old_order[a]);
                    assert(!listed_before(beads@, i as int, old_order[a] as int));
                    assert(old_order[a] < i);
                } else if a == pos {
                    assert(order@[b] == old_order[b - 1]);
                    assert(listed_before(beads@, i as int, old_order[pos as int] as int));
                    if b - 1 > pos {
                        assert(listed_before(beads@, old_order[pos as int] as int, old_order[b - 1] as int));
                    }
                } else if a < pos {
                    assert(order@[a] == old_order[a] && order@[b] == old_order[b - 1]);
                } else {
                    assert(order@[a] == old_order[a - 1] && order@[b] == old_order[b - 1]);
                }
            }
            assert forall|j: usize| j < i + 1 implies #[trigger] order@.contains(j) by {
                if j == i {
                    assert(order@[pos as int] == j);
                } else {
                    assert(old_order.contains(j));
                    let k = choose|k: int| 0 <= k < old_order.len() && old_order[k] == j;
                    if k < pos {
                        assert(order@[k] == j);
                    } else {
                        assert(order@[k + 1] == j);
                    }
                }
            }
            assert forall|k: int| 0 <= k < order@.len() implies (#[trigger] order@[k]) < i + 1 by {
                if k < pos {
                    assert(order@[k] == old_order[k]);
                } else if k > pos {
                    assert(order@[k] == old_order[k - 1]);
                }
            }
        }
        i += 1;
    }
    proof {
        let ov = order@.map_values(|k: usize| k as int);
        assert forall|j: int| 0 <= j < beads@.len() implies #[trigger] ov.contains(j) by {
            assert(order@.contains(j as usize));
            let k = choose|k: int| 0 <= k < order@.len() && order@[k] == j as usize;
            assert(ov[k] == j);
        }
        assert forall|a: int, b: int| 0 <= a < b < ov.len() implies listed_before(beads@, #[trigger] ov[a], #[trigger] ov[b]) by {
            assert(ov[a] == order@[a] as int);
            assert(ov[b] == order@[b] as int);
        }
    }
    order
}

/// `d` is the view laid out in the stalest-first order.
pub open spec fn is_queue_doc(d: Seq<(Seq<char>, Style)>, v: QueueView, tick: Option<u64>, limit: nat) -> bool {
    exists|order: Seq<int>| stale_first_order(v.in_progress@, order) && d == queue_doc(v, order, tick, limit)
}

fn priority_string(p: Option<i64>) -> (r: String)
    ensures
        r@ == priority_text(p),
{
    match p {
        Some(n) => crate::text::concat("P", crate::text::i64_to_string(n).as_str()),
        None => crate::text::owned("-"),
    }
}

/// Lays out one in-progress bead's row.
pub fn bead_row_doc(b: &BeadRef, tick: Option<u64>) -> (d: Vec<Span>)
    ensures
        doc_view(d@) == bead_row(*b, tick),
{
    let assignee = match &b.assignee {
        Some(a) => a.clone(),
        None => crate::text::owned("(unassigned)"),
    };
    let ghost av = match &b.assignee {
        Some(a) => a@,
        None => "(unassigned)"@,
    };
    assert(assignee@ == av);
    let mut d: Vec<Span> = Vec::new();
    push_span(&mut d, "  ", Style::Plain);
    push_piece(&mut d, glyph_live(b.health, tick));
    let c1 = crate::text::concat(" ", crate::text::pad(priority_string(b.priority).as_str(), 3).as_str());
    let c2 = crate::text::concat(c1.as_str(), " ");
    let c3 = crate::text::concat(c2.as_str(), crate::text::pad(b.id.as_str(), 14).as_str());
    let c4 = crate::text::concat(c3.as_str(), " ");
    let c5 = crate::text::concat(c4.as_str(), crate::text::pad(humanize_age(b.age_secs).as_str(), 9).as_str());
    let c6 = crate::text::concat(c5.as_str(), " ");
    let c7 = crate::text::concat(c6.as_str(), crate::text::pad(assignee.as_str(), 24).as_str());
    let c8 = crate::text::concat(c7.as_str(), " ");
    let c9 = crate::text::concat(c8.as_str(), crate::text::ellipsize_str(b.title.as_str(), 60, 57, "...").as_str());
    let row = crate::text::concat(c9.as_str(), "\n");
    push_owned(&mut d, row, Style::Plain);
    assert(doc_view(d@) =~= bead_row(*b, tick));
    d
}

fn counted(n: i64, what: &str, style: Style) -> (s: Span)
    ensures
        super::span_view(s) == (int_decimal(n as int) + what@, style),
{
    Span { text: crate::text::concat(crate::text::i64_to_string(n).as_str(), what), style }
}

fn counts_line(v: &QueueView) -> (d: Vec<Span>)
    ensures
        doc_view(d@) == counts_doc(*v),
{
    let s = v.summary;
    let mut d: Vec<Span> = Vec::new();
    push_span(&mut d, "  ", Style::Plain);
    push_piece(&mut d, counted(s.total, " total", Style::Plain));
    push_span(&mut d, "  ", Style::Plain);
    push_piece(&mut d, counted(s.ready, " ready", Style::Green));
    push_span(&mut d, "  ", Style::Plain);
    push_piece(&mut d, counted(s.in_progress, " in_progress", Style::Cyan));
    push_span(&mut d, "  ", Style::Plain);
    push_piece(&mut d, counted(s.blocked, " blocked", Style::Yellow));
    push_span(&mut d, "  ", Style::Plain);
    push_piece(&mut d, counted(s.deferred, " deferred", Style::Dimmed));
    push_span(&mut d, "  ", Style::Plain);
    push_piece(&mut d, counted(s.closed, " closed", Style::Gray));
    push_span(&mut d, "\n\n", Style::Plain);
    assert(doc_view(d@) =~= counts_doc(*v));
    d
}

fn list_part(v: &QueueView, order: &Vec<usize>, tick: Option<u64>, limit: usize) -> (d: Vec<Span>)
    requires
        stale_first_order(v.in_progress@, order@.map_values(|k: usize| k as int)),
    ensures
        doc_view(d@) == list_doc(*v, order@.map_values(|k: usize| k as int), tick, limit as nat),
{
    let ghost ov = order@.map_values(|k: usize| k as int);
    let ghost f = |k: int| bead_row(v.in_progress@[k], tick);
    let n = v.in_progress.len();
    let shown = if n < limit {
        n
    } else {
        limit
    };
    let mut d: Vec<Span> = Vec::new();
    push_span(&mut d, "  P   ID             AGE       ASSIGNEE                 TITLE\n", Style::Plain);
    let ghost head = doc_view(d@);
    assert(head =~= plain(header() + "\n"@)) by {
        reveal_strlit("  P   ID             AGE       ASSIGNEE                 TITLE\n");
        reveal_strlit("  P   ID             AGE       ASSIGNEE                 TITLE");
        reveal_strlit("\n");
        assert(header() + "\n"@ =~= "  P   ID             AGE       ASSIGNEE                 TITLE\n"@);
    }
    assert forall|k: int| 0 <= k < order@.len() implies (#[trigger] order@[k]) < n by {
        assert(ov[k] == order@[k] as int);
    }
    let mut i: usize = 0;
    while i < shown
        invariant
            shown <= n == v.in_progress@.len() == order@.len() == ov.len(),
            i <= shown,
            ov == order@.map_values(|k: usize| k as int),
            f == (|k: int| bead_row(v.in_progress@[k], tick)),
            forall|k: int| 0 <= k < order@.len() ==> (#[trigger] order@[k]) < n,
            doc_view(d@) == head + concat_all(ov.take(i as int).map_values(f)),
        decreases shown - i,
    {
        let k = order[i];
        let row = bead_row_doc(&v.in_progress[k], tick);
        append_doc(&mut d, row);
        proof {
            assert(ov[i as int] == k as int);
            assert(ov.take(i + 1).map_values(f) =~= ov.take(i as int).map_values(f).push(f(k as int)));
            lemma_concat_all_push(ov.take(i as int).map_values(f), f(k as int));
        }
        i += 1;
    }
    if shown < n {
        push_span(&mut d, "  ", Style::Plain);
        let m1 = crate::text::concat("... ", crate::text::usize_to_string(n - shown).as_str());
        let m2 = crate::text::concat(m1.as_str(), " more in progress not shown (--limit ");
        let m3 = crate::text::concat(m2.as_str(), crate::text::usize_to_string(limit).as_str());
        let m4 = crate::text::concat(m3.as_str(), ")");
        push_owned(&mut d, m4, Style::Dimmed);
        push_span(&mut d, "\n", Style::Plain);
    }
    assert(doc_view(d@) =~= list_doc(*v, ov, tick, limit as nat));
    d
}

/// Lays out the `queue` view.
pub fn doc(v: &QueueView, tick: Option<u64>, limit: usize) -> (d: Vec<Span>)
    ensures
        is_queue_doc(doc_view(d@), *v, tick, limit as nat),
{
    let order = stale_first(&v.in_progress);
    let ghost ov = order@.map_values(|k: usize| k as int);
    let mut d: Vec<Span> = Vec::new();
    push_piece(&mut d, glyph_live(v.health, tick));
    push_span(&mut d, " ", Style::Plain);
    push_span(&mut d, v.rig_name.as_str(), Style::Bold);
    match v.rig_running {
        Some(true) => push_span(&mut d, " (running)", Style::Green),
        Some(false) => push_span(&mut d, " (not running)", Style::Red),
        None => {},
    }
    push_span(&mut d, "  ", Style::Plain);
    push_span(&mut d, v.rig_path.as_str(), Style::Dimmed);
    push_span(&mut d, "\n\n", Style::Plain);
    append_doc(&mut d, counts_line(v));
    if v.in_progress.len() == 0 {
        push_span(&mut d, "  (nothing in progress)\n", Style::Plain);
    } else {
        append_doc(&mut d, list_part(v, &order, tick, limit));
    }
    assert(doc_view(d@) =~= queue_doc(*v, ov, tick, limit as nat));
    d
}

/// Renders the `queue` view: the laid-out view, printed.
pub fn render(v: &QueueView, tick: Option<u64>, limit: usize) -> (r: String)
    ensures
        exists|order: Seq<int>| stale_first_order(v.in_progress@, order) && is_painting(r@, queue_doc(*v, order, tick, limit as nat)),
{
    let d = doc(v, tick, limit);
    let r = render_doc(&d);
    proof {
        let order = choose|order: Seq<int>| stale_first_order(v.in_progress@, order) && doc_view(d@) == queue_doc(*v, order, tick, limit as nat);
        assert(stale_first_order(v.in_progress@, order) && is_painting(r@, queue_doc(*v, order, tick, limit as nat)));
    }
    r
}

} // verus!
