//! The `dag` view of a rig's beads, drawn as a tree in the manner of
//! `tree` or `git log --graph`: each bead under its parent, with the beads
//! that block it noted on its own line rather than drawn as edges. Beads
//! are overwhelmingly tree-shaped (epics and their subtasks) with a few
//! blocking edges, so a full graph layout would solve a problem this data
//! mostly doesn't have.
use super::color::{bead_stage_glyph, bead_stage_glyph_spec};
use super::{
    append_doc, doc_view, is_painting, one, plain, push_owned, push_piece, push_span, render_doc,
    Span, Style,
};
use crate::model::{BeadStage, DagNode, DagView};
use crate::sources::bd::opt_str;
use crate::text::{join, pad_right};
use vstd::prelude::*;

verus! {

/// Is some node's id `id`?
pub open spec fn has_node(nodes: Seq<DagNode>, id: Seq<char>) -> bool {
    exists|j: int| 0 <= j < nodes.len() && (#[trigger] nodes[j]).id@ == id
}

/// The node drawn for `id`: the last one with that id.
pub open spec fn last_with_id(nodes: Seq<DagNode>, id: Seq<char>) -> Option<int>
    decreases nodes.len(),
{
    if nodes.len() == 0 {
        None
    } else if nodes.last().id@ == id {
        Some(nodes.len() - 1)
    } else {
        last_with_id(nodes.drop_last(), id)
    }
}

/// The ids of the nodes whose parent is `id`, in order.
pub open spec fn children_of(nodes: Seq<DagNode>, id: Seq<char>) -> Seq<Seq<char>>
    decreases nodes.len(),
{
    if nodes.len() == 0 {
        Seq::empty()
    } else {
        children_of(nodes.drop_last(), id) + if opt_str(nodes.last().parent) == Some(id) {
            seq![nodes.last().id@]
        } else {
            Seq::empty()
        }
    }
}

/// A node starts a tree of its own when it has no parent among `all`.
pub open spec fn is_root(all: Seq<DagNode>, n: DagNode) -> bool {
    match n.parent {
        None => true,
        Some(p) => !has_node(all, p@),
    }
}

/// The ids of the tree roots among `nodes` (a prefix of `all`), in order.
pub open spec fn roots_of(all: Seq<DagNode>, nodes: Seq<DagNode>) -> Seq<Seq<char>>
    decreases nodes.len(),
{
    if nodes.len() == 0 {
        Seq::empty()
    } else {
        roots_of(all, nodes.drop_last()) + if is_root(all, nodes.last()) {
            seq![nodes.last().id@]
        } else {
            Seq::empty()
        }
    }
}

/// A node's priority column: "P<n>", or "--" when unset.
pub open spec fn priority_text(p: Option<i64>) -> Seq<char> {
    match p {
        Some(n) => "P"@ + crate::text::int_decimal(n as int),
        None => "--"@,
    }
}

/// One node: its stage glyph, id, priority and title, then a flag when its
/// branch landed while the bead is still open, and what blocks it.
pub open spec fn node_doc(n: DagNode, tick: Option<u64>) -> Seq<(Seq<char>, Style)> {
    seq![bead_stage_glyph_spec(n.stage, tick)] + plain(" "@) + one(n.id@, Style::Dimmed) + plain(
        " "@ + pad_right(priority_text(n.priority), 3) + " "@ + n.title@,
    ) + (if n.landed_unmerged {
        plain(" "@) + one("[landed, not closed]"@, Style::YellowBold)
    } else {
        Seq::empty()
    }) + (if n.blocked_by@.len() > 0 {
        plain(" "@) + one(
            "(blocked by "@ + join(n.blocked_by@.map_values(|b: String| b@), ", "@) + ")"@,
            Style::Dimmed,
        )
    } else {
        Seq::empty()
    })
}

/// The connector before the `i`-th of `n` siblings.
pub open spec fn connector(i: int, n: int) -> Seq<char> {
    if i == n - 1 {
        "└── "@
    } else {
        "├── "@
    }
}

/// What the `i`-th of `n` siblings adds to the prefix of its children.
pub open spec fn addition(i: int, n: int) -> Seq<char> {
    if i == n - 1 {
        "    "@
    } else {
        "│   "@
    }
}

/// The subtree drawn from `id`, at most `fuel` levels deep: the node's
/// line, then its children, each under `prefix + next`.
pub open spec fn walk_doc(
    nodes: Seq<DagNode>,
    id: Seq<char>,
    prefix: Seq<char>,
    conn: Seq<char>,
    next: Seq<char>,
    tick: Option<u64>,
    fuel: nat,
) -> Seq<(Seq<char>, Style)>
    decreases fuel, 0nat,
{
    if fuel == 0 {
        Seq::empty()
    } else {
        match last_with_id(nodes, id) {
            None => Seq::empty(),
            Some(i) => {
                let kids = children_of(nodes, id);
                plain(prefix + conn) + node_doc(nodes[i], tick) + plain("\n"@) + kids_doc(
                    nodes,
                    kids,
                    kids.len(),
                    prefix + next,
                    tick,
                    (fuel - 1) as nat,
                )
            },
        }
    }
}

/// The first `k` of the subtrees of `kids`, drawn under `prefix`.
pub open spec fn kids_doc(
    nodes: Seq<DagNode>,
    kids: Seq<Seq<char>>,
    k: nat,
    prefix: Seq<char>,
    tick: Option<u64>,
    fuel: nat,
) -> Seq<(Seq<char>, Style)>
    decreases fuel, k,
{
    if k == 0 || k > kids.len() {
        Seq::empty()
    } else {
        let i = k - 1;
        kids_doc(nodes, kids, (k - 1) as nat, prefix, tick, fuel) + walk_doc(
            nodes,
            kids[i],
            prefix,
            connector(i, kids.len() as int),
            addition(i, kids.len() as int),
            tick,
            fuel,
        )
    }
}

/// The first `k` trees, one per root.
pub open spec fn forest_doc(nodes: Seq<DagNode>, roots: Seq<Seq<char>>, k: nat, tick: Option<u64>) -> Seq<
    (Seq<char>, Style),
>
    decreases k,
{
    if k == 0 || k > roots.len() {
        Seq::empty()
    } else {
        let i = k - 1;
        forest_doc(nodes, roots, (k - 1) as nat, tick) + walk_doc(
            nodes,
            roots[i],
            Seq::empty(),
            Seq::empty(),
            addition(i, roots.len() as int),
            tick,
            nodes.len(),
        )
    }
}

/// The legend of the three stages (the active one shown as in `watch`).
pub open spec fn legend_doc(tick: Option<u64>) -> Seq<(Seq<char>, Style)> {
    let active_tick = match tick {
        Some(t) => Some(t),
        None => Some(0u64),
    };
    plain("\n  legend:  "@) + seq![bead_stage_glyph_spec(BeadStage::Pending, None)] + plain(
        " pending  "@,
    ) + seq![bead_stage_glyph_spec(BeadStage::Active, active_tick)] + plain(
        " active (flashes in watch)  "@,
    ) + seq![bead_stage_glyph_spec(BeadStage::Merged, None)] + plain(" merged\n"@)
}

/// The whole view: the rig, then each tree (or a note that there are no
/// beads) and the legend.
pub open spec fn dag_doc(v: DagView, tick: Option<u64>) -> Seq<(Seq<char>, Style)> {
    let nodes = v.nodes@;
    one(v.rig_name@, Style::Bold) + plain(" "@) + one(v.rig_path@, Style::Dimmed) + plain("\n\n"@)
        + if nodes.len() == 0 {
        plain("  (no beads)\n"@)
    } else {
        let roots = roots_of(nodes, nodes);
        forest_doc(nodes, roots, roots.len(), tick) + legend_doc(tick)
    }
}

fn node_index(nodes: &Vec<DagNode>, id: &str) -> (r: Option<usize>)
    ensures
        r matches Some(i) ==> i < nodes@.len() && last_with_id(nodes@, id@) == Some(i as int),
        r is None ==> last_with_id(nodes@, id@) is None,
{
    let mut i: usize = nodes.len();
    assert(nodes@.take(i as int) =~= nodes@);
    while i > 0
        invariant
            i <= nodes@.len(),
            last_with_id(nodes@, id@) == last_with_id(nodes@.take(i as int), id@),
        decreases i,
    {
        let ghost pre = nodes@.take(i as int);
        assert(pre.last() == nodes@[i - 1]);
        assert(pre.drop_last() =~= nodes@.take(i - 1));
        if crate::text::str_eq(nodes[i - 1].id.as_str(), id) {
            return Some(i - 1);
        }
        i -= 1;
    }
    None
}

fn parent_is(n: &DagNode, id: &str) -> (r: bool)
    ensures
        r == (opt_str(n.parent) == Some(id@)),
{
    match &n.parent {
        Some(p) => crate::text::str_eq(p.as_str(), id),
        None => false,
    }
}

fn children_ids(nodes: &Vec<DagNode>, id: &str) -> (r: Vec<String>)
    ensures
        r@.map_values(|s: String| s@) == children_of(nodes@, id@),
{
    let mut out: Vec<String> = Vec::new();
    let mut i: usize = 0;
    while i < nodes.len()
        invariant
            i <= nodes@.len(),
            out@.map_values(|s: String| s@) == children_of(nodes@.take(i as int), id@),
        decreases nodes@.len() - i,
    {
        let ghost before = out@.map_values(|s: String| s@);
        assert(nodes@.take(i + 1).drop_last() =~= nodes@.take(i as int));
        assert(nodes@.take(i + 1).last() == nodes@[i as int]);
        if parent_is(&nodes[i], id) {
            out.push(nodes[i].id.clone());
            assert(out@.map_values(|s: String| s@) =~= before.push(nodes@[i as int].id@));
        }
        assert(out@.map_values(|s: String| s@) =~= children_of(nodes@.take(i + 1), id@));
        i += 1;
    }
    assert(nodes@.take(nodes@.len() as int) =~= nodes@);
    out
}

fn root_ids(nodes: &Vec<DagNode>) -> (r: Vec<String>)
    ensures
        r@.map_values(|s: String| s@) == roots_of(nodes@, nodes@),
{
    let mut out: Vec<String> = Vec::new();
    let mut i: usize = 0;
    while i < nodes.len()
        invariant
            i <= nodes@.len(),
            out@.map_values(|s: String| s@) == roots_of(nodes@, nodes@.take(i as int)),
        decreases nodes@.len() - i,
    {
        let ghost before = out@.map_values(|s: String| s@);
        assert(nodes@.take(i + 1).drop_last() =~= nodes@.take(i as int));
        assert(nodes@.take(i + 1).last() == nodes@[i as int]);
        let root = match &nodes[i].parent {
            None => true,
            Some(p) => match node_index(nodes, p.as_str()) {
                None => {
                    proof {
                        if has_node(nodes@, p@) {
                            let j = choose|j: int| 0 <= j < nodes@.len() && (#[trigger] nodes@[j]).id@ == p@;
                            lemma_last_with_id_found(nodes@, p@, j);
                        }
                    }
                    true
                },
                Some(j) => {
                    proof {
                        lemma_last_with_id_bounds(nodes@, p@);
                        assert(nodes@[j as int].id@ == p@);
                    }
                    false
                },
            },
        };
        if root {
            out.push(nodes[i].id.clone());
            assert(out@.map_values(|s: String| s@) =~= before.push(nodes@[i as int].id@));
        }
        assert(out@.map_values(|s: String| s@) =~= roots_of(nodes@, nodes@.take(i + 1)));
        i += 1;
    }
    assert(nodes@.take(nodes@.len() as int) =~= nodes@);
    out
}

proof fn lemma_last_with_id_bounds(nodes: Seq<DagNode>, id: Seq<char>)
    ensures
        last_with_id(nodes, id) matches Some(i) ==> 0 <= i < nodes.len() && nodes[i].id@ == id,
    decreases nodes.len(),
{
    if nodes.len() > 0 {
        lemma_last_with_id_bounds(nodes.drop_last(), id);
    }
}

proof fn lemma_last_with_id_found(nodes: Seq<DagNode>, id: Seq<char>, j: int)
    requires
        0 <= j < nodes.len(),
        nodes[j].id@ == id,
    ensures
        last_with_id(nodes, id) is Some,
    decreases nodes.len(),
{
    if nodes.last().id@ != id {
        lemma_last_with_id_found(nodes.drop_last(), id, j);
    }
}

fn priority_string(p: Option<i64>) -> (r: String)
    ensures
        r@ == priority_text(p),
{
    match p {
        Some(n) => crate::text::concat("P", crate::text::i64_to_string(n).as_str()),
        None => crate::text::owned("--"),
    }
}

/// Lays out one node's text (without its tree prefix or line end).
pub fn node_part(n: &DagNode, tick: Option<u64>) -> (d: Vec<Span>)
    ensures
        doc_view(d@) == node_doc(*n, tick),
{
    let mut d: Vec<Span> = Vec::new();
    push_piece(&mut d, bead_stage_glyph(n.stage, tick));
    push_span(&mut d, " ", Style::Plain);
    push_span(&mut d, n.id.as_str(), Style::Dimmed);
    let c1 = crate::text::concat(" ", crate::text::pad(priority_string(n.priority).as_str(), 3).as_str());
    let c2 = crate::text::concat(crate::text::concat(c1.as_str(), " ").as_str(), n.title.as_str());
    push_owned(&mut d, c2, Style::Plain);
    if n.landed_unmerged {
        push_span(&mut d, " ", Style::Plain);
        push_span(&mut d, "[landed, not closed]", Style::YellowBold);
    }
    if n.blocked_by.len() > 0 {
        push_span(&mut d, " ", Style::Plain);
        let j = crate::text::join_strings(&n.blocked_by, ", ");
        let t = crate::text::concat(crate::text::concat("(blocked by ", j.as_str()).as_str(), ")");
        push_owned(&mut d, t, Style::Dimmed);
    }
    assert(doc_view(d@) =~= node_doc(*n, tick));
    d
}

fn walk(
    nodes: &Vec<DagNode>,
    id: &str,
    prefix: &str,
    conn: &str,
    next: &str,
    tick: Option<u64>,
    fuel: usize,
    out: &mut Vec<Span>,
)
    ensures
        doc_view(final(out)@) == doc_view(old(out)@) + walk_doc(
            nodes@,
            id@,
            prefix@,
            conn@,
            next@,
            tick,
            fuel as nat,
        ),
    decreases fuel,
{
    if fuel == 0 {
        assert(doc_view(out@) =~= doc_view(old(out)@) + walk_doc(nodes@, id@, prefix@, conn@, next@, tick, fuel as nat));
        return;
    }
    let i = match node_index(nodes, id) {
        Some(i) => i,
        None => {
            assert(doc_view(out@) =~= doc_view(old(out)@) + walk_doc(nodes@, id@, prefix@, conn@, next@, tick, fuel as nat));
            return;
        },
    };
    push_owned(out, crate::text::concat(prefix, conn), Style::Plain);
    append_doc(out, node_part(&nodes[i], tick));
    push_span(out, "\n", Style::Plain);
    let ghost head = doc_view(out@);
    let kids = children_ids(nodes, id);
    let ghost kv = kids@.map_values(|s: String| s@);
    let child_prefix = crate::text::concat(prefix, next);
    let n = kids.len();
    let mut k: usize = 0;
    while k < n
        invariant
            0 < fuel,
            n == kids@.len() == kv.len(),
            kv == kids@.map_values(|s: String| s@),
            k <= n,
            doc_view(out@) == head + kids_doc(nodes@, kv, k as nat, child_prefix@, tick, (fuel - 1) as nat),
        decreases n - k,
    {
        let last = k + 1 == n;
        let c = if last {
            "└── "
        } else {
            "├── "
        };
        let a = if last {
            "    "
        } else {
            "│   "
        };
        assert(c@ == connector(k as int, n as int) && a@ == addition(k as int, n as int));
        walk(nodes, kids[k].as_str(), child_prefix.as_str(), c, a, tick, fuel - 1, out);
        assert(kids@[k as int]@ == kv[k as int]);
        k += 1;
    }
    proof {
        let kc = children_of(nodes@, id@);
        assert(kv == kc);
        assert(doc_view(out@) =~= doc_view(old(out)@) + walk_doc(nodes@, id@, prefix@, conn@, next@, tick, fuel as nat));
    }
}

/// Lays out the `dag` view.
pub fn doc(v: &DagView, tick: Option<u64>) -> (d: Vec<Span>)
    ensures
        doc_view(d@) == dag_doc(*v, tick),
{
    let mut d: Vec<Span> = Vec::new();
    push_span(&mut d, v.rig_name.as_str(), Style::Bold);
    push_span(&mut d, " ", Style::Plain);
    push_span(&mut d, v.rig_path.as_str(), Style::Dimmed);
    push_span(&mut d, "\n\n", Style::Plain);
    if v.nodes.len() == 0 {
        push_span(&mut d, "  (no beads)\n", Style::Plain);
        assert(doc_view(d@) =~= dag_doc(*v, tick));
        return d;
    }
    let ghost head = doc_view(d@);
    let roots = root_ids(&v.nodes);
    let ghost rv = roots@.map_values(|s: String| s@);
    let n = roots.len();
    let mut k: usize = 0;
    while k < n
        invariant
            n == roots@.len() == rv.len(),
            rv == roots@.map_values(|s: String| s@),
            k <= n,
            doc_view(d@) == head + forest_doc(v.nodes@, rv, k as nat, tick),
        decreases n - k,
    {
        let a = if k + 1 == n {
            "    "
        } else {
            "│   "
        };
        assert(a@ == addition(k as int, n as int));
        walk(&v.nodes, roots[k].as_str(), "", "", a, tick, v.nodes.len(), &mut d);
        proof {
            reveal_strlit("");
            assert(""@ =~= Seq::<char>::empty());
            assert(roots@[k as int]@ == rv[k as int]);
        }
        k += 1;
    }
    let active_tick = match tick {
        Some(t) => Some(t),
        None => Some(0u64),
    };
    push_span(&mut d, "\n  legend:  ", Style::Plain);
    push_piece(&mut d, bead_stage_glyph(BeadStage::Pending, None));
    push_span(&mut d, " pending  ", Style::Plain);
    push_piece(&mut d, bead_stage_glyph(BeadStage::Active, active_tick));
    push_span(&mut d, " active (flashes in watch)  ", Style::Plain);
    push_piece(&mut d, bead_stage_glyph(BeadStage::Merged, None));
    push_span(&mut d, " merged\n", Style::Plain);
    assert(doc_view(d@) =~= dag_doc(*v, tick));
    d
}

/// Renders the `dag` view: the laid-out view, printed.
pub fn render(v: &DagView, tick: Option<u64>) -> (r: String)
    ensures
        is_painting(r@, dag_doc(*v, tick)),
{
    render_doc(&doc(v, tick))
}

} // verus!
