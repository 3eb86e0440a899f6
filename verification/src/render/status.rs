//! The `status` view: the city, its controller, and a table of its rigs.
use super::color::{glyph, glyph_live, glyph_live_spec, glyph_spec, label, label_spec};
use super::{
    append_doc, concat_all, doc_view, is_painting, lemma_concat_all_push, one, plain, push_owned,
    push_piece, push_span, render_doc, Span, Style,
};
use crate::model::{CityView, Health, RigView};
use crate::text::{int_decimal, join, nat_decimal, pad_right};
use vstd::prelude::*;

verus! {

/// The controller's detail items: pid, mode and status, those that are
/// known.
pub open spec fn detail_items(v: CityView) -> Seq<Seq<char>> {
    (match v.controller_pid {
        Some(p) => seq!["pid "@ + int_decimal(p as int)],
        None => Seq::empty(),
    }) + (match v.controller_mode {
        Some(m) => seq!["mode "@ + m@],
        None => Seq::empty(),
    }) + (match v.controller_status {
        Some(s) => seq![s@],
        None => Seq::empty(),
    })
}

/// The controller's detail: " (a, b, c)", or nothing when nothing is known.
pub open spec fn detail_text(v: CityView) -> Seq<char> {
    let items = detail_items(v);
    if items.len() == 0 {
        Seq::empty()
    } else {
        " ("@ + join(items, ", "@) + ")"@
    }
}

/// The title and controller lines, the mismatch warning and the agent count.
pub open spec fn head_doc(v: CityView, tick: Option<u64>) -> Seq<(Seq<char>, Style)> {
    seq![glyph_live_spec(v.health, tick)] + plain(" "@) + one(v.city_name@, Style::Bold) + plain(
        "  "@,
    ) + one(v.city_path@, Style::Dimmed) + plain("\n  controller: "@) + (if v.controller_running {
        one("running"@, Style::Green)
    } else {
        one("down"@, Style::RedBold)
    }) + plain(detail_text(v)) + (if v.suspended {
        one(" (suspended)"@, Style::Yellow)
    } else {
        Seq::empty()
    }) + plain("\n"@) + (if !v.city_running && v.controller_running {
        plain("  "@) + seq![glyph_spec(Health::Stale)] + plain(
            " city reports not running despite controller being up\n"@,
        )
    } else {
        Seq::empty()
    }) + plain(
        "  agents: "@ + nat_decimal(v.running_agents as nat) + "/"@ + nat_decimal(
            v.total_agents as nat,
        ) + " running\n"@,
    )
}

/// One timed-out probe's line.
pub open spec fn partial_line(e: String) -> Seq<(Seq<char>, Style)> {
    plain("    "@) + one(e@, Style::Dimmed) + plain("\n"@)
}

/// One degradation signal's line.
pub open spec fn signal_line(s: String) -> Seq<(Seq<char>, Style)> {
    plain("  "@) + seq![glyph_spec(Health::Dead)] + plain(" "@ + s@ + "\n"@)
}

/// The partial-status note and the probes that timed out, when the status
/// is partial.
pub open spec fn partial_doc(v: CityView) -> Seq<(Seq<char>, Style)> {
    if v.partial {
        plain("  "@) + seq![glyph_spec(Health::Unknown)] + plain(
            " partial status — some probes timed out\n"@,
        ) + concat_all(v.partial_errors@.map_values(|e: String| partial_line(e)))
    } else {
        Seq::empty()
    }
}

/// The degradation signals, when the city is degraded.
pub open spec fn signals_doc(v: CityView) -> Seq<(Seq<char>, Style)> {
    if v.degraded {
        concat_all(v.signals@.map_values(|s: String| signal_line(s)))
    } else {
        Seq::empty()
    }
}

/// The rig table's header.
pub open spec fn table_header() -> Seq<char> {
    "     RIG                STATE     READY  WIP  BLOCKED HEALTH"@
}

/// A rig's state column: suspended, else active or inactive.
pub open spec fn rig_state(r: RigView) -> (Seq<char>, Style) {
    if r.suspended {
        ("suspended"@, Style::Dimmed)
    } else if r.running {
        ("active"@, Style::Green)
    } else {
        ("inactive"@, Style::Yellow)
    }
}

/// One of a rig's count columns, or "-" when its counts are unknown.
pub open spec fn count_text(c: Option<i64>) -> Seq<char> {
    match c {
        Some(n) => int_decimal(n as int),
        None => "-"@,
    }
}

/// One rig's row of the table.
pub open spec fn rig_row(r: RigView, tick: Option<u64>) -> Seq<(Seq<char>, Style)> {
    let st = rig_state(r);
    let (ready, wip, blocked) = match r.bead_summary {
        Some(s) => (Some(s.ready), Some(s.in_progress), Some(s.blocked)),
        None => (None, None, None),
    };
    plain("  "@) + seq![glyph_live_spec(r.health, tick)] + plain(" "@ + pad_right(r.name@, 18) + " "@)
        + seq![(pad_right(st.0, 9), st.1)] + plain(
        " "@ + pad_right(count_text(ready), 6) + " "@ + pad_right(count_text(wip), 4) + " "@
            + pad_right(count_text(blocked), 6) + " "@,
    ) + seq![label_spec(r.health)] + plain("\n"@)
}

/// The whole view.
pub open spec fn status_doc(v: CityView, tick: Option<u64>) -> Seq<(Seq<char>, Style)> {
    head_doc(v, tick) + partial_doc(v) + signals_doc(v) + plain("\n"@ + table_header() + "\n"@)
        + concat_all(v.rigs@.map_values(|r: RigView| rig_row(r, tick)))
}

fn detail_string(v: &CityView) -> (r: String)
    ensures
        r@ == detail_text(*v),
{
    let mut items: Vec<String> = Vec::new();
    let ghost a = match v.controller_pid {
        Some(p) => seq!["pid "@ + int_decimal(p as int)],
        None => Seq::<Seq<char>>::empty(),
    };
    let ghost b = match &v.controller_mode {
        Some(m) => seq!["mode "@ + m@],
        None => Seq::<Seq<char>>::empty(),
    };
    if let Some(pid) = v.controller_pid {
        items.push(crate::text::concat("pid ", crate::text::i64_to_string(pid).as_str()));
    }
    assert(items@.map_values(|p: String| p@) =~= a);
    if let Some(mode) = &v.controller_mode {
        items.push(crate::text::concat("mode ", mode.as_str()));
    }
    assert(items@.map_values(|p: String| p@) =~= a + b);
    if let Some(status) = &v.controller_status {
        items.push(status.clone());
    }
    assert(items@.map_values(|p: String| p@) =~= detail_items(*v));
    if items.len() == 0 {
        String::new()
    } else {
        let inner = crate::text::join_strings(&items, ", ");
        crate::text::concat(crate::text::concat(" (", inner.as_str()).as_str(), ")")
    }
}

/// The mismatch warning: the city says it isn't running while its
/// controller is up.
pub open spec fn mismatch_warning() -> (Seq<char>, Style) {
    (" city reports not running despite controller being up\n"@, Style::Plain)
}

/// The head of the status view carries the mismatch warning exactly when
/// the city reports not running and the controller is running: a stopped
/// city with its controller down, or a running city, shows none.
pub proof fn law_mismatch_warning_only_on_mismatch(v: CityView, tick: Option<u64>)
    ensures
        head_doc(v, tick).contains(mismatch_warning()) <==> (!v.city_running && v.controller_running),
{
    let w = mismatch_warning();
    let pre = seq![glyph_live_spec(v.health, tick)] + plain(" "@) + one(v.city_name@, Style::Bold)
        + plain("  "@) + one(v.city_path@, Style::Dimmed) + plain("\n  controller: "@) + (
    if v.controller_running {
        one("running"@, Style::Green)
    } else {
        one("down"@, Style::RedBold)
    }) + plain(detail_text(v)) + (if v.suspended {
        one(" (suspended)"@, Style::Yellow)
    } else {
        Seq::empty()
    }) + plain("\n"@);
    let warn = plain("  "@) + seq![glyph_spec(Health::Stale)] + plain(
        " city reports not running despite controller being up\n"@,
    );
    let tail = plain(
        "  agents: "@ + nat_decimal(v.running_agents as nat) + "/"@ + nat_decimal(
            v.total_agents as nat,
        ) + " running\n"@,
    );
    let d = head_doc(v, tick);
    reveal_strlit(" city reports not running despite controller being up\n");
    reveal_strlit(" ");
    reveal_strlit("  ");
    reveal_strlit("\n  controller: ");
    reveal_strlit("\n");
    reveal_strlit(" (");
    reveal_strlit("  agents: ");
    if !v.city_running && v.controller_running {
        assert(d =~= pre + warn + tail);
        assert(d[pre.len() + 2int] == w);
    } else {
        assert(d =~= pre + tail);
        assert(w.0[1] == 'c');
        let dt = detail_text(v);
        assert(dt.len() == 0 || dt[1] == '(');
        let ag = "  agents: "@ + nat_decimal(v.running_agents as nat) + "/"@ + nat_decimal(
            v.total_agents as nat,
        ) + " running\n"@;
        assert(ag[1] == ' ');
        assert forall|k: int| 0 <= k < d.len() implies d[k] != w by {
            if k == 0 {
                assert(d[k].1 != Style::Plain);
            } else if k == 7 {
                assert(d[k].0 == dt);
            } else if k == d.len() - 1 {
                assert(d[k].0 == ag);
            }
        }
    }
}

fn head_part(v: &CityView, tick: Option<u64>) -> (d: Vec<Span>)
    ensures
        doc_view(d@) == head_doc(*v, tick),
{
    let mut d: Vec<Span> = Vec::new();
    push_piece(&mut d, glyph_live(v.health, tick));
    push_span(&mut d, " ", Style::Plain);
    push_span(&mut d, v.city_name.as_str(), Style::Bold);
    push_span(&mut d, "  ", Style::Plain);
    push_span(&mut d, v.city_path.as_str(), Style::Dimmed);
    push_span(&mut d, "\n  controller: ", Style::Plain);
    if v.controller_running {
        push_span(&mut d, "running", Style::Green);
    } else {
        push_span(&mut d, "down", Style::RedBold);
    }
    push_owned(&mut d, detail_string(v), Style::Plain);
    if v.suspended {
        push_span(&mut d, " (suspended)", Style::Yellow);
    }
    push_span(&mut d, "\n", Style::Plain);
    if !v.city_running && v.controller_running {
        push_span(&mut d, "  ", Style::Plain);
        push_piece(&mut d, glyph(Health::Stale));
        push_span(&mut d, " city reports not running despite controller being up\n", Style::Plain);
    }
    let a1 = crate::text::concat("  agents: ", crate::text::usize_to_string(v.running_agents).as_str());
    let a2 = crate::text::concat(a1.as_str(), "/");
    let a3 = crate::text::concat(a2.as_str(), crate::text::usize_to_string(v.total_agents).as_str());
    let a4 = crate::text::concat(a3.as_str(), " running\n");
    push_owned(&mut d, a4, Style::Plain);
    assert(doc_view(d@) =~= head_doc(*v, tick));
    d
}

fn partial_part(v: &CityView) -> (d: Vec<Span>)
    ensures
        doc_view(d@) == partial_doc(*v),
{
    let mut d: Vec<Span> = Vec::new();
    if !v.partial {
        assert(doc_view(d@) =~= partial_doc(*v));
        return d;
    }
    push_span(&mut d, "  ", Style::Plain);
    push_piece(&mut d, glyph(Health::Unknown));
    push_span(&mut d, " partial status — some probes timed out\n", Style::Plain);
    let ghost head = doc_view(d@);
    let ghost f = |e: String| partial_line(e);
    let mut i: usize = 0;
    while i < v.partial_errors.len()
        invariant
            i <= v.partial_errors@.len(),
            f == (|e: String| partial_line(e)),
            doc_view(d@) == head + concat_all(v.partial_errors@.take(i as int).map_values(f)),
        decreases v.partial_errors@.len() - i,
    {
        let mut line: Vec<Span> = Vec::new();
        push_span(&mut line, "    ", Style::Plain);
        push_span(&mut line, v.partial_errors[i].as_str(), Style::Dimmed);
        push_span(&mut line, "\n", Style::Plain);
        assert(doc_view(line@) =~= f(v.partial_errors@[i as int]));
        append_doc(&mut d, line);
        proof {
            let es = v.partial_errors@;
            assert(es.take(i + 1).map_values(f) =~= es.take(i as int).map_values(f).push(f(es[i as int])));
            lemma_concat_all_push(es.take(i as int).map_values(f), f(es[i as int]));
        }
        i += 1;
    }
    assert(v.partial_errors@.take(v.partial_errors@.len() as int) =~= v.partial_errors@);
    assert(doc_view(d@) =~= partial_doc(*v));
    d
}

fn signals_part(v: &CityView) -> (d: Vec<Span>)
    ensures
        doc_view(d@) == signals_doc(*v),
{
    let mut d: Vec<Span> = Vec::new();
    if !v.degraded {
        assert(doc_view(d@) =~= signals_doc(*v));
        return d;
    }
    let ghost f = |s: String| signal_line(s);
    let mut i: usize = 0;
    while i < v.signals.len()
        invariant
            i <= v.signals@.len(),
            f == (|s: String| signal_line(s)),
            doc_view(d@) == concat_all(v.signals@.take(i as int).map_values(f)),
        decreases v.signals@.len() - i,
    {
        let mut line: Vec<Span> = Vec::new();
        push_span(&mut line, "  ", Style::Plain);
        push_piece(&mut line, glyph(Health::Dead));
        let t = crate::text::concat(crate::text::concat(" ", v.signals[i].as_str()).as_str(), "\n");
        push_owned(&mut line, t, Style::Plain);
        assert(doc_view(line@) =~= f(v.signals@[i as int]));
        append_doc(&mut d, line);
        proof {
            let ss = v.signals@;
            assert(ss.take(i + 1).map_values(f) =~= ss.take(i as int).map_values(f).push(f(ss[i as int])));
            lemma_concat_all_push(ss.take(i as int).map_values(f), f(ss[i as int]));
        }
        i += 1;
    }
    assert(v.signals@.take(v.signals@.len() as int) =~= v.signals@);
    d
}

fn count_string(c: Option<i64>) -> (r: String)
    ensures
        r@ == count_text(c),
{
    match c {
        Some(n) => crate::text::i64_to_string(n),
        None => crate::text::owned("-"),
    }
}

/// Lays out one rig's row of the table.
pub fn rig_row_doc(r: &RigView, tick: Option<u64>) -> (d: Vec<Span>)
    ensures
        doc_view(d@) == rig_row(*r, tick),
{
    let (text, style) = if r.suspended {
        ("suspended", Style::Dimmed)
    } else if r.running {
        ("active", Style::Green)
    } else {
        ("inactive", Style::Yellow)
    };
    let (ready, wip, blocked) = match &r.bead_summary {
        Some(s) => (Some(s.ready), Some(s.in_progress), Some(s.blocked)),
        None => (None, None, None),
    };
    let mut d: Vec<Span> = Vec::new();
    push_span(&mut d, "  ", Style::Plain);
    push_piece(&mut d, glyph_live(r.health, tick));
    let n1 = crate::text::concat(" ", crate::text::pad(r.name.as_str(), 18).as_str());
    push_owned(&mut d, crate::text::concat(n1.as_str(), " "), Style::Plain);
    push_owned(&mut d, crate::text::pad(text, 9), style);
    let c1 = crate::text::concat(" ", crate::text::pad(count_string(ready).as_str(), 6).as_str());
    let c2 = crate::text::concat(c1.as_str(), " ");
    let c3 = crate::text::concat(c2.as_str(), crate::text::pad(count_string(wip).as_str(), 4).as_str());
    let c4 = crate::text::concat(c3.as_str(), " ");
    let c5 = crate::text::concat(c4.as_str(), crate::text::pad(count_string(blocked).as_str(), 6).as_str());
    push_owned(&mut d, crate::text::concat(c5.as_str(), " "), Style::Plain);
    push_piece(&mut d, label(r.health));
    push_span(&mut d, "\n", Style::Plain);
    assert(doc_view(d@) =~= rig_row(*r, tick));
    d
}

/// Lays out the `status` view.
pub fn doc(v: &CityView, tick: Option<u64>) -> (d: Vec<Span>)
    ensures
        doc_view(d@) == status_doc(*v, tick),
{
    let mut d = head_part(v, tick);
    append_doc(&mut d, partial_part(v));
    append_doc(&mut d, signals_part(v));
    push_span(&mut d, "\n     RIG                STATE     READY  WIP  BLOCKED HEALTH\n", Style::Plain);
    let ghost head = doc_view(d@);
    assert(head =~= head_doc(*v, tick) + partial_doc(*v) + signals_doc(*v) + plain(
        "\n"@ + table_header() + "\n"@,
    )) by {
        reveal_strlit("\n     RIG                STATE     READY  WIP  BLOCKED HEALTH\n");
        reveal_strlit("     RIG                STATE     READY  WIP  BLOCKED HEALTH");
        reveal_strlit("\n");
        assert("\n"@ + table_header() + "\n"@ =~= "\n     RIG                STATE     READY  WIP  BLOCKED HEALTH\n"@);
    }
    let ghost f = |r: RigView| rig_row(r, tick);
    let mut i: usize = 0;
    while i < v.rigs.len()
        invariant
            i <= v.rigs@.len(),
            f == (|r: RigView| rig_row(r, tick)),
            doc_view(d@) == head + concat_all(v.rigs@.take(i as int).map_values(f)),
        decreases v.rigs@.len() - i,
    {
        append_doc(&mut d, rig_row_doc(&v.rigs[i], tick));
        proof {
            let rs = v.rigs@;
            assert(rs.take(i + 1).map_values(f) =~= rs.take(i as int).map_values(f).push(f(rs[i as int])));
            lemma_concat_all_push(rs.take(i as int).map_values(f), f(rs[i as int]));
        }
        i += 1;
    }
    assert(v.rigs@.take(v.rigs@.len() as int) =~= v.rigs@);
    d
}

/// Renders the `status` view: the laid-out view, printed.
pub fn render(v: &CityView, tick: Option<u64>) -> (r: String)
    ensures
        is_painting(r@, status_doc(*v, tick)),
{
    render_doc(&doc(v, tick))
}

} // verus!
