//! The `agents` view: each agent of a rig, its state, and the bead it is
//! working on.
use super::color::{glyph_live, glyph_live_spec, humanize_age, humanize_age_spec, label, label_spec};
use super::{
    append_doc, concat_all, doc_view, is_painting, lemma_concat_all_push, one, plain, push_owned,
    push_piece, push_span, render_doc, Span, Style,
};
use crate::model::{AgentView, Health};
use crate::text::{ellipsize, pad_right};
use vstd::prelude::*;

verus! {

/// The column header under the title line.
pub open spec fn header() -> Seq<char> {
    "            AGENT                        STATE       BEAD           AGE       WORKING ON"@
}

/// The state column: draining, else suspended, else the raw status (or
/// running/stopped) colored by whether the agent runs.
pub open spec fn agent_state(a: AgentView) -> (Seq<char>, Style) {
    if a.draining {
        ("draining"@, Style::Yellow)
    } else if a.suspended {
        ("suspended"@, Style::Dimmed)
    } else {
        match a.raw_status {
            Some(s) => if a.running {
                (s@, Style::Green)
            } else {
                (s@, Style::Red)
            },
            None => if a.running {
                ("running"@, Style::Green)
            } else {
                ("stopped"@, Style::Red)
            },
        }
    }
}

/// One agent's row: glyph, name, state, bead id, bead age and title
/// (titles past 50 characters cut to 47 plus "..."), then its latest
/// activity line when there is one.
pub open spec fn agent_row(a: AgentView, tick: Option<u64>) -> Seq<(Seq<char>, Style)> {
    let bead_id = match a.current_bead {
        Some(b) => b.id@,
        None => "-"@,
    };
    let age = match a.current_bead {
        Some(b) => humanize_age_spec(b.age_secs),
        None => "—"@,
    };
    let title = match a.current_bead {
        Some(b) => b.title@,
        None => Seq::empty(),
    };
    let st = agent_state(a);
    plain("  "@) + seq![glyph_live_spec(a.health, tick)] + plain(
        " "@ + pad_right(a.qualified_name@, 28) + " "@,
    ) + seq![(pad_right(st.0, 11), st.1)] + plain(
        " "@ + pad_right(bead_id, 14) + " "@ + pad_right(age, 9) + " "@ + ellipsize(
            title,
            50,
            47,
            "..."@,
        ) + "\n"@,
    ) + match a.activity_line {
        Some(l) => plain("      └ "@) + one(l@, Style::Dimmed) + plain("\n"@),
        None => Seq::empty(),
    }
}

/// A suspended agent that isn't draining reads "suspended" (dimmed) in the
/// state column, whether or not it still runs and whatever its raw status
/// says; a draining agent reads "draining".
pub proof fn law_suspended_agents_read_suspended(a: AgentView, tick: Option<u64>)
    ensures
        a.draining ==> agent_state(a) == ("draining"@, Style::Yellow),
        a.suspended && !a.draining ==> agent_state(a) == ("suspended"@, Style::Dimmed),
        a.suspended && !a.draining ==> agent_row(a, tick)[3] == (pad_right("suspended"@, 11), Style::Dimmed),
{
}

/// One legend entry: glyph and name of a health signal.
pub open spec fn legend_entry(h: Health) -> Seq<(Seq<char>, Style)> {
    plain("  "@) + seq![glyph_live_spec(h, None)] + plain(" "@) + seq![label_spec(h)]
}

/// The whole view: title (with a suspended tag), header, one row per agent,
/// and the legend of the five non-terminal signals.
pub open spec fn agents_doc(
    rig_name: Seq<char>,
    agents: Seq<AgentView>,
    suspended: bool,
    tick: Option<u64>,
) -> Seq<(Seq<char>, Style)> {
    one(rig_name, Style::Bold) + (if suspended {
        one(" (suspended)"@, Style::Dimmed)
    } else {
        Seq::empty()
    }) + plain(" agents\n"@ + header() + "\n"@) + concat_all(
        agents.map_values(|a: AgentView| agent_row(a, tick)),
    ) + plain("\n  legend:"@) + legend_entry(Health::Healthy) + legend_entry(Health::Idle)
        + legend_entry(Health::Stale) + legend_entry(Health::Dead) + legend_entry(
        Health::Suspended,
    ) + plain("\n"@)
}

fn state_span(a: &AgentView) -> (r: Span)
    ensures
        super::span_view(r) == (pad_right(agent_state(*a).0, 11), agent_state(*a).1),
{
    let (text, style) = if a.draining {
        (crate::text::owned("draining"), Style::Yellow)
    } else if a.suspended {
        (crate::text::owned("suspended"), Style::Dimmed)
    } else {
        match &a.raw_status {
            Some(s) => if a.running {
                (s.clone(), Style::Green)
            } else {
                (s.clone(), Style::Red)
            },
            None => if a.running {
                (crate::text::owned("running"), Style::Green)
            } else {
                (crate::text::owned("stopped"), Style::Red)
            },
        }
    };
    Span { text: crate::text::pad(text.as_str(), 11), style }
}

/// Lays out one agent's row.
pub fn agent_row_doc(a: &AgentView, tick: Option<u64>) -> (d: Vec<Span>)
    ensures
        doc_view(d@) == agent_row(*a, tick),
{
    let (bead_id, age, title) = match &a.current_bead {
        Some(b) => (b.id.clone(), humanize_age(b.age_secs), b.title.clone()),
        None => (crate::text::owned("-"), crate::text::owned("—"), String::new()),
    };
    let mut d: Vec<Span> = Vec::new();
    push_span(&mut d, "  ", Style::Plain);
    push_piece(&mut d, glyph_live(a.health, tick));
    let name_col = crate::text::concat(
        crate::text::concat(" ", crate::text::pad(a.qualified_name.as_str(), 28).as_str()).as_str(),
        " ",
    );
    push_owned(&mut d, name_col, Style::Plain);
    push_piece(&mut d, state_span(a));
    let t = crate::text::ellipsize_str(title.as_str(), 50, 47, "...");
    let c1 = crate::text::concat(" ", crate::text::pad(bead_id.as_str(), 14).as_str());
    let c2 = crate::text::concat(c1.as_str(), " ");
    let c3 = crate::text::concat(c2.as_str(), crate::text::pad(age.as_str(), 9).as_str());
    let c4 = crate::text::concat(c3.as_str(), " ");
    let c5 = crate::text::concat(c4.as_str(), t.as_str());
    let rest = crate::text::concat(c5.as_str(), "\n");
    push_owned(&mut d, rest, Style::Plain);
    let ghost bid = match &a.current_bead {
        Some(b) => b.id@,
        None => "-"@,
    };
    let ghost agev = match &a.current_bead {
        Some(b) => humanize_age_spec(b.age_secs),
        None => "—"@,
    };
    let ghost tv = match &a.current_bead {
        Some(b) => b.title@,
        None => Seq::empty(),
    };
    assert(bead_id@ == bid);
    assert(age@ == agev);
    assert(title@ == tv);
    let ghost st = agent_state(*a);
    assert(doc_view(d@) =~= plain("  "@) + seq![glyph_live_spec(a.health, tick)] + plain(
        " "@ + pad_right(a.qualified_name@, 28) + " "@,
    ) + seq![(pad_right(st.0, 11), st.1)] + plain(
        " "@ + pad_right(bid, 14) + " "@ + pad_right(agev, 9) + " "@ + ellipsize(
            tv,
            50,
            47,
            "..."@,
        ) + "\n"@,
    ));
    match &a.activity_line {
        Some(l) => {
            push_span(&mut d, "      └ ", Style::Plain);
            push_span(&mut d, l.as_str(), Style::Dimmed);
            push_span(&mut d, "\n", Style::Plain);
        },
        None => {},
    }
    assert(doc_view(d@) =~= agent_row(*a, tick));
    d
}

fn legend_doc(h: Health) -> (d: Vec<Span>)
    ensures
        doc_view(d@) == legend_entry(h),
{
    let mut d: Vec<Span> = Vec::new();
    push_span(&mut d, "  ", Style::Plain);
    push_piece(&mut d, glyph_live(h, None));
    push_span(&mut d, " ", Style::Plain);
    push_piece(&mut d, label(h));
    assert(doc_view(d@) =~= legend_entry(h));
    d
}

/// Lays out the `agents` view.
pub fn doc(rig_name: &str, agents: &[AgentView], suspended: bool, tick: Option<u64>) -> (d: Vec<
    Span,
>)
    ensures
        doc_view(d@) == agents_doc(rig_name@, agents@, suspended, tick),
{
    let mut d: Vec<Span> = Vec::new();
    push_span(&mut d, rig_name, Style::Bold);
    if suspended {
        push_span(&mut d, " (suspended)", Style::Dimmed);
    }
    push_span(
        &mut d,
        " agents\n            AGENT                        STATE       BEAD           AGE       WORKING ON\n",
        Style::Plain,
    );
    let ghost head = doc_view(d@);
    assert(head =~= one(rig_name@, Style::Bold) + (if suspended {
        one(" (suspended)"@, Style::Dimmed)
    } else {
        Seq::empty()
    }) + plain(" agents\n"@ + header() + "\n"@)) by {
        reveal_strlit(" agents\n            AGENT                        STATE       BEAD           AGE       WORKING ON\n");
        reveal_strlit(" agents\n");
        reveal_strlit("            AGENT                        STATE       BEAD           AGE       WORKING ON");
        reveal_strlit("\n");
        assert(" agents\n"@ + header() + "\n"@ =~= " agents\n            AGENT                        STATE       BEAD           AGE       WORKING ON\n"@);
    }
    let mut i: usize = 0;
    while i < agents.len()
        invariant
            i <= agents@.len(),
            doc_view(d@) == head + concat_all(
                agents@.take(i as int).map_values(|a: AgentView| agent_row(a, tick)),
            ),
        decreases agents@.len() - i,
    {
        let row = agent_row_doc(&agents[i], tick);
        append_doc(&mut d, row);
        proof {
            let f = |a: AgentView| agent_row(a, tick);
            assert(agents@.take(i + 1).map_values(f) =~= agents@.take(i as int).map_values(f).push(
                f(agents@[i as int]),
            ));
            lemma_concat_all_push(agents@.take(i as int).map_values(f), f(agents@[i as int]));
        }
        i += 1;
    }
    assert(agents@.take(agents@.len() as int) =~= agents@);
    push_span(&mut d, "\n  legend:", Style::Plain);
    append_doc(&mut d, legend_doc(Health::Healthy));
    append_doc(&mut d, legend_doc(Health::Idle));
    append_doc(&mut d, legend_doc(Health::Stale));
    append_doc(&mut d, legend_doc(Health::Dead));
    append_doc(&mut d, legend_doc(Health::Suspended));
    push_span(&mut d, "\n", Style::Plain);
    assert(doc_view(d@) =~= agents_doc(rig_name@, agents@, suspended, tick));
    d
}

/// Renders the `agents` view: the laid-out view, printed.
pub fn render(rig_name: &str, agents: &[AgentView], suspended: bool, tick: Option<u64>) -> (r:
    String)
    ensures
        is_painting(r@, agents_doc(rig_name@, agents@, suspended, tick)),
{
    render_doc(&doc(rig_name, agents, suspended, tick))
}

} // verus!
