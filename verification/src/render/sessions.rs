//! The `sessions` view: sessions the controller still calls active whose
//! activity heartbeat says otherwise, each with the commands that would
//! clear it.
use super::color::{humanize_age, humanize_age_spec};
use super::{
    append_doc, concat_all, doc_view, is_painting, lemma_concat_all_push, one, plain, push_owned,
    push_span, render_doc, Span, Style,
};
use crate::model::{SessionsReport, ZombieSession};
use crate::text::nat_decimal;
use vstd::prelude::*;

verus! {

/// One suggested command's line.
pub open spec fn command_line(cmd: String) -> Seq<(Seq<char>, Style)> {
    plain("    "@) + one("->"@, Style::Dimmed) + plain(" "@) + one(cmd@, Style::Dimmed) + plain(
        "\n"@,
    )
}

/// One zombie: its id, name, rig ("-" when unknown) and when it was last
/// seen, then the commands that would clear it.
pub open spec fn zombie_doc(z: ZombieSession) -> Seq<(Seq<char>, Style)> {
    let rig = match z.rig {
        Some(r) => r@,
        None => "-"@,
    };
    one("✕"@, Style::RedBold) + plain(" "@) + one(z.id@, Style::Dimmed) + plain(" "@) + one(
        z.name@,
        Style::Bold,
    ) + plain(" rig:"@ + rig + " last seen "@ + humanize_age_spec(z.last_active_secs) + "\n"@)
        + concat_all(z.suggested_commands@.map_values(|c: String| command_line(c)))
}

/// The whole report: all clear, or every zombie and the count.
pub open spec fn sessions_doc(r: SessionsReport) -> Seq<(Seq<char>, Style)> {
    if r.zombies@.len() == 0 {
        one("✓"@, Style::GreenBold) + plain(
            " all clear -- no zombie sessions among "@ + nat_decimal(r.total_sessions as nat)
                + " total\n"@,
        )
    } else {
        concat_all(r.zombies@.map_values(|z: ZombieSession| zombie_doc(z))) + plain("\n"@) + one(
            nat_decimal(r.zombies@.len()) + " zombie session(s) found out of "@ + nat_decimal(
                r.total_sessions as nat,
            ) + " total"@,
            Style::RedBold,
        ) + plain("\n"@)
    }
}

/// Lays out one zombie session.
pub fn zombie_part(z: &ZombieSession) -> (d: Vec<Span>)
    ensures
        doc_view(d@) == zombie_doc(*z),
{
    let rig = match &z.rig {
        Some(r) => r.clone(),
        None => crate::text::owned("-"),
    };
    let ghost rv = match &z.rig {
        Some(r) => r@,
        None => "-"@,
    };
    assert(rig@ == rv);
    let mut d: Vec<Span> = Vec::new();
    push_span(&mut d, "✕", Style::RedBold);
    push_span(&mut d, " ", Style::Plain);
    push_span(&mut d, z.id.as_str(), Style::Dimmed);
    push_span(&mut d, " ", Style::Plain);
    push_span(&mut d, z.name.as_str(), Style::Bold);
    let t1 = crate::text::concat(" rig:", rig.as_str());
    let t2 = crate::text::concat(t1.as_str(), " last seen ");
    let t3 = crate::text::concat(t2.as_str(), humanize_age(z.last_active_secs).as_str());
    push_owned(&mut d, crate::text::concat(t3.as_str(), "\n"), Style::Plain);
    let ghost head = doc_view(d@);
    let ghost f = |c: String| command_line(c);
    let mut i: usize = 0;
    while i < z.suggested_commands.len()
        invariant
            i <= z.suggested_commands@.len(),
            f == (|c: String| command_line(c)),
            doc_view(d@) == head + concat_all(z.suggested_commands@.take(i as int).map_values(f)),
        decreases z.suggested_commands@.len() - i,
    {
        let mut line: Vec<Span> = Vec::new();
        push_span(&mut line, "    ", Style::Plain);
        push_span(&mut line, "->", Style::Dimmed);
        push_span(&mut line, " ", Style::Plain);
        push_span(&mut line, z.suggested_commands[i].as_str(), Style::Dimmed);
        push_span(&mut line, "\n", Style::Plain);
        assert(doc_view(line@) =~= f(z.suggested_commands@[i as int]));
        append_doc(&mut d, line);
        proof {
            let cs = z.suggested_commands@;
            assert(cs.take(i + 1).map_values(f) =~= cs.take(i as int).map_values(f).push(f(cs[i as int])));
            lemma_concat_all_push(cs.take(i as int).map_values(f), f(cs[i as int]));
        }
        i += 1;
    }
    assert(z.suggested_commands@.take(z.suggested_commands@.len() as int) =~= z.suggested_commands@);
    assert(doc_view(d@) =~= zombie_doc(*z));
    d
}

/// Lays out the `sessions` report.
pub fn doc(r: &SessionsReport) -> (d: Vec<Span>)
    ensures
        doc_view(d@) == sessions_doc(*r),
{
    let mut d: Vec<Span> = Vec::new();
    if r.zombies.len() == 0 {
        push_span(&mut d, "✓", Style::GreenBold);
        let t1 = crate::text::concat(
            " all clear -- no zombie sessions among ",
            crate::text::usize_to_string(r.total_sessions).as_str(),
        );
        push_owned(&mut d, crate::text::concat(t1.as_str(), " total\n"), Style::Plain);
        assert(doc_view(d@) =~= sessions_doc(*r));
        return d;
    }
    let ghost f = |z: ZombieSession| zombie_doc(z);
    let mut i: usize = 0;
    while i < r.zombies.len()
        invariant
            i <= r.zombies@.len(),
            f == (|z: ZombieSession| zombie_doc(z)),
            doc_view(d@) == concat_all(r.zombies@.take(i as int).map_values(f)),
        decreases r.zombies@.len() - i,
    {
        append_doc(&mut d, zombie_part(&r.zombies[i]));
        proof {
            let zs = r.zombies@;
            assert(zs.take(i + 1).map_values(f) =~= zs.take(i as int).map_values(f).push(f(zs[i as int])));
            lemma_concat_all_push(zs.take(i as int).map_values(f), f(zs[i as int]));
        }
        i += 1;
    }
    assert(r.zombies@.take(r.zombies@.len() as int) =~= r.zombies@);
    push_span(&mut d, "\n", Style::Plain);
    let c1 = crate::text::concat(
        crate::text::usize_to_string(r.zombies.len()).as_str(),
        " zombie session(s) found out of ",
    );
    let c2 = crate::text::concat(c1.as_str(), crate::text::usize_to_string(r.total_sessions).as_str());
    push_owned(&mut d, crate::text::concat(c2.as_str(), " total"), Style::RedBold);
    push_span(&mut d, "\n", Style::Plain);
    assert(doc_view(d@) =~= sessions_doc(*r));
    d
}

/// Renders the `sessions` report: the laid-out report, printed.
pub fn render(r: &SessionsReport) -> (out: String)
    ensures
        is_painting(out@, sessions_doc(*r)),
{
    render_doc(&doc(r))
}

} // verus!
