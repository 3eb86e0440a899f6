//! The live `watch` view. Each refresh draws the city status and, for a
//! chosen rig, its queue and its agents with the latest activity line
//! peeked from each agent's session. Peeking costs a call per session, so
//! it happens only every few refreshes; the lines seen are cached between
//! refreshes, and the cache is pruned to the rig's current sessions.
use super::agents::agents_doc;
use super::queue::{queue_doc, stale_first_order};
use super::status::status_doc;
use super::{append_doc, doc_view, is_painting, one, plain, push_owned, push_span, render_doc, Span, Style};
use crate::assemble::{
    self, agents_from, city_fetched, queue_from_beads, queue_of, signals_from, ActivityLines,
    SessionSignal,
};
use crate::health::{Thresholds, UnixTime};
use crate::model::{AgentView, CityView, QueueView};
use crate::sources::adapters::{arg_view, Adapters, BdAdapter, GcAdapter, GitAdapter};
use crate::sources::resolve_outcome;
use crate::sources::bd::{opt_str, BeadRaw};
use crate::sources::gc;
use crate::text::{split_lines, trim};
use vstd::prelude::*;

verus! {

/// Seconds to wait between refreshes: the interval asked for, but at least
/// one, so a zero interval doesn't spin.
pub fn pause_secs(interval_secs: u64) -> (r: u64)
    ensures
        r == (if interval_secs == 0 {
            1
        } else {
            interval_secs
        }),
{
    if interval_secs == 0 {
        1
    } else {
        interval_secs
    }
}

/// The next refresh's count, wrapping to zero after the largest.
pub fn next_tick(tick: u64) -> (r: u64)
    ensures
        r == (if tick == u64::MAX {
            0
        } else {
            tick + 1
        }),
{
    if tick == u64::MAX {
        0
    } else {
        tick + 1
    }
}

/// How many refreshes apart the peek sweeps are.
pub const PEEK_EVERY_N_TICKS: u64 = 5;

/// Lines of pane tail asked for per peek: enough to usually hold one line
/// that isn't footer chrome.
pub const PEEK_LINES: usize = 6;

/// How many in-progress beads the queue section lists.
pub const QUEUE_LIMIT: usize = 15;

/// The longest activity line shown before it is cut.
pub const LINE_MAX_CHARS: usize = 80;

/// A character of a separator bar.
pub open spec fn is_rule_char(c: char) -> bool {
    c == '─' || c == '-' || c == '=' || c == '━'
}

/// A trimmed pane line that says something: not blank, not a separator
/// bar, not the input prompt and not the permission-mode toggle bar.
pub open spec fn is_meaningful(l: Seq<char>) -> bool {
    &&& l.len() > 0
    &&& !(forall|k: int| 0 <= k < l.len() ==> is_rule_char(#[trigger] l[k]))
    &&& l[0] != '❯'
    &&& l[0] != '⏵'
}

/// The last meaningful line among `lines`, trimmed.
pub open spec fn last_meaningful(lines: Seq<Seq<char>>) -> Option<Seq<char>>
    decreases lines.len(),
{
    if lines.len() == 0 {
        None
    } else if is_meaningful(trim(lines.last())) {
        Some(trim(lines.last()))
    } else {
        last_meaningful(lines.drop_last())
    }
}

/// A line cut to its first 80 characters plus an ellipsis, when longer.
pub open spec fn shorten(l: Seq<char>) -> Seq<char> {
    if l.len() > LINE_MAX_CHARS {
        l.take(LINE_MAX_CHARS as int).push('…')
    } else {
        l
    }
}

/// The activity line of a pane tail: its last meaningful line, shortened.
pub open spec fn activity_line_of(output: Seq<char>) -> Option<Seq<char>> {
    match last_meaningful(split_lines(output)) {
        Some(l) => Some(shorten(l)),
        None => None,
    }
}

fn all_rule_chars(v: &Vec<char>) -> (r: bool)
    ensures
        r == (forall|k: int| 0 <= k < v@.len() ==> is_rule_char(#[trigger] v@[k])),
{
    let mut i: usize = 0;
    while i < v.len()
        invariant
            i <= v@.len(),
            forall|k: int| 0 <= k < i ==> is_rule_char(#[trigger] v@[k]),
        decreases v@.len() - i,
    {
        let c = v[i];
        if !(c == '─' || c == '-' || c == '=' || c == '━') {
            assert(!is_rule_char(v@[i as int]));
            return false;
        }
        i += 1;
    }
    true
}

fn meaningful(v: &Vec<char>) -> (r: bool)
    ensures
        r == is_meaningful(v@),
{
    v.len() > 0 && !all_rule_chars(v) && v[0] != '❯' && v[0] != '⏵'
}

fn shortened(v: &Vec<char>) -> (r: String)
    ensures
        r@ == shorten(v@),
{
    if v.len() > LINE_MAX_CHARS {
        let mut out: Vec<char> = Vec::new();
        let mut i: usize = 0;
        while i < LINE_MAX_CHARS
            invariant
                LINE_MAX_CHARS < v@.len(),
                i <= LINE_MAX_CHARS,
                out@ == v@.take(i as int),
            decreases LINE_MAX_CHARS - i,
        {
            out.push(v[i]);
            assert(v@.take(i + 1) =~= v@.take(i as int).push(v@[i as int]));
            i += 1;
        }
        out.push('…');
        crate::text::from_chars(&out)
    } else {
        crate::text::from_chars(v)
    }
}

/// The last non-blank, non-chrome line of a `session peek` pane tail, cut
/// to 80 characters (plus an ellipsis) when longer. It says nothing about
/// what the line holds -- any agent's pane reads differently, and the line
/// changing between refreshes is itself the sign of life; it only skips the
/// footer chrome (separator bars, the input prompt, the permission-mode
/// toggle bar) that looks the same whether the agent works or hangs.
pub fn last_meaningful_line(output: &str) -> (r: Option<String>)
    ensures
        opt_str(r) == activity_line_of(output@),
{
    let lines = crate::text::split_lines_str(output);
    let ghost ls = lines@.map_values(|l: String| l@);
    let mut i: usize = lines.len();
    assert(ls.take(i as int) =~= ls);
    while i > 0
        invariant
            i <= lines@.len(),
            ls == lines@.map_values(|l: String| l@),
            ls == split_lines(output@),
            last_meaningful(ls) == last_meaningful(ls.take(i as int)),
        decreases i,
    {
        let t = crate::text::trim_chars(&crate::text::to_chars(lines[i - 1].as_str()));
        let ghost pre = ls.take(i as int);
        assert(pre.last() == ls[i - 1]);
        assert(pre.drop_last() =~= ls.take(i - 1));
        if meaningful(&t) {
            return Some(shortened(&t));
        }
        i -= 1;
    }
    None
}

/// The session ids of a rig's agents: the sessions whose cached lines are
/// worth keeping.
pub open spec fn has_session(agents: Seq<gc::RigAgentRaw>, id: Seq<char>) -> bool {
    exists|j: int| 0 <= j < agents.len() && opt_str((#[trigger] agents[j]).session_id) == Some(id)
}

/// The ids in a list of strings, as a set.
pub open spec fn id_set(ids: Seq<String>) -> Set<Seq<char>> {
    Set::new(|k: Seq<char>| exists|i: int| 0 <= i < ids.len() && (#[trigger] ids[i])@ == k)
}

/// The session ids of the rig's agents, those that have one.
pub fn live_session_ids(agents: &Vec<gc::RigAgentRaw>) -> (r: Vec<String>)
    ensures
        forall|k: Seq<char>| #[trigger] id_set(r@).contains(k) <==> has_session(agents@, k),
{
    let mut out: Vec<String> = Vec::new();
    let mut i: usize = 0;
    while i < agents.len()
        invariant
            i <= agents@.len(),
            forall|k: Seq<char>| #[trigger] id_set(out@).contains(k) <==> has_session(agents@.take(i as int), k),
        decreases agents@.len() - i,
    {
        let ghost before = out@;
        let ghost t = agents@.take(i + 1);
        assert(t.drop_last() =~= agents@.take(i as int));
        assert(forall|j: int| 0 <= j < i ==> #[trigger] t[j] == agents@.take(i as int)[j]);
        assert(t[i as int] == agents@[i as int]);
        match &agents[i].session_id {
            Some(s) => {
                out.push(s.clone());
                assert forall|k: Seq<char>| #[trigger] id_set(out@).contains(k) <==> has_session(t, k) by {
                    if id_set(out@).contains(k) {
                        let m = choose|m: int| 0 <= m < out@.len() && (#[trigger] out@[m])@ == k;
                        if m < before.len() {
                            assert(out@[m] == before[m]);
                            assert(id_set(before).contains(k));
                            let j = choose|j: int| 0 <= j < i && opt_str((#[trigger] agents@.take(i as int)[j]).session_id) == Some(k);
                            assert(opt_str(t[j].session_id) == Some(k));
                        } else {
                            assert(opt_str(t[i as int].session_id) == Some(k));
                        }
                    }
                    if has_session(t, k) {
                        let j = choose|j: int| 0 <= j < t.len() && opt_str((#[trigger] t[j]).session_id) == Some(k);
                        if j < i {
                            assert(opt_str(agents@.take(i as int)[j].session_id) == Some(k));
                            assert(has_session(agents@.take(i as int), k));
                            assert(id_set(before).contains(k));
                            let m = choose|m: int| 0 <= m < before.len() && (#[trigger] before[m])@ == k;
                            assert(out@[m] == before[m]);
                        } else {
                            assert(out@[out@.len() - 1]@ == k);
                        }
                    }
                }
            },
            None => {
                assert forall|k: Seq<char>| #[trigger] id_set(out@).contains(k) <==> has_session(t, k) by {
                    if has_session(t, k) {
                        let j = choose|j: int| 0 <= j < t.len() && opt_str((#[trigger] t[j]).session_id) == Some(k);
                        assert(j < i);
                        assert(opt_str(agents@.take(i as int)[j].session_id) == Some(k));
                        assert(has_session(agents@.take(i as int), k));
                    }
                    if id_set(out@).contains(k) {
                        assert(has_session(agents@.take(i as int), k));
                        let j = choose|j: int| 0 <= j < i && opt_str((#[trigger] agents@.take(i as int)[j]).session_id) == Some(k);
                        assert(opt_str(t[j].session_id) == Some(k));
                    }
                }
            },
        }
        i += 1;
    }
    assert(agents@.take(agents@.len() as int) =~= agents@);
    out
}

/// Does the session list call `id` active?
pub open spec fn session_active(sessions: Seq<gc::SessionRaw>, id: Seq<char>) -> bool {
    exists|j: int| 0 <= j < sessions.len() && (#[trigger] sessions[j]).id@ == id && sessions[j].state@ == "active"@
}

/// The session an agent's pane is peeked through: a running agent's
/// session, when the session list itself calls it active (a session the rig
/// status still calls running can already be asleep, and peeking it fails).
pub open spec fn peek_target(a: gc::RigAgentRaw, sessions: Seq<gc::SessionRaw>) -> Option<Seq<char>> {
    if a.running {
        match a.session_id {
            Some(id) => if session_active(sessions, id@) {
                Some(id@)
            } else {
                None
            },
            None => None,
        }
    } else {
        None
    }
}

/// The sessions to peek, in agent order.
pub open spec fn peek_targets_spec(agents: Seq<gc::RigAgentRaw>, sessions: Seq<gc::SessionRaw>) -> Seq<Seq<char>>
    decreases agents.len(),
{
    if agents.len() == 0 {
        Seq::empty()
    } else {
        peek_targets_spec(agents.drop_last(), sessions) + match peek_target(agents.last(), sessions) {
            Some(id) => seq![id],
            None => Seq::empty(),
        }
    }
}

fn is_active(sessions: &Vec<gc::SessionRaw>, id: &str) -> (r: bool)
    ensures
        r == session_active(sessions@, id@),
{
    let mut j: usize = 0;
    while j < sessions.len()
        invariant
            j <= sessions@.len(),
            forall|k: int| 0 <= k < j ==> !((#[trigger] sessions@[k]).id@ == id@ && sessions@[k].state@ == "active"@),
        decreases sessions@.len() - j,
    {
        if crate::text::str_eq(sessions[j].id.as_str(), id) && crate::text::str_eq(sessions[j].state.as_str(), "active") {
            return true;
        }
        j += 1;
    }
    false
}

/// The sessions a peek sweep peeks.
pub fn peek_targets(agents: &Vec<gc::RigAgentRaw>, sessions: &Vec<gc::SessionRaw>) -> (r: Vec<String>)
    ensures
        r@.map_values(|s: String| s@) == peek_targets_spec(agents@, sessions@),
{
    let mut out: Vec<String> = Vec::new();
    let mut i: usize = 0;
    while i < agents.len()
        invariant
            i <= agents@.len(),
            out@.map_values(|s: String| s@) == peek_targets_spec(agents@.take(i as int), sessions@),
        decreases agents@.len() - i,
    {
        let a = &agents[i];
        let ghost before = out@.map_values(|s: String| s@);
        assert(agents@.take(i + 1).drop_last() =~= agents@.take(i as int));
        assert(agents@.take(i + 1).last() == agents@[i as int]);
        if a.running {
            match &a.session_id {
                Some(id) => {
                    if is_active(sessions, id.as_str()) {
                        out.push(id.clone());
                        assert(out@.map_values(|s: String| s@) =~= before.push(id@));
                    }
                },
                None => {},
            }
        }
        assert(out@.map_values(|s: String| s@) =~= peek_targets_spec(agents@.take(i + 1), sessions@));
        i += 1;
    }
    assert(agents@.take(agents@.len() as int) =~= agents@);
    out
}

/// What one peek answer does to the cache: a meaningful line replaces the
/// session's cached one; a failed peek, or a pane with nothing meaningful,
/// leaves the cache as it was (a slightly old line is better than a flash
/// of nothing on a passing race).
pub open spec fn after_peek(
    cache: Map<Seq<char>, Seq<char>>,
    id: Seq<char>,
    answer: Result<gc::PeekResult, String>,
) -> Map<Seq<char>, Seq<char>> {
    match answer {
        Ok(p) => match activity_line_of(p.output@) {
            Some(l) => cache.insert(id, l),
            None => cache,
        },
        Err(_) => cache,
    }
}

/// Applies one peek answer to the cache.
pub fn apply_peek(cache: &mut ActivityLines, id: &str, answer: Result<gc::PeekResult, String>)
    ensures
        final(cache)@ == after_peek(old(cache)@, id@, answer),
{
    match answer {
        Ok(p) => match last_meaningful_line(p.output.as_str()) {
            Some(line) => cache.insert(crate::text::owned(id), line),
            None => {},
        },
        Err(_) => {},
    }
}

/// The rig part of a frame, for a listing order of its in-progress beads:
/// the queue, a blank line, and the agents.
pub open spec fn rig_frame_doc(
    qv: QueueView,
    order: Seq<int>,
    rig_name: Seq<char>,
    views: Seq<AgentView>,
    suspended: bool,
    tick: u64,
) -> Seq<(Seq<char>, Style)> {
    queue_doc(qv, order, Some(tick), QUEUE_LIMIT as nat) + plain("\n"@) + agents_doc(
        rig_name,
        views,
        suspended,
        Some(tick),
    )
}

/// `out` prints the rig part of a frame.
pub open spec fn is_rig_frame(
    out: Seq<char>,
    qv: QueueView,
    rig_name: Seq<char>,
    views: Seq<AgentView>,
    suspended: bool,
    tick: u64,
) -> bool {
    exists|order: Seq<int>|
        stale_first_order(qv.in_progress@, order) && is_painting(
            out,
            rig_frame_doc(qv, order, rig_name, views, suspended, tick),
        )
}

/// Prints the rig part of a frame from its assembled views.
pub fn rig_frame(qv: &QueueView, rig_name: &str, views: &[AgentView], suspended: bool, tick: u64) -> (r:
    String)
    ensures
        is_rig_frame(r@, *qv, rig_name@, views@, suspended, tick),
{
    let mut d = super::queue::doc(qv, Some(tick), QUEUE_LIMIT);
    let ghost qd = doc_view(d@);
    push_span(&mut d, "\n", Style::Plain);
    append_doc(&mut d, super::agents::doc(rig_name, views, suspended, Some(tick)));
    let r = render_doc(&d);
    proof {
        let order = choose|order: Seq<int>|
            stale_first_order(qv.in_progress@, order) && qd == queue_doc(*qv, order, Some(tick), QUEUE_LIMIT as nat);
        assert(doc_view(d@) =~= rig_frame_doc(*qv, order, rig_name@, views@, suspended, tick));
    }
    r
}

/// The sessions of the rig's agents, whose cached lines a refresh keeps.
pub open spec fn live_sessions(agents: Seq<gc::RigAgentRaw>) -> Set<Seq<char>> {
    Set::new(|k: Seq<char>| has_session(agents, k))
}

/// The cache after peeking `targets` in order, with `answers` their
/// answers, one by one.
pub open spec fn apply_peeks(
    cache: Map<Seq<char>, Seq<char>>,
    targets: Seq<Seq<char>>,
    answers: Seq<Result<gc::PeekResult, String>>,
) -> Map<Seq<char>, Seq<char>>
    decreases targets.len(),
{
    if targets.len() == 0 || answers.len() != targets.len() {
        cache
    } else {
        after_peek(
            apply_peeks(cache, targets.drop_last(), answers.drop_last()),
            targets.last(),
            answers.last(),
        )
    }
}

/// `answers` hold, per target, an answer `gc` may give to a peek at the
/// last `PEEK_LINES` lines of that session in `city`.
pub open spec fn peeks_answered<G: GcAdapter>(
    gc: G,
    city: Option<Seq<char>>,
    targets: Seq<Seq<char>>,
    answers: Seq<Result<gc::PeekResult, String>>,
) -> bool {
    &&& answers.len() == targets.len()
    &&& forall|j: int|
        0 <= j < targets.len() ==> gc.session_peek_answer(city, targets[j], PEEK_LINES, #[trigger] answers[j])
}

/// The cache after a refresh, from the rig's agents and the listed
/// sessions: the old one pruned to the agents' sessions, then -- on every
/// fifth refresh -- updated by some answers to the peeks of each running
/// agent's active session, in agent order.
pub open spec fn refreshed_cache<G: GcAdapter>(
    gc: G,
    city: Option<Seq<char>>,
    cache: Map<Seq<char>, Seq<char>>,
    agents: Seq<gc::RigAgentRaw>,
    listed: Seq<gc::SessionRaw>,
    tick: u64,
    refreshed: Map<Seq<char>, Seq<char>>,
) -> bool {
    let pruned = cache.restrict(live_sessions(agents));
    if tick % PEEK_EVERY_N_TICKS == 0 {
        exists|answers: Seq<Result<gc::PeekResult, String>>|
            #[trigger] peeks_answered(gc, city, peek_targets_spec(agents, listed), answers) && refreshed
                == apply_peeks(pruned, peek_targets_spec(agents, listed), answers)
    } else {
        refreshed == pruned
    }
}

/// `out` prints the rig part of a frame for rig `x` from its fetched counts,
/// in-progress beads, rig status and session list: the queue view of the
/// beads, and the views of the rig's agents joined against those same beads
/// and against the listed sessions' signals with the cached lines `lines`.
pub open spec fn rig_frame_of(
    out: Seq<char>,
    x: gc::RigRaw,
    counts: crate::sources::bd::StatusResult,
    beads: Seq<BeadRaw>,
    status: gc::RigStatusResult,
    listed: Seq<gc::SessionRaw>,
    lines: Map<Seq<char>, Seq<char>>,
    now: UnixTime,
    stale_after: i64,
    tick: u64,
) -> bool {
    exists|qv: QueueView, sessions: Seq<SessionSignal>, views: Seq<AgentView>|
        #![trigger queue_of(qv, x, counts, beads, now, stale_after), agents_from(views, status.agents@, beads, sessions, now, stale_after)]
        queue_of(qv, x, counts, beads, now, stale_after) && agents_from(
            views,
            status.agents@,
            beads,
            sessions,
            now,
            stale_after,
        ) && signals_from(sessions, listed, lines, now) && is_rig_frame(
            out,
            qv,
            x.name@,
            views,
            status.rig.suspended,
            tick,
        )
}

/// What a rig's render comes to from the answers to its four fetches: the
/// first error as it came with the cache untouched, else the refreshed
/// cache and the rig part of the frame drawn with it.
pub open spec fn rig_render_answered<G: GcAdapter>(
    gc: G,
    city: Option<Seq<char>>,
    x: gc::RigRaw,
    counts: Result<crate::sources::bd::StatusResult, String>,
    listed: Result<Vec<BeadRaw>, String>,
    status: Result<gc::RigStatusResult, String>,
    sessions: Result<gc::SessionListResult, String>,
    now: UnixTime,
    stale_after: i64,
    tick: u64,
    cache: Map<Seq<char>, Seq<char>>,
    r: Result<String, String>,
    refreshed: Map<Seq<char>, Seq<char>>,
) -> bool {
    match (counts, listed, status, sessions) {
        (Err(e), _, _, _) => r == Err::<String, String>(e) && refreshed == cache,
        (Ok(_), Err(e), _, _) => r == Err::<String, String>(e) && refreshed == cache,
        (Ok(_), Ok(_), Err(e), _) => r == Err::<String, String>(e) && refreshed == cache,
        (Ok(_), Ok(_), Ok(_), Err(e)) => r == Err::<String, String>(e) && refreshed == cache,
        (Ok(c), Ok(beads), Ok(rs), Ok(sl)) => refreshed_cache(
            gc,
            city,
            cache,
            rs.agents@,
            sl.sessions@,
            tick,
            refreshed,
        ) && (r matches Ok(out) && rig_frame_of(
            out@,
            x,
            c,
            beads@,
            rs,
            sl.sessions@,
            refreshed,
            now,
            stale_after,
            tick,
        )),
    }
}

/// A rig's render for some answers the adapters may give to `bd status`
/// and `bd list` of the in-progress beads in the rig's directory, and to
/// `gc rig status` for `rig` and `gc session list` in `city`.
pub open spec fn rig_render_fetched<G: GcAdapter, B: BdAdapter>(
    gc: G,
    bd: B,
    city: Option<Seq<char>>,
    rig: Seq<char>,
    x: gc::RigRaw,
    now: UnixTime,
    stale_after: i64,
    tick: u64,
    cache: Map<Seq<char>, Seq<char>>,
    r: Result<String, String>,
    refreshed: Map<Seq<char>, Seq<char>>,
) -> bool {
    exists|
        counts: Result<crate::sources::bd::StatusResult, String>,
        listed: Result<Vec<BeadRaw>, String>,
        status: Result<gc::RigStatusResult, String>,
        sessions: Result<gc::SessionListResult, String>,
    |
        #![trigger bd.status_answer(x.path@, counts), bd.list_answer(x.path@, "in_progress"@, listed), gc.rig_status_answer(city, rig, status), gc.session_list_answer(city, sessions)]
        bd.status_answer(x.path@, counts) && bd.list_answer(x.path@, "in_progress"@, listed)
            && gc.rig_status_answer(city, rig, status) && gc.session_list_answer(city, sessions)
            && rig_render_answered(
            gc,
            city,
            x,
            counts,
            listed,
            status,
            sessions,
            now,
            stale_after,
            tick,
            cache,
            r,
            refreshed,
        )
}

/// Assembles and prints one rig's queue and agents sections at time `now`,
/// refreshing the activity-line cache on the way: the
/// cache is first pruned to the rig's current sessions, then, on every
/// fifth refresh, each running agent's active session is peeked and the
/// answer applied. Every fetch goes through the adapters; an error from
/// resolving the rig or from any of the four fetches is returned as it
/// came, with the cache untouched. The full bead graph is left out on
/// purpose: a live loop is about whether the workers are alive and what
/// they are doing now.
pub fn render_rig<G: GcAdapter, B: BdAdapter, T: GitAdapter>(
    adapters: &Adapters<G, B, T>,
    city: Option<&str>,
    rig: &str,
    now: UnixTime,
    thresholds: &Thresholds,
    tick: u64,
    activity_lines: &mut ActivityLines,
) -> (r: Result<String, String>)
    ensures
        exists|res: Result<gc::RigRaw, String>|
            #[trigger] resolve_outcome(adapters.gc, arg_view(city), rig@, res) && match res {
                Err(e) => r == Err::<String, String>(e) && final(activity_lines)@ == old(activity_lines)@,
                Ok(x) => rig_render_fetched(
                    adapters.gc,
                    adapters.bd,
                    arg_view(city),
                    rig@,
                    x,
                    now,
                    thresholds.stale_after_secs,
                    tick,
                    old(activity_lines)@,
                    r,
                    final(activity_lines)@,
                ),
            },
        r is Err ==> final(activity_lines)@ == old(activity_lines)@,
{
    let ghost cache0 = activity_lines@;
    let resolved = adapters.resolve_rig(city, rig);
    let resolved = match resolved {
        Ok(x) => x,
        Err(e) => return Err(e),
    };
    let bd_status = adapters.bd.status(resolved.path.as_str());
    let in_progress = adapters.bd.list(resolved.path.as_str(), "in_progress");
    let rig_status = adapters.gc.rig_status(city, rig);
    let session_list = adapters.gc.session_list(city);
    let ghost a1 = bd_status;
    let ghost a2 = in_progress;
    let ghost a3 = rig_status;
    let ghost a4 = session_list;
    let ghost x = resolved;
    let ghost cty = arg_view(city);
    let stale = thresholds.stale_after_secs;
    let bd_status = match bd_status {
        Ok(s) => s,
        Err(e) => {
            assert(rig_render_answered(adapters.gc, cty, x, a1, a2, a3, a4, now, stale, tick, cache0, Err(e), cache0));
            return Err(e);
        },
    };
    let in_progress = match in_progress {
        Ok(l) => l,
        Err(e) => {
            assert(rig_render_answered(adapters.gc, cty, x, a1, a2, a3, a4, now, stale, tick, cache0, Err(e), cache0));
            return Err(e);
        },
    };
    let rig_status = match rig_status {
        Ok(s) => s,
        Err(e) => {
            assert(rig_render_answered(adapters.gc, cty, x, a1, a2, a3, a4, now, stale, tick, cache0, Err(e), cache0));
            return Err(e);
        },
    };
    let session_list = match session_list {
        Ok(s) => s,
        Err(e) => {
            assert(rig_render_answered(adapters.gc, cty, x, a1, a2, a3, a4, now, stale, tick, cache0, Err(e), cache0));
            return Err(e);
        },
    };
    let suspended = rig_status.rig.suspended;
    let live = live_session_ids(&rig_status.agents);
    activity_lines.retain_ids(&live);
    let ghost pruned = activity_lines@;
    assert(pruned =~= cache0.restrict(live_sessions(rig_status.agents@))) by {
        assert(id_set(live@) =~= live_sessions(rig_status.agents@));
    }
    if tick % PEEK_EVERY_N_TICKS == 0 {
        let targets = peek_targets(&rig_status.agents, &session_list.sessions);
        let ghost tv = targets@.map_values(|t: String| t@);
        let ghost mut answers: Seq<Result<gc::PeekResult, String>> = Seq::empty();
        let mut i: usize = 0;
        while i < targets.len()
            invariant
                i <= targets@.len(),
                tv == targets@.map_values(|t: String| t@),
                answers.len() == i,
                peeks_answered(adapters.gc, cty, tv.take(i as int), answers),
                activity_lines@ == apply_peeks(pruned, tv.take(i as int), answers),
                cty == arg_view(city),
            decreases targets@.len() - i,
        {
            let answer = adapters.gc.session_peek(city, targets[i].as_str(), PEEK_LINES);
            let ghost a = answer;
            let ghost before = answers;
            apply_peek(activity_lines, targets[i].as_str(), answer);
            proof {
                answers = answers.push(a);
                assert(tv.take(i + 1).drop_last() =~= tv.take(i as int));
                assert(answers.drop_last() =~= before);
                assert(tv.take(i + 1).last() == targets@[i as int]@);
                assert forall|j: int| 0 <= j < i + 1 implies adapters.gc.session_peek_answer(
                    cty,
                    tv.take(i + 1)[j],
                    PEEK_LINES,
                    #[trigger] answers[j],
                ) by {
                    if j < i {
                        assert(answers[j] == before[j]);
                        assert(tv.take(i + 1)[j] == tv.take(i as int)[j]);
                    }
                }
            }
            i += 1;
        }
        proof {
            assert(tv.take(targets@.len() as int) =~= tv);
            assert(peeks_answered(adapters.gc, cty, peek_targets_spec(rig_status.agents@, session_list.sessions@), answers));
        }
    }
    let ghost refreshed = activity_lines@;
    let sessions = assemble::session_signals(&session_list, activity_lines, now);
    let ghost agents = rig_status.agents@;
    let ghost rs = rig_status;
    let ghost beads = in_progress@;
    let views = assemble::agent_views(
        rig_status.agents,
        in_progress.as_slice(),
        sessions.as_slice(),
        now,
        thresholds,
    );
    let qview = assemble::queue_view(
        resolved.name.as_str(),
        resolved.path.as_str(),
        resolved.running,
        bd_status,
        in_progress,
        now,
        thresholds,
    );
    let out = rig_frame(&qview, resolved.name.as_str(), views.as_slice(), suspended, tick);
    proof {
        assert(queue_from_beads(qview, beads, now, stale));
        assert(queue_of(qview, x, bd_status, beads, now, stale));
        assert(agents_from(views@, agents, beads, sessions@, now, stale));
        assert(signals_from(sessions@, session_list.sessions@, refreshed, now));
        assert(is_rig_frame(out@, qview, x.name@, views@, suspended, tick));
        assert(rig_frame_of(out@, x, bd_status, beads, rs, session_list.sessions@, refreshed, now, stale, tick));
        assert(refreshed_cache(adapters.gc, cty, cache0, agents, session_list.sessions@, tick, refreshed));
        assert(rig_render_answered(adapters.gc, cty, x, a1, a2, a3, a4, now, stale, tick, cache0, Ok(out), refreshed));
    }
    Ok(out)
}

/// The first line of every frame: the title, the time shown (already
/// formatted) and the refresh interval.
pub open spec fn header_doc(time_text: Seq<char>, interval_secs: u64) -> Seq<(Seq<char>, Style)> {
    one("oil-cop watch"@, Style::Bold) + plain(" "@ + time_text + "  "@) + one(
        "(every "@ + crate::text::nat_decimal(interval_secs as nat) + "s, ctrl-c to exit)"@,
        Style::Dimmed,
    ) + plain("\n\n"@)
}

/// Prints a frame's title line and the blank line under it.
pub fn frame_header(time_text: &str, interval_secs: u64) -> (r: String)
    ensures
        is_painting(r@, header_doc(time_text@, interval_secs)),
{
    let mut d: Vec<Span> = Vec::new();
    push_span(&mut d, "oil-cop watch", Style::Bold);
    let t = crate::text::concat(crate::text::concat(" ", time_text).as_str(), "  ");
    push_owned(&mut d, t, Style::Plain);
    let digits = crate::text::from_chars(&crate::text::u64_decimal(interval_secs));
    let e = crate::text::concat(crate::text::concat("(every ", digits.as_str()).as_str(), "s, ctrl-c to exit)");
    push_owned(&mut d, e, Style::Dimmed);
    push_span(&mut d, "\n\n", Style::Plain);
    assert(doc_view(d@) =~= header_doc(time_text@, interval_secs));
    render_doc(&d)
}

/// A frame's line for a section that could not be drawn.
pub open spec fn error_doc(what: Seq<char>, e: Seq<char>) -> Seq<(Seq<char>, Style)> {
    one("error"@, Style::RedBold) + plain(" "@ + what + ": "@ + e + "\n"@)
}

/// Prints the line for a section that could not be drawn: `what` names the
/// section ("status", "rig 'name'").
pub fn error_line(what: &str, e: &str) -> (r: String)
    ensures
        is_painting(r@, error_doc(what@, e@)),
{
    let mut d: Vec<Span> = Vec::new();
    push_span(&mut d, "error", Style::RedBold);
    let t1 = crate::text::concat(crate::text::concat(" ", what).as_str(), ": ");
    let t2 = crate::text::concat(crate::text::concat(t1.as_str(), e).as_str(), "\n");
    push_owned(&mut d, t2, Style::Plain);
    assert(doc_view(d@) =~= error_doc(what@, e@));
    render_doc(&d)
}

/// `out` prints the city status for `gc status`'s answer `raw`, each active
/// rig's bead counts made of an answer `bd` may give to `bd status` in the
/// rig's directory.
pub open spec fn is_status_frame<B: BdAdapter>(bd: B, out: Seq<char>, raw: gc::StatusResult, tick: u64) -> bool {
    exists|v: CityView| #[trigger] city_fetched(bd, raw, v) && is_painting(out, status_doc(v, Some(tick)))
}

/// `out` is a frame's status section for the status fetch's answer: the
/// error line for an error, or the city status.
pub open spec fn status_section_of<B: BdAdapter>(
    bd: B,
    answer: Result<gc::StatusResult, String>,
    out: Seq<char>,
    tick: u64,
) -> bool {
    match answer {
        Err(e) => is_painting(out, error_doc("status"@, e@)),
        Ok(raw) => is_status_frame(bd, out, raw, tick),
    }
}

/// A frame's status section for what the status fetch answered: the city
/// status, or the error line when the status could not be fetched.
pub fn status_section_from<G: GcAdapter, B: BdAdapter, T: GitAdapter>(
    adapters: &Adapters<G, B, T>,
    answer: Result<gc::StatusResult, String>,
    tick: u64,
) -> (r: String)
    ensures
        status_section_of(adapters.bd, answer, r@, tick),
{
    match answer {
        Ok(raw) => {
            let ghost raw_v = raw;
            let v = assemble::city_view(adapters, raw);
            let r = super::status::render(&v, Some(tick));
            assert(city_fetched(adapters.bd, raw_v, v) && is_painting(r@, status_doc(v, Some(tick))));
            r
        },
        Err(e) => error_line("status", e.as_str()),
    }
}

/// A frame's status section: `gc status` for `city`, then
/// `status_section_from` with whichever answer came.
pub fn status_section<G: GcAdapter, B: BdAdapter, T: GitAdapter>(
    adapters: &Adapters<G, B, T>,
    city: Option<&str>,
    tick: u64,
) -> (r: String)
    ensures
        exists|answer: Result<gc::StatusResult, String>|
            #[trigger] adapters.gc.status_answer(arg_view(city), answer) && status_section_of(
                adapters.bd,
                answer,
                r@,
                tick,
            ),
{
    let answer = adapters.gc.status(city);
    let ghost a = answer;
    let r = status_section_from(adapters, answer, tick);
    assert(status_section_of(adapters.bd, a, r@, tick));
    r
}

} // verus!
