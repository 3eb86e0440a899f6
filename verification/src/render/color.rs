//! Health/BeadStage -> color *and* glyph mapping. Every state gets its own
//! shape, not just its own color -- with color off, on a non-terminal pipe,
//! or for a colorblind reader, color alone would collapse every state to
//! the same dot. Shape carries the signal; color reinforces it.
use super::{painted_in, painted_truecolor, style_code, Span, Style, GRAY_LEVEL};
use crate::model::{BeadStage, Health};
use colored::Colorize;
use vstd::prelude::*;

verus! {

/// `colored`: `s.bold().to_string()`. With color off the text comes back
/// unchanged; with it on, between the style's escape sequence (`ESC [`, the
/// style's SGR code, `m`) and the reset sequence, the style's escape
/// sequence inserted after each reset sequence the text itself holds.
#[verifier::external_body]
fn paint_bold(s: &str) -> (r: String)
    ensures
        painted_in(r@, s@, style_code(Style::Bold)),
{
    s.bold().to_string()
}

/// `colored`: `s.dimmed().to_string()`; see `paint_bold`.
#[verifier::external_body]
fn paint_dimmed(s: &str) -> (r: String)
    ensures
        painted_in(r@, s@, style_code(Style::Dimmed)),
{
    s.dimmed().to_string()
}

/// `colored`: `s.green().to_string()`; see `paint_bold`.
#[verifier::external_body]
fn paint_green(s: &str) -> (r: String)
    ensures
        painted_in(r@, s@, style_code(Style::Green)),
{
    s.green().to_string()
}

/// `colored`: `s.green().bold().to_string()`; see `paint_bold`.
#[verifier::external_body]
fn paint_green_bold(s: &str) -> (r: String)
    ensures
        painted_in(r@, s@, style_code(Style::GreenBold)),
{
    s.green().bold().to_string()
}

/// `colored`: `s.cyan().to_string()`; see `paint_bold`.
#[verifier::external_body]
fn paint_cyan(s: &str) -> (r: String)
    ensures
        painted_in(r@, s@, style_code(Style::Cyan)),
{
    s.cyan().to_string()
}

/// `colored`: `s.yellow().to_string()`; see `paint_bold`.
#[verifier::external_body]
fn paint_yellow(s: &str) -> (r: String)
    ensures
        painted_in(r@, s@, style_code(Style::Yellow)),
{
    s.yellow().to_string()
}

/// `colored`: `s.yellow().bold().to_string()`; see `paint_bold`.
#[verifier::external_body]
fn paint_yellow_bold(s: &str) -> (r: String)
    ensures
        painted_in(r@, s@, style_code(Style::YellowBold)),
{
    s.yellow().bold().to_string()
}

/// `colored`: `s.red().to_string()`; see `paint_bold`.
#[verifier::external_body]
fn paint_red(s: &str) -> (r: String)
    ensures
        painted_in(r@, s@, style_code(Style::Red)),
{
    s.red().to_string()
}

/// `colored`: `s.red().bold().to_string()`; see `paint_bold`.
#[verifier::external_body]
fn paint_red_bold(s: &str) -> (r: String)
    ensures
        painted_in(r@, s@, style_code(Style::RedBold)),
{
    s.red().bold().to_string()
}

/// `colored`: `s.magenta().to_string()`; see `paint_bold`.
#[verifier::external_body]
fn paint_magenta(s: &str) -> (r: String)
    ensures
        painted_in(r@, s@, style_code(Style::Magenta)),
{
    s.magenta().to_string()
}

/// `colored`: `s.truecolor(r, g, b).to_string()`; see `paint_bold`. The
/// code is the 24-bit one when the terminal announces true-color support
/// (`COLORTERM`), else that of the nearest basic color.
#[verifier::external_body]
fn paint_truecolor(s: &str, r: u8, g: u8, b: u8) -> (out: String)
    ensures
        painted_truecolor(out@, s@, r, g, b),
{
    s.truecolor(r, g, b).to_string()
}

/// One span as printed.
pub fn paint_span(s: &Span) -> (r: String)
    ensures
        super::span_printed(r@, super::span_view(*s)),
{
    let t = s.text.as_str();
    match s.style {
        Style::Plain => crate::text::owned(t),
        Style::Bold => paint_bold(t),
        Style::Dimmed => paint_dimmed(t),
        Style::Green => paint_green(t),
        Style::GreenBold => paint_green_bold(t),
        Style::Cyan => paint_cyan(t),
        Style::Yellow => paint_yellow(t),
        Style::YellowBold => paint_yellow_bold(t),
        Style::Red => paint_red(t),
        Style::RedBold => paint_red_bold(t),
        Style::Magenta => paint_magenta(t),
        Style::Gray => paint_truecolor(t, GRAY_LEVEL, GRAY_LEVEL, GRAY_LEVEL),
    }
}

/// The shape of each health signal.
pub open spec fn health_shape_spec(h: Health) -> Seq<char> {
    match h {
        Health::Healthy => "●"@,
        Health::Idle => "◇"@,
        Health::Stale => "▲"@,
        Health::Dead => "✕"@,
        Health::Suspended => "‖"@,
        Health::Done => "✓"@,
        Health::Unknown => "?"@,
    }
}

fn health_shape(h: Health) -> (r: &'static str)
    ensures
        r@ == health_shape_spec(h),
{
    match h {
        Health::Healthy => "●",
        Health::Idle => "◇",
        Health::Stale => "▲",
        Health::Dead => "✕",
        Health::Suspended => "‖",
        Health::Done => "✓",
        Health::Unknown => "?",
    }
}

/// The style of each health glyph.
pub open spec fn glyph_style(h: Health) -> Style {
    match h {
        Health::Healthy => Style::GreenBold,
        Health::Idle => Style::Cyan,
        Health::Stale => Style::YellowBold,
        Health::Dead => Style::RedBold,
        Health::Suspended => Style::Dimmed,
        Health::Done => Style::Gray,
        Health::Unknown => Style::Magenta,
    }
}

/// The color each health signal paints text in.
pub open spec fn paint_style(h: Health) -> Style {
    match h {
        Health::Healthy => Style::Green,
        Health::Idle => Style::Cyan,
        Health::Stale => Style::Yellow,
        Health::Dead => Style::Red,
        Health::Suspended => Style::Dimmed,
        Health::Done => Style::Gray,
        Health::Unknown => Style::Magenta,
    }
}

pub open spec fn glyph_spec(h: Health) -> (Seq<char>, Style) {
    (health_shape_spec(h), glyph_style(h))
}

/// The glyph of a health signal: its shape in its color.
pub fn glyph(h: Health) -> (r: Span)
    ensures
        super::span_view(r) == glyph_spec(h),
{
    let style = match h {
        Health::Healthy => Style::GreenBold,
        Health::Idle => Style::Cyan,
        Health::Stale => Style::YellowBold,
        Health::Dead => Style::RedBold,
        Health::Suspended => Style::Dimmed,
        Health::Done => Style::Gray,
        Health::Unknown => Style::Magenta,
    };
    Span { text: crate::text::owned(health_shape(h)), style }
}

/// The spinner frames a healthy signal cycles through in `watch`.
pub open spec fn spinner_frame(k: int) -> Seq<char> {
    if k == 0 {
        "⠋"@
    } else if k == 1 {
        "⠙"@
    } else if k == 2 {
        "⠹"@
    } else if k == 3 {
        "⠸"@
    } else if k == 4 {
        "⠼"@
    } else if k == 5 {
        "⠴"@
    } else if k == 6 {
        "⠦"@
    } else if k == 7 {
        "⠧"@
    } else if k == 8 {
        "⠇"@
    } else {
        "⠏"@
    }
}

fn spinner(k: u64) -> (r: &'static str)
    requires
        k < 10,
    ensures
        r@ == spinner_frame(k as int),
{
    if k == 0 {
        "⠋"
    } else if k == 1 {
        "⠙"
    } else if k == 2 {
        "⠹"
    } else if k == 3 {
        "⠸"
    } else if k == 4 {
        "⠼"
    } else if k == 5 {
        "⠴"
    } else if k == 6 {
        "⠦"
    } else if k == 7 {
        "⠧"
    } else if k == 8 {
        "⠇"
    } else {
        "⠏"
    }
}

/// In `watch` mode (a tick is given) a healthy signal spins, one frame per
/// refresh; every other signal keeps its static glyph.
pub open spec fn glyph_live_spec(h: Health, tick: Option<u64>) -> (Seq<char>, Style) {
    match (h, tick) {
        (Health::Healthy, Some(t)) => (spinner_frame((t % 10) as int), Style::GreenBold),
        _ => glyph_spec(h),
    }
}

/// Same as `glyph`, but in `watch` mode a healthy signal spins on each
/// refresh tick instead of sitting as a static dot -- motion reads as "this
/// is actually moving"; a stale/dead/suspended thing shouldn't look alive.
pub fn glyph_live(h: Health, tick: Option<u64>) -> (r: Span)
    ensures
        super::span_view(r) == glyph_live_spec(h, tick),
{
    match (h, tick) {
        (Health::Healthy, Some(t)) => Span {
            text: crate::text::owned(spinner(t % 10)),
            style: Style::GreenBold,
        },
        _ => glyph(h),
    }
}

/// `s` in the color of a health signal.
pub fn paint(h: Health, s: &str) -> (r: Span)
    ensures
        super::span_view(r) == (s@, paint_style(h)),
{
    let style = match h {
        Health::Healthy => Style::Green,
        Health::Idle => Style::Cyan,
        Health::Stale => Style::Yellow,
        Health::Dead => Style::Red,
        Health::Suspended => Style::Dimmed,
        Health::Done => Style::Gray,
        Health::Unknown => Style::Magenta,
    };
    Span { text: crate::text::owned(s), style }
}

pub open spec fn label_spec(h: Health) -> (Seq<char>, Style) {
    (h.label_spec(), paint_style(h))
}

/// A health signal's name in its color.
pub fn label(h: Health) -> (r: Span)
    ensures
        super::span_view(r) == label_spec(h),
{
    paint(h, h.label())
}

/// The DAG glyph of a lifecycle stage: hollow circle/red (pending) ->
/// half-filled circle/yellow, flashing between bold and plain on
/// alternating watch ticks (active) -> checkmark/green (merged). A
/// different palette axis than `Health`: the pending and active shapes are
/// no health shape, and merged shares its checkmark with done.
pub open spec fn bead_stage_glyph_spec(stage: BeadStage, tick: Option<u64>) -> (Seq<char>, Style) {
    match stage {
        BeadStage::Pending => ("○"@, Style::Red),
        BeadStage::Active => match tick {
            Some(t) => if t % 2 == 0 {
                ("◐"@, Style::YellowBold)
            } else {
                ("◐"@, Style::Yellow)
            },
            None => ("◐"@, Style::YellowBold),
        },
        BeadStage::Merged => ("✓"@, Style::Green),
    }
}

pub fn bead_stage_glyph(stage: BeadStage, tick: Option<u64>) -> (r: Span)
    ensures
        super::span_view(r) == bead_stage_glyph_spec(stage, tick),
{
    match stage {
        BeadStage::Pending => Span { text: crate::text::owned("○"), style: Style::Red },
        BeadStage::Active => match tick {
            Some(t) => if t % 2 == 0 {
                Span { text: crate::text::owned("◐"), style: Style::YellowBold }
            } else {
                Span { text: crate::text::owned("◐"), style: Style::Yellow }
            },
            None => Span { text: crate::text::owned("◐"), style: Style::YellowBold },
        },
        BeadStage::Merged => Span { text: crate::text::owned("✓"), style: Style::Green },
    }
}

/// Two decimal digits, zero-padded (`{:02}`), for `n` below 100.
pub open spec fn two_digits(n: int) -> Seq<char> {
    if n < 10 {
        seq!['0'] + crate::text::nat_decimal(n as nat)
    } else {
        crate::text::nat_decimal(n as nat)
    }
}

/// Human-readable "45s ago" / "3m ago" / "2h14m ago" / "3d4h ago" from
/// seconds. A missing or negative age renders as "—".
pub open spec fn humanize_age_spec(secs: Option<i64>) -> Seq<char> {
    match secs {
        None => "—"@,
        Some(raw) => if raw < 0 {
            "—"@
        } else {
            let s: int = raw as int;
            let mins = s / 60;
            let hours = mins / 60;
            if s < 60 {
                crate::text::nat_decimal(s as nat) + "s ago"@
            } else if mins < 60 {
                crate::text::nat_decimal(mins as nat) + "m ago"@
            } else if hours < 24 {
                crate::text::nat_decimal(hours as nat) + "h"@ + two_digits(mins % 60) + "m ago"@
            } else {
                crate::text::nat_decimal((hours / 24) as nat) + "d"@ + crate::text::nat_decimal(
                    (hours % 24) as nat,
                ) + "h ago"@
            }
        },
    }
}

fn with_suffix(n: u64, suffix: &str) -> (r: Vec<char>)
    ensures
        r@ == crate::text::nat_decimal(n as nat) + suffix@,
{
    let mut v = crate::text::u64_decimal(n);
    crate::text::extend_chars(&mut v, &crate::text::to_chars(suffix));
    v
}

/// Human-readable "3m ago" / "2h14m ago" from seconds. Negative or missing
/// ages render as "—".
pub fn humanize_age(secs: Option<i64>) -> (r: String)
    ensures
        r@ == humanize_age_spec(secs),
{
    let raw = match secs {
        None => return crate::text::owned("—"),
        Some(x) => x,
    };
    if raw < 0 {
        return crate::text::owned("—");
    }
    let s: u64 = raw as u64;
    if s < 60 {
        return crate::text::from_chars(&with_suffix(s, "s ago"));
    }
    let mins = s / 60;
    if mins < 60 {
        return crate::text::from_chars(&with_suffix(mins, "m ago"));
    }
    let hours = mins / 60;
    let rem_mins = mins % 60;
    if hours < 24 {
        let mut v = with_suffix(hours, "h");
        if rem_mins < 10 {
            v.push('0');
        }
        crate::text::extend_chars(&mut v, &with_suffix(rem_mins, "m ago"));
        assert(v@ =~= crate::text::nat_decimal(hours as nat) + "h"@ + two_digits(rem_mins as int)
            + "m ago"@);
        return crate::text::from_chars(&v);
    }
    let mut v = with_suffix(hours / 24, "d");
    crate::text::extend_chars(&mut v, &with_suffix(hours % 24, "h ago"));
    assert(v@ =~= crate::text::nat_decimal((hours / 24) as nat) + "d"@ + crate::text::nat_decimal(
        (hours % 24) as nat,
    ) + "h ago"@);
    crate::text::from_chars(&v)
}

/// Every health signal has a shape of its own: two signals drawn alike
/// are the same signal, so the signal reads without color.
pub proof fn law_every_signal_has_its_own_shape(a: Health, b: Health)
    ensures
        health_shape_spec(a) == health_shape_spec(b) ==> a == b,
{
    reveal_strlit("●");
    reveal_strlit("◇");
    reveal_strlit("▲");
    reveal_strlit("✕");
    reveal_strlit("‖");
    reveal_strlit("✓");
    reveal_strlit("?");
    if health_shape_spec(a) == health_shape_spec(b) && a != b {
        assert(health_shape_spec(a)[0] == health_shape_spec(b)[0]);
    }
}

/// The lifecycle stages are drawn apart from each other, and apart from
/// every health signal -- both show at once in a rig's live view -- except
/// that a merged bead and a done signal share the check mark.
pub proof fn law_stage_shapes_stand_apart(s1: BeadStage, s2: BeadStage, h: Health, t1: Option<u64>, t2: Option<u64>)
    ensures
        bead_stage_glyph_spec(s1, t1).0 == bead_stage_glyph_spec(s2, t2).0 ==> s1 == s2,
        !(s1 == BeadStage::Merged && h == Health::Done) ==> bead_stage_glyph_spec(s1, t1).0
            != health_shape_spec(h),
{
    reveal_strlit("●");
    reveal_strlit("◇");
    reveal_strlit("▲");
    reveal_strlit("✕");
    reveal_strlit("‖");
    reveal_strlit("✓");
    reveal_strlit("?");
    reveal_strlit("○");
    reveal_strlit("◐");
    let g1 = bead_stage_glyph_spec(s1, t1).0;
    let g2 = bead_stage_glyph_spec(s2, t2).0;
    if g1 == g2 && s1 != s2 {
        assert(g1[0] == g2[0]);
    }
    if !(s1 == BeadStage::Merged && h == Health::Done) && g1 == health_shape_spec(h) {
        assert(g1[0] == health_shape_spec(h)[0]);
    }
}

/// In `watch`, motion is the health signal: a healthy glyph shows a
/// different spinner frame on every refresh, while every other signal --
/// stale, dead, suspended, ... -- keeps its static glyph; an active bead's
/// glyph flashes, alternating its weight from one refresh to the next.
pub proof fn law_only_healthy_moves(h: Health, t: u64)
    requires
        t < u64::MAX,
    ensures
        h != Health::Healthy ==> glyph_live_spec(h, Some(t)) == glyph_spec(h),
        glyph_live_spec(Health::Healthy, Some(t)).0 != glyph_live_spec(Health::Healthy, Some((t + 1) as u64)).0,
        bead_stage_glyph_spec(BeadStage::Active, Some(t)).1 != bead_stage_glyph_spec(
            BeadStage::Active,
            Some((t + 1) as u64),
        ).1,
{
    reveal_strlit("⠋");
    reveal_strlit("⠙");
    reveal_strlit("⠹");
    reveal_strlit("⠸");
    reveal_strlit("⠼");
    reveal_strlit("⠴");
    reveal_strlit("⠦");
    reveal_strlit("⠧");
    reveal_strlit("⠇");
    reveal_strlit("⠏");
    let a = (t % 10) as int;
    let b = ((t + 1) as u64 % 10) as int;
    assert(a != b);
    let fa = spinner_frame(a);
    let fb = spinner_frame(b);
    if fa == fb {
        assert(fa[0] == fb[0]);
    }
}

} // verus!
