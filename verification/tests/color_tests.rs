use oil_cop::model::{BeadStage, Health};
use oil_cop::render::color::{bead_stage_glyph, glyph, glyph_live, label, paint};
use oil_cop::render::Style;

const ALL: [Health; 7] = [
    Health::Healthy,
    Health::Idle,
    Health::Stale,
    Health::Dead,
    Health::Suspended,
    Health::Done,
    Health::Unknown,
];

#[test]
fn every_health_signal_has_its_own_shape() {
    let shapes: Vec<String> = ALL.iter().map(|h| glyph(*h).text).collect();
    let unique: std::collections::HashSet<&String> = shapes.iter().collect();
    assert_eq!(unique.len(), ALL.len());
    assert_eq!(shapes, vec!["●", "◇", "▲", "✕", "‖", "✓", "?"]);
}

#[test]
fn stage_shapes_stand_apart_except_merged_and_done() {
    let pending = bead_stage_glyph(BeadStage::Pending, None).text;
    let active = bead_stage_glyph(BeadStage::Active, None).text;
    let merged = bead_stage_glyph(BeadStage::Merged, None).text;
    for h in ALL {
        let shape = glyph(h).text;
        assert_ne!(pending, shape);
        assert_ne!(active, shape);
        if h != Health::Done {
            assert_ne!(merged, shape);
        }
    }
    assert_eq!(merged, glyph(Health::Done).text);
}

#[test]
fn only_a_healthy_glyph_moves_between_refreshes() {
    for t in 0..25u64 {
        assert_ne!(glyph_live(Health::Healthy, Some(t)).text, glyph_live(Health::Healthy, Some(t + 1)).text);
        for h in ALL {
            if h != Health::Healthy {
                assert_eq!(glyph_live(h, Some(t)).text, glyph(h).text);
                assert_eq!(glyph_live(h, Some(t)).style, glyph(h).style);
            }
        }
        assert_ne!(
            bead_stage_glyph(BeadStage::Active, Some(t)).style,
            bead_stage_glyph(BeadStage::Active, Some(t + 1)).style
        );
    }
    assert_eq!(glyph_live(Health::Healthy, None).text, "●");
    assert_eq!(glyph_live(Health::Healthy, Some(10)).text, "⠋");
}

#[test]
fn labels_are_painted_in_their_signal_color() {
    let l = label(Health::Stale);
    assert_eq!(l.text, "stale");
    assert_eq!(l.style, Style::Yellow);
    assert_eq!(paint(Health::Done, "x").style, Style::Gray);
    assert_eq!(glyph(Health::Dead).style, Style::RedBold);
}

#[test]
fn painting_wraps_styled_text_when_color_is_on() {
    colored::control::set_override(true);
    let out = oil_cop::render::check::render(&oil_cop::model::CheckReport { ok: true, issues: vec![] });
    colored::control::set_override(false);
    assert!(out.contains("all clear -- nothing stale or dead"));
    assert!(out.starts_with("\u{1b}["));
    assert!(out.contains("●\u{1b}[0m"));
}
