use oil_cop::render::color::paint_span;
use oil_cop::render::{Span, Style};

/// Paints `text` in `style` with color forced on, as on a color terminal.
fn painted(text: &str, style: Style) -> String {
    colored::control::set_override(true);
    paint_span(&Span { text: text.to_string(), style })
}

#[test]
fn red_text_sits_between_the_red_escape_and_the_reset() {
    assert_eq!(painted("dead", Style::Red), "\u{1b}[31mdead\u{1b}[0m");
}

#[test]
fn bold_colors_put_the_attribute_before_the_color() {
    assert_eq!(painted("ok", Style::GreenBold), "\u{1b}[1;32mok\u{1b}[0m");
    assert_eq!(painted("late", Style::YellowBold), "\u{1b}[1;33mlate\u{1b}[0m");
    assert_eq!(painted("gone", Style::RedBold), "\u{1b}[1;31mgone\u{1b}[0m");
}

#[test]
fn each_plain_color_and_attribute_has_its_own_code() {
    assert_eq!(painted("a", Style::Bold), "\u{1b}[1ma\u{1b}[0m");
    assert_eq!(painted("a", Style::Dimmed), "\u{1b}[2ma\u{1b}[0m");
    assert_eq!(painted("a", Style::Green), "\u{1b}[32ma\u{1b}[0m");
    assert_eq!(painted("a", Style::Cyan), "\u{1b}[36ma\u{1b}[0m");
    assert_eq!(painted("a", Style::Yellow), "\u{1b}[33ma\u{1b}[0m");
    assert_eq!(painted("a", Style::Magenta), "\u{1b}[35ma\u{1b}[0m");
}

#[test]
fn gray_is_the_true_color_or_the_nearest_basic_one() {
    let out = painted("done", Style::Gray);
    let basic = [
        "30", "31", "32", "33", "34", "35", "36", "37", "90", "91", "92", "93", "94", "95", "96", "97",
    ];
    let ok = out == "\u{1b}[38;2;110;110;110mdone\u{1b}[0m"
        || basic.iter().any(|c| out == format!("\u{1b}[{c}mdone\u{1b}[0m"));
    assert!(ok, "unexpected gray painting: {out:?}");
}

#[test]
fn plain_text_is_printed_as_it_is() {
    assert_eq!(painted("as is", Style::Plain), "as is");
}

#[test]
fn a_reset_inside_the_text_is_followed_by_the_style_again() {
    assert_eq!(
        painted("a\u{1b}[0mb", Style::Red),
        "\u{1b}[31ma\u{1b}[0m\u{1b}[31mb\u{1b}[0m"
    );
}
