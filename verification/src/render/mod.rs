//! Text renderers. Each view is first laid out as a sequence of styled
//! spans (the exact text, each piece tagged with how it is colored), then
//! painted: every styled piece goes through the terminal-color library,
//! which either leaves it as it is (color off) or wraps it in escape codes.
pub mod agents;
pub mod check;
pub mod dag;
pub mod color;
pub mod handoff;
pub mod queue;
pub mod sessions;
pub mod status;
pub mod watch;

use vstd::prelude::*;

verus! {

/// How a span of text is colored.
#[derive(Debug, Clone, Copy, PartialEq, Eq, Structural)]
pub enum Style {
    Plain,
    Bold,
    Dimmed,
    Green,
    GreenBold,
    Cyan,
    Yellow,
    YellowBold,
    Red,
    RedBold,
    Magenta,
    /// The gray used for finished things (true color 110,110,110).
    Gray,
}

/// A piece of output text and its style.
#[derive(Debug, Clone)]
pub struct Span {
    pub text: String,
    pub style: Style,
}

/// A span as its text and style.
pub open spec fn span_view(s: Span) -> (Seq<char>, Style) {
    (s.text@, s.style)
}

/// A laid-out document as texts and styles.
pub open spec fn doc_view(d: Seq<Span>) -> Seq<(Seq<char>, Style)> {
    d.map_values(|s: Span| span_view(s))
}

/// The one-span document.
pub open spec fn one(text: Seq<char>, style: Style) -> Seq<(Seq<char>, Style)> {
    seq![(text, style)]
}

/// The one-span unstyled document.
pub open spec fn plain(text: Seq<char>) -> Seq<(Seq<char>, Style)> {
    seq![(text, Style::Plain)]
}

/// The documents of `parts`, one after another.
pub open spec fn concat_all(parts: Seq<Seq<(Seq<char>, Style)>>) -> Seq<(Seq<char>, Style)>
    decreases parts.len(),
{
    if parts.len() == 0 {
        Seq::empty()
    } else {
        concat_all(parts.drop_last()) + parts.last()
    }
}

/// The text of a document with all styling left off.
pub open spec fn doc_text(d: Seq<(Seq<char>, Style)>) -> Seq<char>
    decreases d.len(),
{
    if d.len() == 0 {
        Seq::empty()
    } else {
        doc_text(d.drop_last()) + d.last().0
    }
}

/// Appends one span.
pub fn push_span(doc: &mut Vec<Span>, text: &str, style: Style)
    ensures
        doc_view(final(doc)@) == doc_view(old(doc)@).push((text@, style)),
{
    doc.push(Span { text: crate::text::owned(text), style });
    assert(doc_view(doc@) =~= doc_view(old(doc)@).push((text@, style)));
}

/// Appends one span, taking the text.
pub fn push_owned(doc: &mut Vec<Span>, text: String, style: Style)
    ensures
        doc_view(final(doc)@) == doc_view(old(doc)@).push((text@, style)),
{
    let ghost t = text@;
    doc.push(Span { text, style });
    assert(doc_view(doc@) =~= doc_view(old(doc)@).push((t, style)));
}

/// Appends one laid-out span.
pub fn push_piece(doc: &mut Vec<Span>, s: Span)
    ensures
        doc_view(final(doc)@) == doc_view(old(doc)@).push(span_view(s)),
{
    doc.push(s);
    assert(doc_view(doc@) =~= doc_view(old(doc)@).push(span_view(s)));
}

/// Appends a whole document.
pub fn append_doc(doc: &mut Vec<Span>, more: Vec<Span>)
    ensures
        doc_view(final(doc)@) == doc_view(old(doc)@) + doc_view(more@),
{
    let mut more = more;
    let ghost m = more@;
    doc.append(&mut more);
    assert(doc_view(doc@) =~= doc_view(old(doc)@) + doc_view(m));
}

/// The reset sequence that ends every colored piece.
pub open spec fn reset() -> Seq<char> {
    "\u{1b}[0m"@
}

/// The escape sequence that switches to the style with SGR code `code`.
pub open spec fn escape(code: Seq<char>) -> Seq<char> {
    "\u{1b}["@ + code + "m"@
}

/// The SGR code of each fixed style: the text attribute (bold 1, dimmed 2)
/// first, then the foreground color (green 32, yellow 33, red 31, magenta
/// 35, cyan 36), joined by `;`. (Gray is a true color: see
/// `truecolor_code`.)
pub open spec fn style_code(s: Style) -> Seq<char> {
    match s {
        Style::Plain => ""@,
        Style::Bold => "1"@,
        Style::Dimmed => "2"@,
        Style::Green => "32"@,
        Style::GreenBold => "1;32"@,
        Style::Cyan => "36"@,
        Style::Yellow => "33"@,
        Style::YellowBold => "1;33"@,
        Style::Red => "31"@,
        Style::RedBold => "1;31"@,
        Style::Magenta => "35"@,
        Style::Gray => truecolor_code(GRAY_LEVEL, GRAY_LEVEL, GRAY_LEVEL),
    }
}

/// The red, green and blue level of the gray used for finished things.
pub const GRAY_LEVEL: u8 = 110;

/// The SGR code of a 24-bit foreground color.
pub open spec fn truecolor_code(r: u8, g: u8, b: u8) -> Seq<char> {
    "38;2;"@ + crate::text::nat_decimal(r as nat) + ";"@ + crate::text::nat_decimal(g as nat) + ";"@
        + crate::text::nat_decimal(b as nat)
}

/// The SGR codes of the sixteen basic foreground colors.
pub open spec fn is_basic_fg_code(code: Seq<char>) -> bool {
    ||| code == "30"@ ||| code == "31"@ ||| code == "32"@ ||| code == "33"@
    ||| code == "34"@ ||| code == "35"@ ||| code == "36"@ ||| code == "37"@
    ||| code == "90"@ ||| code == "91"@ ||| code == "92"@ ||| code == "93"@
    ||| code == "94"@ ||| code == "95"@ ||| code == "96"@ ||| code == "97"@
}

/// `text` as the color library writes it inside a styled piece: every
/// reset sequence in it (left to right; two never overlap) followed by the
/// piece's own escape sequence `style`, so that the style resumes.
pub open spec fn reescape(text: Seq<char>, style: Seq<char>) -> Seq<char>
    decreases text.len(),
{
    if text.len() == 0 {
        text
    } else if crate::text::has_prefix(text, reset()) {
        proof {
            reveal_strlit("\u{1b}[0m");
        }
        reset() + style + reescape(text.skip(reset().len() as int), style)
    } else {
        seq![text[0]] + reescape(text.skip(1), style)
    }
}

/// `out` is `text` as the color library prints it in the style with code
/// `code`: the text itself when color is off; when it is on, the style's
/// escape sequence, the text (with the style resumed after each reset
/// sequence it holds) and the reset sequence.
pub open spec fn painted_in(out: Seq<char>, text: Seq<char>, code: Seq<char>) -> bool {
    out == text || out == escape(code) + reescape(text, escape(code)) + reset()
}

/// `out` is `text` as the color library prints it in the true color
/// `(r, g, b)`: as `painted_in` with that color's code, or -- where the
/// terminal does not announce true-color support -- with the code of the
/// basic color the library finds nearest.
pub open spec fn painted_truecolor(out: Seq<char>, text: Seq<char>, r: u8, g: u8, b: u8) -> bool {
    ||| painted_in(out, text, truecolor_code(r, g, b))
    ||| exists|code: Seq<char>| is_basic_fg_code(code) && #[trigger] painted_in(out, text, code)
}

/// `out` is one span as printed: unstyled text as it is, styled text
/// painted in its style.
pub open spec fn span_printed(out: Seq<char>, s: (Seq<char>, Style)) -> bool {
    match s.1 {
        Style::Plain => out == s.0,
        Style::Gray => painted_truecolor(out, s.0, GRAY_LEVEL, GRAY_LEVEL, GRAY_LEVEL),
        _ => painted_in(out, s.0, style_code(s.1)),
    }
}

/// `out` is the document printed span by span.
pub open spec fn is_painting(out: Seq<char>, d: Seq<(Seq<char>, Style)>) -> bool
    decreases d.len(),
{
    if d.len() == 0 {
        out.len() == 0
    } else {
        exists|k: int|
            0 <= k <= out.len() && is_painting(#[trigger] out.take(k), d.drop_last()) && span_printed(
                out.skip(k),
                d.last(),
            )
    }
}

/// The text of two documents one after the other is the one text after
/// the other.
pub broadcast proof fn lemma_doc_text_concat(a: Seq<(Seq<char>, Style)>, b: Seq<(Seq<char>, Style)>)
    ensures
        #[trigger] doc_text(a + b) == doc_text(a) + doc_text(b),
    decreases b.len(),
{
    if b.len() == 0 {
        assert(a + b =~= a);
        assert(doc_text(a) + doc_text(b) =~= doc_text(a));
    } else {
        lemma_doc_text_concat(a, b.drop_last());
        assert((a + b).drop_last() =~= a + b.drop_last());
        assert((a + b).last() == b.last());
        assert(doc_text(a) + doc_text(b) =~= doc_text(a) + doc_text(b.drop_last()) + b.last().0);
    }
}

/// The text of a one-span document is the span's text.
pub broadcast proof fn lemma_doc_text_one(x: (Seq<char>, Style))
    ensures
        #[trigger] doc_text(seq![x]) == x.0,
{
    let d = seq![x];
    assert(d.drop_last() =~= Seq::<(Seq<char>, Style)>::empty());
    assert(doc_text(d.drop_last()) =~= Seq::<char>::empty());
    assert(d.last() == x);
    assert(Seq::<char>::empty() + x.0 =~= x.0);
}

/// With every piece printed as its plain text, the painting is the
/// document's text.
pub proof fn lemma_plain_painting(d: Seq<(Seq<char>, Style)>)
    ensures
        is_painting(doc_text(d), d),
    decreases d.len(),
{
    if d.len() > 0 {
        lemma_plain_painting(d.drop_last());
        let t = doc_text(d);
        let k = doc_text(d.drop_last()).len() as int;
        assert(t.take(k) =~= doc_text(d.drop_last()));
        assert(t.skip(k) =~= d.last().0);
    }
}

/// Prints a laid-out document.
pub fn render_doc(doc: &Vec<Span>) -> (r: String)
    ensures
        is_painting(r@, doc_view(doc@)),
{
    let mut out: Vec<char> = Vec::new();
    let mut i: usize = 0;
    while i < doc.len()
        invariant
            i <= doc@.len(),
            is_painting(out@, doc_view(doc@.take(i as int))),
        decreases doc@.len() - i,
    {
        let piece = color::paint_span(&doc[i]);
        let pv = crate::text::to_chars(piece.as_str());
        let ghost before = out@;
        crate::text::extend_chars(&mut out, &pv);
        proof {
            let d = doc_view(doc@.take(i + 1));
            assert(d.drop_last() =~= doc_view(doc@.take(i as int)));
            assert(d.last() == span_view(doc@[i as int]));
            let k = before.len() as int;
            assert(out@.take(k) =~= before);
            assert(out@.skip(k) =~= piece@);
        }
        i += 1;
    }
    assert(doc@.take(doc@.len() as int) =~= doc@);
    crate::text::from_chars(&out)
}

/// Concatenating one more document onto a concatenation.
pub proof fn lemma_concat_all_push(
    parts: Seq<Seq<(Seq<char>, Style)>>,
    last: Seq<(Seq<char>, Style)>,
)
    ensures
        concat_all(parts.push(last)) == concat_all(parts) + last,
{
    assert(parts.push(last).drop_last() =~= parts);
}

} // verus!
