use termdown::document::Span;
use termdown::spans::{render_span, render_spans, wrap_spans};
use termdown::style::TextStyle;
use termdown::wrap::Prefix;

fn text(s: &str) -> Span {
    Span::Text(s.to_string())
}

fn plain() -> TextStyle {
    TextStyle::plain()
}

#[test]
fn text_spans_concatenate() {
    let spans = vec![text("a "), text(""), text("b\nc"), text("  d")];
    assert_eq!(render_spans(&spans, plain()), "a b\nc  d");
    assert_eq!(wrap_spans(&spans, None, &Prefix::Plain), "a b\nc  d");
    assert_eq!(wrap_spans(&spans, None, &Prefix::Fixed("> ".to_string())), "a b\nc  d");
}

#[test]
fn no_spans_render_to_nothing() {
    assert_eq!(render_spans(&Vec::new(), plain()), "");
}

#[test]
fn break_is_one_line_break() {
    assert_eq!(render_span(&Span::Break, plain()), "\n");
    assert_eq!(render_spans(&vec![text("a"), Span::Break, text("b")], plain()), "a\nb");
}

#[test]
fn undecorated_code_is_plain_text() {
    assert_eq!(render_span(&Span::Code("x + 1".to_string()), plain()), "x + 1");
}

#[test]
fn link_shows_text_and_underlined_target() {
    let link = Span::Link("docs".to_string(), "https://example.org".to_string(), None);
    assert_eq!(render_span(&link, plain()), "docs (\x1b[4mhttps://example.org\x1b[0m)");
}

#[test]
fn link_title_is_left_out() {
    let with = Span::Link("a".to_string(), "b".to_string(), Some("title".to_string()));
    let without = Span::Link("a".to_string(), "b".to_string(), None);
    assert_eq!(render_span(&with, plain()), render_span(&without, plain()));
    assert_eq!(render_span(&with, plain()), "a (\x1b[4mb\x1b[0m)");
}

#[test]
fn image_shows_title_or_the_word_image() {
    let titled = Span::Image("alt".to_string(), "pic.png".to_string(), Some("Logo".to_string()));
    assert_eq!(render_span(&titled, plain()), "[Logo: alt] (\x1b[4mpic.png\x1b[0m)");
    let untitled = Span::Image("alt".to_string(), "pic.png".to_string(), None);
    assert_eq!(render_span(&untitled, plain()), "[Image: alt] (\x1b[4mpic.png\x1b[0m)");
}

#[test]
fn emphasis_is_italic_and_strong_is_bold() {
    assert_eq!(render_span(&Span::Emphasis(vec![text("e")]), plain()), "\x1b[3me\x1b[0m");
    assert_eq!(render_span(&Span::Strong(vec![text("s")]), plain()), "\x1b[1ms\x1b[0m");
    assert_eq!(render_span(&Span::Emphasis(Vec::new()), plain()), "\x1b[3m\x1b[0m");
}

#[test]
fn nested_styles_each_close_after_their_own_content() {
    let nested = Span::Strong(vec![text("a"), Span::Emphasis(vec![text("b")]), text("d")]);
    assert_eq!(
        render_span(&nested, plain()),
        "\x1b[1ma\x1b[3mb\x1b[0m\x1b[1md\x1b[0m"
    );
}

#[test]
fn enclosing_styles_are_switched_on_again_after_an_inner_one() {
    let nested = Span::Strong(vec![
        text("a"),
        Span::Emphasis(vec![text("b"), Span::Strong(vec![text("c")]), text("d")]),
        text("e"),
    ]);
    assert_eq!(
        render_span(&nested, plain()),
        "\x1b[1ma\x1b[3mb\x1b[1mc\x1b[0m\x1b[1;3md\x1b[0m\x1b[1me\x1b[0m"
    );
}

#[test]
fn link_in_a_styled_scope_hands_the_style_back() {
    let link = Span::Link("docs".to_string(), "url".to_string(), None);
    let strong = Span::Strong(vec![link, text(" more")]);
    assert_eq!(
        render_span(&strong, plain()),
        "\x1b[1mdocs (\x1b[4murl\x1b[0m\x1b[1m) more\x1b[0m"
    );
    let image = Span::Image("alt".to_string(), "src".to_string(), None);
    assert_eq!(
        render_span(&image, TextStyle::emphasis()),
        "[Image: alt] (\x1b[4msrc\x1b[0m\x1b[3m)"
    );
}

#[test]
fn the_style_in_force_is_handed_down() {
    let spans = vec![Span::Emphasis(vec![text("x")]), text("y")];
    assert_eq!(render_spans(&spans, TextStyle::strong()), "\x1b[3mx\x1b[0m\x1b[1my");
}

#[test]
fn wrap_spans_reflows_what_the_spans_render_to() {
    let spans = vec![text("aaaa "), Span::Emphasis(vec![text("bbbb")]), text(" cccc")];
    assert_eq!(
        wrap_spans(&spans, Some(11), &Prefix::Hanging("* ".to_string())),
        "* aaaa \x1b[3mbbbb\x1b[0m\n  cccc"
    );
}
