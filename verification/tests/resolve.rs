use termdown::blocks::{Diagnostic, RenderOptions};
use termdown::document::{Block, ListItem, Span};
use termdown::highlight::MarkerHighlighter;
use termdown::resolve::{
    highlight_code, map_block, map_blocks, map_item, map_items, map_span, map_spans, render,
    render_inline,
};
use termdown::style::TextStyle;
use termdown::syntax::SyntectHighlighter;

fn text(s: &str) -> Span {
    Span::Text(s.to_string())
}

fn code(s: &str) -> Span {
    Span::Code(s.to_string())
}

fn plain() -> TextStyle {
    TextStyle::plain()
}

fn markers() -> MarkerHighlighter {
    MarkerHighlighter::new("<H>", "<R>")
}

#[test]
fn inline_code_becomes_text_closed_by_a_reset() {
    assert_eq!(map_span(code("x"), &markers(), plain()), text("<H>x<R>\x1b[0m"));
}

#[test]
fn inline_code_that_ends_with_a_reset_gets_no_second_one() {
    let h = MarkerHighlighter::new("\x1b[31m", "\x1b[0m");
    assert_eq!(map_span(code("x"), &h, plain()), text("\x1b[31mx\x1b[0m"));
}

#[test]
fn other_spans_are_left_as_they_are() {
    let h = markers();
    assert_eq!(map_span(text("plain"), &h, plain()), text("plain"));
    assert_eq!(map_span(Span::Break, &h, plain()), Span::Break);
    let link = Span::Link("a".to_string(), "b".to_string(), Some("c".to_string()));
    assert_eq!(
        map_span(link, &h, plain()),
        Span::Link("a".to_string(), "b".to_string(), Some("c".to_string()))
    );
    let image = Span::Image("a".to_string(), "b".to_string(), None);
    assert_eq!(map_span(image, &h, plain()), Span::Image("a".to_string(), "b".to_string(), None));
}

#[test]
fn code_inside_styles_is_decorated_and_hands_the_style_back() {
    let span = Span::Emphasis(vec![text("a"), Span::Strong(vec![code("b")]), code("c")]);
    assert_eq!(
        map_span(span, &markers(), plain()),
        Span::Emphasis(vec![
            text("a"),
            Span::Strong(vec![text("<H>b<R>\x1b[0m\x1b[1;3m")]),
            text("<H>c<R>\x1b[0m\x1b[3m"),
        ])
    );
    assert_eq!(
        map_span(code("d"), &markers(), TextStyle::underlined()),
        text("<H>d<R>\x1b[0m\x1b[4m")
    );
}

#[test]
fn map_spans_keeps_the_order() {
    let spans = vec![code("1"), text("2"), code("3")];
    assert_eq!(
        map_spans(spans, &markers(), plain()),
        vec![text("<H>1<R>\x1b[0m"), text("2"), text("<H>3<R>\x1b[0m")]
    );
    assert_eq!(map_spans(Vec::new(), &markers(), plain()), Vec::new());
}

#[test]
fn highlight_code_uses_block_mode() {
    assert_eq!(highlight_code("a\nb\n", &None, &markers()), "<H>a\nb\n<R>");
}

#[test]
fn code_block_becomes_literal_text() {
    let block = Block::CodeBlock(Some("rust".to_string()), "let x = 1;".to_string());
    assert_eq!(map_block(block, &markers(), 64), Block::Raw("<H>let x = 1;<R>".to_string()));
}

#[test]
fn map_block_goes_through_every_kind_of_block() {
    let h = markers();
    assert_eq!(
        map_block(Block::Header(vec![code("h")], 3), &h, 1),
        Block::Header(vec![text("<H>h<R>\x1b[0m")], 3)
    );
    assert_eq!(
        map_block(Block::Paragraph(vec![code("p")]), &h, 1),
        Block::Paragraph(vec![text("<H>p<R>\x1b[0m")])
    );
    assert_eq!(
        map_block(Block::Blockquote(vec![Block::Paragraph(vec![code("q")])]), &h, 1),
        Block::Blockquote(vec![Block::Paragraph(vec![text("<H>q<R>\x1b[0m")])])
    );
    assert_eq!(
        map_block(Block::OrderedList(vec![ListItem::Simple(vec![code("o")])], 7), &h, 0),
        Block::OrderedList(vec![ListItem::Simple(vec![text("<H>o<R>\x1b[0m")])], 7)
    );
    assert_eq!(
        map_block(
            Block::UnorderedList(vec![ListItem::Paragraph(vec![Block::CodeBlock(
                None,
                "u".to_string()
            )])]),
            &h,
            1
        ),
        Block::UnorderedList(vec![ListItem::Paragraph(vec![Block::Raw("<H>u<R>".to_string())])])
    );
    assert_eq!(map_block(Block::Raw("r".to_string()), &h, 1), Block::Raw("r".to_string()));
    assert_eq!(map_block(Block::HorizontalRule, &h, 1), Block::HorizontalRule);
}

#[test]
fn containers_beyond_the_depth_are_not_entered() {
    let h = markers();
    let quote = Block::Blockquote(vec![Block::Paragraph(vec![code("q")])]);
    assert_eq!(
        map_block(quote, &h, 0),
        Block::Blockquote(vec![Block::Paragraph(vec![code("q")])])
    );
    let item = ListItem::Paragraph(vec![Block::Paragraph(vec![code("i")])]);
    assert_eq!(
        map_item(item, &h, 0),
        ListItem::Paragraph(vec![Block::Paragraph(vec![code("i")])])
    );
}

#[test]
fn map_blocks_and_items_keep_the_order() {
    let h = markers();
    let blocks = vec![Block::Raw("a".to_string()), Block::CodeBlock(None, "b".to_string())];
    assert_eq!(
        map_blocks(blocks, &h, 2),
        vec![Block::Raw("a".to_string()), Block::Raw("<H>b<R>".to_string())]
    );
    let items = vec![ListItem::Simple(vec![code("a")]), ListItem::Simple(vec![text("b")])];
    assert_eq!(
        map_items(items, &h, 2),
        vec![ListItem::Simple(vec![text("<H>a<R>\x1b[0m")]), ListItem::Simple(vec![text("b")])]
    );
}

#[test]
fn render_decorates_and_lays_out() {
    let document = vec![
        Block::Paragraph(vec![text("see "), code("x"), text(" here")]),
        Block::Blockquote(vec![Block::CodeBlock(None, "a\nb".to_string())]),
    ];
    let out = render(document, &markers(), &RenderOptions::new(Some(40)));
    assert_eq!(out.text, "see <H>x<R>\x1b[0m here\n\n> <H>a\n> b<R>\n> \n");
    assert!(out.diagnostics.is_empty());
}

#[test]
fn render_reports_what_it_leaves_out() {
    let mut options = RenderOptions::new(None);
    options.max_depth = 0;
    let document = vec![
        Block::Blockquote(vec![Block::CodeBlock(None, "hidden".to_string())]),
        Block::CodeBlock(None, "shown".to_string()),
    ];
    let out = render(document, &markers(), &options);
    assert_eq!(out.text, "<H>shown<R>\n\n");
    assert_eq!(out.diagnostics, vec![Diagnostic::DepthExceeded(vec![0])]);
}

#[test]
fn render_with_syntect_colours_code_and_resets_once() {
    let h = SyntectHighlighter::load("rs", "base16-eighties.dark").unwrap();
    let document = vec![
        Block::Paragraph(vec![text("call "), code("f()"), text(" now")]),
        Block::CodeBlock(Some("rust".to_string()), "fn f() {}\n".to_string()),
    ];
    let out = render(document, &h, &RenderOptions::new(Some(80)));
    assert!(out.text.starts_with("call \x1b[48;2;"));
    assert!(out.text.contains("\x1b[0m now\n\n"));
    assert!(out.text.ends_with("\n\x1b[0m\n\n"));
    assert_eq!(out.text.matches("\x1b[0m").count(), 2);
}

#[test]
fn render_inline_decorates_and_renders() {
    let spans = vec![text("a "), Span::Strong(vec![code("b")]), Span::Break, text("c")];
    assert_eq!(
        render_inline(spans, &markers()),
        "a \x1b[1m<H>b<R>\x1b[0m\x1b[1m\x1b[0m\nc"
    );
}

#[test]
fn render_inline_of_text_is_the_text() {
    let spans = vec![text("a "), text("b"), text(""), text(" c")];
    assert_eq!(render_inline(spans, &markers()), "a b c");
}
