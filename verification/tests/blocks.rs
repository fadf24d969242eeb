use termdown::blocks::{
    render_block, render_blocks, render_document, render_item, render_items, Diagnostic,
    RenderOptions, DEFAULT_MAX_DEPTH,
};
use termdown::document::{Block, ListItem, Span};

fn text(s: &str) -> Span {
    Span::Text(s.to_string())
}

fn paragraph(s: &str) -> Block {
    Block::Paragraph(vec![text(s)])
}

fn options(width: Option<usize>, max_depth: usize) -> RenderOptions {
    let mut out = RenderOptions::new(width);
    out.max_depth = max_depth;
    out
}

#[test]
fn default_options() {
    let o = RenderOptions::new(Some(80));
    assert_eq!(o.width, Some(80));
    assert_eq!(o.max_depth, 64);
    assert_eq!(DEFAULT_MAX_DEPTH, 64);
    assert_eq!(o.quote_marker, "> ");
    assert_eq!(o.list_marker, "* ");
}

#[test]
fn header_renders_like_a_paragraph() {
    let document = vec![Block::Header(vec![text("Title here")], 2)];
    let out = render_document(&document, &RenderOptions::new(Some(5)));
    assert_eq!(out.text, "Title\nhere\n\n");
}

#[test]
fn blocks_are_separated_by_one_blank_line() {
    let document = vec![paragraph("one"), paragraph("two")];
    let out = render_document(&document, &RenderOptions::new(Some(80)));
    assert_eq!(out.text, "one\n\ntwo\n\n");
}

#[test]
fn empty_document_renders_to_nothing() {
    let out = render_document(&Vec::new(), &RenderOptions::new(Some(80)));
    assert_eq!(out.text, "");
    assert!(out.diagnostics.is_empty());
}

#[test]
fn raw_text_is_not_reflowed() {
    let document = vec![Block::Raw("a   b\n  c".to_string())];
    let out = render_document(&document, &RenderOptions::new(Some(3)));
    assert_eq!(out.text, "a   b\n  c\n\n");
}

#[test]
fn undecorated_code_block_is_shown_as_it_is() {
    let document = vec![Block::CodeBlock(Some("rust".to_string()), "fn main() {}\n".to_string())];
    let out = render_document(&document, &RenderOptions::new(Some(4)));
    assert_eq!(out.text, "fn main() {}\n\n\n");
}

#[test]
fn horizontal_rule_fills_the_width() {
    let document = vec![Block::HorizontalRule];
    let out = render_document(&document, &RenderOptions::new(Some(12)));
    assert_eq!(out.text, "------------\n\n");
}

#[test]
fn horizontal_rule_falls_back_without_a_width() {
    let document = vec![Block::HorizontalRule];
    let out = render_document(&document, &RenderOptions::new(None));
    assert_eq!(out.text, "---\n\n");
}

#[test]
fn horizontal_rule_in_a_quotation_leaves_room_for_the_marker() {
    let document = vec![Block::Blockquote(vec![Block::HorizontalRule])];
    let out = render_document(&document, &RenderOptions::new(Some(10)));
    assert_eq!(out.text, "> --------\n> \n");
}

#[test]
fn nested_quotations_add_their_markers() {
    let document = vec![Block::Blockquote(vec![
        paragraph("outer"),
        Block::Blockquote(vec![paragraph("inner")]),
    ])];
    let out = render_document(&document, &RenderOptions::new(Some(40)));
    assert_eq!(out.text, "> outer\n> \n> > inner\n> > \n");
}

#[test]
fn quotation_wraps_to_what_the_marker_leaves() {
    let document = vec![Block::Blockquote(vec![paragraph("aaaa bbbb cccc")])];
    let out = render_document(&document, &RenderOptions::new(Some(11)));
    assert_eq!(out.text, "> aaaa bbbb\n> cccc\n> \n");
}

#[test]
fn quotation_marks_code_and_raw_lines_too() {
    let document = vec![Block::Blockquote(vec![
        Block::Raw("a\n\nb".to_string()),
        Block::CodeBlock(None, "x\ny\n".to_string()),
    ])];
    let out = render_document(&document, &RenderOptions::new(None));
    assert_eq!(out.text, "> a\n> \n> b\n> \n> x\n> y\n> \n> \n");
    let body = out.text.strip_suffix('\n').unwrap();
    assert!(body.split('\n').all(|line| line.starts_with("> ")));
}

#[test]
fn quote_marker_can_be_changed() {
    let mut o = RenderOptions::new(Some(20));
    o.quote_marker = "\u{2502} ".to_string();
    let document = vec![Block::Blockquote(vec![paragraph("a b c")])];
    let out = render_document(&document, &o);
    assert_eq!(out.text, "\u{2502} a b c\n\u{2502} \n");
}

#[test]
fn list_item_hangs_under_its_marker() {
    let document = vec![Block::UnorderedList(vec![ListItem::Simple(vec![text(
        "alpha beta gamma",
    )])])];
    let out = render_document(&document, &RenderOptions::new(Some(8)));
    assert_eq!(out.text, "* alpha\n  beta\n  gamma\n\n");
}

#[test]
fn ordered_list_uses_the_same_marker() {
    let document = vec![Block::OrderedList(
        vec![ListItem::Simple(vec![text("one")]), ListItem::Simple(vec![text("two")])],
        1,
    )];
    let out = render_document(&document, &RenderOptions::new(Some(80)));
    assert_eq!(out.text, "* one\n* two\n\n");
}

#[test]
fn list_item_with_blocks_marks_its_first_line_only() {
    let document = vec![Block::UnorderedList(vec![
        ListItem::Paragraph(vec![paragraph("first"), paragraph("second")]),
        ListItem::Simple(vec![text("third")]),
    ])];
    let out = render_document(&document, &RenderOptions::new(Some(80)));
    assert_eq!(out.text, "* first\n  \n  second\n  \n* third\n\n");
}

#[test]
fn list_in_a_quotation_keeps_the_quote_marker_on_every_line() {
    let document = vec![Block::Blockquote(vec![Block::UnorderedList(vec![ListItem::Simple(
        vec![text("alpha beta")],
    )])])];
    let out = render_document(&document, &RenderOptions::new(Some(9)));
    assert_eq!(out.text, "> * alpha\n>   beta\n> \n");
}

#[test]
fn empty_list_is_one_blank_line() {
    let document = vec![Block::UnorderedList(Vec::new())];
    let out = render_document(&document, &RenderOptions::new(Some(80)));
    assert_eq!(out.text, "\n");
}

#[test]
fn wide_list_marker_hangs_by_its_columns() {
    let mut o = RenderOptions::new(Some(8));
    o.list_marker = "\u{4f60} ".to_string();
    let document = vec![Block::UnorderedList(vec![ListItem::Simple(vec![text("aaaa bbbb")])])];
    let out = render_document(&document, &o);
    assert_eq!(out.text, "\u{4f60} aaaa\n   bbbb\n\n");
}

#[test]
fn width_smaller_than_the_marker_is_clamped_to_one_column() {
    let document = vec![Block::Blockquote(vec![paragraph("ab")])];
    let out = render_document(&document, &RenderOptions::new(Some(1)));
    assert_eq!(out.text, "> a\n> b\n> \n");
}

#[test]
fn container_beyond_the_depth_is_left_out_and_reported() {
    let document = vec![
        paragraph("before"),
        Block::Blockquote(vec![
            paragraph("kept"),
            Block::Blockquote(vec![paragraph("too deep")]),
            paragraph("sibling"),
        ]),
        paragraph("after"),
    ];
    let out = render_document(&document, &options(Some(80), 1));
    assert_eq!(out.text, "before\n\n> kept\n> \n> sibling\n> \nafter\n\n");
    assert_eq!(out.diagnostics, vec![Diagnostic::DepthExceeded(vec![1, 1])]);
}

#[test]
fn depth_zero_enters_no_container() {
    let document = vec![
        Block::Blockquote(vec![paragraph("quoted")]),
        Block::UnorderedList(vec![
            ListItem::Simple(vec![text("simple")]),
            ListItem::Paragraph(vec![paragraph("blocks")]),
        ]),
    ];
    let out = render_document(&document, &options(Some(80), 0));
    assert_eq!(out.text, "* simple\n\n");
    assert_eq!(
        out.diagnostics,
        vec![Diagnostic::DepthExceeded(vec![0]), Diagnostic::DepthExceeded(vec![1, 1])]
    );
}

#[test]
fn default_depth_allows_sixty_four_containers() {
    let mut block = paragraph("x");
    for _ in 0..64 {
        block = Block::Blockquote(vec![block]);
    }
    let out = render_document(&vec![block], &RenderOptions::new(None));
    assert!(out.diagnostics.is_empty());
    assert_eq!(out.text, format!("{}x\n{}\n", "> ".repeat(64), "> ".repeat(64)));

    let mut deeper = paragraph("x");
    for _ in 0..65 {
        deeper = Block::Blockquote(vec![deeper]);
    }
    let out = render_document(&vec![deeper], &RenderOptions::new(None));
    assert_eq!(out.text, "");
    assert_eq!(out.diagnostics, vec![Diagnostic::DepthExceeded(vec![0; 65])]);
}

#[test]
fn render_block_takes_the_markers_it_is_given() {
    let o = RenderOptions::new(Some(20));
    let out = render_block(&paragraph("aa bb"), &o, "1. ", "   ", 3, &Vec::new());
    assert_eq!(out.text, "1. aa bb\n   \n");
}

#[test]
fn render_blocks_hands_first_to_the_first_line_only() {
    let o = RenderOptions::new(None);
    let blocks = vec![Block::Blockquote(Vec::new()), paragraph("a"), paragraph("b")];
    let out = render_blocks(&blocks, &o, "+ ", "  ", 3, &Vec::new());
    assert_eq!(out.text, "+ a\n  \n  b\n  \n");
}

#[test]
fn render_items_and_item() {
    let o = RenderOptions::new(None);
    let items = vec![ListItem::Simple(vec![text("a\nb")]), ListItem::Simple(Vec::new())];
    let out = render_items(&items, &o, "", "", 0, &Vec::new());
    assert_eq!(out.text, "* a\n  b\n* \n");
    let one = render_item(&items[0], &o, "> ", "> ", 0, &vec![4]);
    assert_eq!(one.text, "> * a\n>   b\n");
    let deep = render_item(&ListItem::Paragraph(Vec::new()), &o, "", "", 0, &vec![4, 2]);
    assert_eq!(deep.text, "");
    assert_eq!(deep.diagnostics, vec![Diagnostic::DepthExceeded(vec![4, 2])]);
}
