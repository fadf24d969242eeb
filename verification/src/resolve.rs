//! Decorating the code of a document before it is rendered.
//!
//! Rendering is done in two steps. The first, in this module, hands
//! every piece of code to the highlighter and puts what comes back in
//! its place: inline code becomes text, a fenced block becomes literal
//! text. The second, the renderers, then works on a tree that holds no
//! code and needs no highlighter. What a highlighter returns is its own
//! business, so the contracts of this step say how the new tree relates
//! to the old one and to the highlighter's contract.

use crate::blocks::{
    block_failures, blocks_failures, diagnostic_paths, document_failures, item_failures,
    items_failures, lemma_literal_blocks_verbatim, lemma_quotation_lines_marked, render_document,
    rendered_block, rendered_blocks, rendered_document, OptionsView, RenderOptions, Rendered,
};
use crate::document::{
    block_views, item_views, lemma_block_children, lemma_item_children, lemma_span_children,
    span_views, Block, BlockView, ListItem, ListItemView, Span, SpanView,
};
use crate::highlight::{close_code, closed_code, CodeHighlighter, HighlightMode};
use crate::lines::whole_lines;
use crate::spans::{
    all_text, lemma_text_spans_concatenate, render_spans, rendered_content, text_contents,
};
use crate::style::{emphasis_style, plain_style, restored, strong_style, TextStyle};
use crate::wrap::PrefixView;
use vstd::prelude::*;

verus! {

/// Whether `out` is `span` with its inline code decorated by the
/// highlighter, where the style `active` is in force: each code span has
/// become a text span that holds what the highlighter returned for it in
/// inline mode, closed by the reset sequence and followed by the opening
/// sequence of the style that is in force around it; everything else is
/// as it was.
pub open spec fn span_resolved<H: CodeHighlighter>(
    h: &H,
    span: SpanView,
    active: TextStyle,
    out: SpanView,
) -> bool
    decreases span,
{
    match span {
        SpanView::Code(code) => out is Text && code_resolved(h, code, active, out->Text_0),
        SpanView::Emphasis(children) => {
            &&& out is Emphasis
            &&& spans_resolved(h, children, active.with(emphasis_style()), out->Emphasis_0)
        },
        SpanView::Strong(children) => {
            &&& out is Strong
            &&& spans_resolved(h, children, active.with(strong_style()), out->Strong_0)
        },
        _ => out == span,
    }
}

/// Whether `text` is what the highlighter returned for `code` in inline
/// mode, closed by the reset sequence, with the opening sequence of
/// `active` after it. The reset ends the colours of the code and with
/// them the style around it, which is therefore switched on again.
pub open spec fn code_resolved<H: CodeHighlighter>(
    h: &H,
    code: Seq<char>,
    active: TextStyle,
    text: Seq<char>,
) -> bool {
    exists|decorated: Seq<char>|
        #[trigger] h.produces(code, HighlightMode::Inline, decorated) && text == closed_code(
            decorated,
        ) + active.opening()
}

/// Whether `outs` are `spans` with their inline code decorated, one for
/// one.
pub open spec fn spans_resolved<H: CodeHighlighter>(
    h: &H,
    spans: Seq<SpanView>,
    active: TextStyle,
    outs: Seq<SpanView>,
) -> bool
    decreases spans,
{
    &&& outs.len() == spans.len()
    &&& forall|i: int|
        0 <= i < spans.len() ==> span_resolved(h, spans[i], active, #[trigger] outs[i])
}

/// Decorates the inline code of one span, which stands where the style
/// `active` is in force, and leaves the rest of it as it is.
pub fn map_span<H: CodeHighlighter>(span: Span, highlighter: &H, active: TextStyle) -> (out: Span)
    ensures
        span_resolved(highlighter, span@, active, out@),
    decreases span,
{
    proof {
        lemma_span_children(span);
    }
    match span {
        Span::Code(code) => {
            let decorated = highlighter.highlight(code.as_str(), &None, HighlightMode::Inline);
            Span::Text(restored(close_code(decorated), active))
        },
        Span::Emphasis(children) => {
            let inner = active.merged(TextStyle::emphasis());
            let mapped = map_spans(children, highlighter, inner);
            let out = Span::Emphasis(mapped);
            proof {
                lemma_span_children(out);
            }
            out
        },
        Span::Strong(children) => {
            let inner = active.merged(TextStyle::strong());
            let mapped = map_spans(children, highlighter, inner);
            let out = Span::Strong(mapped);
            proof {
                lemma_span_children(out);
            }
            out
        },
        other => other,
    }
}

/// Decorates the inline code of every span of a sequence, which stands
/// where the style `active` is in force.
pub fn map_spans<H: CodeHighlighter>(
    spans: Vec<Span>,
    highlighter: &H,
    active: TextStyle,
) -> (out: Vec<Span>)
    ensures
        spans_resolved(highlighter, span_views(spans@), active, span_views(out@)),
    decreases spans,
{
    let mut out: Vec<Span> = Vec::new();
    let ghost all = spans@;
    for span in it: spans
        invariant
            it.seq() == all,
            out@.len() == it.index(),
            forall|j: int|
                0 <= j < it.index() ==> span_resolved(
                    highlighter,
                    all[j]@,
                    active,
                    #[trigger] out@[j]@,
                ),
    {
        let mapped = map_span(span, highlighter, active);
        out.push(mapped);
    }
    out
}

/// Whether `out` is `block` with its code decorated by the highlighter.
///
/// Inline code is decorated as [`span_resolved`] says. A fenced block
/// has become literal text that holds what the highlighter returned for
/// its code in block mode. A container is entered only while
/// `remaining` is not used up; one that is not entered is as it was.
pub open spec fn block_resolved<H: CodeHighlighter>(
    h: &H,
    block: BlockView,
    out: BlockView,
    remaining: nat,
) -> bool
    decreases block,
{
    match block {
        BlockView::Header(spans, level) => {
            &&& out is Header
            &&& out->Header_1 == level
            &&& spans_resolved(h, spans, plain_style(), out->Header_0)
        },
        BlockView::Paragraph(spans) => {
            &&& out is Paragraph
            &&& spans_resolved(h, spans, plain_style(), out->Paragraph_0)
        },
        BlockView::Blockquote(children) => if remaining == 0 {
            out == block
        } else {
            &&& out is Blockquote
            &&& blocks_resolved(h, children, out->Blockquote_0, (remaining - 1) as nat)
        },
        BlockView::CodeBlock(_language, code) => {
            &&& out is Raw
            &&& h.produces(code, HighlightMode::Block, out->Raw_0)
        },
        BlockView::OrderedList(items, start) => {
            &&& out is OrderedList
            &&& out->OrderedList_1 == start
            &&& items_resolved(h, items, out->OrderedList_0, remaining)
        },
        BlockView::UnorderedList(items) => {
            &&& out is UnorderedList
            &&& items_resolved(h, items, out->UnorderedList_0, remaining)
        },
        BlockView::Raw(_text) => out == block,
        BlockView::HorizontalRule => out == block,
    }
}

/// Whether `outs` are `blocks` with their code decorated, one for one.
pub open spec fn blocks_resolved<H: CodeHighlighter>(
    h: &H,
    blocks: Seq<BlockView>,
    outs: Seq<BlockView>,
    remaining: nat,
) -> bool
    decreases blocks,
{
    &&& outs.len() == blocks.len()
    &&& forall|i: int|
        0 <= i < blocks.len() ==> block_resolved(h, blocks[i], #[trigger] outs[i], remaining)
}

/// Whether `out` is `item` with its code decorated by the highlighter.
pub open spec fn item_resolved<H: CodeHighlighter>(
    h: &H,
    item: ListItemView,
    out: ListItemView,
    remaining: nat,
) -> bool
    decreases item,
{
    match item {
        ListItemView::Simple(spans) => {
            &&& out is Simple
            &&& spans_resolved(h, spans, plain_style(), out->Simple_0)
        },
        ListItemView::Paragraph(blocks) => if remaining == 0 {
            out == item
        } else {
            &&& out is Paragraph
            &&& blocks_resolved(h, blocks, out->Paragraph_0, (remaining - 1) as nat)
        },
    }
}

/// Whether `outs` are `items` with their code decorated, one for one.
pub open spec fn items_resolved<H: CodeHighlighter>(
    h: &H,
    items: Seq<ListItemView>,
    outs: Seq<ListItemView>,
    remaining: nat,
) -> bool
    decreases items,
{
    &&& outs.len() == items.len()
    &&& forall|i: int|
        0 <= i < items.len() ==> item_resolved(h, items[i], #[trigger] outs[i], remaining)
}

/// Decorates a fenced block of code: hands it to the highlighter in
/// block mode.
pub fn highlight_code<H: CodeHighlighter>(
    code: &str,
    language: &Option<String>,
    highlighter: &H,
) -> (out: String)
    ensures
        highlighter.produces(code@, HighlightMode::Block, out@),
{
    highlighter.highlight(code, language, HighlightMode::Block)
}

/// Decorates the code of one block. At most `remaining` containers are
/// entered on the way down; what stands deeper is left as it is.
pub fn map_block<H: CodeHighlighter>(block: Block, highlighter: &H, remaining: usize) -> (out:
    Block)
    ensures
        block_resolved(highlighter, block@, out@, remaining as nat),
    decreases block,
{
    proof {
        lemma_block_children(block);
    }
    match block {
        Block::Header(spans, level) => Block::Header(
            map_spans(spans, highlighter, TextStyle::plain()),
            level,
        ),
        Block::Paragraph(spans) => Block::Paragraph(
            map_spans(spans, highlighter, TextStyle::plain()),
        ),
        Block::Blockquote(children) => {
            if remaining == 0 {
                Block::Blockquote(children)
            } else {
                let out = Block::Blockquote(map_blocks(children, highlighter, remaining - 1));
                proof {
                    lemma_block_children(out);
                }
                out
            }
        },
        Block::CodeBlock(language, code) => Block::Raw(
            highlight_code(code.as_str(), &language, highlighter),
        ),
        Block::OrderedList(items, start) => {
            let out = Block::OrderedList(map_items(items, highlighter, remaining), start);
            proof {
                lemma_block_children(out);
            }
            out
        },
        Block::UnorderedList(items) => {
            let out = Block::UnorderedList(map_items(items, highlighter, remaining));
            proof {
                lemma_block_children(out);
            }
            out
        },
        other => other,
    }
}

/// Decorates the code of every block of a sequence.
pub fn map_blocks<H: CodeHighlighter>(
    blocks: Vec<Block>,
    highlighter: &H,
    remaining: usize,
) -> (out: Vec<Block>)
    ensures
        blocks_resolved(highlighter, block_views(blocks@), block_views(out@), remaining as nat),
    decreases blocks,
{
    let mut out: Vec<Block> = Vec::new();
    let ghost all = blocks@;
    for block in it: blocks
        invariant
            it.seq() == all,
            out@.len() == it.index(),
            forall|j: int|
                0 <= j < it.index() ==> block_resolved(
                    highlighter,
                    all[j]@,
                    #[trigger] out@[j]@,
                    remaining as nat,
                ),
    {
        let mapped = map_block(block, highlighter, remaining);
        out.push(mapped);
    }
    out
}

/// Decorates the code of one list item.
pub fn map_item<H: CodeHighlighter>(item: ListItem, highlighter: &H, remaining: usize) -> (out:
    ListItem)
    ensures
        item_resolved(highlighter, item@, out@, remaining as nat),
    decreases item,
{
    proof {
        lemma_item_children(item);
    }
    match item {
        ListItem::Simple(spans) => ListItem::Simple(
            map_spans(spans, highlighter, TextStyle::plain()),
        ),
        ListItem::Paragraph(blocks) => {
            if remaining == 0 {
                ListItem::Paragraph(blocks)
            } else {
                let out = ListItem::Paragraph(map_blocks(blocks, highlighter, remaining - 1));
                proof {
                    lemma_item_children(out);
                }
                out
            }
        },
    }
}

/// Decorates the code of every item of a list.
pub fn map_items<H: CodeHighlighter>(
    items: Vec<ListItem>,
    highlighter: &H,
    remaining: usize,
) -> (out: Vec<ListItem>)
    ensures
        items_resolved(highlighter, item_views(items@), item_views(out@), remaining as nat),
    decreases items,
{
    let mut out: Vec<ListItem> = Vec::new();
    let ghost all = items@;
    for item in it: items
        invariant
            it.seq() == all,
            out@.len() == it.index(),
            forall|j: int|
                0 <= j < it.index() ==> item_resolved(
                    highlighter,
                    all[j]@,
                    #[trigger] out@[j]@,
                    remaining as nat,
                ),
    {
        let mapped = map_item(item, highlighter, remaining);
        out.push(mapped);
    }
    out
}

/// Whether `text` is what the spans render to once the highlighter has
/// decorated their code.
pub open spec fn spans_rendered_with<H: CodeHighlighter>(
    h: &H,
    spans: Seq<SpanView>,
    text: Seq<char>,
) -> bool {
    exists|resolved: Seq<SpanView>|
        #[trigger] spans_resolved(h, spans, plain_style(), resolved) && text == rendered_content(
            resolved,
        )
}

/// Decorates the code of a sequence of spans with the highlighter and
/// renders the result into one string.
pub fn render_inline<H: CodeHighlighter>(spans: Vec<Span>, highlighter: &H) -> (out: String)
    ensures
        spans_rendered_with(highlighter, span_views(spans@), out@),
{
    let resolved = map_spans(spans, highlighter, TextStyle::plain());
    render_spans(&resolved, TextStyle::plain())
}

/// Spans that hold text only are not changed by any highlighter, and
/// render to the concatenation of their contents.
pub proof fn lemma_text_spans_render_with<H: CodeHighlighter>(
    h: &H,
    spans: Seq<SpanView>,
    text: Seq<char>,
)
    requires
        all_text(spans),
        spans_rendered_with(h, spans, text),
    ensures
        text == text_contents(spans),
{
    let resolved = choose|resolved: Seq<SpanView>|
        #[trigger] spans_resolved(h, spans, plain_style(), resolved) && text == rendered_content(
            resolved,
        );
    assert(resolved =~= spans);
    lemma_text_spans_concatenate(spans, plain_style(), PrefixView::Plain);
}

/// Decorating code changes nothing in what is left out: the containers
/// that stand too deep in the decorated block are those that stand too
/// deep in the block itself.
pub proof fn lemma_resolved_block_failures<H: CodeHighlighter>(
    h: &H,
    block: BlockView,
    out: BlockView,
    path: Seq<nat>,
    remaining: nat,
)
    requires
        block_resolved(h, block, out, remaining),
    ensures
        block_failures(out, path, remaining) == block_failures(block, path, remaining),
    decreases block,
{
    match block {
        BlockView::Blockquote(children) => {
            if remaining > 0 {
                lemma_resolved_blocks_failures(
                    h,
                    children,
                    out->Blockquote_0,
                    path,
                    (remaining - 1) as nat,
                );
            }
        },
        BlockView::OrderedList(items, _start) => {
            lemma_resolved_items_failures(h, items, out->OrderedList_0, path, remaining);
        },
        BlockView::UnorderedList(items) => {
            lemma_resolved_items_failures(h, items, out->UnorderedList_0, path, remaining);
        },
        _ => {},
    }
}

/// Decorating code changes nothing in what is left out of a sequence of
/// blocks.
pub proof fn lemma_resolved_blocks_failures<H: CodeHighlighter>(
    h: &H,
    blocks: Seq<BlockView>,
    outs: Seq<BlockView>,
    path: Seq<nat>,
    remaining: nat,
)
    requires
        blocks_resolved(h, blocks, outs, remaining),
    ensures
        blocks_failures(outs, path, remaining) == blocks_failures(blocks, path, remaining),
    decreases blocks,
{
    if blocks.len() > 0 {
        let last = blocks.len() - 1;
        assert(block_resolved(h, blocks[last], outs[last], remaining));
        assert forall|i: int| 0 <= i < last implies block_resolved(
            h,
            blocks.drop_last()[i],
            #[trigger] outs.drop_last()[i],
            remaining,
        ) by {
            assert(block_resolved(h, blocks[i], outs[i], remaining));
        }
        lemma_resolved_blocks_failures(h, blocks.drop_last(), outs.drop_last(), path, remaining);
        lemma_resolved_block_failures(
            h,
            blocks.last(),
            outs.last(),
            path.push(last as nat),
            remaining,
        );
    }
}

/// Decorating code changes nothing in what is left out of a list item.
proof fn lemma_resolved_item_failures<H: CodeHighlighter>(
    h: &H,
    item: ListItemView,
    out: ListItemView,
    path: Seq<nat>,
    remaining: nat,
)
    requires
        item_resolved(h, item, out, remaining),
    ensures
        item_failures(out, path, remaining) == item_failures(item, path, remaining),
    decreases item,
{
    match item {
        ListItemView::Simple(_spans) => {},
        ListItemView::Paragraph(blocks) => {
            if remaining > 0 {
                lemma_resolved_blocks_failures(
                    h,
                    blocks,
                    out->Paragraph_0,
                    path,
                    (remaining - 1) as nat,
                );
            }
        },
    }
}

/// Decorating code changes nothing in what is left out of the items of
/// a list.
proof fn lemma_resolved_items_failures<H: CodeHighlighter>(
    h: &H,
    items: Seq<ListItemView>,
    outs: Seq<ListItemView>,
    path: Seq<nat>,
    remaining: nat,
)
    requires
        items_resolved(h, items, outs, remaining),
    ensures
        items_failures(outs, path, remaining) == items_failures(items, path, remaining),
    decreases items,
{
    if items.len() > 0 {
        let last = items.len() - 1;
        assert(item_resolved(h, items[last], outs[last], remaining));
        assert forall|i: int| 0 <= i < last implies item_resolved(
            h,
            items.drop_last()[i],
            #[trigger] outs.drop_last()[i],
            remaining,
        ) by {
            assert(item_resolved(h, items[i], outs[i], remaining));
        }
        lemma_resolved_items_failures(h, items.drop_last(), outs.drop_last(), path, remaining);
        lemma_resolved_item_failures(
            h,
            items.last(),
            outs.last(),
            path.push(last as nat),
            remaining,
        );
    }
}

/// Whether `text` and `failures` are what the document renders to once
/// the highlighter has decorated its code.
pub open spec fn rendered_with<H: CodeHighlighter>(
    h: &H,
    document: Seq<BlockView>,
    options: OptionsView,
    text: Seq<char>,
    failures: Seq<Seq<nat>>,
) -> bool {
    &&& failures == document_failures(document, options)
    &&& exists|resolved: Seq<BlockView>|
        #[trigger] blocks_resolved(h, document, resolved, options.max_depth) && text
            == rendered_document(resolved, options)
}

/// A fenced block that is all of a document is written exactly as the
/// highlighter returned it, not reflowed, with one blank line after it.
pub proof fn lemma_code_block_unwrapped<H: CodeHighlighter>(
    h: &H,
    language: Option<Seq<char>>,
    code: Seq<char>,
    options: OptionsView,
    text: Seq<char>,
    failures: Seq<Seq<nat>>,
)
    requires
        rendered_with(h, seq![BlockView::CodeBlock(language, code)], options, text, failures),
    ensures
        exists|decorated: Seq<char>|
            #[trigger] h.produces(code, HighlightMode::Block, decorated) && text == decorated
                + seq!['\n', '\n'],
        failures == Seq::<Seq<nat>>::empty(),
{
    let document = seq![BlockView::CodeBlock(language, code)];
    let resolved = choose|resolved: Seq<BlockView>|
        #[trigger] blocks_resolved(h, document, resolved, options.max_depth) && text
            == rendered_document(resolved, options);
    let none = Seq::<char>::empty();
    let top = Seq::<nat>::empty();
    let depth = options.max_depth;
    let block = resolved[0];
    let decorated = block->Raw_0;
    lemma_literal_blocks_verbatim(decorated, None, options, depth);
    assert(rendered_blocks(resolved.drop_last(), options, none, none, depth) == none);
    assert(none + rendered_block(block, options, none, none, depth) =~= decorated + seq![
        '\n',
        '\n',
    ]);
    assert(blocks_failures(document.drop_last(), top, depth) == Seq::<Seq<nat>>::empty());
    assert(block_failures(document[0], top.push(0), depth) == Seq::<Seq<nat>>::empty());
}

/// A quotation that is all of a document is written with the quote
/// marker at the start of every line, whatever the highlighter makes of
/// the code in it.
pub proof fn lemma_quotation_marked_with<H: CodeHighlighter>(
    h: &H,
    children: Seq<BlockView>,
    options: OptionsView,
    text: Seq<char>,
    failures: Seq<Seq<nat>>,
)
    requires
        options.wf(),
        rendered_with(h, seq![BlockView::Blockquote(children)], options, text, failures),
    ensures
        whole_lines(text, options.quote_marker, options.quote_marker),
{
    let document = seq![BlockView::Blockquote(children)];
    let resolved = choose|resolved: Seq<BlockView>|
        #[trigger] blocks_resolved(h, document, resolved, options.max_depth) && text
            == rendered_document(resolved, options);
    let none = Seq::<char>::empty();
    let depth = options.max_depth;
    let block = resolved[0];
    assert(block_resolved(h, document[0], block, depth));
    assert(block is Blockquote);
    lemma_quotation_lines_marked(block->Blockquote_0, options, none, none, depth);
    assert(rendered_blocks(resolved.drop_last(), options, none, none, depth) == none);
    assert(none + rendered_block(block, options, none, none, depth) =~= rendered_block(
        block,
        options,
        none,
        none,
        depth,
    ));
    assert(none + options.quote_marker =~= options.quote_marker);
}

/// Decorates the code of a document with the highlighter and renders
/// the result.
pub fn render<H: CodeHighlighter>(
    document: Vec<Block>,
    highlighter: &H,
    options: &RenderOptions,
) -> (out: Rendered)
    ensures
        rendered_with(
            highlighter,
            block_views(document@),
            options@,
            out.text@,
            diagnostic_paths(out.diagnostics@),
        ),
{
    let ghost before = block_views(document@);
    let resolved = map_blocks(document, highlighter, options.max_depth);
    proof {
        lemma_resolved_blocks_failures(
            highlighter,
            before,
            block_views(resolved@),
            Seq::empty(),
            options@.max_depth,
        );
    }
    render_document(&resolved, options)
}

} // verus!
