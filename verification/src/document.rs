//! The document tree: blocks, list items and inline spans.
//!
//! A tree is plain data. It is built once, read by the renderers and
//! never changed by them. Each type has a view in which every string is
//! a sequence of characters and every vector a sequence of views; the
//! renderers' contracts are stated over those views.

use vstd::prelude::*;

verus! {

/// An inline content unit within a block.
#[derive(Debug, PartialEq)]
pub enum Span {
    /// A hard line break.
    Break,
    /// A run of literal text.
    Text(String),
    /// Inline code.
    Code(String),
    /// A link: its text, its target and an optional title.
    Link(String, String, Option<String>),
    /// An image: its alternative text, its source and an optional title.
    Image(String, String, Option<String>),
    /// Emphasised content.
    Emphasis(Vec<Span>),
    /// Strongly emphasised content.
    Strong(Vec<Span>),
}

/// One entry of a list.
#[derive(Debug, PartialEq)]
pub enum ListItem {
    /// An item that holds inline content only.
    Simple(Vec<Span>),
    /// An item that holds a sequence of blocks.
    Paragraph(Vec<Block>),
}

/// A structural unit of the document.
#[derive(Debug, PartialEq)]
pub enum Block {
    /// A heading with its level, from 1 to 6.
    Header(Vec<Span>, usize),
    /// A paragraph of inline content.
    Paragraph(Vec<Span>),
    /// A quotation that holds blocks of its own.
    Blockquote(Vec<Block>),
    /// A fenced region of source code with an optional language tag.
    CodeBlock(Option<String>, String),
    /// A numbered list with the number of its first item.
    OrderedList(Vec<ListItem>, usize),
    /// A bulleted list.
    UnorderedList(Vec<ListItem>),
    /// Literal text that is shown as it is.
    Raw(String),
    /// A divider line.
    HorizontalRule,
}

impl Clone for Span {
    fn clone(&self) -> (out: Span)
        ensures
            out@ == self@,
        decreases self,
    {
        proof {
            lemma_span_children(*self);
        }
        match self {
            Span::Break => Span::Break,
            Span::Text(text) => Span::Text(text.clone()),
            Span::Code(code) => Span::Code(code.clone()),
            Span::Link(text, target, title) => Span::Link(
                text.clone(),
                target.clone(),
                title.clone(),
            ),
            Span::Image(alt, source, title) => Span::Image(
                alt.clone(),
                source.clone(),
                title.clone(),
            ),
            Span::Emphasis(children) => {
                let out = Span::Emphasis(clone_spans(children));
                proof {
                    lemma_span_children(out);
                }
                out
            },
            Span::Strong(children) => {
                let out = Span::Strong(clone_spans(children));
                proof {
                    lemma_span_children(out);
                }
                out
            },
        }
    }
}

/// A copy of a sequence of spans.
pub fn clone_spans(spans: &Vec<Span>) -> (out: Vec<Span>)
    ensures
        span_views(out@) == span_views(spans@),
    decreases spans,
{
    let mut out: Vec<Span> = Vec::new();
    let mut i: usize = 0;
    while i < spans.len()
        invariant
            i <= spans.len(),
            out@.len() == i,
            forall|j: int| 0 <= j < i ==> out@[j]@ == spans@[j]@,
        decreases spans.len() - i,
    {
        out.push(spans[i].clone());
        i = i + 1;
    }
    out
}

/// The mathematical view of a [`Span`].
pub ghost enum SpanView {
    Break,
    Text(Seq<char>),
    Code(Seq<char>),
    Link(Seq<char>, Seq<char>, Option<Seq<char>>),
    Image(Seq<char>, Seq<char>, Option<Seq<char>>),
    Emphasis(Seq<SpanView>),
    Strong(Seq<SpanView>),
}

/// The mathematical view of a [`ListItem`].
pub ghost enum ListItemView {
    Simple(Seq<SpanView>),
    Paragraph(Seq<BlockView>),
}

/// The mathematical view of a [`Block`].
pub ghost enum BlockView {
    Header(Seq<SpanView>, nat),
    Paragraph(Seq<SpanView>),
    Blockquote(Seq<BlockView>),
    CodeBlock(Option<Seq<char>>, Seq<char>),
    OrderedList(Seq<ListItemView>, nat),
    UnorderedList(Seq<ListItemView>),
    Raw(Seq<char>),
    HorizontalRule,
}

/// The view of an optional string.
pub open spec fn option_view(s: Option<String>) -> Option<Seq<char>> {
    match s {
        Some(t) => Some(t@),
        None => None,
    }
}

impl View for Span {
    type V = SpanView;

    open spec fn view(&self) -> SpanView
        decreases self,
    {
        match self {
            Span::Break => SpanView::Break,
            Span::Text(t) => SpanView::Text(t@),
            Span::Code(c) => SpanView::Code(c@),
            Span::Link(t, u, title) => SpanView::Link(t@, u@, option_view(*title)),
            Span::Image(a, u, title) => SpanView::Image(a@, u@, option_view(*title)),
            Span::Emphasis(children) => SpanView::Emphasis(
                Seq::new(
                    children@.len(),
                    |i: int|
                        if 0 <= i < children@.len() {
                            children@[i].view()
                        } else {
                            SpanView::Break
                        },
                ),
            ),
            Span::Strong(children) => SpanView::Strong(
                Seq::new(
                    children@.len(),
                    |i: int|
                        if 0 <= i < children@.len() {
                            children@[i].view()
                        } else {
                            SpanView::Break
                        },
                ),
            ),
        }
    }
}

/// The views of a sequence of spans, in order.
pub open spec fn span_views(spans: Seq<Span>) -> Seq<SpanView> {
    Seq::new(spans.len(), |i: int| spans[i]@)
}

impl View for ListItem {
    type V = ListItemView;

    open spec fn view(&self) -> ListItemView
        decreases self,
    {
        match self {
            ListItem::Simple(spans) => ListItemView::Simple(span_views(spans@)),
            ListItem::Paragraph(blocks) => ListItemView::Paragraph(
                Seq::new(
                    blocks@.len(),
                    |i: int|
                        if 0 <= i < blocks@.len() {
                            blocks@[i].view()
                        } else {
                            BlockView::HorizontalRule
                        },
                ),
            ),
        }
    }
}

impl View for Block {
    type V = BlockView;

    open spec fn view(&self) -> BlockView
        decreases self,
    {
        match self {
            Block::Header(spans, level) => BlockView::Header(span_views(spans@), *level as nat),
            Block::Paragraph(spans) => BlockView::Paragraph(span_views(spans@)),
            Block::Blockquote(blocks) => BlockView::Blockquote(
                Seq::new(
                    blocks@.len(),
                    |i: int|
                        if 0 <= i < blocks@.len() {
                            blocks@[i].view()
                        } else {
                            BlockView::HorizontalRule
                        },
                ),
            ),
            Block::CodeBlock(language, code) => BlockView::CodeBlock(option_view(*language), code@),
            Block::OrderedList(items, start) => BlockView::OrderedList(
                Seq::new(
                    items@.len(),
                    |i: int|
                        if 0 <= i < items@.len() {
                            items@[i].view()
                        } else {
                            ListItemView::Simple(Seq::empty())
                        },
                ),
                *start as nat,
            ),
            Block::UnorderedList(items) => BlockView::UnorderedList(
                Seq::new(
                    items@.len(),
                    |i: int|
                        if 0 <= i < items@.len() {
                            items@[i].view()
                        } else {
                            ListItemView::Simple(Seq::empty())
                        },
                ),
            ),
            Block::Raw(text) => BlockView::Raw(text@),
            Block::HorizontalRule => BlockView::HorizontalRule,
        }
    }
}

/// The views of a sequence of blocks, in order.
pub open spec fn block_views(blocks: Seq<Block>) -> Seq<BlockView> {
    Seq::new(blocks.len(), |i: int| blocks[i]@)
}

/// The views of a sequence of list items, in order.
pub open spec fn item_views(items: Seq<ListItem>) -> Seq<ListItemView> {
    Seq::new(items.len(), |i: int| items[i]@)
}

impl Clone for ListItem {
    fn clone(&self) -> (out: ListItem)
        ensures
            out@ == self@,
        decreases self,
    {
        proof {
            lemma_item_children(*self);
        }
        match self {
            ListItem::Simple(spans) => ListItem::Simple(clone_spans(spans)),
            ListItem::Paragraph(blocks) => {
                let out = ListItem::Paragraph(clone_blocks(blocks));
                proof {
                    lemma_item_children(out);
                }
                out
            },
        }
    }
}

impl Clone for Block {
    fn clone(&self) -> (out: Block)
        ensures
            out@ == self@,
        decreases self,
    {
        proof {
            lemma_block_children(*self);
        }
        match self {
            Block::Header(spans, level) => Block::Header(clone_spans(spans), *level),
            Block::Paragraph(spans) => Block::Paragraph(clone_spans(spans)),
            Block::Blockquote(blocks) => {
                let out = Block::Blockquote(clone_blocks(blocks));
                proof {
                    lemma_block_children(out);
                }
                out
            },
            Block::CodeBlock(language, code) => Block::CodeBlock(language.clone(), code.clone()),
            Block::OrderedList(items, start) => {
                let out = Block::OrderedList(clone_items(items), *start);
                proof {
                    lemma_block_children(out);
                }
                out
            },
            Block::UnorderedList(items) => {
                let out = Block::UnorderedList(clone_items(items));
                proof {
                    lemma_block_children(out);
                }
                out
            },
            Block::Raw(text) => Block::Raw(text.clone()),
            Block::HorizontalRule => Block::HorizontalRule,
        }
    }
}

/// A copy of a sequence of blocks.
pub fn clone_blocks(blocks: &Vec<Block>) -> (out: Vec<Block>)
    ensures
        block_views(out@) == block_views(blocks@),
    decreases blocks,
{
    let mut out: Vec<Block> = Vec::new();
    let mut i: usize = 0;
    while i < blocks.len()
        invariant
            i <= blocks.len(),
            out@.len() == i,
            forall|j: int| 0 <= j < i ==> out@[j]@ == blocks@[j]@,
        decreases blocks.len() - i,
    {
        out.push(blocks[i].clone());
        i = i + 1;
    }
    out
}

/// A copy of a sequence of list items.
pub fn clone_items(items: &Vec<ListItem>) -> (out: Vec<ListItem>)
    ensures
        item_views(out@) == item_views(items@),
    decreases items,
{
    let mut out: Vec<ListItem> = Vec::new();
    let mut i: usize = 0;
    while i < items.len()
        invariant
            i <= items.len(),
            out@.len() == i,
            forall|j: int| 0 <= j < i ==> out@[j]@ == items@[j]@,
        decreases items.len() - i,
    {
        out.push(items[i].clone());
        i = i + 1;
    }
    out
}

/// The view of a span with children is made of its children's views.
pub proof fn lemma_span_children(span: Span)
    ensures
        span matches Span::Emphasis(c) ==> span@ == SpanView::Emphasis(span_views(c@)),
        span matches Span::Strong(c) ==> span@ == SpanView::Strong(span_views(c@)),
{
    match span {
        Span::Emphasis(c) => {
            reveal_with_fuel(<Span as View>::view, 2);
            assert(span@->Emphasis_0 =~= span_views(c@));
        },
        Span::Strong(c) => {
            reveal_with_fuel(<Span as View>::view, 2);
            assert(span@->Strong_0 =~= span_views(c@));
        },
        _ => {},
    }
}

/// The view of a list item that holds blocks is made of their views.
pub proof fn lemma_item_children(item: ListItem)
    ensures
        item matches ListItem::Paragraph(b) ==> item@ == ListItemView::Paragraph(block_views(b@)),
{
    match item {
        ListItem::Paragraph(b) => {
            assert(item@->Paragraph_0 =~= block_views(b@));
        },
        _ => {},
    }
}

/// The view of a block with children is made of its children's views.
pub proof fn lemma_block_children(block: Block)
    ensures
        block matches Block::Blockquote(b) ==> block@ == BlockView::Blockquote(block_views(b@)),
        block matches Block::OrderedList(items, start) ==> block@ == BlockView::OrderedList(
            item_views(items@),
            start as nat,
        ),
        block matches Block::UnorderedList(items) ==> block@ == BlockView::UnorderedList(
            item_views(items@),
        ),
{
    match block {
        Block::Blockquote(b) => {
            reveal_with_fuel(<Block as View>::view, 2);
            assert(block@->Blockquote_0 =~= block_views(b@));
        },
        Block::OrderedList(items, start) => {
            assert(block@->OrderedList_0 =~= item_views(items@));
        },
        Block::UnorderedList(items) => {
            assert(block@->UnorderedList_0 =~= item_views(items@));
        },
        _ => {},
    }
}

} // verus!
