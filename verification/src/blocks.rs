//! The block renderer: a document tree to the text that a terminal
//! shows.
//!
//! The renderer walks the tree and hands the marker of the lines down as
//! it goes: `first` stands in front of the next line that is written,
//! `rest` in front of every line after it. A quotation adds its marker to
//! both; a list item adds the list marker to `first` and as many blanks
//! to `rest`. Every block ends with one blank line, which carries `rest`
//! like any other line.

use crate::document::{
    block_views, item_views, lemma_block_children, lemma_item_children, Block, BlockView,
    ListItem, ListItemView, SpanView,
};
use crate::lines::{
    lemma_closed_is_whole, lemma_line_breaks_add, lemma_prefixed_begins,
    lemma_prefixed_keeps_line_breaks, lemma_prefixed_plain, lemma_single_line_breaks,
    lemma_single_line_is_one, lemma_whole_lines_append, lemma_whole_lines_shorter, line_breaks,
    lines, lines_begin, prefix_lines, prefixed, single_line, whole_lines,
};
use crate::spans::{contents_breaks, lemma_spans_line_breaks, render_spans, rendered_content};
use crate::style::{plain_style, TextStyle};
use crate::text::{blanks, repeat_char, repeated};
use crate::wrap::{
    clamp_wrap_width, filled, hanging_indent, laid_out, lay_out, marker_width, trimmed,
    width_of_marker, width_view, wrap_width,
};
use vstd::prelude::*;

verus! {

/// The number of containers that may stand inside one another unless
/// the options say otherwise.
pub const DEFAULT_MAX_DEPTH: usize = 64;

/// The character that a divider is made of.
pub const RULE_CHAR: char = '-';

/// The length of a divider where the width of the terminal is not
/// known.
pub const FALLBACK_RULE_WIDTH: usize = 3;

/// What the renderer is told besides the document.
#[derive(Clone, Debug, PartialEq)]
pub struct RenderOptions {
    /// The number of columns to fill, where it is known.
    pub width: Option<usize>,
    /// How many containers, quotations and list items that hold blocks,
    /// may stand inside one another.
    pub max_depth: usize,
    /// What marks the lines of a quotation.
    pub quote_marker: String,
    /// What marks the first line of a list item.
    pub list_marker: String,
}

/// The mathematical view of [`RenderOptions`].
pub ghost struct OptionsView {
    pub width: Option<nat>,
    pub max_depth: nat,
    pub quote_marker: Seq<char>,
    pub list_marker: Seq<char>,
}

impl View for RenderOptions {
    type V = OptionsView;

    open spec fn view(&self) -> OptionsView {
        OptionsView {
            width: width_view(self.width),
            max_depth: self.max_depth as nat,
            quote_marker: self.quote_marker@,
            list_marker: self.list_marker@,
        }
    }
}

impl OptionsView {
    /// Whether each marker fits on one line.
    pub open spec fn wf(self) -> bool {
        single_line(self.quote_marker) && single_line(self.list_marker)
    }
}

impl RenderOptions {
    /// The options for a terminal of the given width: quotations are
    /// marked with `"> "`, list items with `"* "`, and up to
    /// [`DEFAULT_MAX_DEPTH`] containers may stand inside one another.
    pub fn new(width: Option<usize>) -> (out: RenderOptions)
        ensures
            out.width == width,
            out.max_depth == DEFAULT_MAX_DEPTH,
            out.quote_marker@ == seq!['>', ' '],
            out.list_marker@ == seq!['*', ' '],
            out@.wf(),
    {
        proof {
            reveal_strlit("> ");
            reveal_strlit("* ");
        }
        RenderOptions {
            width,
            max_depth: DEFAULT_MAX_DEPTH,
            quote_marker: String::from_str("> "),
            list_marker: String::from_str("* "),
        }
    }
}

/// What ends a block: the end of its last line, and one blank line under
/// the marker of the later lines.
pub open spec fn block_end(rest: Seq<char>) -> Seq<char> {
    seq!['\n'] + rest + seq!['\n']
}

/// The length of a divider: what the marker leaves of the width, or the
/// fallback where no width is known.
pub open spec fn rule_width(width: Option<nat>, first: Seq<char>) -> nat {
    match width {
        Some(w) => wrap_width(w, marker_width(first)),
        None => FALLBACK_RULE_WIDTH as nat,
    }
}

/// The marker of the later lines of a list item: as many blanks as the
/// list marker has columns, after the marker that was there.
pub open spec fn item_rest(rest: Seq<char>, marker: Seq<char>) -> Seq<char> {
    rest + blanks(marker_width(marker))
}

/// The marker of the next line after `written` has been written: `first`
/// as long as nothing has been written, else `rest`.
pub open spec fn next_first(written: Seq<char>, first: Seq<char>, rest: Seq<char>) -> Seq<char> {
    if written.len() == 0 {
        first
    } else {
        rest
    }
}

/// What one block renders to under the markers `first` and `rest`, when
/// `remaining` more containers may be entered.
///
/// A header is laid out like a paragraph; its level changes nothing. A
/// quotation writes its blocks with the quote marker added to both
/// markers, so quotations inside quotations stack their markers. An
/// ordered list is written like an unordered one, with the list marker
/// and without numbers. Literal text and code are not reflowed; only the
/// markers are put in front of their lines. A divider is one line of
/// [`RULE_CHAR`]. A container that may not be entered writes nothing.
pub open spec fn rendered_block(
    block: BlockView,
    options: OptionsView,
    first: Seq<char>,
    rest: Seq<char>,
    remaining: nat,
) -> Seq<char>
    decreases block,
{
    match block {
        BlockView::Header(spans, _level) => laid_out(
            rendered_content(spans),
            options.width,
            first,
            rest,
        ) + block_end(rest),
        BlockView::Paragraph(spans) => laid_out(rendered_content(spans), options.width, first, rest)
            + block_end(rest),
        BlockView::Blockquote(children) => if remaining == 0 {
            Seq::empty()
        } else {
            rendered_blocks(
                children,
                options,
                first + options.quote_marker,
                rest + options.quote_marker,
                (remaining - 1) as nat,
            )
        },
        BlockView::CodeBlock(_language, code) => prefixed(code, first, rest) + block_end(rest),
        BlockView::OrderedList(items, _start) => rendered_list(
            rendered_items(items, options, first, rest, remaining),
            first,
            rest,
        ),
        BlockView::UnorderedList(items) => rendered_list(
            rendered_items(items, options, first, rest, remaining),
            first,
            rest,
        ),
        BlockView::Raw(text) => prefixed(text, first, rest) + block_end(rest),
        BlockView::HorizontalRule => first + repeated(RULE_CHAR, rule_width(options.width, first))
            + block_end(rest),
    }
}

/// A list: its items, and one blank line after the last of them.
pub open spec fn rendered_list(items: Seq<char>, first: Seq<char>, rest: Seq<char>) -> Seq<char> {
    items + next_first(items, first, rest) + seq!['\n']
}

/// What a sequence of blocks renders to: the blocks one after the other.
/// The first block that writes anything takes `first`.
pub open spec fn rendered_blocks(
    blocks: Seq<BlockView>,
    options: OptionsView,
    first: Seq<char>,
    rest: Seq<char>,
    remaining: nat,
) -> Seq<char>
    decreases blocks,
{
    if blocks.len() == 0 {
        Seq::empty()
    } else {
        let written = rendered_blocks(blocks.drop_last(), options, first, rest, remaining);
        written + rendered_block(
            blocks.last(),
            options,
            next_first(written, first, rest),
            rest,
            remaining,
        )
    }
}

/// What one list item renders to. An item of inline content is laid out
/// with the list marker hanging in front of its first line. An item that
/// holds blocks hands the marker to the first line that they write.
pub open spec fn rendered_item(
    item: ListItemView,
    options: OptionsView,
    first: Seq<char>,
    rest: Seq<char>,
    remaining: nat,
) -> Seq<char>
    decreases item,
{
    match item {
        ListItemView::Simple(spans) => laid_out(
            rendered_content(spans),
            options.width,
            first + options.list_marker,
            item_rest(rest, options.list_marker),
        ) + seq!['\n'],
        ListItemView::Paragraph(blocks) => if remaining == 0 {
            Seq::empty()
        } else {
            rendered_blocks(
                blocks,
                options,
                first + options.list_marker,
                item_rest(rest, options.list_marker),
                (remaining - 1) as nat,
            )
        },
    }
}

/// What the items of a list render to, one after the other.
pub open spec fn rendered_items(
    items: Seq<ListItemView>,
    options: OptionsView,
    first: Seq<char>,
    rest: Seq<char>,
    remaining: nat,
) -> Seq<char>
    decreases items,
{
    if items.len() == 0 {
        Seq::empty()
    } else {
        let written = rendered_items(items.drop_last(), options, first, rest, remaining);
        written + rendered_item(
            items.last(),
            options,
            next_first(written, first, rest),
            rest,
            remaining,
        )
    }
}

/// A failure that the renderer reports beside the text.
#[derive(Clone, Debug, PartialEq)]
pub enum Diagnostic {
    /// A container stands deeper than the options allow. It was left
    /// out with all that it holds. The path leads to it from the top of
    /// the document: at each level, the position of the block in its
    /// sequence or of the item in its list.
    DepthExceeded(Vec<usize>),
}

/// What the renderer returns: the text, and the failures in the order
/// in which the walk met them.
#[derive(Clone, Debug, PartialEq)]
pub struct Rendered {
    pub text: String,
    pub diagnostics: Vec<Diagnostic>,
}

/// A path as a sequence of natural numbers.
pub open spec fn path_view(path: Seq<usize>) -> Seq<nat> {
    Seq::new(path.len(), |i: int| path[i] as nat)
}

/// The paths that a sequence of diagnostics reports.
pub open spec fn diagnostic_paths(diagnostics: Seq<Diagnostic>) -> Seq<Seq<nat>> {
    Seq::new(diagnostics.len(), |i: int| path_view(diagnostics[i]->DepthExceeded_0@))
}

/// The containers of one block that are left out, by their paths. The
/// block itself stands at `path`.
pub open spec fn block_failures(block: BlockView, path: Seq<nat>, remaining: nat) -> Seq<Seq<nat>>
    decreases block,
{
    match block {
        BlockView::Blockquote(children) => if remaining == 0 {
            seq![path]
        } else {
            blocks_failures(children, path, (remaining - 1) as nat)
        },
        BlockView::OrderedList(items, _start) => items_failures(items, path, remaining),
        BlockView::UnorderedList(items) => items_failures(items, path, remaining),
        _ => Seq::empty(),
    }
}

/// The containers of a sequence of blocks that are left out. The blocks
/// stand under `path`, each at its position.
pub open spec fn blocks_failures(blocks: Seq<BlockView>, path: Seq<nat>, remaining: nat) -> Seq<
    Seq<nat>,
>
    decreases blocks,
{
    if blocks.len() == 0 {
        Seq::empty()
    } else {
        blocks_failures(blocks.drop_last(), path, remaining) + block_failures(
            blocks.last(),
            path.push((blocks.len() - 1) as nat),
            remaining,
        )
    }
}

/// The containers of one list item that are left out. The item itself
/// stands at `path`.
pub open spec fn item_failures(item: ListItemView, path: Seq<nat>, remaining: nat) -> Seq<Seq<nat>>
    decreases item,
{
    match item {
        ListItemView::Simple(_spans) => Seq::empty(),
        ListItemView::Paragraph(blocks) => if remaining == 0 {
            seq![path]
        } else {
            blocks_failures(blocks, path, (remaining - 1) as nat)
        },
    }
}

/// The containers of the items of a list that are left out. The items
/// stand under `path`, each at its position.
pub open spec fn items_failures(items: Seq<ListItemView>, path: Seq<nat>, remaining: nat) -> Seq<
    Seq<nat>,
>
    decreases items,
{
    if items.len() == 0 {
        Seq::empty()
    } else {
        items_failures(items.drop_last(), path, remaining) + item_failures(
            items.last(),
            path.push((items.len() - 1) as nat),
            remaining,
        )
    }
}

/// What a document renders to: its blocks one after the other, with no
/// marker, each followed by one blank line.
pub open spec fn rendered_document(blocks: Seq<BlockView>, options: OptionsView) -> Seq<char> {
    rendered_blocks(blocks, options, Seq::empty(), Seq::empty(), options.max_depth)
}

/// The containers of a document that are left out, by their paths from
/// the top.
pub open spec fn document_failures(blocks: Seq<BlockView>, options: OptionsView) -> Seq<Seq<nat>> {
    blocks_failures(blocks, Seq::empty(), options.max_depth)
}

/// The path to the child at `index` under `path`.
fn child_path(path: &Vec<usize>, index: usize) -> (out: Vec<usize>)
    ensures
        path_view(out@) == path_view(path@).push(index as nat),
{
    let mut out = path.clone();
    out.push(index);
    out
}

/// The report that the container at `path` was left out.
fn depth_exceeded(path: &Vec<usize>) -> (out: Rendered)
    ensures
        out.text@ == Seq::<char>::empty(),
        diagnostic_paths(out.diagnostics@) == seq![path_view(path@)],
{
    let mut diagnostics: Vec<Diagnostic> = Vec::new();
    diagnostics.push(Diagnostic::DepthExceeded(path.clone()));
    Rendered { text: String::new(), diagnostics }
}

/// A result that holds `text` and reports nothing.
fn text_only(text: String) -> (out: Rendered)
    ensures
        out.text@ == text@,
        diagnostic_paths(out.diagnostics@) == Seq::<Seq<nat>>::empty(),
{
    let diagnostics: Vec<Diagnostic> = Vec::new();
    Rendered { text, diagnostics }
}

/// Adds what a later part of the walk returned to what was there.
fn extend(all: &mut Rendered, part: Rendered)
    ensures
        final(all).text@ == old(all).text@ + part.text@,
        diagnostic_paths(final(all).diagnostics@) == diagnostic_paths(old(all).diagnostics@)
            + diagnostic_paths(part.diagnostics@),
{
    let mut part = part;
    let ghost before = all.diagnostics@;
    let ghost added = part.diagnostics@;
    all.text.append(part.text.as_str());
    all.diagnostics.append(&mut part.diagnostics);
    proof {
        assert(diagnostic_paths(before + added) =~= diagnostic_paths(before) + diagnostic_paths(
            added,
        ));
    }
}

/// `left` followed by `right`.
fn followed_by(left: &str, right: &str) -> (out: String)
    ensures
        out@ == left@ + right@,
{
    let mut out = String::from_str(left);
    out.append(right);
    out
}

/// Ends a block: closes its last line and adds one blank line under the
/// marker of the later lines.
fn end_block(body: String, rest: &str) -> (out: String)
    ensures
        out@ == body@ + block_end(rest@),
{
    let mut out = body;
    out.push('\n');
    out.append(rest);
    out.push('\n');
    out
}

/// A divider under the marker `first`.
fn rule(width: Option<usize>, first: &str) -> (out: String)
    ensures
        out@ == first@ + repeated(RULE_CHAR, rule_width(width_view(width), first@)),
{
    let length = match width {
        Some(w) => clamp_wrap_width(w, width_of_marker(first)),
        None => FALLBACK_RULE_WIDTH,
    };
    let line = repeat_char(RULE_CHAR, length);
    followed_by(first, line.as_str())
}

/// Renders one block under the markers `first` and `rest`.
///
/// `remaining` is the number of containers that may still be entered
/// and `path` the place of the block in the document. A container that
/// may not be entered writes nothing and is reported; what stands beside
/// it is rendered as usual.
pub fn render_block(
    block: &Block,
    options: &RenderOptions,
    first: &str,
    rest: &str,
    remaining: usize,
    path: &Vec<usize>,
) -> (out: Rendered)
    ensures
        out.text@ == rendered_block(block@, options@, first@, rest@, remaining as nat),
        diagnostic_paths(out.diagnostics@) == block_failures(
            block@,
            path_view(path@),
            remaining as nat,
        ),
    decreases block,
{
    proof {
        lemma_block_children(*block);
    }
    match block {
        Block::Header(spans, _level) => {
            let text = render_spans(spans, TextStyle::plain());
            let body = lay_out(text.as_str(), options.width, first, rest);
            text_only(end_block(body, rest))
        },
        Block::Paragraph(spans) => {
            let text = render_spans(spans, TextStyle::plain());
            let body = lay_out(text.as_str(), options.width, first, rest);
            text_only(end_block(body, rest))
        },
        Block::Blockquote(children) => {
            if remaining == 0 {
                depth_exceeded(path)
            } else {
                let inner_first = followed_by(first, options.quote_marker.as_str());
                let inner_rest = followed_by(rest, options.quote_marker.as_str());
                render_blocks(
                    children,
                    options,
                    inner_first.as_str(),
                    inner_rest.as_str(),
                    remaining - 1,
                    path,
                )
            }
        },
        Block::CodeBlock(_language, code) => {
            let body = prefix_lines(code.as_str(), first, rest);
            text_only(end_block(body, rest))
        },
        Block::OrderedList(items, _start) => render_list(
            items,
            options,
            first,
            rest,
            remaining,
            path,
        ),
        Block::UnorderedList(items) => render_list(items, options, first, rest, remaining, path),
        Block::Raw(text) => {
            let body = prefix_lines(text.as_str(), first, rest);
            text_only(end_block(body, rest))
        },
        Block::HorizontalRule => {
            let body = rule(options.width, first);
            text_only(end_block(body, rest))
        },
    }
}

/// Renders a sequence of blocks, one after the other. The blocks stand
/// under `path`, each at its position.
pub fn render_blocks(
    blocks: &Vec<Block>,
    options: &RenderOptions,
    first: &str,
    rest: &str,
    remaining: usize,
    path: &Vec<usize>,
) -> (out: Rendered)
    ensures
        out.text@ == rendered_blocks(
            block_views(blocks@),
            options@,
            first@,
            rest@,
            remaining as nat,
        ),
        diagnostic_paths(out.diagnostics@) == blocks_failures(
            block_views(blocks@),
            path_view(path@),
            remaining as nat,
        ),
    decreases blocks,
{
    let mut out = text_only(String::new());
    let mut i: usize = 0;
    while i < blocks.len()
        invariant
            i <= blocks.len(),
            out.text@ == rendered_blocks(
                block_views(blocks@).take(i as int),
                options@,
                first@,
                rest@,
                remaining as nat,
            ),
            diagnostic_paths(out.diagnostics@) == blocks_failures(
                block_views(blocks@).take(i as int),
                path_view(path@),
                remaining as nat,
            ),
        decreases blocks.len() - i,
    {
        let here = child_path(path, i);
        let start = if out.text.as_str().is_empty() {
            first
        } else {
            rest
        };
        let part = render_block(&blocks[i], options, start, rest, remaining, &here);
        proof {
            let views = block_views(blocks@);
            assert(views.take(i + 1).drop_last() == views.take(i as int));
        }
        extend(&mut out, part);
        i = i + 1;
    }
    proof {
        let views = block_views(blocks@);
        assert(views.take(i as int) == views);
    }
    out
}

/// Renders a list: its items, and one blank line after the last of
/// them.
fn render_list(
    items: &Vec<ListItem>,
    options: &RenderOptions,
    first: &str,
    rest: &str,
    remaining: usize,
    path: &Vec<usize>,
) -> (out: Rendered)
    ensures
        out.text@ == rendered_list(
            rendered_items(item_views(items@), options@, first@, rest@, remaining as nat),
            first@,
            rest@,
        ),
        diagnostic_paths(out.diagnostics@) == items_failures(
            item_views(items@),
            path_view(path@),
            remaining as nat,
        ),
    decreases items, 1nat,
{
    let mut out = render_items(items, options, first, rest, remaining, path);
    if out.text.as_str().is_empty() {
        out.text.append(first);
    } else {
        out.text.append(rest);
    }
    out.text.push('\n');
    out
}

/// Renders the items of a list, one after the other. The items stand
/// under `path`, each at its position.
pub fn render_items(
    items: &Vec<ListItem>,
    options: &RenderOptions,
    first: &str,
    rest: &str,
    remaining: usize,
    path: &Vec<usize>,
) -> (out: Rendered)
    ensures
        out.text@ == rendered_items(item_views(items@), options@, first@, rest@, remaining as nat),
        diagnostic_paths(out.diagnostics@) == items_failures(
            item_views(items@),
            path_view(path@),
            remaining as nat,
        ),
    decreases items, 0nat,
{
    let mut out = text_only(String::new());
    let mut i: usize = 0;
    while i < items.len()
        invariant
            i <= items.len(),
            out.text@ == rendered_items(
                item_views(items@).take(i as int),
                options@,
                first@,
                rest@,
                remaining as nat,
            ),
            diagnostic_paths(out.diagnostics@) == items_failures(
                item_views(items@).take(i as int),
                path_view(path@),
                remaining as nat,
            ),
        decreases items.len() - i,
    {
        let here = child_path(path, i);
        let start = if out.text.as_str().is_empty() {
            first
        } else {
            rest
        };
        let part = render_item(&items[i], options, start, rest, remaining, &here);
        proof {
            let views = item_views(items@);
            assert(views.take(i + 1).drop_last() == views.take(i as int));
        }
        extend(&mut out, part);
        i = i + 1;
    }
    proof {
        let views = item_views(items@);
        assert(views.take(i as int) == views);
    }
    out
}

/// Renders one list item under the markers `first` and `rest`.
pub fn render_item(
    item: &ListItem,
    options: &RenderOptions,
    first: &str,
    rest: &str,
    remaining: usize,
    path: &Vec<usize>,
) -> (out: Rendered)
    ensures
        out.text@ == rendered_item(item@, options@, first@, rest@, remaining as nat),
        diagnostic_paths(out.diagnostics@) == item_failures(
            item@,
            path_view(path@),
            remaining as nat,
        ),
    decreases item,
{
    proof {
        lemma_item_children(*item);
    }
    let marker = options.list_marker.as_str();
    let item_first = followed_by(first, marker);
    let indent = hanging_indent(marker);
    let later = followed_by(rest, indent.as_str());
    match item {
        ListItem::Simple(spans) => {
            let text = render_spans(spans, TextStyle::plain());
            let mut body = lay_out(
                text.as_str(),
                options.width,
                item_first.as_str(),
                later.as_str(),
            );
            body.push('\n');
            text_only(body)
        },
        ListItem::Paragraph(blocks) => {
            if remaining == 0 {
                depth_exceeded(path)
            } else {
                render_blocks(
                    blocks,
                    options,
                    item_first.as_str(),
                    later.as_str(),
                    remaining - 1,
                    path,
                )
            }
        },
    }
}

/// A body whose lines start with their markers, ended as a block, is
/// made of whole lines.
proof fn lemma_ended_block_is_whole(body: Seq<char>, first: Seq<char>, rest: Seq<char>)
    requires
        lines_begin(body, first, rest),
        single_line(rest),
    ensures
        whole_lines(body + block_end(rest), first, rest),
{
    let line = body.push('\n');
    let blank = rest.push('\n');
    lemma_closed_is_whole(body, first, rest);
    lemma_blank_line_is_whole(rest, rest);
    lemma_whole_lines_append(line, blank, first, rest);
    assert(line + blank =~= body + block_end(rest));
}

/// A line that holds its marker and nothing else is a whole line.
proof fn lemma_blank_line_is_whole(marker: Seq<char>, rest: Seq<char>)
    requires
        single_line(marker),
    ensures
        whole_lines(marker.push('\n'), marker, rest),
{
    lemma_single_line_is_one(marker);
    assert(marker.push('\n').drop_last() =~= marker);
    assert(marker.is_prefix_of(lines(marker)[0]));
}

/// Every line of text that is laid out starts with its marker.
proof fn lemma_laid_out_marked(
    text: Seq<char>,
    width: Option<nat>,
    first: Seq<char>,
    rest: Seq<char>,
)
    requires
        single_line(first),
        single_line(rest),
    ensures
        lines_begin(laid_out(text, width, first, rest), first, rest),
{
    match width {
        Some(w) => {
            let body = trimmed(filled(text, wrap_width(w, marker_width(first))));
            lemma_prefixed_begins(body, first, rest);
        },
        None => {
            lemma_prefixed_begins(text, first, rest);
        },
    }
}

/// Every block writes whole lines under its markers: its first line
/// starts with `first`, every later line, the blank ones among them,
/// with `rest`, and a line break ends the last.
pub proof fn lemma_block_whole_lines(
    block: BlockView,
    options: OptionsView,
    first: Seq<char>,
    rest: Seq<char>,
    remaining: nat,
)
    requires
        options.wf(),
        single_line(first),
        single_line(rest),
    ensures
        whole_lines(rendered_block(block, options, first, rest, remaining), first, rest),
    decreases block,
{
    match block {
        BlockView::Header(spans, _level) => {
            let body = laid_out(rendered_content(spans), options.width, first, rest);
            lemma_laid_out_marked(rendered_content(spans), options.width, first, rest);
            lemma_ended_block_is_whole(body, first, rest);
        },
        BlockView::Paragraph(spans) => {
            let body = laid_out(rendered_content(spans), options.width, first, rest);
            lemma_laid_out_marked(rendered_content(spans), options.width, first, rest);
            lemma_ended_block_is_whole(body, first, rest);
        },
        BlockView::Blockquote(children) => {
            if remaining > 0 {
                let q = options.quote_marker;
                let inner = (remaining - 1) as nat;
                lemma_blocks_whole_lines(children, options, first + q, rest + q, inner);
                lemma_whole_lines_shorter(
                    rendered_block(block, options, first, rest, remaining),
                    first,
                    q,
                    rest,
                    q,
                );
            }
        },
        BlockView::CodeBlock(_language, code) => {
            lemma_prefixed_begins(code, first, rest);
            lemma_ended_block_is_whole(prefixed(code, first, rest), first, rest);
        },
        BlockView::OrderedList(items, _start) => {
            lemma_list_whole_lines(items, options, first, rest, remaining);
        },
        BlockView::UnorderedList(items) => {
            lemma_list_whole_lines(items, options, first, rest, remaining);
        },
        BlockView::Raw(text) => {
            lemma_prefixed_begins(text, first, rest);
            lemma_ended_block_is_whole(prefixed(text, first, rest), first, rest);
        },
        BlockView::HorizontalRule => {
            let line = repeated(RULE_CHAR, rule_width(options.width, first));
            let body = first + line;
            lemma_single_line_is_one(body);
            assert(body.subrange(0, first.len() as int) =~= first);
            lemma_ended_block_is_whole(body, first, rest);
        },
    }
}

/// A list writes whole lines under its markers.
proof fn lemma_list_whole_lines(
    items: Seq<ListItemView>,
    options: OptionsView,
    first: Seq<char>,
    rest: Seq<char>,
    remaining: nat,
)
    requires
        options.wf(),
        single_line(first),
        single_line(rest),
    ensures
        whole_lines(
            rendered_list(rendered_items(items, options, first, rest, remaining), first, rest),
            first,
            rest,
        ),
    decreases items, 1nat,
{
    let body = rendered_items(items, options, first, rest, remaining);
    let marker = next_first(body, first, rest);
    let blank = marker.push('\n');
    lemma_items_whole_lines(items, options, first, rest, remaining);
    lemma_blank_line_is_whole(marker, rest);
    lemma_whole_lines_append(body, blank, first, rest);
    assert(body + blank =~= rendered_list(body, first, rest));
}

/// A sequence of blocks writes whole lines under its markers.
pub proof fn lemma_blocks_whole_lines(
    blocks: Seq<BlockView>,
    options: OptionsView,
    first: Seq<char>,
    rest: Seq<char>,
    remaining: nat,
)
    requires
        options.wf(),
        single_line(first),
        single_line(rest),
    ensures
        whole_lines(rendered_blocks(blocks, options, first, rest, remaining), first, rest),
    decreases blocks,
{
    if blocks.len() > 0 {
        let written = rendered_blocks(blocks.drop_last(), options, first, rest, remaining);
        let start = next_first(written, first, rest);
        lemma_blocks_whole_lines(blocks.drop_last(), options, first, rest, remaining);
        lemma_block_whole_lines(blocks.last(), options, start, rest, remaining);
        lemma_whole_lines_append(
            written,
            rendered_block(blocks.last(), options, start, rest, remaining),
            first,
            rest,
        );
    }
}

/// The items of a list write whole lines under its markers.
proof fn lemma_items_whole_lines(
    items: Seq<ListItemView>,
    options: OptionsView,
    first: Seq<char>,
    rest: Seq<char>,
    remaining: nat,
)
    requires
        options.wf(),
        single_line(first),
        single_line(rest),
    ensures
        whole_lines(rendered_items(items, options, first, rest, remaining), first, rest),
    decreases items, 0nat,
{
    if items.len() > 0 {
        let written = rendered_items(items.drop_last(), options, first, rest, remaining);
        let start = next_first(written, first, rest);
        lemma_items_whole_lines(items.drop_last(), options, first, rest, remaining);
        lemma_item_whole_lines(items.last(), options, start, rest, remaining);
        lemma_whole_lines_append(
            written,
            rendered_item(items.last(), options, start, rest, remaining),
            first,
            rest,
        );
    }
}

/// A list item writes whole lines under its markers.
proof fn lemma_item_whole_lines(
    item: ListItemView,
    options: OptionsView,
    first: Seq<char>,
    rest: Seq<char>,
    remaining: nat,
)
    requires
        options.wf(),
        single_line(first),
        single_line(rest),
    ensures
        whole_lines(rendered_item(item, options, first, rest, remaining), first, rest),
    decreases item,
{
    let m = options.list_marker;
    let indent = blanks(marker_width(m));
    let item_first = first + m;
    let later = item_rest(rest, m);
    match item {
        ListItemView::Simple(spans) => {
            let body = laid_out(rendered_content(spans), options.width, item_first, later);
            lemma_laid_out_marked(rendered_content(spans), options.width, item_first, later);
            lemma_closed_is_whole(body, item_first, later);
            assert(body.push('\n') =~= body + seq!['\n']);
            lemma_whole_lines_shorter(body + seq!['\n'], first, m, rest, indent);
        },
        ListItemView::Paragraph(blocks) => {
            if remaining > 0 {
                let inner = (remaining - 1) as nat;
                lemma_blocks_whole_lines(blocks, options, item_first, later, inner);
                lemma_whole_lines_shorter(
                    rendered_item(item, options, first, rest, remaining),
                    first,
                    m,
                    rest,
                    indent,
                );
            }
        },
    }
}


/// A list item hangs under its marker: its first line starts with the
/// list marker, after what stood in front of the list, and every later
/// line with as many blanks as the list marker has columns.
pub proof fn lemma_item_hangs(
    item: ListItemView,
    options: OptionsView,
    first: Seq<char>,
    rest: Seq<char>,
    remaining: nat,
)
    requires
        options.wf(),
        single_line(first),
        single_line(rest),
    ensures
        whole_lines(
            rendered_item(item, options, first, rest, remaining),
            first + options.list_marker,
            rest + blanks(marker_width(options.list_marker)),
        ),
{
    let m = options.list_marker;
    let item_first = first + m;
    let later = item_rest(rest, m);
    match item {
        ListItemView::Simple(spans) => {
            let body = laid_out(rendered_content(spans), options.width, item_first, later);
            lemma_laid_out_marked(rendered_content(spans), options.width, item_first, later);
            lemma_closed_is_whole(body, item_first, later);
            assert(body.push('\n') =~= body + seq!['\n']);
        },
        ListItemView::Paragraph(blocks) => {
            if remaining > 0 {
                let inner = (remaining - 1) as nat;
                lemma_blocks_whole_lines(blocks, options, item_first, later, inner);
            }
        },
    }
}

/// Every line of a rendered quotation starts with the marker that has
/// built up: what stood in front of the quotation's lines, and the quote
/// marker after it. That holds of the blank lines between and after the
/// blocks of the quotation too.
pub proof fn lemma_quotation_lines_marked(
    children: Seq<BlockView>,
    options: OptionsView,
    first: Seq<char>,
    rest: Seq<char>,
    remaining: nat,
)
    requires
        options.wf(),
        single_line(first),
        single_line(rest),
    ensures
        whole_lines(
            rendered_block(BlockView::Blockquote(children), options, first, rest, remaining),
            first + options.quote_marker,
            rest + options.quote_marker,
        ),
{
    if remaining > 0 {
        lemma_blocks_whole_lines(
            children,
            options,
            first + options.quote_marker,
            rest + options.quote_marker,
            (remaining - 1) as nat,
        );
    }
}

/// At the top of a document, where no marker is in force, literal text
/// and code are written exactly as they are, whatever the width, and one
/// blank line follows them.
pub proof fn lemma_literal_blocks_verbatim(
    text: Seq<char>,
    language: Option<Seq<char>>,
    options: OptionsView,
    remaining: nat,
)
    ensures
        rendered_block(BlockView::Raw(text), options, Seq::empty(), Seq::empty(), remaining)
            == text + seq!['\n', '\n'],
        rendered_block(
            BlockView::CodeBlock(language, text),
            options,
            Seq::empty(),
            Seq::empty(),
            remaining,
        ) == text + seq!['\n', '\n'],
{
    lemma_prefixed_plain(text);
}

/// Where the width is not known no line is split: a paragraph, a
/// header and a list item of inline content are written with the line
/// breaks that their spans bring with them, and those that end them.
pub proof fn lemma_unknown_width_splits_no_line(
    spans: Seq<SpanView>,
    level: nat,
    options: OptionsView,
    first: Seq<char>,
    rest: Seq<char>,
    remaining: nat,
)
    requires
        options.width is None,
        options.wf(),
        single_line(first),
        single_line(rest),
    ensures
        line_breaks(rendered_block(BlockView::Paragraph(spans), options, first, rest, remaining))
            == contents_breaks(spans) + 2,
        line_breaks(
            rendered_block(BlockView::Header(spans, level), options, first, rest, remaining),
        ) == contents_breaks(spans) + 2,
        line_breaks(rendered_item(ListItemView::Simple(spans), options, first, rest, remaining))
            == contents_breaks(spans) + 1,
{
    let text = rendered_content(spans);
    let body = prefixed(text, first, rest);
    let one = seq!['\n'];
    lemma_spans_line_breaks(spans, plain_style());
    lemma_prefixed_keeps_line_breaks(text, first, rest);
    lemma_single_line_breaks(rest);
    assert(line_breaks(one.drop_last()) == 0);
    lemma_line_breaks_add(one, rest);
    lemma_line_breaks_add(one + rest, one);
    lemma_line_breaks_add(body, block_end(rest));
    let item_first = first + options.list_marker;
    let later = item_rest(rest, options.list_marker);
    lemma_prefixed_keeps_line_breaks(text, item_first, later);
    lemma_line_breaks_add(prefixed(text, item_first, later), one);
}

/// Renders a document.
///
/// Code that no highlighter has decorated is shown as plain text; see
/// the module `resolve` for the step that decorates it.
pub fn render_document(document: &Vec<Block>, options: &RenderOptions) -> (out: Rendered)
    ensures
        out.text@ == rendered_document(block_views(document@), options@),
        diagnostic_paths(out.diagnostics@) == document_failures(block_views(document@), options@),
{
    let top: Vec<usize> = Vec::new();
    proof {
        reveal_strlit("");
        assert(""@ =~= Seq::<char>::empty());
        assert(path_view(top@) =~= Seq::<nat>::empty());
    }
    render_blocks(document, options, "", "", options.max_depth, &top)
}

} // verus!
