//! The span renderer: inline content to one string.
//!
//! The renderer hands the style that is in force down as it goes: the
//! attributes of all the scopes of emphasis that enclose a span, taken
//! together. The sequence that closes a style switches every attribute
//! off, so after each styled stretch the renderer switches on again what
//! is in force around it, and no scope loses its style to one inside it.

use crate::document::{lemma_span_children, span_views, Span, SpanView};
use crate::lines::{lemma_line_breaks_add, lemma_single_line_breaks, line_breaks};
use crate::style::{
    emphasis_style, lemma_styled_keeps_line_breaks, plain_style, strong_style, styled_in,
    styled_within, target_style, TextStyle,
};
use crate::wrap::{width_view, wrap_and_prefix, wrapped_and_prefixed, Prefix, PrefixView};
use vstd::prelude::*;

verus! {

/// A link: its text, then its underlined target in parentheses. The
/// title is left out.
pub open spec fn rendered_link(text: Seq<char>, target: Seq<char>, active: TextStyle) -> Seq<char> {
    text + " ("@ + styled_within(target, target_style(), active) + ")"@
}

/// The label of an image: its title, or the word "Image" where it has
/// none.
pub open spec fn image_label(title: Option<Seq<char>>) -> Seq<char> {
    match title {
        Some(t) => t,
        None => "Image"@,
    }
}

/// An image: its label and alternative text in square brackets, then
/// its underlined source in parentheses.
pub open spec fn rendered_image(
    alt: Seq<char>,
    source: Seq<char>,
    title: Option<Seq<char>>,
    active: TextStyle,
) -> Seq<char> {
    "["@ + image_label(title) + ": "@ + alt + "] ("@ + styled_within(
        source,
        target_style(),
        active,
    ) + ")"@
}

/// What one span renders to where the style `active` is in force.
///
/// Text stands as it is and a break is one line break. Emphasis and
/// strong emphasis put their own opening and closing sequence around
/// their content, so each style ends right after what it encloses; their
/// content is rendered with their style added to what is in force. Code
/// that no highlighter has decorated stands as plain text.
pub open spec fn rendered_span(span: SpanView, active: TextStyle) -> Seq<char>
    decreases span,
{
    match span {
        SpanView::Break => seq!['\n'],
        SpanView::Text(text) => text,
        SpanView::Code(code) => code,
        SpanView::Link(text, target, _title) => rendered_link(text, target, active),
        SpanView::Image(alt, source, title) => rendered_image(alt, source, title, active),
        SpanView::Emphasis(children) => styled_within(
            rendered_spans(children, active.with(emphasis_style())),
            emphasis_style(),
            active,
        ),
        SpanView::Strong(children) => styled_within(
            rendered_spans(children, active.with(strong_style())),
            strong_style(),
            active,
        ),
    }
}

/// What a sequence of spans renders to where the style `active` is in
/// force: the renderings of its spans, one after the other.
pub open spec fn rendered_spans(spans: Seq<SpanView>, active: TextStyle) -> Seq<char>
    decreases spans,
{
    if spans.len() == 0 {
        Seq::empty()
    } else {
        rendered_spans(spans.drop_last(), active) + rendered_span(spans.last(), active)
    }
}

/// What the inline content of a block renders to: its spans, where no
/// style is in force.
pub open spec fn rendered_content(spans: Seq<SpanView>) -> Seq<char> {
    rendered_spans(spans, plain_style())
}

/// Whether every span of the sequence is a run of text.
pub open spec fn all_text(spans: Seq<SpanView>) -> bool {
    forall|i: int| 0 <= i < spans.len() ==> spans[i] is Text
}

/// The contents of a sequence of text spans, one after the other.
pub open spec fn text_contents(spans: Seq<SpanView>) -> Seq<char>
    decreases spans.len(),
{
    if spans.len() == 0 {
        Seq::empty()
    } else {
        text_contents(spans.drop_last()) + spans.last()->Text_0
    }
}

/// A sequence that holds text spans only renders to the concatenation of
/// their contents, whatever style is in force, and where the width is
/// not known nothing more is done to it.
pub proof fn lemma_text_spans_concatenate(
    spans: Seq<SpanView>,
    active: TextStyle,
    prefix: PrefixView,
)
    requires
        all_text(spans),
    ensures
        rendered_spans(spans, active) == text_contents(spans),
        wrapped_and_prefixed(rendered_spans(spans, active), None, prefix) == text_contents(spans),
    decreases spans.len(),
{
    lemma_text_spans_render(spans, active);
}

/// A sequence that holds text spans only renders to the concatenation of
/// their contents.
proof fn lemma_text_spans_render(spans: Seq<SpanView>, active: TextStyle)
    requires
        all_text(spans),
    ensures
        rendered_spans(spans, active) == text_contents(spans),
    decreases spans.len(),
{
    if spans.len() > 0 {
        lemma_text_spans_render(spans.drop_last(), active);
        assert(rendered_span(spans.last(), active) == spans.last()->Text_0);
    }
}

/// The line breaks that a span brings with it: one for a hard break, and
/// those that stand in its text, code, target, source or label.
pub open spec fn content_breaks(span: SpanView) -> nat
    decreases span,
{
    match span {
        SpanView::Break => 1,
        SpanView::Text(text) => line_breaks(text),
        SpanView::Code(code) => line_breaks(code),
        SpanView::Link(text, target, _title) => line_breaks(text) + line_breaks(target),
        SpanView::Image(alt, source, title) => line_breaks(image_label(title)) + line_breaks(alt)
            + line_breaks(source),
        SpanView::Emphasis(children) => contents_breaks(children),
        SpanView::Strong(children) => contents_breaks(children),
    }
}

/// The line breaks that a sequence of spans brings with it.
pub open spec fn contents_breaks(spans: Seq<SpanView>) -> nat
    decreases spans,
{
    if spans.len() == 0 {
        0
    } else {
        contents_breaks(spans.drop_last()) + content_breaks(spans.last())
    }
}

/// Rendering a span adds no line break to those that the span brings
/// with it, and drops none.
pub proof fn lemma_span_line_breaks(span: SpanView, active: TextStyle)
    ensures
        line_breaks(rendered_span(span, active)) == content_breaks(span),
    decreases span,
{
    match span {
        SpanView::Break => {
            assert(line_breaks(seq!['\n'].drop_last()) == 0);
        },
        SpanView::Text(text) => {},
        SpanView::Code(code) => {},
        SpanView::Link(text, target, _title) => {
            let shown = styled_within(target, target_style(), active);
            reveal_strlit(" (");
            reveal_strlit(")");
            lemma_single_line_breaks(" ("@);
            lemma_single_line_breaks(")"@);
            lemma_styled_keeps_line_breaks(target, target_style(), active);
            lemma_line_breaks_add(text, " ("@);
            lemma_line_breaks_add(text + " ("@, shown);
            lemma_line_breaks_add(text + " ("@ + shown, ")"@);
        },
        SpanView::Image(alt, source, title) => {
            let shown = styled_within(source, target_style(), active);
            let label = image_label(title);
            reveal_strlit("[");
            reveal_strlit(": ");
            reveal_strlit("] (");
            reveal_strlit(")");
            lemma_single_line_breaks("["@);
            lemma_single_line_breaks(": "@);
            lemma_single_line_breaks("] ("@);
            lemma_single_line_breaks(")"@);
            lemma_styled_keeps_line_breaks(source, target_style(), active);
            lemma_line_breaks_add("["@, label);
            lemma_line_breaks_add("["@ + label, ": "@);
            lemma_line_breaks_add("["@ + label + ": "@, alt);
            lemma_line_breaks_add("["@ + label + ": "@ + alt, "] ("@);
            lemma_line_breaks_add("["@ + label + ": "@ + alt + "] ("@, shown);
            lemma_line_breaks_add("["@ + label + ": "@ + alt + "] ("@ + shown, ")"@);
        },
        SpanView::Emphasis(children) => {
            let inner = active.with(emphasis_style());
            lemma_spans_line_breaks(children, inner);
            lemma_styled_keeps_line_breaks(
                rendered_spans(children, inner),
                emphasis_style(),
                active,
            );
        },
        SpanView::Strong(children) => {
            let inner = active.with(strong_style());
            lemma_spans_line_breaks(children, inner);
            lemma_styled_keeps_line_breaks(rendered_spans(children, inner), strong_style(), active);
        },
    }
}

/// Rendering a sequence of spans adds no line break to those that the
/// spans bring with them, and drops none.
pub proof fn lemma_spans_line_breaks(spans: Seq<SpanView>, active: TextStyle)
    ensures
        line_breaks(rendered_spans(spans, active)) == contents_breaks(spans),
    decreases spans,
{
    if spans.len() > 0 {
        lemma_spans_line_breaks(spans.drop_last(), active);
        lemma_span_line_breaks(spans.last(), active);
        lemma_line_breaks_add(
            rendered_spans(spans.drop_last(), active),
            rendered_span(spans.last(), active),
        );
    }
}

/// Renders one span where the style `active` is in force.
pub fn render_span(span: &Span, active: TextStyle) -> (out: String)
    ensures
        out@ == rendered_span(span@, active),
    decreases span,
{
    proof {
        lemma_span_children(*span);
    }
    match span {
        Span::Break => {
            let mut out = String::new();
            out.push('\n');
            out
        },
        Span::Text(text) => text.clone(),
        Span::Code(code) => code.clone(),
        Span::Link(text, target, _title) => {
            let mut out = text.clone();
            out.append(" (");
            let shown = styled_in(target.as_str(), TextStyle::underlined(), active);
            out.append(shown.as_str());
            out.append(")");
            out
        },
        Span::Image(alt, source, title) => {
            let mut out = String::from_str("[");
            match title {
                Some(t) => {
                    out.append(t.as_str());
                },
                None => {
                    out.append("Image");
                },
            }
            out.append(": ");
            out.append(alt.as_str());
            out.append("] (");
            let shown = styled_in(source.as_str(), TextStyle::underlined(), active);
            out.append(shown.as_str());
            out.append(")");
            out
        },
        Span::Emphasis(children) => {
            let inner = render_spans(children, active.merged(TextStyle::emphasis()));
            styled_in(inner.as_str(), TextStyle::emphasis(), active)
        },
        Span::Strong(children) => {
            let inner = render_spans(children, active.merged(TextStyle::strong()));
            styled_in(inner.as_str(), TextStyle::strong(), active)
        },
    }
}

/// Renders a sequence of spans into one string where the style
/// `active` is in force.
pub fn render_spans(spans: &Vec<Span>, active: TextStyle) -> (out: String)
    ensures
        out@ == rendered_spans(span_views(spans@), active),
    decreases spans,
{
    let mut out = String::new();
    let mut i: usize = 0;
    while i < spans.len()
        invariant
            i <= spans.len(),
            out@ == rendered_spans(span_views(spans@).take(i as int), active),
        decreases spans.len() - i,
    {
        let piece = render_span(&spans[i], active);
        proof {
            let views = span_views(spans@);
            assert(views.take(i + 1).drop_last() == views.take(i as int));
        }
        out.append(piece.as_str());
        i = i + 1;
    }
    proof {
        let views = span_views(spans@);
        assert(views.take(i as int) == views);
    }
    out
}

/// Renders a sequence of spans and reflows the result to `width`
/// columns under `prefix`. Without a width the rendered spans are
/// returned as they are.
pub fn wrap_spans(spans: &Vec<Span>, width: Option<usize>, prefix: &Prefix) -> (out: String)
    ensures
        out@ == wrapped_and_prefixed(
            rendered_content(span_views(spans@)),
            width_view(width),
            prefix@,
        ),
{
    let text = render_spans(spans, TextStyle::plain());
    wrap_and_prefix(text.as_str(), width, prefix)
}

} // verus!
