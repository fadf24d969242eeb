//! Font styles and the escape sequences that switch them on and off.

use crate::lines::{lemma_line_breaks_add, lemma_single_line_breaks, line_breaks, single_line};
use vstd::prelude::*;

verus! {

/// The font attributes that the renderer applies to inline content.
#[derive(Clone, Copy, Debug, PartialEq, Eq)]
pub struct TextStyle {
    pub bold: bool,
    pub italic: bool,
    pub underline: bool,
}

/// The escape character that opens every control sequence.
pub open spec fn esc() -> char {
    '\u{1b}'
}

/// The sequence that resets every font attribute and colour.
pub open spec fn reset() -> Seq<char> {
    seq![esc(), '[', '0', 'm']
}

/// Two lists of attribute codes joined by a semicolon; an empty list
/// adds nothing.
pub open spec fn joined(left: Seq<char>, right: Seq<char>) -> Seq<char> {
    if left.len() == 0 {
        right
    } else if right.len() == 0 {
        left
    } else {
        left + seq![';'] + right
    }
}

/// The attribute codes of a style, in ascending order: 1 for bold, 3 for
/// italic and 4 for underline.
pub open spec fn codes(style: TextStyle) -> Seq<char> {
    let bold: Seq<char> = if style.bold { seq!['1'] } else { Seq::empty() };
    let italic: Seq<char> = if style.italic { seq!['3'] } else { Seq::empty() };
    let underline: Seq<char> = if style.underline { seq!['4'] } else { Seq::empty() };
    joined(joined(bold, italic), underline)
}

/// The style that sets no attribute.
pub open spec fn plain_style() -> TextStyle {
    TextStyle { bold: false, italic: false, underline: false }
}

/// The style of emphasised content: italic.
pub open spec fn emphasis_style() -> TextStyle {
    TextStyle { bold: false, italic: true, underline: false }
}

/// The style of strongly emphasised content: bold.
pub open spec fn strong_style() -> TextStyle {
    TextStyle { bold: true, italic: false, underline: false }
}

/// The style of the target of a link and of the source of an image:
/// underlined.
pub open spec fn target_style() -> TextStyle {
    TextStyle { bold: false, italic: false, underline: true }
}

impl TextStyle {
    /// The style that sets what either style sets: what is in force
    /// inside a scope of `other` that stands inside a scope of `self`.
    pub open spec fn with(self, other: TextStyle) -> TextStyle {
        TextStyle {
            bold: self.bold || other.bold,
            italic: self.italic || other.italic,
            underline: self.underline || other.underline,
        }
    }

    /// Whether the style sets no attribute.
    pub open spec fn is_plain(self) -> bool {
        !self.bold && !self.italic && !self.underline
    }

    /// The sequence that switches the style on: nothing for a plain
    /// style, else the attribute codes between `ESC [` and `m`.
    pub open spec fn opening(self) -> Seq<char> {
        if self.is_plain() {
            Seq::empty()
        } else {
            seq![esc(), '['] + codes(self) + seq!['m']
        }
    }

    /// The sequence that switches the style off: nothing for a plain
    /// style, else the reset sequence.
    pub open spec fn closing(self) -> Seq<char> {
        if self.is_plain() {
            Seq::empty()
        } else {
            reset()
        }
    }

    /// The style that sets no attribute.
    pub fn plain() -> (style: TextStyle)
        ensures
            style == plain_style(),
    {
        TextStyle { bold: false, italic: false, underline: false }
    }

    /// The style of emphasised content.
    pub fn emphasis() -> (style: TextStyle)
        ensures
            style == emphasis_style(),
    {
        TextStyle { bold: false, italic: true, underline: false }
    }

    /// The style of strongly emphasised content.
    pub fn strong() -> (style: TextStyle)
        ensures
            style == strong_style(),
    {
        TextStyle { bold: true, italic: false, underline: false }
    }

    /// The style of a link's target.
    pub fn underlined() -> (style: TextStyle)
        ensures
            style == target_style(),
    {
        TextStyle { bold: false, italic: false, underline: true }
    }

    /// The style that sets what either style sets.
    pub fn merged(self, other: TextStyle) -> (style: TextStyle)
        ensures
            style == self.with(other),
    {
        TextStyle {
            bold: self.bold || other.bold,
            italic: self.italic || other.italic,
            underline: self.underline || other.underline,
        }
    }
}

/// Calls `ansi_term::Style::prefix` on the style with the same three
/// attributes and no colour, and formats the result. Trusted: the string
/// is empty for a plain style; otherwise it is `ESC [`, the codes of the
/// attributes that are set (1, 3, 4, in that order, separated by `;`)
/// and `m`.
#[verifier::external_body]
fn style_prefix(style: TextStyle) -> (out: String)
    ensures
        out@ == style.opening(),
{
    let ansi = ansi_term::Style {
        is_bold: style.bold,
        is_italic: style.italic,
        is_underline: style.underline,
        ..ansi_term::Style::default()
    };
    ansi.prefix().to_string()
}

/// Calls `ansi_term::Style::suffix` on the style with the same three
/// attributes and no colour, and formats the result. Trusted: the string
/// is empty for a plain style and the reset sequence `ESC [ 0 m` for any
/// other.
#[verifier::external_body]
fn style_suffix(style: TextStyle) -> (out: String)
    ensures
        out@ == style.closing(),
{
    let ansi = ansi_term::Style {
        is_bold: style.bold,
        is_italic: style.italic,
        is_underline: style.underline,
        ..ansi_term::Style::default()
    };
    ansi.suffix().to_string()
}

/// `text` between the opening and the closing sequence of `style`.
pub open spec fn styled_text(text: Seq<char>, style: TextStyle) -> Seq<char> {
    style.opening() + text + style.closing()
}

/// `text` in `style`, inside a scope in which `active` is in force: the
/// text between the opening and the closing sequence of `style`, and
/// after it the opening sequence of `active`. The closing sequence
/// switches every attribute off, those of the enclosing scopes too, so
/// they are switched on again for what follows.
pub open spec fn styled_within(text: Seq<char>, style: TextStyle, active: TextStyle) -> Seq<char> {
    styled_text(text, style) + active.opening()
}

/// Wraps `text` in the opening and closing sequence of `style`, so that
/// the style ends where the text ends.
pub fn styled(text: &str, style: TextStyle) -> (out: String)
    ensures
        out@ == styled_text(text@, style),
{
    let mut out = style_prefix(style);
    out.append(text);
    let suffix = style_suffix(style);
    out.append(suffix.as_str());
    out
}

/// Switches the style `active` on again after `text`, which ended with
/// a sequence that switched it off.
pub fn restored(text: String, active: TextStyle) -> (out: String)
    ensures
        out@ == text@ + active.opening(),
{
    let mut out = text;
    let opening = style_prefix(active);
    out.append(opening.as_str());
    out
}

/// Wraps `text` in the opening and closing sequence of `style` and
/// switches on again what is in force around it.
pub fn styled_in(text: &str, style: TextStyle, active: TextStyle) -> (out: String)
    ensures
        out@ == styled_within(text@, style, active),
{
    restored(styled(text, style), active)
}

/// The sequences that switch a style on and off hold no line break.
pub proof fn lemma_sequences_single_line(style: TextStyle)
    ensures
        single_line(style.opening()),
        single_line(style.closing()),
        line_breaks(style.opening()) == 0,
        line_breaks(style.closing()) == 0,
{
    let bold: Seq<char> = if style.bold { seq!['1'] } else { Seq::empty() };
    let italic: Seq<char> = if style.italic { seq!['3'] } else { Seq::empty() };
    assert(single_line(joined(bold, italic)));
    assert(single_line(codes(style)));
    assert(single_line(style.opening()));
    assert(single_line(style.closing()));
    lemma_single_line_breaks(style.opening());
    lemma_single_line_breaks(style.closing());
}

/// Styling text adds no line and joins none.
pub proof fn lemma_styled_keeps_line_breaks(text: Seq<char>, style: TextStyle, active: TextStyle)
    ensures
        line_breaks(styled_text(text, style)) == line_breaks(text),
        line_breaks(styled_within(text, style, active)) == line_breaks(text),
{
    lemma_sequences_single_line(style);
    lemma_sequences_single_line(active);
    lemma_line_breaks_add(style.opening(), text);
    lemma_line_breaks_add(style.opening() + text, style.closing());
    lemma_line_breaks_add(styled_text(text, style), active.opening());
}

/// The reset sequence as a string.
pub fn reset_sequence() -> (out: &'static str)
    ensures
        out@ == reset(),
{
    proof {
        reveal_strlit("\x1b[0m");
    }
    "\x1b[0m"
}

} // verus!
