//! Reflowing text to a column width and putting a marker in front of its
//! lines.

use crate::lines::{
    lemma_lines_nonempty, lemma_prefixed_begins, lemma_prefixed_line_by_line, lemma_prefixed_plain,
    lines, lines_begin, plain_lines, prefix_lines, prefixed, single_line,
};
use crate::text::{blanks, chars_of, repeat_char, string_views};
use vstd::prelude::*;

verus! {

/// The number of terminal columns that `text` occupies, as
/// `textwrap::core::display_width` counts them: control sequences count
/// for nothing and wide characters for two columns.
pub uninterp spec fn display_width(text: Seq<char>) -> nat;

/// What `textwrap::fill` makes of `text` at `width` columns.
pub uninterp spec fn filled(text: Seq<char>, width: nat) -> Seq<char>;

/// Calls `textwrap::core::display_width`. Trusted: the result is the
/// display width of `text`, which depends on the characters alone.
#[verifier::external_body]
fn text_width(text: &str) -> (width: usize)
    ensures
        width == display_width(text@),
{
    textwrap::core::display_width(text)
}

/// Calls `textwrap::fill` with a plain width. Trusted: the result is the
/// filled text, which depends on the text and the width alone. The crate
/// is built without its optional line-breaking features, so lines are
/// filled greedily and words are separated by spaces.
#[verifier::external_body]
fn fill(text: &str, width: usize) -> (out: String)
    ensures
        out@ == filled(text@, width as nat),
{
    textwrap::fill(text, width)
}

/// How lines are marked.
#[derive(Clone, Debug, PartialEq)]
pub enum Prefix {
    /// No marker.
    Plain,
    /// The marker stands in front of every line.
    Fixed(String),
    /// The marker stands in front of the first line; every later line
    /// starts with as many blanks as the marker has columns.
    Hanging(String),
}

/// The mathematical view of a [`Prefix`].
pub ghost enum PrefixView {
    Plain,
    Fixed(Seq<char>),
    Hanging(Seq<char>),
}

impl View for Prefix {
    type V = PrefixView;

    open spec fn view(&self) -> PrefixView {
        match self {
            Prefix::Plain => PrefixView::Plain,
            Prefix::Fixed(marker) => PrefixView::Fixed(marker@),
            Prefix::Hanging(marker) => PrefixView::Hanging(marker@),
        }
    }
}

impl PrefixView {
    /// What stands in front of the first line.
    pub open spec fn first(self) -> Seq<char> {
        match self {
            PrefixView::Plain => Seq::empty(),
            PrefixView::Fixed(marker) => marker,
            PrefixView::Hanging(marker) => marker,
        }
    }

    /// What stands in front of every later line.
    pub open spec fn rest(self) -> Seq<char> {
        match self {
            PrefixView::Plain => Seq::empty(),
            PrefixView::Fixed(marker) => marker,
            PrefixView::Hanging(marker) => blanks(marker_width(marker)),
        }
    }
}

/// The number of columns that a marker takes: none where there is no
/// marker, else its display width.
pub open spec fn marker_width(marker: Seq<char>) -> nat {
    if marker.len() == 0 {
        0
    } else {
        display_width(marker)
    }
}

/// The width that is left for the text beside a marker of
/// `marker_width` columns: what remains of `width`, and one column where
/// nothing remains.
pub open spec fn wrap_width(width: nat, marker_width: nat) -> nat {
    if width > marker_width {
        (width - marker_width) as nat
    } else {
        1
    }
}

/// `text` without its last character if that is a line break.
pub open spec fn trimmed(text: Seq<char>) -> Seq<char> {
    if text.len() > 0 && text.last() == '\n' {
        text.drop_last()
    } else {
        text
    }
}

/// The text filled to the width that `first` leaves, without one
/// trailing line break, with `first` in front of its first line and
/// `rest` in front of every later one.
pub open spec fn wrapped(text: Seq<char>, width: nat, first: Seq<char>, rest: Seq<char>) -> Seq<
    char,
> {
    prefixed(trimmed(filled(text, wrap_width(width, marker_width(first)))), first, rest)
}

/// The text laid out under its markers: wrapped where a width is known,
/// else with its lines as they are.
pub open spec fn laid_out(
    text: Seq<char>,
    width: Option<nat>,
    first: Seq<char>,
    rest: Seq<char>,
) -> Seq<char> {
    match width {
        Some(w) => wrapped(text, w, first, rest),
        None => prefixed(text, first, rest),
    }
}

/// What [`wrap_and_prefix`] returns.
pub open spec fn wrapped_and_prefixed(
    text: Seq<char>,
    width: Option<nat>,
    prefix: PrefixView,
) -> Seq<char> {
    match width {
        None => text,
        Some(w) => wrapped(text, w, prefix.first(), prefix.rest()),
    }
}

/// A width as a natural number.
pub open spec fn width_view(width: Option<usize>) -> Option<nat> {
    match width {
        Some(w) => Some(w as nat),
        None => None,
    }
}

/// Computes [`marker_width`].
pub fn width_of_marker(marker: &str) -> (out: usize)
    ensures
        out == marker_width(marker@),
{
    if marker.is_empty() {
        0
    } else {
        text_width(marker)
    }
}

/// Computes [`wrap_width`].
pub fn clamp_wrap_width(width: usize, marker_width: usize) -> (out: usize)
    ensures
        out == wrap_width(width as nat, marker_width as nat),
        out >= 1,
{
    if width > marker_width {
        width - marker_width
    } else {
        1
    }
}

/// Removes one trailing line break, if there is one.
pub fn trim_line_break(text: String) -> (out: String)
    ensures
        out@ == trimmed(text@),
{
    let chars = chars_of(text.as_str());
    let n = chars.len();
    if n > 0 && chars[n - 1] == '\n' {
        let mut out = String::new();
        let mut i: usize = 0;
        while i < n - 1
            invariant
                n == chars.len(),
                n > 0,
                i <= n - 1,
                out@ == chars@.take(i as int),
            decreases n - i,
        {
            out.push(chars[i]);
            i = i + 1;
        }
        out
    } else {
        text
    }
}

/// Fills `text` to the width that `first` leaves of `width`, trims one
/// trailing line break, and puts `first` in front of the first line and
/// `rest` in front of every later line.
pub fn wrap_lines(text: &str, width: usize, first: &str, rest: &str) -> (out: String)
    ensures
        out@ == wrapped(text@, width as nat, first@, rest@),
{
    let body_width = clamp_wrap_width(width, width_of_marker(first));
    let body = trim_line_break(fill(text, body_width));
    prefix_lines(body.as_str(), first, rest)
}

/// As many blanks as `marker` has columns.
pub fn hanging_indent(marker: &str) -> (out: String)
    ensures
        out@ == blanks(marker_width(marker@)),
{
    repeat_char(' ', width_of_marker(marker))
}

/// Lays `text` out under its markers: wraps it where a width is known,
/// else leaves its lines as they are. The markers are put in front of
/// the lines either way, so that what is written to a file or a pipe
/// keeps its shape.
pub fn lay_out(text: &str, width: Option<usize>, first: &str, rest: &str) -> (out: String)
    ensures
        out@ == laid_out(text@, width_view(width), first@, rest@),
{
    match width {
        Some(w) => wrap_lines(text, w, first, rest),
        None => prefix_lines(text, first, rest),
    }
}

/// The marker of the lines after the first.
pub fn continuation(prefix: &Prefix) -> (out: String)
    ensures
        out@ == prefix@.rest(),
{
    match prefix {
        Prefix::Plain => String::new(),
        Prefix::Fixed(marker) => marker.clone(),
        Prefix::Hanging(marker) => hanging_indent(marker.as_str()),
    }
}

/// Reflows `text` to `width` columns and marks its lines as `prefix`
/// says. Without a width the text is returned unchanged.
pub fn wrap_and_prefix(text: &str, width: Option<usize>, prefix: &Prefix) -> (out: String)
    ensures
        out@ == wrapped_and_prefixed(text@, width_view(width), prefix@),
{
    match width {
        None => String::from_str(text),
        Some(w) => {
            proof {
                reveal_strlit("");
            }
            let rest = continuation(prefix);
            match prefix {
                Prefix::Plain => wrap_lines(text, w, "", rest.as_str()),
                Prefix::Fixed(marker) => wrap_lines(text, w, marker.as_str(), rest.as_str()),
                Prefix::Hanging(marker) => wrap_lines(text, w, marker.as_str(), rest.as_str()),
            }
        },
    }
}

/// Whether no line of `text` is wider than `width` columns.
pub open spec fn lines_fit(text: Seq<char>, width: nat) -> bool {
    forall|k: int| 0 <= k < lines(text).len() ==> display_width(#[trigger] lines(text)[k]) <= width
}

/// Tests whether no line of `text` is wider than `width` columns.
pub fn fits(text: &str, width: usize) -> (out: bool)
    ensures
        out == lines_fit(text@, width as nat),
{
    let all = plain_lines(text);
    let mut i: usize = 0;
    while i < all.len()
        invariant
            i <= all.len(),
            string_views(all@) == lines(text@),
            forall|k: int| 0 <= k < i ==> display_width(#[trigger] lines(text@)[k]) <= width,
        decreases all.len() - i,
    {
        assert(lines(text@)[i as int] == all@[i as int]@);
        if text_width(all[i].as_str()) > width {
            return false;
        }
        i = i + 1;
    }
    true
}

/// Whether `marker`, put in front of a line, makes the line wider by no
/// more than its own width.
pub open spec fn adds_own_width(marker: Seq<char>) -> bool {
    forall|line: Seq<char>| #[trigger]
        display_width(marker + line) <= display_width(marker) + display_width(line)
}

/// The markers' share in keeping lines within the width.
///
/// Suppose that the filled text keeps to the width that it was filled
/// to, that the first marker leaves room beside it, that the later
/// marker is no wider than the first, and that each marker adds no more
/// than its own width to a line. Then no line of the wrapped text is
/// wider than `width`. Whether the filled text keeps to its width is
/// decided by the fill that the library calls, and by the text: a word
/// that cannot be broken may be wider than any line.
pub proof fn lemma_markers_keep_lines_within_width(
    text: Seq<char>,
    width: nat,
    first: Seq<char>,
    rest: Seq<char>,
)
    requires
        single_line(first),
        single_line(rest),
        display_width(rest) <= display_width(first) <= marker_width(first) < width,
        adds_own_width(first),
        adds_own_width(rest),
        lines_fit(
            filled(text, wrap_width(width, marker_width(first))),
            wrap_width(width, marker_width(first)),
        ),
    ensures
        lines_fit(wrapped(text, width, first, rest), width),
{
    let room = wrap_width(width, marker_width(first));
    let whole = filled(text, room);
    let body = trimmed(whole);
    assert(lines_fit(body, room)) by {
        if whole.len() > 0 && whole.last() == '\n' {
            lemma_lines_nonempty(body);
            assert forall|k: int| 0 <= k < lines(body).len() implies display_width(
                #[trigger] lines(body)[k],
            ) <= room by {
                assert(lines(body)[k] == lines(whole)[k]);
            }
        }
    }
    lemma_prefixed_line_by_line(body, first, rest);
    let marked = lines(prefixed(body, first, rest));
    assert forall|k: int| 0 <= k < marked.len() implies display_width(#[trigger] marked[k])
        <= width by {
        let marker = if k == 0 {
            first
        } else {
            rest
        };
        assert(marked[k] == marker + lines(body)[k]);
    }
}

/// Without a marker the text is filled to the whole width, and to one
/// column where the width is none; one trailing line break is trimmed.
pub proof fn lemma_plain_wrap(text: Seq<char>, width: nat)
    ensures
        wrapped_and_prefixed(text, Some(width), PrefixView::Plain) == trimmed(
            filled(text, if width == 0 { 1 } else { width }),
        ),
{
    lemma_prefixed_plain(trimmed(filled(text, wrap_width(width, 0))));
}

/// Under a hanging marker the first line starts with the marker, and
/// every later line starts with a run of blanks that is as long as the
/// marker is wide.
pub proof fn lemma_hanging_lines(text: Seq<char>, width: nat, marker: Seq<char>)
    requires
        single_line(marker),
    ensures
        lines_begin(
            wrapped_and_prefixed(text, Some(width), PrefixView::Hanging(marker)),
            marker,
            blanks(marker_width(marker)),
        ),
        blanks(marker_width(marker)).len() == marker_width(marker),
{
    let body = trimmed(filled(text, wrap_width(width, marker_width(marker))));
    lemma_prefixed_begins(body, marker, blanks(marker_width(marker)));
}

/// Under a fixed marker every line, the blank ones among them, starts
/// with the marker.
pub proof fn lemma_fixed_lines(text: Seq<char>, width: nat, marker: Seq<char>)
    requires
        single_line(marker),
    ensures
        lines_begin(
            wrapped_and_prefixed(text, Some(width), PrefixView::Fixed(marker)),
            marker,
            marker,
        ),
{
    let body = trimmed(filled(text, wrap_width(width, marker_width(marker))));
    lemma_prefixed_begins(body, marker, marker);
}

} // verus!
