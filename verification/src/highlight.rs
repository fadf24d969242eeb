//! The interface to a code highlighter, and a highlighter that needs no
//! outside capability.

use crate::style::{reset, reset_sequence};
use crate::text::{chars_of, ends_with, has_ending};
use vstd::prelude::*;

verus! {

/// How much code a highlighter is handed at once.
#[derive(Clone, Copy, Debug, PartialEq, Eq)]
pub enum HighlightMode {
    /// Inline code: one logical line.
    Inline,
    /// A fenced block: any number of lines.
    Block,
}

/// A capability that decorates code for the terminal.
///
/// The language tag of a fenced block is handed on for symmetry; an
/// implementation may ignore it.
pub trait CodeHighlighter {
    /// Whether `out` is a decorated form of `code` that this highlighter
    /// may return in `mode`.
    spec fn produces(&self, code: Seq<char>, mode: HighlightMode, out: Seq<char>) -> bool;

    /// Decorates `code`.
    fn highlight(&self, code: &str, language: &Option<String>, mode: HighlightMode) -> (out:
        String)
        ensures
            self.produces(code@, mode, out@),
    ;
}

/// A highlighter that frames code between two fixed markers. With empty
/// markers it hands the code back as it is, which is the fallback where
/// no colour is available.
pub struct MarkerHighlighter {
    pub open: String,
    pub close: String,
}

impl MarkerHighlighter {
    /// The highlighter that frames code between `open` and `close`.
    pub fn new(open: &str, close: &str) -> (out: MarkerHighlighter)
        ensures
            out.open@ == open@,
            out.close@ == close@,
    {
        MarkerHighlighter { open: String::from_str(open), close: String::from_str(close) }
    }
}

impl CodeHighlighter for MarkerHighlighter {
    open spec fn produces(&self, code: Seq<char>, mode: HighlightMode, out: Seq<char>) -> bool {
        out == self.open@ + code + self.close@
    }

    fn highlight(&self, code: &str, language: &Option<String>, mode: HighlightMode) -> (out:
        String) {
        let mut out = self.open.clone();
        out.append(code);
        out.append(self.close.as_str());
        out
    }
}

/// Decorated inline code, closed: it ends with the reset sequence, which
/// is added where the highlighter left it out.
pub open spec fn closed_code(decorated: Seq<char>) -> Seq<char> {
    if ends_with(decorated, reset()) {
        decorated
    } else {
        decorated + reset()
    }
}

/// Makes sure that decorated code ends with the reset sequence, so that
/// no colour runs on into the text that follows it.
pub fn close_code(decorated: String) -> (out: String)
    ensures
        out@ == closed_code(decorated@),
        ends_with(out@, reset()),
{
    let tail = reset_sequence();
    let closed = has_ending(&chars_of(decorated.as_str()), &chars_of(tail));
    if closed {
        decorated
    } else {
        let mut out = decorated;
        out.append(tail);
        proof {
            assert(out@.subrange(out@.len() - reset().len(), out@.len() as int) =~= reset());
        }
        out
    }
}

} // verus!
