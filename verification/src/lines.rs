//! The lines of a text: splitting a text into its lines, putting markers
//! in front of them, and what holds of the lines of a marked text.

use crate::text::{chars_of, concatenated, string_views};
use vstd::prelude::*;

verus! {

/// What `marked` puts in place of one character: the character itself,
/// followed by `rest` when the character ends a line.
pub open spec fn marked_char(c: char, rest: Seq<char>) -> Seq<char> {
    if c == '\n' {
        seq![c] + rest
    } else {
        seq![c]
    }
}

/// `text` with `rest` inserted after every line break.
pub open spec fn marked(text: Seq<char>, rest: Seq<char>) -> Seq<char>
    decreases text.len(),
{
    if text.len() == 0 {
        Seq::empty()
    } else {
        marked(text.drop_last(), rest) + marked_char(text.last(), rest)
    }
}

/// `text` with `first` in front of its first line and `rest` in front of
/// every later line.
pub open spec fn prefixed(text: Seq<char>, first: Seq<char>, rest: Seq<char>) -> Seq<char> {
    first + marked(text, rest)
}

/// Puts `first` in front of the first line of `text` and `rest` in front
/// of every later line. A line ends at `'\n'`; the text after the last
/// line break counts as a line even when it is empty.
pub fn prefix_lines(text: &str, first: &str, rest: &str) -> (out: String)
    ensures
        out@ == prefixed(text@, first@, rest@),
{
    let chars = chars_of(text);
    let mut out = String::from_str(first);
    let mut i: usize = 0;
    while i < chars.len()
        invariant
            i <= chars.len(),
            chars@ == text@,
            out@ == first@ + marked(text@.take(i as int), rest@),
        decreases chars.len() - i,
    {
        let c = chars[i];
        proof {
            assert(text@.take(i + 1).drop_last() == text@.take(i as int));
        }
        out.push(c);
        if c == '\n' {
            out.append(rest);
        }
        i = i + 1;
    }
    proof {
        assert(text@.take(i as int) == text@);
    }
    out
}

/// The part of `text` after its last line break: the line that is
/// still open at the end of the text.
pub open spec fn open_line(text: Seq<char>) -> Seq<char>
    decreases text.len(),
{
    if text.len() == 0 || text.last() == '\n' {
        Seq::empty()
    } else {
        open_line(text.drop_last()).push(text.last())
    }
}

/// The lines of `text` that end with a line break, each with its line
/// break.
pub open spec fn complete_lines(text: Seq<char>) -> Seq<Seq<char>>
    decreases text.len(),
{
    if text.len() == 0 {
        Seq::empty()
    } else if text.last() == '\n' {
        complete_lines(text.drop_last()).push(open_line(text.drop_last()).push('\n'))
    } else {
        complete_lines(text.drop_last())
    }
}

/// The lines of `text`, each with the line break that ends it. Text
/// after the last line break is a line of its own; an empty text has no
/// line.
pub open spec fn lines_with_endings(text: Seq<char>) -> Seq<Seq<char>> {
    if open_line(text).len() > 0 {
        complete_lines(text).push(open_line(text))
    } else {
        complete_lines(text)
    }
}

/// The lines of a text, put together again, are the text.
pub proof fn lemma_lines_concatenate(text: Seq<char>)
    ensures
        concatenated(complete_lines(text)) + open_line(text) == text,
        concatenated(lines_with_endings(text)) == text,
    decreases text.len(),
{
    if text.len() > 0 {
        let before = text.drop_last();
        lemma_lines_concatenate(before);
        if text.last() == '\n' {
            let line = open_line(before).push('\n');
            assert(complete_lines(text).drop_last() == complete_lines(before));
            assert(concatenated(complete_lines(before)) + line =~= (concatenated(
                complete_lines(before),
            ) + open_line(before)).push('\n'));
        } else {
            assert(concatenated(complete_lines(before)) + open_line(before).push(text.last())
                =~= (concatenated(complete_lines(before)) + open_line(before)).push(text.last()));
        }
    }
    if open_line(text).len() > 0 {
        assert(lines_with_endings(text).drop_last() == complete_lines(text));
    } else {
        assert(concatenated(complete_lines(text)) + open_line(text) =~= concatenated(
            complete_lines(text),
        ));
    }
}

/// Splits `text` into its lines and keeps the line break at the end of
/// each.
pub fn split_lines(text: &str) -> (lines: Vec<String>)
    ensures
        string_views(lines@) == lines_with_endings(text@),
{
    let chars = chars_of(text);
    let mut lines: Vec<String> = Vec::new();
    let mut current = String::new();
    let mut i: usize = 0;
    while i < chars.len()
        invariant
            i <= chars.len(),
            chars@ == text@,
            string_views(lines@) == complete_lines(text@.take(i as int)),
            current@ == open_line(text@.take(i as int)),
        decreases chars.len() - i,
    {
        let c = chars[i];
        proof {
            assert(text@.take(i + 1).drop_last() == text@.take(i as int));
        }
        current.push(c);
        if c == '\n' {
            lines.push(current);
            current = String::new();
        }
        i = i + 1;
    }
    proof {
        assert(text@.take(i as int) == text@);
    }
    if !current.as_str().is_empty() {
        lines.push(current);
    }
    lines
}

/// Whether `text` holds no line break.
pub open spec fn single_line(text: Seq<char>) -> bool {
    forall|i: int| 0 <= i < text.len() ==> text[i] != '\n'
}

/// The marker of line `k`: `first` for the first line, `rest` for every
/// later one.
pub open spec fn marker_of(k: int, first: Seq<char>, rest: Seq<char>) -> Seq<char> {
    if k == 0 {
        first
    } else {
        rest
    }
}

/// Whether every line of `text` starts with its marker: the first line
/// with `first`, every later line with `rest`.
pub open spec fn lines_begin(text: Seq<char>, first: Seq<char>, rest: Seq<char>) -> bool {
    forall|k: int|
        0 <= k < lines(text).len() ==> marker_of(k, first, rest).is_prefix_of(
            #[trigger] lines(text)[k],
        )
}

/// Whether `text` is made of whole lines under the markers: a line break
/// ends its last line, its first line starts with `first` and every
/// later line with `rest`. The empty text is made of no line at all.
pub open spec fn whole_lines(text: Seq<char>, first: Seq<char>, rest: Seq<char>) -> bool {
    text.len() > 0 ==> {
        &&& text.last() == '\n'
        &&& lines_begin(text.drop_last(), first, rest)
    }
}

/// The lines of `text`: what stands before, between and after its line
/// breaks, without them. A text with `n` line breaks has `n + 1` lines;
/// the last is empty when a line break ends the text.
pub open spec fn lines(text: Seq<char>) -> Seq<Seq<char>>
    decreases text.len(),
{
    if text.len() == 0 {
        seq![Seq::empty()]
    } else if text.last() == '\n' {
        lines(text.drop_last()).push(Seq::empty())
    } else {
        let before = lines(text.drop_last());
        before.drop_last().push(before.last().push(text.last()))
    }
}

/// Splits `text` at its line breaks and leaves them out.
pub fn plain_lines(text: &str) -> (out: Vec<String>)
    ensures
        string_views(out@) == lines(text@),
{
    let chars = chars_of(text);
    let mut out: Vec<String> = Vec::new();
    let mut current = String::new();
    let mut i: usize = 0;
    while i < chars.len()
        invariant
            i <= chars.len(),
            chars@ == text@,
            string_views(out@).push(current@) == lines(text@.take(i as int)),
        decreases chars.len() - i,
    {
        let c = chars[i];
        let ghost done = string_views(out@);
        let ghost open = current@;
        proof {
            assert(text@.take(i + 1).drop_last() == text@.take(i as int));
            assert(done.push(open).drop_last() == done);
        }
        if c == '\n' {
            out.push(current);
            current = String::new();
            proof {
                assert(string_views(out@) == done.push(open));
            }
        } else {
            current.push(c);
        }
        i = i + 1;
    }
    proof {
        assert(text@.take(i as int) == text@);
    }
    let ghost done = string_views(out@);
    out.push(current);
    proof {
        assert(string_views(out@) == done.push(current@));
    }
    out
}

/// A text has at least one line.
pub proof fn lemma_lines_nonempty(text: Seq<char>)
    ensures
        lines(text).len() >= 1,
    decreases text.len(),
{
    if text.len() > 0 {
        lemma_lines_nonempty(text.drop_last());
    }
}

/// Text without a line break, put at the end of a text, grows its last
/// line and leaves the other lines as they are.
pub proof fn lemma_lines_extend(text: Seq<char>, more: Seq<char>)
    requires
        single_line(more),
    ensures
        lines(text).len() >= 1,
        lines(text + more) == lines(text).drop_last().push(lines(text).last() + more),
    decreases more.len(),
{
    lemma_lines_nonempty(text);
    let old_lines = lines(text);
    if more.len() > 0 {
        let shorter = more.drop_last();
        lemma_lines_extend(text, shorter);
        assert((text + more).drop_last() =~= text + shorter);
        assert((old_lines.last() + shorter).push(more.last()) =~= old_lines.last() + more);
    }
}

/// The lines of a prefixed text are the lines of the text, the first
/// with `first` in front of it and every later one with `rest`, provided
/// neither marker holds a line break.
pub proof fn lemma_prefixed_line_by_line(text: Seq<char>, first: Seq<char>, rest: Seq<char>)
    requires
        single_line(first),
        single_line(rest),
    ensures
        lines(text).len() >= 1,
        lines(prefixed(text, first, rest)).len() == lines(text).len(),
        lines(prefixed(text, first, rest))[0] == first + lines(text)[0],
        forall|k: int|
            1 <= k < lines(text).len() ==> #[trigger] lines(prefixed(text, first, rest))[k] == rest
                + lines(text)[k],
    decreases text.len(),
{
    lemma_lines_nonempty(text);
    if text.len() == 0 {
        lemma_lines_extend(Seq::empty(), first);
    } else {
        let shorter = text.drop_last();
        let c = text.last();
        let before = prefixed(shorter, first, rest);
        lemma_prefixed_line_by_line(shorter, first, rest);
        if c == '\n' {
            let broken = before.push('\n');
            assert(broken.drop_last() =~= before);
            lemma_lines_extend(broken, rest);
            assert(prefixed(text, first, rest) =~= broken + rest);
        } else {
            assert(prefixed(text, first, rest) =~= before.push(c));
            assert(before.push(c).drop_last() =~= before);
        }
    }
}

/// After prefixing, every line starts with its marker, provided neither
/// marker holds a line break.
pub proof fn lemma_prefixed_begins(text: Seq<char>, first: Seq<char>, rest: Seq<char>)
    requires
        single_line(first),
        single_line(rest),
    ensures
        lines_begin(prefixed(text, first, rest), first, rest),
{
    lemma_prefixed_line_by_line(text, first, rest);
    let marked_lines = lines(prefixed(text, first, rest));
    assert forall|k: int| 0 <= k < marked_lines.len() implies marker_of(
        k,
        first,
        rest,
    ).is_prefix_of(#[trigger] marked_lines[k]) by {
        let marker = marker_of(k, first, rest);
        assert(marked_lines[k] == marker + lines(text)[k]);
        assert(marked_lines[k].subrange(0, marker.len() as int) =~= marker);
    }
}

/// Lines that start with a marker start with every marker that it
/// starts with.
pub proof fn lemma_lines_begin_shorter(
    text: Seq<char>,
    first: Seq<char>,
    more_first: Seq<char>,
    rest: Seq<char>,
    more_rest: Seq<char>,
)
    requires
        lines_begin(text, first + more_first, rest + more_rest),
    ensures
        lines_begin(text, first, rest),
{
    assert forall|k: int| 0 <= k < lines(text).len() implies marker_of(
        k,
        first,
        rest,
    ).is_prefix_of(#[trigger] lines(text)[k]) by {
        let line = lines(text)[k];
        let long = marker_of(k, first + more_first, rest + more_rest);
        let short = marker_of(k, first, rest);
        assert(long.is_prefix_of(line));
        assert(short =~= long.subrange(0, short.len() as int));
        assert(line.subrange(0, short.len() as int) =~= line.subrange(
            0,
            long.len() as int,
        ).subrange(0, short.len() as int));
    }
}

/// Whole lines that start with a marker start with every marker that it
/// starts with.
pub proof fn lemma_whole_lines_shorter(
    text: Seq<char>,
    first: Seq<char>,
    more_first: Seq<char>,
    rest: Seq<char>,
    more_rest: Seq<char>,
)
    requires
        whole_lines(text, first + more_first, rest + more_rest),
    ensures
        whole_lines(text, first, rest),
{
    if text.len() > 0 {
        lemma_lines_begin_shorter(text.drop_last(), first, more_first, rest, more_rest);
    }
}

/// A text without a line break is one line.
pub proof fn lemma_single_line_is_one(text: Seq<char>)
    requires
        single_line(text),
    ensures
        lines(text) == seq![text],
{
    lemma_lines_extend(Seq::empty(), text);
    assert(Seq::<char>::empty() + text =~= text);
    assert(lines(Seq::<char>::empty()).drop_last().push(text) =~= seq![text]);
}

/// After a line break, what follows starts a line of its own: the lines
/// of the whole are the lines before the line break and the lines of
/// what follows.
pub proof fn lemma_lines_after_break(head: Seq<char>, tail: Seq<char>)
    ensures
        lines(head.push('\n') + tail) == lines(head) + lines(tail),
    decreases tail.len(),
{
    let broken = head.push('\n');
    lemma_lines_nonempty(tail);
    if tail.len() == 0 {
        assert(broken + tail =~= broken);
        assert(broken.drop_last() =~= head);
        assert(lines(head).push(Seq::empty()) =~= lines(head) + lines(tail));
    } else {
        let shorter = tail.drop_last();
        lemma_lines_after_break(head, shorter);
        lemma_lines_nonempty(shorter);
        assert((broken + tail).drop_last() =~= broken + shorter);
        if tail.last() == '\n' {
            assert((lines(head) + lines(shorter)).push(Seq::empty()) =~= lines(head) + lines(
                shorter,
            ).push(Seq::empty()));
        } else {
            let before = lines(head) + lines(shorter);
            let grown = lines(shorter).last().push(tail.last());
            assert(before.last() == lines(shorter).last());
            assert(before.drop_last() =~= lines(head) + lines(shorter).drop_last());
            assert(before.drop_last().push(grown) =~= lines(head) + lines(
                shorter,
            ).drop_last().push(grown));
        }
    }
}

/// Whole lines followed by whole lines are whole lines. What follows
/// takes `first` only if nothing stands before it.
pub proof fn lemma_whole_lines_append(
    head: Seq<char>,
    tail: Seq<char>,
    first: Seq<char>,
    rest: Seq<char>,
)
    requires
        whole_lines(head, first, rest),
        whole_lines(tail, if head.len() == 0 { first } else { rest }, rest),
    ensures
        whole_lines(head + tail, first, rest),
{
    let all = head + tail;
    if head.len() == 0 {
        assert(all =~= tail);
    } else if tail.len() == 0 {
        assert(all =~= head);
    } else {
        let left = head.drop_last();
        let right = tail.drop_last();
        lemma_lines_after_break(left, right);
        lemma_lines_nonempty(left);
        assert(left.push('\n') =~= head);
        assert(all.drop_last() =~= head + right);
        let joined = lines(left) + lines(right);
        assert forall|k: int| 0 <= k < joined.len() implies marker_of(k, first, rest).is_prefix_of(
            #[trigger] joined[k],
        ) by {
            if k < lines(left).len() {
                assert(joined[k] == lines(left)[k]);
            } else {
                let j = k - lines(left).len();
                assert(joined[k] == lines(right)[j]);
                assert(marker_of(j, rest, rest) == rest);
            }
        }
    }
}

/// A text whose lines start with their markers is made of whole lines
/// once a line break ends it.
pub proof fn lemma_closed_is_whole(text: Seq<char>, first: Seq<char>, rest: Seq<char>)
    requires
        lines_begin(text, first, rest),
    ensures
        whole_lines(text.push('\n'), first, rest),
{
    assert(text.push('\n').drop_last() =~= text);
}

/// The number of line breaks in `text`.
pub open spec fn line_breaks(text: Seq<char>) -> nat
    decreases text.len(),
{
    if text.len() == 0 {
        0
    } else if text.last() == '\n' {
        line_breaks(text.drop_last()) + 1
    } else {
        line_breaks(text.drop_last())
    }
}

/// The line breaks of two texts add up when one follows the other.
pub proof fn lemma_line_breaks_add(left: Seq<char>, right: Seq<char>)
    ensures
        line_breaks(left + right) == line_breaks(left) + line_breaks(right),
    decreases right.len(),
{
    if right.len() > 0 {
        lemma_line_breaks_add(left, right.drop_last());
        assert((left + right).drop_last() =~= left + right.drop_last());
    }
}

/// A text without a line break has none to count.
pub proof fn lemma_single_line_breaks(text: Seq<char>)
    requires
        single_line(text),
    ensures
        line_breaks(text) == 0,
    decreases text.len(),
{
    if text.len() > 0 {
        lemma_single_line_breaks(text.drop_last());
    }
}

/// Prefixing adds no line and joins none, provided neither marker holds
/// a line break.
pub proof fn lemma_prefixed_keeps_line_breaks(text: Seq<char>, first: Seq<char>, rest: Seq<char>)
    requires
        single_line(first),
        single_line(rest),
    ensures
        line_breaks(prefixed(text, first, rest)) == line_breaks(text),
    decreases text.len(),
{
    lemma_single_line_breaks(first);
    lemma_line_breaks_add(first, marked(text, rest));
    lemma_marked_keeps_line_breaks(text, rest);
}

/// Marking adds no line and joins none, provided the marker holds no
/// line break.
pub proof fn lemma_marked_keeps_line_breaks(text: Seq<char>, rest: Seq<char>)
    requires
        single_line(rest),
    ensures
        line_breaks(marked(text, rest)) == line_breaks(text),
    decreases text.len(),
{
    if text.len() > 0 {
        let head = marked(text.drop_last(), rest);
        let tail = marked_char(text.last(), rest);
        lemma_marked_keeps_line_breaks(text.drop_last(), rest);
        lemma_line_breaks_add(head, tail);
        let one = seq![text.last()];
        assert(line_breaks(one.drop_last()) == 0);
        if text.last() == '\n' {
            lemma_single_line_breaks(rest);
            lemma_line_breaks_add(one, rest);
        }
    }
}

/// Prefixing with empty markers changes nothing.
pub proof fn lemma_prefixed_plain(text: Seq<char>)
    ensures
        prefixed(text, Seq::empty(), Seq::empty()) == text,
    decreases text.len(),
{
    lemma_marked_plain(text);
}

/// Marking with an empty marker changes nothing.
pub proof fn lemma_marked_plain(text: Seq<char>)
    ensures
        marked(text, Seq::empty()) == text,
    decreases text.len(),
{
    if text.len() > 0 {
        lemma_marked_plain(text.drop_last());
    }
}

} // verus!
