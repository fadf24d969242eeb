//! The highlighter that colours code with syntect's default grammars
//! and themes.
//!
//! The grammar and the theme are chosen once, when the highlighter is
//! loaded. The language tag of a fenced block does not change them: every
//! block is coloured by the grammar that was chosen at the start.
//!
//! What syntect returns is not written out here; it is named. The
//! contracts say which calls are made, on what, and what is done with
//! each result: a line is coloured in the state in which the lines
//! before it left the line highlighter, and a line for which syntect
//! fails, or returns less than the line, stands as it is.

use crate::highlight::{CodeHighlighter, HighlightMode};
use crate::lines::{lines_with_endings, split_lines};
use crate::style::{reset, reset_sequence};
use crate::text::{chars_of, has_ending, string_views};
use syntect::easy::HighlightLines;
use syntect::highlighting::{Color, FontStyle, Style, Theme, ThemeSet};
use syntect::parsing::{SyntaxReference, SyntaxSet};
use syntect::util::as_24_bit_terminal_escaped;
use vstd::prelude::*;

verus! {

/// syntect's set of grammars, as an opaque value.
#[verifier::external_type_specification]
#[verifier::external_body]
pub struct ExSyntaxSet(syntect::parsing::SyntaxSet);

/// One grammar of a set, as an opaque value.
#[verifier::external_type_specification]
#[verifier::external_body]
pub struct ExSyntaxReference(syntect::parsing::SyntaxReference);

/// syntect's set of themes, as an opaque value.
#[verifier::external_type_specification]
#[verifier::external_body]
pub struct ExThemeSet(syntect::highlighting::ThemeSet);

/// One theme, as an opaque value.
#[verifier::external_type_specification]
#[verifier::external_body]
pub struct ExTheme(syntect::highlighting::Theme);

/// syntect's line highlighter, as an opaque value. It carries the state
/// of the grammar from one line to the next.
#[verifier::external_type_specification]
#[verifier::external_body]
pub struct ExHighlightLines<'a>(syntect::easy::HighlightLines<'a>);

/// syntect's error, as an opaque value.
#[verifier::external_type_specification]
#[verifier::external_body]
pub struct ExSyntectError(syntect::Error);

/// A colour with its transparency.
#[derive(Clone, Copy, Debug, PartialEq, Eq)]
pub struct Rgba {
    pub r: u8,
    pub g: u8,
    pub b: u8,
    pub a: u8,
}

/// A stretch of code with the colours that the theme gives it.
#[derive(Debug, PartialEq)]
pub struct StyledRun {
    pub foreground: Rgba,
    pub background: Rgba,
    pub text: String,
}

/// The mathematical view of a [`StyledRun`].
pub ghost struct StyledRunView {
    pub foreground: Rgba,
    pub background: Rgba,
    pub text: Seq<char>,
}

impl View for StyledRun {
    type V = StyledRunView;

    open spec fn view(&self) -> StyledRunView {
        StyledRunView { foreground: self.foreground, background: self.background, text: self.text@ }
    }
}

/// The views of a sequence of runs, in order.
pub open spec fn run_views(runs: Seq<StyledRun>) -> Seq<StyledRunView> {
    Seq::new(runs.len(), |i: int| runs[i]@)
}

/// The text of a sequence of runs, without their colours.
pub open spec fn run_text(runs: Seq<StyledRunView>) -> Seq<char>
    decreases runs.len(),
{
    if runs.len() == 0 {
        Seq::empty()
    } else {
        run_text(runs.drop_last()) + runs.last().text
    }
}

/// What `syntect::util::as_24_bit_terminal_escaped` makes of the runs:
/// their text with a 24-bit colour sequence before each run.
pub uninterp spec fn escaped_runs(runs: Seq<StyledRunView>, background: bool) -> Seq<char>;

/// The file extensions for which `SyntaxSet::find_syntax_by_extension`
/// finds a grammar in the set.
pub uninterp spec fn grammar_extensions(syntaxes: SyntaxSet) -> Set<Seq<char>>;

/// The names of the themes that the set holds.
pub uninterp spec fn theme_names(themes: ThemeSet) -> Set<Seq<char>>;

/// Whether the grammar is one of the set `syntaxes`.
pub uninterp spec fn grammar_in(syntax: SyntaxReference, syntaxes: SyntaxSet) -> bool;

/// Whether the grammar holds the context that parsing starts in. A
/// grammar that was loaded from a syntax definition file holds it.
pub uninterp spec fn startable(syntax: SyntaxReference) -> bool;

/// Whether parsing can start on every grammar of the set.
pub open spec fn all_startable(syntaxes: SyntaxSet) -> bool {
    forall|syntax: SyntaxReference| #[trigger] grammar_in(syntax, syntaxes) ==> startable(syntax)
}

/// The grammar that the line highlighter was started on.
pub uninterp spec fn grammar_of(lines: HighlightLines<'_>) -> SyntaxReference;

/// The grammar that `SyntaxSet::find_syntax_by_extension` finds for the
/// file extension in the set, if it finds one.
pub uninterp spec fn grammar_for(syntaxes: SyntaxSet, extension: Seq<char>) -> Option<
    SyntaxReference,
>;

/// The theme that the set holds under the name, if it holds one.
pub uninterp spec fn theme_for(themes: ThemeSet, name: Seq<char>) -> Option<Theme>;

/// The line highlighter that `HighlightLines::new` makes for the grammar
/// and the theme: one that has seen no line yet.
pub uninterp spec fn fresh_lines(syntax: SyntaxReference, theme: &Theme) -> HighlightLines<'_>;

/// The runs that `HighlightLines::highlight_line` gives for `line` when
/// the line highlighter is in the state `lines`, or nothing where it
/// fails.
pub uninterp spec fn line_runs(
    lines: HighlightLines<'_>,
    syntaxes: SyntaxSet,
    line: Seq<char>,
) -> Option<Seq<StyledRunView>>;

/// The state in which `HighlightLines::highlight_line` leaves the line
/// highlighter that was in the state `lines` when it was handed `line`.
pub uninterp spec fn state_after(
    lines: HighlightLines<'_>,
    syntaxes: SyntaxSet,
    line: Seq<char>,
) -> HighlightLines<'_>;

/// `SyntaxSet::load_defaults_newlines` unpacks the grammars that syntect
/// ships. Trusted: they were made from syntax definition files, so
/// parsing can start on each of them.
pub assume_specification[ SyntaxSet::load_defaults_newlines ]() -> (out: SyntaxSet)
    ensures
        forall|syntax: SyntaxReference| #[trigger] grammar_in(syntax, out) ==> startable(syntax),
;

/// `ThemeSet::load_defaults` unpacks the themes that syntect ships.
/// Nothing is claimed of them.
pub assume_specification[ ThemeSet::load_defaults ]() -> ThemeSet;

/// `SyntaxSet::find_syntax_by_extension` searches the set for a grammar
/// that lists the file extension, whatever the case of its letters.
/// Trusted: what it finds depends on the set and the extension alone,
/// and a grammar that it returns is one of the set.
pub assume_specification<'a>[ SyntaxSet::find_syntax_by_extension ](
    syntaxes: &'a SyntaxSet,
    extension: &str,
) -> (out: Option<&'a SyntaxReference>)
    ensures
        out is Some <==> grammar_extensions(*syntaxes).contains(extension@),
        out matches Some(syntax) ==> grammar_in(*syntax, *syntaxes),
        out matches Some(syntax) ==> grammar_for(*syntaxes, extension@) == Some(*syntax),
        out is None ==> grammar_for(*syntaxes, extension@) is None,
;

/// `HighlightLines::new` starts a line highlighter at the beginning of a
/// text. It looks up the grammar's start context and panics where there
/// is none. Trusted: it is started on the grammar that it was given, and
/// the state that it starts in depends on the grammar and the theme
/// alone.
pub assume_specification<'a>[ HighlightLines::<'a>::new ](
    syntax: &SyntaxReference,
    theme: &'a Theme,
) -> (out: HighlightLines<'a>)
    requires
        startable(*syntax),
    ensures
        grammar_of(out) == *syntax,
        out == fresh_lines(*syntax, theme),
;

/// Looks a theme up by its name in the public map of a `ThemeSet`, with
/// `BTreeMap::get`. Trusted: what it finds depends on the set and the
/// name alone.
#[verifier::external_body]
fn find_theme<'a>(themes: &'a ThemeSet, name: &str) -> (out: Option<&'a Theme>)
    ensures
        out is Some <==> theme_names(*themes).contains(name@),
        out matches Some(theme) ==> theme_for(*themes, name@) == Some(*theme),
        out is None ==> theme_for(*themes, name@) is None,
{
    themes.themes.get(name)
}

/// Calls `HighlightLines::highlight_line` and copies the colours and the
/// text of the styled ranges into runs; the font style of a range is not
/// kept. The set of grammars must hold the grammar that the line
/// highlighter was started on: with another set the call may panic.
/// Trusted: the line highlighter stays on its grammar; the runs are
/// consecutive pieces of the line from its start, so their text is a
/// prefix of the line; and the runs, the failure and the state that the
/// line highlighter is left in depend on the state that it was in, the
/// set and the line alone.
#[verifier::external_body]
fn highlight_line(lines: &mut HighlightLines<'_>, syntaxes: &SyntaxSet, line: &str) -> (out: Result<
    Vec<StyledRun>,
    syntect::Error,
>)
    requires
        grammar_in(grammar_of(*old(lines)), *syntaxes),
    ensures
        grammar_of(*final(lines)) == grammar_of(*old(lines)),
        out matches Ok(runs) ==> run_text(run_views(runs@)).is_prefix_of(line@),
        out matches Ok(runs) ==> line_runs(*old(lines), *syntaxes, line@) == Some(
            run_views(runs@),
        ),
        out is Err ==> line_runs(*old(lines), *syntaxes, line@) is None,
        *final(lines) == state_after(*old(lines), *syntaxes, line@),
{
    let ranges = lines.highlight_line(line, syntaxes)?;
    Ok(
        ranges.into_iter().map(
            |(style, text)|
                {
                    let (f, b) = (style.foreground, style.background);
                    StyledRun {
                        foreground: Rgba { r: f.r, g: f.g, b: f.b, a: f.a },
                        background: Rgba { r: b.r, g: b.g, b: b.b, a: b.a },
                        text: text.to_string(),
                    }
                },
        ).collect(),
    )
}

/// Calls `syntect::util::as_24_bit_terminal_escaped` on the runs, each
/// with an empty font style, which the function does not read. Trusted:
/// the result depends on the runs' colours and text and on the flag
/// alone.
#[verifier::external_body]
fn escape_runs(runs: &Vec<StyledRun>, background: bool) -> (out: String)
    ensures
        out@ == escaped_runs(run_views(runs@), background),
{
    let ranges: Vec<(Style, &str)> = runs.iter().map(
        |run|
            {
                let (f, b) = (run.foreground, run.background);
                let foreground = Color { r: f.r, g: f.g, b: f.b, a: f.a };
                let background = Color { r: b.r, g: b.g, b: b.b, a: b.a };
                let style = Style { foreground, background, font_style: FontStyle::empty() };
                (style, run.text.as_str())
            },
    ).collect();
    as_24_bit_terminal_escaped(&ranges[..], background)
}

/// What stands for one line in highlighted code. Where the line
/// highlighter gave runs that hold the whole line, it is their coloured
/// form. Where it failed, or gave runs that hold less than the line, it
/// is the line as it is, so that nothing of the code is lost.
pub open spec fn piece_of(runs: Option<Seq<StyledRunView>>, line: Seq<char>) -> Seq<char> {
    match runs {
        Some(found) => if run_text(found) == line {
            escaped_runs(found, true)
        } else {
            line
        },
        None => line,
    }
}

/// The runs that a call of the line highlighter returned, or nothing
/// where it failed.
pub open spec fn returned_runs(result: Result<Vec<StyledRun>, syntect::Error>) -> Option<
    Seq<StyledRunView>,
> {
    match result {
        Ok(runs) => Some(run_views(runs@)),
        Err(_) => None,
    }
}

/// What the lines come to when the line highlighter goes through them
/// one after the other, from the state `state`: the piece of each line,
/// in order. Each line is coloured in the state in which the lines
/// before it left the line highlighter.
pub open spec fn coloured(
    state: HighlightLines<'_>,
    syntaxes: SyntaxSet,
    lines: Seq<Seq<char>>,
) -> Seq<char>
    decreases lines.len(),
{
    if lines.len() == 0 {
        Seq::empty()
    } else {
        piece_of(line_runs(state, syntaxes, lines[0]), lines[0]) + coloured(
            state_after(state, syntaxes, lines[0]),
            syntaxes,
            lines.drop_first(),
        )
    }
}

/// The pieces that a highlighter is handed: the whole code in inline
/// mode, its lines in block mode.
pub open spec fn code_lines(code: Seq<char>, mode: HighlightMode) -> Seq<Seq<char>> {
    match mode {
        HighlightMode::Inline => seq![code],
        HighlightMode::Block => lines_with_endings(code),
    }
}

/// A highlighter backed by a set of syntect's grammars and themes, with
/// one grammar and one theme fixed for all the code that it is handed.
pub struct SyntectHighlighter {
    syntaxes: SyntaxSet,
    themes: ThemeSet,
    extension: String,
    theme: String,
}

impl SyntectHighlighter {
    /// The sets hold the grammar and the theme that were fixed, and
    /// parsing can start on every grammar.
    #[verifier::type_invariant]
    spec fn found(self) -> bool {
        &&& grammar_extensions(self.syntaxes).contains(self.extension@)
        &&& theme_names(self.themes).contains(self.theme@)
        &&& all_startable(self.syntaxes)
    }

    /// The file extension that names the grammar.
    pub closed spec fn grammar(&self) -> Seq<char> {
        self.extension@
    }

    /// The name of the theme.
    pub closed spec fn theme_name(&self) -> Seq<char> {
        self.theme@
    }

    /// Loads the grammars and themes that syntect ships and fixes the
    /// grammar, by a file extension, and the theme, by its name, in
    /// them. What was loaded decides: the result is a highlighter over
    /// the loaded sets if they hold such a grammar and such a theme, and
    /// `None` if they do not.
    pub fn load(extension: &str, theme: &str) -> (out: Option<SyntectHighlighter>)
        ensures
            out matches Some(h) ==> h.grammar() == extension@ && h.theme_name() == theme@,
            exists|syntaxes: SyntaxSet, themes: ThemeSet|
                all_startable(syntaxes) && #[trigger] fixed_in(
                    out,
                    syntaxes,
                    themes,
                    extension@,
                    theme@,
                ),
    {
        let syntaxes = SyntaxSet::load_defaults_newlines();
        let themes = ThemeSet::load_defaults();
        SyntectHighlighter::from_sets(syntaxes, themes, extension, theme)
    }

    /// Fixes the grammar, by a file extension, and the theme, by its
    /// name, in the given sets. Returns a highlighter if the sets hold
    /// both, and `None` if they do not. The grammars must be such that
    /// parsing can start on them, as those are that syntect loads from
    /// syntax definition files.
    pub fn from_sets(
        syntaxes: SyntaxSet,
        themes: ThemeSet,
        extension: &str,
        theme: &str,
    ) -> (out: Option<SyntectHighlighter>)
        requires
            all_startable(syntaxes),
        ensures
            fixed_in(out, syntaxes, themes, extension@, theme@),
    {
        let found = syntaxes.find_syntax_by_extension(extension).is_some() && find_theme(
            &themes,
            theme,
        ).is_some();
        if found {
            Some(
                SyntectHighlighter {
                    syntaxes,
                    themes,
                    extension: String::from_str(extension),
                    theme: String::from_str(theme),
                },
            )
        } else {
            None
        }
    }

    /// The set of grammars that the highlighter holds.
    pub closed spec fn grammars(&self) -> SyntaxSet {
        self.syntaxes
    }

    /// The set of themes that the highlighter holds.
    pub closed spec fn themes(&self) -> ThemeSet {
        self.themes
    }

    /// The state in which the highlighter starts on a piece of code: that
    /// of a line highlighter that has seen no line, for the grammar and
    /// the theme that were fixed.
    pub open spec fn start_state(&self) -> HighlightLines<'_> {
        fresh_lines(
            grammar_for(self.grammars(), self.grammar())->Some_0,
            &theme_for(self.themes(), self.theme_name())->Some_0,
        )
    }

    /// What the highlighter makes of `code`: its lines, or all of it in
    /// inline mode, gone through from the start state, and one reset
    /// sequence after them.
    pub open spec fn highlighted(&self, code: Seq<char>, mode: HighlightMode) -> Seq<char> {
        coloured(self.start_state(), self.grammars(), code_lines(code, mode)) + reset()
    }

    /// A line highlighter at the beginning of a text, on the grammar and
    /// the theme that were fixed.
    fn start(&self) -> (out: HighlightLines<'_>)
        ensures
            out == self.start_state(),
            grammar_in(grammar_of(out), self.syntaxes),
    {
        proof {
            use_type_invariant(self);
        }
        let syntax = self.syntaxes.find_syntax_by_extension(self.extension.as_str());
        let theme = find_theme(&self.themes, self.theme.as_str());
        HighlightLines::new(syntax.unwrap(), theme.unwrap())
    }

    /// Colours the lines one after the other, so that a construct that
    /// spans several lines keeps its colour, and ends the whole with one
    /// reset sequence.
    fn colour_lines(&self, lines: &Vec<String>) -> (out: String)
        ensures
            out@ == coloured(self.start_state(), self.grammars(), string_views(lines@)) + reset(),
    {
        let mut out = String::new();
        let mut state = self.start();
        let ghost all = string_views(lines@);
        let mut i: usize = 0;
        proof {
            assert(all.skip(0) == all);
        }
        while i < lines.len()
            invariant
                i <= lines.len(),
                all == string_views(lines@),
                grammar_in(grammar_of(state), self.syntaxes),
                out@ + coloured(state, self.syntaxes, all.skip(i as int)) == coloured(
                    self.start_state(),
                    self.syntaxes,
                    all,
                ),
            decreases lines.len() - i,
        {
            proof {
                assert(all.skip(i as int)[0] == lines@[i as int]@);
                assert(all.skip(i as int).drop_first() == all.skip(i + 1));
            }
            let piece = colour_line(&mut state, &self.syntaxes, lines[i].as_str());
            out.append(piece.as_str());
            i = i + 1;
        }
        out.append(reset_sequence());
        out
    }
}

/// Whether `out` is what fixing a grammar and a theme in the given sets
/// comes to: a highlighter that holds the sets, the file extension and
/// the name of the theme, if the sets hold a grammar for the extension
/// and a theme of the name; nothing, if they do not.
pub open spec fn fixed_in(
    out: Option<SyntectHighlighter>,
    syntaxes: SyntaxSet,
    themes: ThemeSet,
    extension: Seq<char>,
    theme: Seq<char>,
) -> bool {
    &&& out is Some <==> grammar_extensions(syntaxes).contains(extension) && theme_names(
        themes,
    ).contains(theme)
    &&& out matches Some(h) ==> {
        &&& h.grammars() == syntaxes
        &&& h.themes() == themes
        &&& h.grammar() == extension
        &&& h.theme_name() == theme
    }
}

/// The piece of a line is the line itself or the coloured form of runs
/// whose text is the whole line: no piece stands for less than its line.
pub proof fn lemma_piece_holds_line(runs: Option<Seq<StyledRunView>>, line: Seq<char>)
    ensures
        piece_of(runs, line) == line || (runs matches Some(found) && run_text(found) == line
            && piece_of(runs, line) == escaped_runs(found, true)),
{
}

/// Inline code for which the line highlighter gives runs that hold all
/// of it comes to the coloured form of those runs and one reset
/// sequence: nothing stands before the coloured text and nothing but the
/// reset after it.
pub proof fn lemma_inline_is_escaped_runs(
    h: SyntectHighlighter,
    code: Seq<char>,
    runs: Seq<StyledRunView>,
)
    requires
        line_runs(h.start_state(), h.grammars(), code) == Some(runs),
        run_text(runs) == code,
    ensures
        h.highlighted(code, HighlightMode::Inline) == escaped_runs(runs, true) + reset(),
{
    let lines = seq![code];
    let next = state_after(h.start_state(), h.grammars(), code);
    assert(lines.drop_first() =~= Seq::<Seq<char>>::empty());
    assert(coloured(next, h.grammars(), lines.drop_first()) == Seq::<char>::empty());
    assert(escaped_runs(runs, true) + Seq::<char>::empty() =~= escaped_runs(runs, true));
}

/// A block of no code comes to the reset sequence alone.
pub proof fn lemma_empty_block_is_reset(h: SyntectHighlighter)
    ensures
        h.highlighted(Seq::empty(), HighlightMode::Block) == reset(),
{
    assert(lines_with_endings(Seq::<char>::empty()) =~= Seq::<Seq<char>>::empty());
    assert(Seq::<char>::empty() + reset() =~= reset());
}

/// Equal code gives equal results: what a highlighter returns depends on
/// the code, the mode, the sets that it holds and the grammar and the
/// theme that were fixed in them, and on nothing else. Each call starts
/// from a state that has seen no line.
pub proof fn lemma_highlight_is_determined(
    one: SyntectHighlighter,
    other: SyntectHighlighter,
    code: Seq<char>,
    mode: HighlightMode,
    first: Seq<char>,
    second: Seq<char>,
)
    requires
        one.grammars() == other.grammars(),
        one.themes() == other.themes(),
        one.grammar() == other.grammar(),
        one.theme_name() == other.theme_name(),
        one.produces(code, mode, first),
        other.produces(code, mode, second),
    ensures
        first == second,
{
}

/// Tests whether the runs hold the whole line: whether their text, put
/// together, is the line.
pub fn runs_hold(runs: &Vec<StyledRun>, line: &str) -> (out: bool)
    ensures
        out == (run_text(run_views(runs@)) == line@),
{
    let mut text: Vec<char> = Vec::new();
    let mut i: usize = 0;
    while i < runs.len()
        invariant
            i <= runs.len(),
            text@ == run_text(run_views(runs@).take(i as int)),
        decreases runs.len() - i,
    {
        let mut more = chars_of(runs[i].text.as_str());
        proof {
            let views = run_views(runs@);
            assert(views.take(i + 1).drop_last() == views.take(i as int));
            assert(views.take(i + 1).last().text == runs@[i as int].text@);
        }
        text.append(&mut more);
        i = i + 1;
    }
    proof {
        assert(run_views(runs@).take(i as int) == run_views(runs@));
    }
    let whole = chars_of(line);
    let same = text.len() == whole.len() && has_ending(&text, &whole);
    proof {
        if text.len() == whole.len() {
            assert(text@.subrange(0, text@.len() as int) == text@);
        }
    }
    same
}

/// The piece that stands for `line`, given what the line highlighter
/// returned for it: the coloured form of the runs if they hold the whole
/// line, else the line as it is.
pub fn piece_for(result: Result<Vec<StyledRun>, syntect::Error>, line: &str) -> (out: String)
    ensures
        out@ == piece_of(returned_runs(result), line@),
{
    match result {
        Ok(runs) => {
            if runs_hold(&runs, line) {
                escape_runs(&runs, true)
            } else {
                String::from_str(line)
            }
        },
        Err(_) => String::from_str(line),
    }
}

/// Colours one line and moves the line highlighter past it.
fn colour_line(state: &mut HighlightLines<'_>, syntaxes: &SyntaxSet, line: &str) -> (out: String)
    requires
        grammar_in(grammar_of(*old(state)), *syntaxes),
    ensures
        grammar_of(*final(state)) == grammar_of(*old(state)),
        *final(state) == state_after(*old(state), *syntaxes, line@),
        out@ == piece_of(line_runs(*old(state), *syntaxes, line@), line@),
{
    let result = highlight_line(state, syntaxes, line);
    piece_for(result, line)
}

impl CodeHighlighter for SyntectHighlighter {
    /// The result is what the highlighter makes of the code: each line
    /// coloured in the state in which the lines before it left the line
    /// highlighter, and one reset sequence after the last.
    open spec fn produces(&self, code: Seq<char>, mode: HighlightMode, out: Seq<char>) -> bool {
        out == self.highlighted(code, mode)
    }

    fn highlight(&self, code: &str, language: &Option<String>, mode: HighlightMode) -> (out:
        String) {
        let lines = match mode {
            HighlightMode::Inline => {
                let mut one: Vec<String> = Vec::new();
                one.push(String::from_str(code));
                proof {
                    assert(string_views(one@) == seq![code@]);
                }
                one
            },
            HighlightMode::Block => split_lines(code),
        };
        self.colour_lines(&lines)
    }
}

} // verus!
