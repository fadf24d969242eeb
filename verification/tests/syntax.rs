use syntect::easy::HighlightLines;
use syntect::highlighting::{Color, FontStyle, Style, ThemeSet};
use syntect::parsing::SyntaxSet;
use syntect::util::as_24_bit_terminal_escaped;
use termdown::highlight::{CodeHighlighter, HighlightMode};
use termdown::syntax::{piece_for, runs_hold, Rgba, StyledRun, SyntectHighlighter};

const THEME: &str = "base16-eighties.dark";
const RESET: &str = "\x1b[0m";

fn expected_lines(lines: &[&str]) -> String {
    let syntaxes = SyntaxSet::load_defaults_newlines();
    let themes = ThemeSet::load_defaults();
    let syntax = syntaxes.find_syntax_by_extension("rs").unwrap();
    let mut state = HighlightLines::new(syntax, &themes.themes[THEME]);
    let mut out = String::new();
    for line in lines {
        let ranges = state.highlight_line(line, &syntaxes).unwrap();
        out.push_str(&as_24_bit_terminal_escaped(&ranges[..], true));
    }
    out.push_str(RESET);
    out
}

#[test]
fn load_finds_the_rust_grammar() {
    assert!(SyntectHighlighter::load("rs", THEME).is_some());
}

#[test]
fn load_fails_on_an_unknown_grammar() {
    assert!(SyntectHighlighter::load("no-such-extension", THEME).is_none());
}

#[test]
fn load_fails_on_an_unknown_theme() {
    assert!(SyntectHighlighter::load("rs", "no such theme").is_none());
}

#[test]
fn from_sets_needs_both_the_grammar_and_the_theme() {
    let found = SyntectHighlighter::from_sets(
        SyntaxSet::load_defaults_newlines(),
        ThemeSet::load_defaults(),
        "py",
        "InspiredGitHub",
    );
    assert!(found.is_some());
    let no_theme = SyntectHighlighter::from_sets(
        SyntaxSet::load_defaults_newlines(),
        ThemeSet::default(),
        "rs",
        THEME,
    );
    assert!(no_theme.is_none());
    let no_grammar = SyntectHighlighter::from_sets(
        SyntaxSet::new(),
        ThemeSet::load_defaults(),
        "rs",
        THEME,
    );
    assert!(no_grammar.is_none());
}

#[test]
fn grammar_and_theme_change_the_colours() {
    let rust = SyntectHighlighter::load("rs", THEME).unwrap();
    let python = SyntectHighlighter::load("py", THEME).unwrap();
    let light = SyntectHighlighter::load("rs", "InspiredGitHub").unwrap();
    let code = "fn f() {}";
    let base = rust.highlight(code, &None, HighlightMode::Inline);
    assert_ne!(base, python.highlight(code, &None, HighlightMode::Inline));
    assert_ne!(base, light.highlight(code, &None, HighlightMode::Inline));
}

#[test]
fn inline_code_is_one_line_with_one_reset() {
    let h = SyntectHighlighter::load("rs", THEME).unwrap();
    let out = h.highlight("let x = 1;", &None, HighlightMode::Inline);
    assert_eq!(out, expected_lines(&["let x = 1;"]));
    assert!(out.ends_with(RESET));
    assert_eq!(out.matches(RESET).count(), 1);
    assert_ne!(out, "let x = 1;");
}

#[test]
fn inline_code_with_a_line_break_stays_one_line() {
    let h = SyntectHighlighter::load("rs", THEME).unwrap();
    let out = h.highlight("a\nb", &None, HighlightMode::Inline);
    assert_eq!(out, expected_lines(&["a\nb"]));
}

#[test]
fn block_code_goes_line_by_line_with_one_reset() {
    let h = SyntectHighlighter::load("rs", THEME).unwrap();
    let code = "/* open\nstill a comment */\nfn main() {}\n";
    let out = h.highlight(code, &Some("rust".to_string()), HighlightMode::Block);
    assert_eq!(out, expected_lines(&["/* open\n", "still a comment */\n", "fn main() {}\n"]));
    assert_eq!(out.matches(RESET).count(), 1);
    assert_eq!(out.matches('\n').count(), 3);
}

#[test]
fn language_tag_does_not_change_the_grammar() {
    let h = SyntectHighlighter::load("rs", THEME).unwrap();
    let tagged = h.highlight("fn f() {}", &Some("python".to_string()), HighlightMode::Block);
    let untagged = h.highlight("fn f() {}", &None, HighlightMode::Block);
    assert_eq!(tagged, untagged);
}

#[test]
fn empty_block_is_just_the_reset() {
    let h = SyntectHighlighter::load("rs", THEME).unwrap();
    assert_eq!(h.highlight("", &None, HighlightMode::Block), RESET);
}

fn run(text: &str, red: u8) -> StyledRun {
    StyledRun {
        foreground: Rgba { r: red, g: 2, b: 3, a: 255 },
        background: Rgba { r: 4, g: 5, b: 6, a: 255 },
        text: text.to_string(),
    }
}

fn style(red: u8) -> Style {
    Style {
        foreground: Color { r: red, g: 2, b: 3, a: 255 },
        background: Color { r: 4, g: 5, b: 6, a: 255 },
        font_style: FontStyle::empty(),
    }
}

#[test]
fn runs_hold_compares_their_text_with_the_line() {
    assert!(runs_hold(&vec![run("let ", 1), run("x", 9)], "let x"));
    assert!(!runs_hold(&vec![run("let ", 1)], "let x"));
    assert!(!runs_hold(&vec![run("let ", 1), run("y", 9)], "let x"));
    assert!(!runs_hold(&vec![run("let x;", 1)], "let x"));
    assert!(runs_hold(&Vec::new(), ""));
    assert!(!runs_hold(&Vec::new(), "x"));
    assert!(runs_hold(&vec![run("\u{4f60}", 1), run("\u{597d}\n", 1)], "\u{4f60}\u{597d}\n"));
}

#[test]
fn piece_for_colours_runs_that_hold_the_line() {
    let runs = vec![run("let ", 1), run("x", 9)];
    let expected = as_24_bit_terminal_escaped(&[(style(1), "let "), (style(9), "x")], true);
    assert_eq!(piece_for(Ok(runs), "let x"), expected);
    assert_eq!(expected, "\x1b[48;2;4;5;6m\x1b[38;2;1;2;3mlet \x1b[48;2;4;5;6m\x1b[38;2;9;2;3mx");
}

#[test]
fn piece_for_keeps_the_line_where_the_runs_hold_less() {
    assert_eq!(piece_for(Ok(vec![run("let ", 1)]), "let x"), "let x");
    assert_eq!(piece_for(Ok(Vec::new()), "let x"), "let x");
}

#[test]
fn piece_for_keeps_the_line_where_the_highlighter_failed() {
    let failure = syntect::Error::from(std::fmt::Error);
    assert_eq!(piece_for(Err(failure), "let x\n"), "let x\n");
}

#[test]
fn equal_code_gives_equal_results() {
    let h = SyntectHighlighter::load("rs", THEME).unwrap();
    let code = "/* a\nb */ fn f() {}\n";
    let first = h.highlight(code, &None, HighlightMode::Block);
    let between = h.highlight("\"open", &None, HighlightMode::Block);
    let second = h.highlight(code, &None, HighlightMode::Block);
    let other = SyntectHighlighter::load("rs", THEME).unwrap();
    assert_eq!(first, second);
    assert_eq!(first, other.highlight(code, &None, HighlightMode::Block));
    assert_ne!(first, between);
}

#[test]
fn the_code_comes_back_when_the_colour_sequences_are_taken_out() {
    let h = SyntectHighlighter::load("rs", THEME).unwrap();
    let code = "fn main() {\n    let s = \"\u{4f60}\u{597d}\";\n}\n// end";
    for mode in [HighlightMode::Block, HighlightMode::Inline] {
        let out = h.highlight(code, &None, mode);
        let mut plain = String::new();
        let mut rest = out.as_str();
        while let Some(at) = rest.find('\x1b') {
            plain.push_str(&rest[..at]);
            let end = rest[at..].find('m').unwrap();
            rest = &rest[at + end + 1..];
        }
        plain.push_str(rest);
        assert_eq!(plain, code);
    }
}
