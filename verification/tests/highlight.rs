use termdown::highlight::{close_code, CodeHighlighter, HighlightMode, MarkerHighlighter};

#[test]
fn marker_highlighter_frames_code() {
    let h = MarkerHighlighter::new("<H>", "<R>");
    assert_eq!(h.highlight("let x = 1;", &None, HighlightMode::Block), "<H>let x = 1;<R>");
    assert_eq!(h.highlight("x", &None, HighlightMode::Inline), "<H>x<R>");
}

#[test]
fn marker_highlighter_with_empty_markers_passes_code_through() {
    let h = MarkerHighlighter::new("", "");
    assert_eq!(h.highlight("a\nb\n", &None, HighlightMode::Block), "a\nb\n");
}

#[test]
fn close_code_adds_a_missing_reset() {
    assert_eq!(close_code("abc".to_string()), "abc\x1b[0m");
    assert_eq!(close_code(String::new()), "\x1b[0m");
    assert_eq!(close_code("[0m".to_string()), "[0m\x1b[0m");
}

#[test]
fn close_code_keeps_a_reset_that_is_there() {
    assert_eq!(close_code("abc\x1b[0m".to_string()), "abc\x1b[0m");
    assert_eq!(close_code("\x1b[0m".to_string()), "\x1b[0m");
}
