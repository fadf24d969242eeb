use termdown::lines::{plain_lines, prefix_lines, split_lines};
use termdown::text::{chars_of, has_ending, repeat_char};

#[test]
fn repeat_char_builds_a_run() {
    assert_eq!(repeat_char('-', 4), "----");
    assert_eq!(repeat_char(' ', 0), "");
}

#[test]
fn chars_of_keeps_wide_characters_whole() {
    assert_eq!(chars_of("a你b"), vec!['a', '你', 'b']);
}

#[test]
fn prefix_lines_marks_first_and_later_lines() {
    assert_eq!(prefix_lines("a\nb\nc", "* ", "  "), "* a\n  b\n  c");
}

#[test]
fn prefix_lines_marks_blank_lines_too() {
    assert_eq!(prefix_lines("a\n\nb", "> ", "> "), "> a\n> \n> b");
    assert_eq!(prefix_lines("", "> ", "> "), "> ");
    assert_eq!(prefix_lines("a\n", "> ", "| "), "> a\n| ");
}

#[test]
fn prefix_lines_with_empty_markers_changes_nothing() {
    assert_eq!(prefix_lines("a\n\nb\n", "", ""), "a\n\nb\n");
}

#[test]
fn split_lines_keeps_line_breaks() {
    assert_eq!(split_lines("foo\nbar\nbaz"), vec!["foo\n", "bar\n", "baz"]);
    assert_eq!(split_lines("foo\n"), vec!["foo\n"]);
    assert_eq!(split_lines("\n\n"), vec!["\n", "\n"]);
    assert_eq!(split_lines(""), Vec::<String>::new());
}

#[test]
fn has_ending_compares_the_tail() {
    let text: Vec<char> = "hello".chars().collect();
    let tail: Vec<char> = "llo".chars().collect();
    let other: Vec<char> = "hel".chars().collect();
    let longer: Vec<char> = "xhello".chars().collect();
    assert!(has_ending(&text, &tail));
    assert!(!has_ending(&text, &other));
    assert!(!has_ending(&text, &longer));
    assert!(has_ending(&text, &Vec::new()));
}

#[test]
fn plain_lines_leaves_line_breaks_out() {
    assert_eq!(plain_lines("foo\nbar\nbaz"), vec!["foo", "bar", "baz"]);
    assert_eq!(plain_lines("foo\n"), vec!["foo", ""]);
    assert_eq!(plain_lines("\n\n"), vec!["", "", ""]);
    assert_eq!(plain_lines(""), vec![""]);
}
