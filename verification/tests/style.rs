use termdown::style::{reset_sequence, restored, styled, styled_in, TextStyle};

#[test]
fn styled_wraps_text_in_the_italic_pair() {
    assert_eq!(styled("hi", TextStyle::emphasis()), "\x1b[3mhi\x1b[0m");
}

#[test]
fn styled_leaves_plain_text_alone() {
    assert_eq!(styled("hi", TextStyle::plain()), "hi");
}

#[test]
fn styled_lists_every_attribute_in_order() {
    let all = TextStyle { bold: true, italic: true, underline: true };
    assert_eq!(styled("x", all), "\x1b[1;3;4mx\x1b[0m");
    let two = TextStyle { bold: true, italic: false, underline: true };
    assert_eq!(styled("x", two), "\x1b[1;4mx\x1b[0m");
    let other = TextStyle { bold: false, italic: true, underline: true };
    assert_eq!(styled("x", other), "\x1b[3;4mx\x1b[0m");
    let third = TextStyle { bold: true, italic: true, underline: false };
    assert_eq!(styled("x", third), "\x1b[1;3mx\x1b[0m");
}

#[test]
fn styled_in_switches_the_enclosing_style_on_again() {
    let strong = TextStyle::strong();
    assert_eq!(styled_in("hi", TextStyle::emphasis(), strong), "\x1b[3mhi\x1b[0m\x1b[1m");
    assert_eq!(styled_in("hi", TextStyle::emphasis(), TextStyle::plain()), "\x1b[3mhi\x1b[0m");
    assert_eq!(styled_in("hi", TextStyle::plain(), strong), "hi\x1b[1m");
    assert_eq!(restored("x\x1b[0m".to_string(), strong), "x\x1b[0m\x1b[1m");
    assert_eq!(restored("x".to_string(), TextStyle::plain()), "x");
}

#[test]
fn merged_sets_what_either_style_sets() {
    let both = TextStyle::strong().merged(TextStyle::emphasis());
    assert_eq!(both, TextStyle { bold: true, italic: true, underline: false });
    assert_eq!(both.merged(TextStyle::plain()), both);
    assert_eq!(TextStyle::plain().merged(TextStyle::underlined()), TextStyle::underlined());
}

#[test]
fn the_named_styles() {
    assert_eq!(TextStyle::plain(), TextStyle { bold: false, italic: false, underline: false });
    assert_eq!(TextStyle::emphasis(), TextStyle { bold: false, italic: true, underline: false });
    assert_eq!(TextStyle::strong(), TextStyle { bold: true, italic: false, underline: false });
    assert_eq!(TextStyle::underlined(), TextStyle { bold: false, italic: false, underline: true });
    assert_eq!(reset_sequence(), "\x1b[0m");
}
