//! Width-aware, ANSI-styled rendering of a parsed document tree for a
//! character terminal.
//!
//! A document is a tree of blocks and inline spans ([`document`]). It is
//! rendered in two steps. First the code in it is handed to a
//! highlighter ([`highlight`], [`syntax`]) and what comes back is put in
//! its place ([`resolve`]). Then the tree is written out: inline content
//! by the span renderer ([`spans`]), with escape sequences for its styles
//! ([`style`]); blocks by the block renderer ([`blocks`]), which reflows
//! text to the width of the terminal and keeps the markers of quotations
//! and lists in front of the lines ([`wrap`], [`lines`], [`text`]).
//!
//! Every function has a contract over the views of its arguments, and
//! the module that defines a function also states what holds of it in
//! general, as proof functions.

pub mod blocks;
pub mod document;
pub mod highlight;
pub mod lines;
pub mod resolve;
pub mod spans;
pub mod style;
pub mod syntax;
pub mod text;
pub mod wrap;
