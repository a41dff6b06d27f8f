//! Syntax highlighting of source text into embeddable markup.
//!
//! A syntax tree is walked in source order into classified fragments, the
//! characters the tree does not keep are put back from the source text, and
//! the result is rendered through an interchangeable style.

pub mod class;
pub mod fragment;
pub mod restore;
pub mod tree;
pub mod classify;
pub mod style;
pub mod render;
