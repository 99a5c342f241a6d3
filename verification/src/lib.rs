//! Syntax highlighting of source code fragments as HTML markup.
//!
//! A registry of tree-sitter grammars resolves a language identifier, the
//! highlighter turns the code into a stream of scope and source events, and
//! the renderer folds that stream into escaped text wrapped in classed spans.

pub mod text;
pub mod escape;
pub mod vocabulary;
pub mod render;
pub mod grammar;
pub mod highlight;
