//! Markdown to Typst conversion with LaTeX math support.
//!
//! A Markdown text is parsed into a [`document::Node`] tree ([`markdown`]),
//! the tree becomes Typst markup ([`convert`]), LaTeX math notation is
//! rewritten in Typst's own ([`math`]), and the fixed preamble
//! ([`template`]) is put in front ([`pipeline`]).

pub mod text;
pub mod math;
pub mod math_laws;
pub mod document;
pub mod markdown;
pub mod html;
pub mod escape;
pub mod convert;
pub mod template;
pub mod pipeline;
