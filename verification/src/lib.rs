//! A language-analysis core: it parses a source text to a concrete syntax
//! tree and derives syntax-highlighting tokens, file metrics, normalized
//! copy-paste-detection tokens, and rule findings from it.
//!
//! The grammar library's tree is mirrored into a checked arena of plain
//! node records ([`tree::SyntaxTree`]); every analyzer is verified against a
//! specification over that arena and the source bytes.
pub mod analyze;
pub mod issue;
pub mod location;
pub mod parse;
pub mod protocol;
pub mod rules;
pub mod samples;
pub mod text;
pub mod tree;
mod ts_api;
pub mod visitors;
