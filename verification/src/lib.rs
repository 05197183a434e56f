//! Text-processing core of a small rectangle-geometry toolkit: a source-code
//! token lexer, a lexer for a Ukrainian command language about rectangles,
//! an executor for rectangle commands, and the analysis of word lists from
//! geometry word problems.

pub mod command_lexer;
pub mod geometry;
pub mod numeral;
pub mod pattern;
pub mod rectangles;
pub mod script;
pub mod store;
pub mod text;
pub mod token_lexer;
pub mod words;
