//! Lexical scanner for a small dynamic scripting language.
//!
//! The scanner turns source text into an ordered sequence of tokens and a
//! sequence of diagnostics. What it produces is defined by the spec functions
//! of [`lexicon`]; [`scanner::Scanner`] computes it.

pub mod diagnostic;
pub mod keywords;
pub mod laws;
pub mod lexicon;
pub mod scanner;
pub mod text;
pub mod token;
