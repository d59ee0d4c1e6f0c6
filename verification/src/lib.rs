//! A lexer, parser and code-generation helpers for the Cerium language.
pub mod chars;
pub mod compiler;
pub mod error;
pub mod lexer;
pub mod parser;
pub mod text;
