//! Surface syntax: tokens, lexer, parser and pretty-printer.
pub mod span;
pub mod ast;
pub mod token;
pub mod lexer;
pub mod parser;
pub mod pretty;
pub mod literals;
pub mod format;
pub mod modules;
pub mod rename;
pub mod desugar;
