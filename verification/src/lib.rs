//! Front end of a small language toolchain: lexing, parsing and diagnostics.
//!
//! A source text is turned into tokens by the [`lexer`], and the tokens
//! into a syntax tree by the [`parser`]. Both report what is wrong with the
//! text to a [`diagnostic::DiagnosticReporter`], which renders what it holds
//! against the source. Neither gives up on a malformed text.

pub mod ast;
pub mod compiler;
pub mod diagnostic;
pub mod lexer;
pub mod lexer_proofs;
pub mod parser;
pub mod parser_proofs;
pub mod printer;
pub mod style;
pub mod text;
pub mod utils;
