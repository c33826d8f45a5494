//! Front end of a small experimental language: a lexer that turns source
//! text into a stream of positioned tokens, and a recursive-descent parser
//! that turns the token stream into an abstract syntax tree of definitions,
//! literals, blocks, conditionals, lambdas, identifiers and function calls.
//!
//! Every operation is specified against a mathematical model: the lexer
//! against a recursive specification over the character sequence of the
//! input, and each grammar rule against a specification-level parser over
//! the token sequence.

pub mod lexer;
pub mod parse;
