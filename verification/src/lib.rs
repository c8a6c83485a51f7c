//! Front end of a small line-oriented interpreted language.
//!
//! One line of source text is cut into tokens by [`token::lex`], and the
//! tokens of a line are made into a statement by [`ast::parse`]. Both give
//! their result, or the list of every problem found, as an
//! [`errors::CompilerResult`]. [`token::Tokenizer`] and
//! [`ast::AbstractSyntaxTree`] do the same step by step.
//!
//! Every function is verified against a mathematical description of the
//! lexical rules ([`token::lex_line`]) and of the grammar
//! ([`ast::parse_line`]). [`lex_laws`] and [`parse_laws`] prove what follows
//! from these descriptions for every line of a given shape.

pub mod ast;
pub mod errors;
pub mod lex_laws;
pub mod parse_laws;
pub mod text;
pub mod token;
