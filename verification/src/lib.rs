//! Front end of the Monkey scripting language: a lexer and a Pratt parser
//! that turn source text into a tree of statements and expressions.
//!
//! `token`, `statements`, `ast` and `error` hold the data. `scan` and
//! `grammar` say, over sequences of characters and of tokens, what the lexer
//! and the parser yield, and `numeral` what an integer literal is worth.
//! `lexer` and `parser` compute it. `binding` states how operators bind, and
//! `tree` what holds of every tree that is parsed.
pub mod ast;
pub mod binding;
pub mod error;
pub mod grammar;
pub mod lexer;
pub mod numeral;
pub mod parser;
pub mod scan;
pub mod statements;
pub mod token;
pub mod tree;
