//! Front end of a compiler for a BCPL-derived systems language: lexer, type
//! table, syntax tree, and a single-pass parser that resolves types and
//! inserts implicit casts while it parses.
//!
//! What the lexer and the parser compute is stated twice: as functions of
//! the input in `token::lexer` and `grammar`, and as the code in
//! `token::lexer` and `parser`, which is proved to compute just that.
//! `grammar::laws` holds what follows for every input. `ast::visitor` walks
//! the tree for a visitor, and `ast::trail` says which hooks a walk calls,
//! and in what order.

pub mod text;
pub mod paint;
pub mod source_file;
pub mod error;
pub mod token;
pub mod ast;
pub mod grammar;
pub mod parser;
pub mod typechecker;
pub mod context;
