//! A recursive-descent parser for a Lua-like language.
//!
//! The crate turns a sequence of tokens into a typed abstract syntax tree.
//! `token` models the lexer's output, `ast` holds the tree and the node-id
//! allocator, and `parser` holds the grammar rules over an immutable token
//! cursor with backtracking `NoMatch` / committed `Error` semantics.

pub mod ast;
pub mod grammar;
pub mod parser;
pub mod token;
