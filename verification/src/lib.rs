//! The front end of a small statically-typed scripting language: a
//! tokenizer from source bytes to tokens with their lines, and a
//! recursive-descent parser from tokens to a syntax tree.
pub mod ast;
pub mod error;
pub mod frontend;
pub mod grammar;
pub mod parser;
pub mod text;
pub mod token;
pub mod tokenizer;
