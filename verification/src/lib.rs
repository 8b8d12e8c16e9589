//! A verified tokenizer for the Rhai scripting language.
pub mod position;
pub mod text;
pub mod error;
pub mod token;
pub mod keywords;
pub mod chars;
pub mod stream;
pub mod state;
pub mod strings;
pub mod lexer;
pub mod numbers;
pub mod identifiers;
pub mod tokenize;
pub mod engine;
pub mod laws;
pub mod grammar_laws;
