//! Turns one line of type checker output into a structured diagnostic, and a
//! diagnostic with the tokens of its file into a suggestion for fixing it.

pub mod text;
pub mod parser;
pub mod tokenizer;
pub mod objtype;
pub mod suggestion;
pub mod laws;
