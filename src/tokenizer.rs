use vstd::prelude::*;

verus! {

/// A lexical unit of a source file: its text and its 0-based position.
#[derive(Debug, Clone)]
pub struct Token {
    pub raw: String,
    pub line: usize,
    pub column: usize,
}

} // verus!
