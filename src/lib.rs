//! Front end of a compiler for a small block-structured language: a comment
//! stripper, a lexer, a recursive-descent parser and a semantic analyzer that
//! produces a fully typed tree.
use vstd::prelude::*;

pub mod parser;
pub mod scanner;
pub mod semantics;
pub mod text;
pub mod tokens;

verus! {

} // verus!
