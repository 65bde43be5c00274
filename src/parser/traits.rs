//! The parsing interface shared by the nodes of the syntax tree.
use vstd::prelude::*;

use crate::parser::utils::{ParserError, TokenQueue};

verus! {

/// A node that can be read from the front of a token queue.
pub trait ParseTokens: Sized {
    /// Reads the node; on success at least one token was consumed.
    fn parse(tokens: &mut TokenQueue) -> (r: Result<Self, ParserError>)
        ensures
            r is Ok ==> final(tokens)@.len() < old(tokens)@.len(),
    ;
}

/// A construct whose start can be recognised from the next token.
pub trait CanParse {
    fn can_parse(tokens: &TokenQueue) -> bool;
}

} // verus!
