//! Recursive-descent parser from tokens to an untyped syntax tree.
use std::collections::VecDeque;

use vstd::prelude::*;

pub mod declarations;
pub mod expression;
pub mod grammar;
pub mod procedure;
pub mod program;
pub mod statement;
pub mod traits;
pub mod spelling;
pub mod types;
pub mod utils;

use crate::parser::program::ProgramStruct;
use crate::parser::grammar::accepts_program;
use crate::parser::spelling::program_tokens;
use crate::parser::utils::{ParserError, TokenQueue};
use crate::scanner::views;
use crate::tokens::{Token, TokenView};

verus! {

/// Parses a whole program from its tokens.
pub fn parse_tokens(token_deque: VecDeque<Token>) -> (r: Result<ProgramStruct, ParserError>)
    ensures
        r is Ok <==> accepts_program(views(token_deque@)),
        r matches Ok(p) ==> views(token_deque@) == program_tokens(p) + seq![TokenView::EOF] || views(
            token_deque@,
        ) == program_tokens(p),
{
    let mut tokens = TokenQueue::new(token_deque);
    ProgramStruct::parse(&mut tokens)
}

} // verus!
