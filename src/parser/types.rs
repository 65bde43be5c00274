//! Leaves of the syntax tree: type names, numbers, strings and identifiers.
use vstd::prelude::*;

use crate::parser::traits::ParseTokens;
use crate::parser::utils::{ParserError, TokenQueue};
use crate::parser::spelling::type_tokens;
use crate::tokens::{Token, TokenView};

verus! {

#[derive(Debug, Clone, Copy, PartialEq, Eq, Structural)]
pub enum TypeMark {
    Integer,
    Float,
    String,
    Bool,
}

impl TypeMark {
    /// Reads a type name.
    pub fn parse(tokens: &mut TokenQueue) -> (r: Result<Self, ParserError>)
        ensures
            old(tokens)@.len() == 0 ==> r is Err,
            old(tokens)@.len() > 0 ==> final(tokens)@ == old(tokens)@.drop_first() && match old(
                tokens,
            )@[0] {
                TokenView::Integer => r == Ok::<TypeMark, ParserError>(TypeMark::Integer),
                TokenView::Float => r == Ok::<TypeMark, ParserError>(TypeMark::Float),
                TokenView::String => r == Ok::<TypeMark, ParserError>(TypeMark::String),
                TokenView::Bool => r == Ok::<TypeMark, ParserError>(TypeMark::Bool),
                t => r matches Err(ParserError::UnexpectedToken(_, f)) && f@ == t,
            },
            r matches Ok(m) ==> old(tokens)@ == type_tokens(m) + final(tokens)@,
    {
        match tokens.pop_front() {
            Some(Token::Integer) => Ok(TypeMark::Integer),
            Some(Token::Float) => Ok(TypeMark::Float),
            Some(Token::String) => Ok(TypeMark::String),
            Some(Token::Bool) => Ok(TypeMark::Bool),
            Some(token) => Err(ParserError::UnexpectedToken("TypeMark".to_owned(), token)),
            None => Err(ParserError::UnexpectedEOF("TypeMark".to_owned())),
        }
    }
}

/// The length of an array, as written in its declaration.
#[derive(Debug, Clone)]
pub struct ArrayBound {
    pub number: Number,
}

impl ArrayBound {
    /// Reads the number between the brackets of an array declaration.
    pub fn parse(tokens: &mut TokenQueue) -> (r: Result<Self, ParserError>)
        ensures
            old(tokens)@.len() == 0 ==> r is Err,
            old(tokens)@.len() > 0 ==> final(tokens)@ == old(tokens)@.drop_first() && match old(
                tokens,
            )@[0] {
                TokenView::NumberLiteral(s) => r is Ok && r->Ok_0.number.literal_string@ == s,
                t => r matches Err(ParserError::UnexpectedToken(_, f)) && f@ == t,
            },
    {
        let number = Number::parse(tokens)?;
        Ok(ArrayBound { number })
    }
}

/// A number literal as written.
#[derive(Debug, Clone)]
pub struct Number {
    pub literal_string: String,
}

impl Number {
    pub fn parse(tokens: &mut TokenQueue) -> (r: Result<Self, ParserError>)
        ensures
            old(tokens)@.len() == 0 ==> r is Err,
            old(tokens)@.len() > 0 ==> final(tokens)@ == old(tokens)@.drop_first() && match old(
                tokens,
            )@[0] {
                TokenView::NumberLiteral(s) => r is Ok && r->Ok_0.literal_string@ == s,
                t => r matches Err(ParserError::UnexpectedToken(_, f)) && f@ == t,
            },
    {
        match tokens.pop_front() {
            Some(Token::NumberLiteral(val)) => Ok(Number { literal_string: val }),
            Some(token) => Err(ParserError::UnexpectedToken("NumberLiteral".to_owned(), token)),
            None => Err(ParserError::UnexpectedEOF("NumberLiteral".to_owned())),
        }
    }
}

/// A string literal, without its quotes.
#[derive(Debug, Clone)]
pub struct StringNode {
    pub literal_string: String,
}

#[derive(Debug, Clone)]
pub struct Identifier {
    pub identifier_string: String,
}

impl ParseTokens for TypeMark {
    fn parse(tokens: &mut TokenQueue) -> (r: Result<Self, ParserError>) {
        TypeMark::parse(tokens)
    }
}

impl ParseTokens for ArrayBound {
    fn parse(tokens: &mut TokenQueue) -> (r: Result<Self, ParserError>) {
        ArrayBound::parse(tokens)
    }
}

impl ParseTokens for Number {
    fn parse(tokens: &mut TokenQueue) -> (r: Result<Self, ParserError>) {
        Number::parse(tokens)
    }
}

} // verus!
