//! The token queue that the parser consumes, and the parser's errors.
use std::collections::VecDeque;

use vstd::prelude::*;

use crate::parser::grammar::expect;
use crate::scanner::views;
use crate::tokens::{Token, TokenView};

verus! {

#[derive(Debug, Clone)]
pub enum ParserError {
    /// An `EOF` token stood before the end of the queue.
    EarlyEOF,
    /// The queue ran out where the given token was expected.
    UnexpectedEOFToken(Token),
    /// The queue ran out where the described construct was expected.
    UnexpectedEOF(String),
    /// A token followed the final `EOF`.
    ExpectedEOF(Token),
    /// The described construct was expected, and this token was found.
    UnexpectedToken(String, Token),
}

/// The tokens not yet consumed, front first.
#[derive(Debug)]
pub struct TokenQueue {
    tokens: VecDeque<Token>,
}

impl View for TokenQueue {
    type V = Seq<TokenView>;

    closed spec fn view(&self) -> Seq<TokenView> {
        views(self.tokens@)
    }
}

impl TokenQueue {
    pub fn new(tokens: VecDeque<Token>) -> (r: Self)
        ensures
            r@ == views(tokens@),
    {
        TokenQueue { tokens: tokens }
    }

    pub fn pop_front(&mut self) -> (r: Option<Token>)
        ensures
            old(self)@.len() == 0 ==> r is None && final(self)@ == old(self)@,
            old(self)@.len() > 0 ==> r is Some && r->Some_0@ == old(self)@[0] && final(self)@
                == old(self)@.drop_first(),
            r matches Some(t) ==> old(self)@ == seq![t@] + final(self)@,
    {
        let r = self.tokens.pop_front();
        if r.is_some() {
            assert(views(self.tokens@) =~= views(old(self).tokens@).drop_first());
            assert(views(old(self).tokens@) =~= seq![views(old(self).tokens@)[0]] + views(self.tokens@));
        }
        r
    }

    pub fn push_front(&mut self, value: Token)
        ensures
            final(self)@ == seq![value@] + old(self)@,
    {
        self.tokens.push_front(value);
        assert(views(self.tokens@) =~= seq![value@] + views(old(self).tokens@));
    }

    pub fn peek_front(&self) -> (r: Option<&Token>)
        ensures
            r is Some <==> self@.len() > 0,
            r is Some ==> r->Some_0@ == self@[0],
    {
        if self.tokens.len() > 0 {
            Some(&self.tokens[0])
        } else {
            None
        }
    }

    pub fn remaining(&self) -> (r: usize)
        ensures
            r == self@.len(),
    {
        self.tokens.len()
    }

    /// Consumes the next token, which must be `expected`. An empty queue
    /// counts as ending with `EOF`.
    pub fn consume_expected(&mut self, expected: Token) -> (r: Result<(), ParserError>)
        ensures
            old(self)@.len() == 0 ==> final(self)@ == old(self)@ && if expected@ is EOF {
                r is Ok
            } else {
                r matches Err(ParserError::UnexpectedEOFToken(t)) && t@ == expected@
            },
            old(self)@.len() > 0 ==> final(self)@ == old(self)@.drop_first() && if old(self)@[0] is EOF
                && old(self)@.len() > 1 {
                r matches Err(ParserError::EarlyEOF)
            } else if old(self)@[0] != expected@ {
                r matches Err(ParserError::UnexpectedToken(_, t)) && t@ == old(self)@[0]
            } else {
                r is Ok
            },
            r is Ok && !(expected@ is EOF) ==> old(self)@ == seq![expected@] + final(self)@,
            r is Ok <==> expect(old(self)@, expected@) is Some,
            r is Ok ==> final(self)@ == expect(old(self)@, expected@)->Some_0,
    {
        if self.remaining() == 0 {
            if let Token::EOF = expected {
                return Ok(());
            }
            return Err(ParserError::UnexpectedEOFToken(expected));
        }
        match self.pop_front() {
            Some(token) => {
                if self.remaining() > 0 && matches!(token, Token::EOF) {
                    return Err(ParserError::EarlyEOF);
                }
                if token != expected {
                    return Err(ParserError::UnexpectedToken(expected.name(), token));
                }
                Ok(())
            },
            None => Err(ParserError::UnexpectedEOFToken(expected)),
        }
    }

    /// Need a separate function for consuming identifiers, since we need to take the data out of them.
    pub fn consume_identifier(&mut self) -> (r: Result<String, ParserError>)
        ensures
            old(self)@.len() == 0 ==> final(self)@ == old(self)@ && r matches Err(
                ParserError::UnexpectedEOFToken(_),
            ),
            old(self)@.len() > 0 ==> final(self)@ == old(self)@.drop_first() && match old(self)@[0] {
                TokenView::Identifier(s) => r is Ok && r->Ok_0@ == s,
                t => r matches Err(ParserError::UnexpectedToken(d, f)) && f@ == t && d@ == "Identifier"@,
            },
            r matches Ok(s) ==> old(self)@ == seq![TokenView::Identifier(s@)] + final(self)@,
    {
        match self.pop_front() {
            Some(Token::Identifier(ident)) => Ok(ident),
            Some(token) => Err(ParserError::UnexpectedToken("Identifier".to_owned(), token)),
            None => Err(ParserError::UnexpectedEOFToken(Token::Identifier("Identifier".to_owned()))),
        }
    }

    /// Peeks the next token. If it matches, consumes the token and returns true.
    /// Otherwise, false.
    pub fn consume_as_bool(&mut self, expected: &Token) -> (r: bool)
        ensures
            r == (old(self)@.len() > 0 && old(self)@[0] == expected@),
            r ==> final(self)@ == old(self)@.drop_first(),
            !r ==> final(self)@ == old(self)@,
            r ==> old(self)@ == seq![expected@] + final(self)@,
    {
        let matched = match self.peek_front() {
            Some(token) => token == expected,
            None => false,
        };
        if matched {
            self.pop_front();
        }
        matched
    }

    /// The next token is an identifier; the queue is left as it is.
    pub fn next_is_identifier(&self) -> (r: bool)
        ensures
            r == (self@.len() > 0 && self@[0] is Identifier),
    {
        match self.peek_front() {
            Some(Token::Identifier(_)) => true,
            _ => false,
        }
    }

    /// The next token is `t`; the queue is left as it is.
    pub fn next_is(&self, t: &Token) -> (r: bool)
        ensures
            r == (self@.len() > 0 && self@[0] == t@),
    {
        match self.peek_front() {
            Some(token) => token == t,
            None => false,
        }
    }
}

} // verus!
