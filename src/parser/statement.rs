//! Statements: assignment, `if`, `for` and `return`.
use vstd::prelude::*;

use crate::parser::expression::Expression;
use crate::parser::types::Identifier;
use crate::parser::traits::{CanParse, ParseTokens};
use crate::parser::utils::{ParserError, TokenQueue};
use crate::parser::grammar::{
    after_assignment, after_destination, after_if, after_if_head, after_if_rest, after_loop, after_loop_head, expect2, next_is, after_statement, after_statement_list,
};
use crate::parser::spelling::{assignment_tokens, destination_tokens, expr_tokens, statement_tokens, statements_tokens};
use crate::tokens::{Token, TokenView};

verus! {

#[derive(Debug)]
pub enum Statement {
    Assignment(AssignmentStatement),
    If(IfStatement),
    Loop(LoopStatement),
    Return(ReturnStatement),
}

impl Statement {
    pub fn parse(tokens: &mut TokenQueue) -> (r: Result<Self, ParserError>)
        ensures
            r is Ok <==> after_statement(old(tokens)@) is Some,
            r is Ok ==> final(tokens)@ == after_statement(old(tokens)@)->Some_0,
            r is Ok ==> final(tokens)@.len() < old(tokens)@.len(),
            r matches Ok(x) ==> old(tokens)@ == statement_tokens(x) + final(tokens)@,
            !(old(tokens)@.len() > 0 && (old(tokens)@[0] is Identifier || old(tokens)@[0] is If
                || old(tokens)@[0] is For || old(tokens)@[0] is Return)) ==> r is Err,
        decreases old(tokens)@.len(), 10int,
    {
        if tokens.next_is_identifier() {
            Ok(Statement::Assignment(AssignmentStatement::parse(tokens)?))
        } else if tokens.next_is(&Token::If) {
            Ok(Statement::If(IfStatement::parse(tokens)?))
        } else if tokens.next_is(&Token::For) {
            Ok(Statement::Loop(LoopStatement::parse(tokens)?))
        } else if tokens.next_is(&Token::Return) {
            Ok(Statement::Return(ReturnStatement::parse(tokens)?))
        } else {
            match tokens.pop_front() {
                Some(token) => Err(ParserError::UnexpectedToken("Statement".to_owned(), token)),
                None => Err(ParserError::UnexpectedEOF("Statement".to_owned())),
            }
        }
    }

    /// The next token can start a statement.
    pub fn can_parse(tokens: &TokenQueue) -> (r: bool)
        ensures
            r == (tokens@.len() > 0 && (tokens@[0] is Identifier || tokens@[0] is If
                || tokens@[0] is For || tokens@[0] is Return)),
    {
        tokens.next_is_identifier() || tokens.next_is(&Token::If) || tokens.next_is(&Token::For)
            || tokens.next_is(&Token::Return)
    }

    /// Reads statements, each followed by a semicolon, while the next token
    /// can start one.
    pub fn parse_list(tokens: &mut TokenQueue) -> (r: Result<Vec<Statement>, ParserError>)
        ensures
            r is Ok <==> after_statement_list(old(tokens)@) is Some,
            r is Ok ==> final(tokens)@ == after_statement_list(old(tokens)@)->Some_0,
            r is Ok ==> final(tokens)@.len() <= old(tokens)@.len(),
            r matches Ok(v) ==> old(tokens)@ == statements_tokens(v@) + final(tokens)@,
            r is Ok ==> !(final(tokens)@.len() > 0 && (final(tokens)@[0] is Identifier || final(tokens)@[0] is If
                || final(tokens)@[0] is For || final(tokens)@[0] is Return)),
        decreases old(tokens)@.len(), 11int,
    {
        let ghost start = tokens@.len();
        let mut list: Vec<Statement> = Vec::new();
        assert(old(tokens)@ =~= statements_tokens(list@) + tokens@);
        while Statement::can_parse(tokens)
            invariant
                after_statement_list(old(tokens)@) == after_statement_list(tokens@),
                start == old(tokens)@.len(),
                tokens@.len() <= start,
                old(tokens)@ == statements_tokens(list@) + tokens@,
            decreases tokens@.len(),
        {
            let ghost prev = list@;
            let statement = Statement::parse(tokens)?;
            let ghost spelled = statement_tokens(statement);
            tokens.consume_expected(Token::Semicolon)?;
            list.push(statement);
            assert(list@.subrange(0, list@.len() - 1) =~= prev);
            assert(statements_tokens(prev) + (spelled + (seq![TokenView::Semicolon] + tokens@)) =~= statements_tokens(list@) + tokens@);
        }
        Ok(list)
    }
}

#[derive(Debug)]
pub struct AssignmentStatement {
    pub destination: Destination,
    pub expression: Expression,
}

impl AssignmentStatement {
    pub fn parse(tokens: &mut TokenQueue) -> (r: Result<Self, ParserError>)
        ensures
            r is Ok <==> after_assignment(old(tokens)@) is Some,
            r is Ok ==> final(tokens)@ == after_assignment(old(tokens)@)->Some_0,
            r is Ok ==> final(tokens)@.len() < old(tokens)@.len(),
            r matches Ok(x) ==> old(tokens)@ == assignment_tokens(x) + final(tokens)@,
        decreases old(tokens)@.len(), 9int,
    {
        let destination = Destination::parse(tokens)?;
        tokens.consume_expected(Token::Assignment)?;
        let expression = Expression::parse(tokens)?;
        let a = AssignmentStatement { destination, expression };
        assert(destination_tokens(destination) + (seq![TokenView::Assignment] + (expr_tokens(expression) + tokens@)) =~= assignment_tokens(a) + tokens@);
        Ok(a)
    }
}

#[derive(Debug)]
pub struct IfStatement {
    pub condition: Expression,
    pub then_statement: Vec<Statement>,
    pub else_statement: Option<Vec<Statement>>,
}

/// The tokens of an optional `else` part.
pub open spec fn else_tokens(e: Option<Vec<Statement>>) -> Seq<TokenView> {
    match e {
        Some(b) => seq![TokenView::Else] + statements_tokens(b@),
        None => Seq::empty(),
    }
}

impl IfStatement {
    /// Reads the statements of an `if`, its optional `else` part, and
    /// `end if`.
    #[verifier::rlimit(100)]
    fn parse_rest(tokens: &mut TokenQueue) -> (r: Result<(Vec<Statement>, Option<Vec<Statement>>), ParserError>)
        ensures
            r is Ok <==> after_if_rest(old(tokens)@) is Some,
            r is Ok ==> final(tokens)@ == after_if_rest(old(tokens)@)->Some_0,
            r matches Ok((b, e)) ==> old(tokens)@ == statements_tokens(b@) + else_tokens(e) + seq![
                TokenView::End,
                TokenView::If,
            ] + final(tokens)@,
        decreases old(tokens)@.len(), 12int,
    {
        let ghost t0 = tokens@;
        let then_block = Statement::parse_list(tokens)?;
        let ghost t2 = tokens@;
        let ghost s7 = if next_is(t2, TokenView::Else) {
            if t2.len() <= t0.len() {
                after_statement_list(t2.drop_first())
            } else {
                None
            }
        } else {
            Some(t2)
        };
        assert(after_if_rest(t0) == match s7 {
            Some(s8) => expect2(s8, TokenView::End, TokenView::If),
            None => None,
        });
        let else_exists = tokens.consume_as_bool(&Token::Else);
        let else_statement = if else_exists {
            Some(Statement::parse_list(tokens)?)
        } else {
            None
        };
        let ghost t3 = tokens@;
        proof {
            assert(s7 == Some(t3));
            assert(t2 =~= else_tokens(else_statement) + t3);
        }
        tokens.consume_expected(Token::End)?;
        tokens.consume_expected(Token::If)?;
        proof {
            assert(t3 =~= seq![TokenView::End, TokenView::If] + tokens@);
            assert(old(tokens)@ =~= statements_tokens(then_block@) + else_tokens(else_statement) + seq![
                TokenView::End,
                TokenView::If,
            ] + tokens@);
        }
        Ok((then_block, else_statement))
    }

    /// Reads `if (cond) then ... [else ...] end if`. An `else` belongs to the
    /// innermost `if` that has not reached its `end if`.
    #[verifier::rlimit(100)]
    pub fn parse(tokens: &mut TokenQueue) -> (r: Result<Self, ParserError>)
        ensures
            r is Ok <==> after_if(old(tokens)@) is Some,
            r is Ok ==> final(tokens)@ == after_if(old(tokens)@)->Some_0,
            r is Ok ==> final(tokens)@.len() < old(tokens)@.len(),
            r matches Ok(x) ==> old(tokens)@ == statement_tokens(Statement::If(x)) + final(tokens)@,
        decreases old(tokens)@.len(), 9int,
    {
        tokens.consume_expected(Token::If)?;
        tokens.consume_expected(Token::LParen)?;
        let condition = Expression::parse(tokens)?;
        tokens.consume_expected(Token::RParen)?;
        tokens.consume_expected(Token::Then)?;
        assert(after_if_head(old(tokens)@) == Some(tokens@));
        let ghost head = seq![TokenView::If, TokenView::LParen] + expr_tokens(condition) + seq![
            TokenView::RParen,
            TokenView::Then,
        ];
        let ghost t1 = tokens@;
        proof {
            assert(old(tokens)@ =~= head + t1);
        }
        let (then_statement, else_statement) = IfStatement::parse_rest(tokens)?;
        let x = IfStatement { condition, then_statement, else_statement };
        proof {
            let body = statements_tokens(x.then_statement@);
            let tail = seq![TokenView::End, TokenView::If];
            let else_part = else_tokens(x.else_statement);
            assert(statement_tokens(Statement::If(x)) == head + body + else_part + tail);
            assert(old(tokens)@ =~= head + (body + else_part + tail + tokens@));
            assert(head + (body + else_part + tail + tokens@) =~= head + body + else_part + tail + tokens@);
        }
        Ok(x)
    }
}

#[derive(Debug)]
pub struct LoopStatement {
    pub assignment_statement: AssignmentStatement,
    pub condition: Expression,
    pub loop_body: Vec<Statement>,
}

impl LoopStatement {
    #[verifier::rlimit(100)]
    pub fn parse(tokens: &mut TokenQueue) -> (r: Result<Self, ParserError>)
        ensures
            r is Ok <==> after_loop(old(tokens)@) is Some,
            r is Ok ==> final(tokens)@ == after_loop(old(tokens)@)->Some_0,
            r is Ok ==> final(tokens)@.len() < old(tokens)@.len(),
            r matches Ok(x) ==> old(tokens)@ == statement_tokens(Statement::Loop(x)) + final(tokens)@,
        decreases old(tokens)@.len(), 9int,
    {
        tokens.consume_expected(Token::For)?;
        tokens.consume_expected(Token::LParen)?;
        let assignment_statement = AssignmentStatement::parse(tokens)?;
        tokens.consume_expected(Token::Semicolon)?;
        let condition = Expression::parse(tokens)?;
        tokens.consume_expected(Token::RParen)?;
        assert(after_loop_head(old(tokens)@) == Some(tokens@));
        let ghost head = seq![TokenView::For, TokenView::LParen] + assignment_tokens(assignment_statement) + seq![
            TokenView::Semicolon,
        ] + expr_tokens(condition) + seq![TokenView::RParen];
        proof {
            assert(old(tokens)@ =~= head + tokens@);
        }
        let loop_body = Statement::parse_list(tokens)?;
        let ghost t2 = tokens@;
        tokens.consume_expected(Token::End)?;
        tokens.consume_expected(Token::For)?;
        proof {
            assert(t2 =~= seq![TokenView::End, TokenView::For] + tokens@);
        }
        let x = LoopStatement { assignment_statement, condition, loop_body };
        proof {
            let body = statements_tokens(x.loop_body@);
            let tail = seq![TokenView::End, TokenView::For];
            assert(statement_tokens(Statement::Loop(x)) == head + body + tail);
            assert(old(tokens)@ =~= head + (body + (tail + tokens@)));
            assert(head + (body + (tail + tokens@)) =~= head + body + tail + tokens@);
        }
        Ok(x)
    }
}

#[derive(Debug)]
pub struct ReturnStatement {
    pub expression: Expression,
}

impl ReturnStatement {
    pub fn parse(tokens: &mut TokenQueue) -> (r: Result<Self, ParserError>)
        ensures
            r is Ok <==> after_statement(old(tokens)@) is Some && old(tokens)@[0] is Return,
            r is Ok ==> final(tokens)@ == after_statement(old(tokens)@)->Some_0,
            r is Ok ==> final(tokens)@.len() < old(tokens)@.len(),
            r matches Ok(x) ==> old(tokens)@ == statement_tokens(Statement::Return(x)) + final(tokens)@,
        decreases old(tokens)@.len(), 9int,
    {
        tokens.consume_expected(Token::Return)?;
        let expression = Expression::parse(tokens)?;
        let x = ReturnStatement { expression };
        assert(seq![TokenView::Return] + (expr_tokens(x.expression) + tokens@) =~= statement_tokens(Statement::Return(x)) + tokens@);
        Ok(x)
    }
}

/// The target of an assignment: a variable, optionally indexed.
#[derive(Debug)]
pub struct Destination {
    pub identifier: Identifier,
    pub expression: Option<Expression>,
}

impl Destination {
    pub fn parse(tokens: &mut TokenQueue) -> (r: Result<Self, ParserError>)
        ensures
            r is Ok <==> after_destination(old(tokens)@) is Some,
            r is Ok ==> final(tokens)@ == after_destination(old(tokens)@)->Some_0,
            r is Ok ==> final(tokens)@.len() < old(tokens)@.len(),
            r matches Ok(x) ==> old(tokens)@ == destination_tokens(x) + final(tokens)@,
            r matches Ok(x) ==> (x.expression is None <==> !(old(tokens)@.len() > 1 && old(tokens)@[1] is LBracket)),
        decreases old(tokens)@.len(), 8int,
    {
        let identifier = tokens.consume_identifier()?;
        let ghost head = seq![TokenView::Identifier(identifier@)];
        if tokens.consume_as_bool(&Token::LBracket) {
            let expression = Expression::parse(tokens)?;
            tokens.consume_expected(Token::RBracket)?;
            let x = Destination { identifier: Identifier { identifier_string: identifier }, expression: Some(expression) };
            assert(head + (seq![TokenView::LBracket] + (expr_tokens(expression) + (seq![TokenView::RBracket] + tokens@))) =~= destination_tokens(x) + tokens@);
            Ok(x)
        } else {
            let x = Destination { identifier: Identifier { identifier_string: identifier }, expression: None };
            assert(head + tokens@ =~= destination_tokens(x) + tokens@);
            Ok(x)
        }
    }
}

impl ParseTokens for Statement {
    fn parse(tokens: &mut TokenQueue) -> (r: Result<Self, ParserError>) {
        Statement::parse(tokens)
    }
}

impl ParseTokens for AssignmentStatement {
    fn parse(tokens: &mut TokenQueue) -> (r: Result<Self, ParserError>) {
        AssignmentStatement::parse(tokens)
    }
}

impl ParseTokens for IfStatement {
    fn parse(tokens: &mut TokenQueue) -> (r: Result<Self, ParserError>) {
        IfStatement::parse(tokens)
    }
}

impl ParseTokens for LoopStatement {
    fn parse(tokens: &mut TokenQueue) -> (r: Result<Self, ParserError>) {
        LoopStatement::parse(tokens)
    }
}

impl ParseTokens for ReturnStatement {
    fn parse(tokens: &mut TokenQueue) -> (r: Result<Self, ParserError>) {
        ReturnStatement::parse(tokens)
    }
}

impl ParseTokens for Destination {
    fn parse(tokens: &mut TokenQueue) -> (r: Result<Self, ParserError>) {
        Destination::parse(tokens)
    }
}

impl CanParse for Statement {
    fn can_parse(tokens: &TokenQueue) -> bool {
        Statement::can_parse(tokens)
    }
}

} // verus!
