//! The whole program: `program NAME is ... begin ... end program .`
use vstd::prelude::*;

use crate::parser::declarations::Declaration;
use crate::parser::statement::Statement;
use crate::parser::traits::ParseTokens;
use crate::parser::utils::{ParserError, TokenQueue};
use crate::parser::grammar::{
    accepts_program, after_body, after_declarations, after_statements_to_end, expect2, next_is, program_rest,
};
use crate::parser::spelling::{body_tokens, declaration_tokens, declarations_tokens, program_tokens, statement_tokens, statements_tokens};
use crate::tokens::{Token, TokenView};

verus! {

#[derive(Debug)]
pub struct ProgramStruct {
    pub program_header: ProgramHeader,
    pub program_body: ProgramBody,
    /// The final period was missing; the program was accepted without it.
    pub missing_period: bool,
}

impl ProgramStruct {
    /// Reads a whole program. All tokens must be consumed: the last one is
    /// `EOF`, and nothing may follow it. A missing final period is
    /// tolerated and recorded.
    #[verifier::rlimit(100)]
    pub fn parse(tokens: &mut TokenQueue) -> (r: Result<Self, ParserError>)
        ensures
            r is Ok <==> accepts_program(old(tokens)@),
            ({
                let rest = program_rest(old(tokens)@);
                let t = if next_is(rest->Some_0, TokenView::Period) {
                    rest->Some_0.drop_first()
                } else {
                    rest->Some_0
                };
                rest is Some && t.len() >= 2 && t[0] is EOF ==> r matches Err(ParserError::ExpectedEOF(_))
            }),
            r is Ok ==> final(tokens)@.len() == 0,
            r matches Ok(x) ==> old(tokens)@ == program_tokens(x) + seq![TokenView::EOF] || old(tokens)@
                == program_tokens(x),
    {
        let header = ProgramHeader::parse(tokens)?;
        assert(old(tokens)@.skip(3) == old(tokens)@.drop_first().drop_first().drop_first());
        let ghost t0 = tokens@;
        let body = ProgramBody::parse(tokens)?;
        let ghost t1 = tokens@;
        let missing_period = !tokens.consume_as_bool(&Token::Period);
        let ghost t2 = tokens@;
        match tokens.pop_front() {
            None => {},
            Some(Token::EOF) => {
                if let Some(next_token) = tokens.pop_front() {
                    return Err(ParserError::ExpectedEOF(next_token));
                }
            },
            Some(token) => return Err(ParserError::UnexpectedToken("EOF".to_owned(), token)),
        }
        let x = ProgramStruct { program_header: header, program_body: body, missing_period };
        proof {
            let head = seq![TokenView::Program, TokenView::Identifier(x.program_header.header_identifier@), TokenView::Is];
            let b = body_tokens(x.program_body.declarations@, x.program_body.statements@, TokenView::Program);
            let period = if missing_period {
                Seq::<TokenView>::empty()
            } else {
                seq![TokenView::Period]
            };
            assert(old(tokens)@ =~= head + t0);
            assert(old(tokens)@ =~= head + b + t1);
            assert(t1 =~= period + t2);
            assert(program_tokens(x) == head + b + period);
            if t2.len() == 0 {
                assert(old(tokens)@ =~= program_tokens(x));
            } else {
                assert(t2 =~= seq![TokenView::EOF]);
                assert(old(tokens)@ =~= program_tokens(x) + seq![TokenView::EOF]);
            }
        }
        Ok(x)
    }
}

#[derive(Debug)]
pub struct ProgramHeader {
    pub header_identifier: String,
}

impl ProgramHeader {
    pub fn parse(tokens: &mut TokenQueue) -> (r: Result<Self, ParserError>)
        ensures
            r is Ok <==> (old(tokens)@.len() >= 3 && old(tokens)@[0] is Program && old(
                tokens,
            )@[1] is Identifier && old(tokens)@[2] is Is),
            r is Ok ==> final(tokens)@ == old(tokens)@.skip(3) && old(tokens)@[1]
                == TokenView::Identifier(r->Ok_0.header_identifier@),
    {
        tokens.consume_expected(Token::Program)?;
        let header_identifier = tokens.consume_identifier()?;
        tokens.consume_expected(Token::Is)?;
        assert(tokens@ =~= old(tokens)@.skip(3));
        Ok(ProgramHeader { header_identifier })
    }
}

#[derive(Debug)]
pub struct ProgramBody {
    pub declarations: Vec<Declaration>,
    pub statements: Vec<Statement>,
}

impl ProgramBody {
    #[verifier::rlimit(100)]
    pub fn parse(tokens: &mut TokenQueue) -> (r: Result<Self, ParserError>)
        ensures
            r is Ok <==> after_body(old(tokens)@, TokenView::Program) is Some,
            r is Ok ==> final(tokens)@ == after_body(old(tokens)@, TokenView::Program)->Some_0,
            r is Ok ==> final(tokens)@.len() < old(tokens)@.len(),
            r matches Ok(x) ==> old(tokens)@ == body_tokens(x.declarations@, x.statements@, TokenView::Program)
                + final(tokens)@,
    {
        let ghost start = tokens@.len();
        let mut declarations: Vec<Declaration> = Vec::new();
        let mut statements: Vec<Statement> = Vec::new();
        assert(old(tokens)@ =~= declarations_tokens(declarations@) + tokens@);
        loop
            invariant
                after_declarations(old(tokens)@) == after_declarations(tokens@),
                start == old(tokens)@.len(),
                tokens@.len() <= start,
                old(tokens)@ == declarations_tokens(declarations@) + tokens@,
            ensures
                after_declarations(old(tokens)@) == after_declarations(tokens@),
                start == old(tokens)@.len(),
                tokens@.len() <= start,
                old(tokens)@ == declarations_tokens(declarations@) + tokens@,
                after_declarations(old(tokens)@) == Some(tokens@),
            decreases tokens@.len(),
        {
            if tokens.next_is(&Token::Begin) {
                assert(after_declarations(tokens@) == Some(tokens@));
                break;
            } else if tokens.remaining() == 0 {
                return Err(ParserError::UnexpectedEOF("Identifier, Begin".to_owned()));
            } else {
                let ghost prev = declarations@;
                let declaration = Declaration::parse(tokens)?;
                let ghost spelled = declaration_tokens(declaration);
                tokens.consume_expected(Token::Semicolon)?;
                declarations.push(declaration);
                assert(declarations@.subrange(0, declarations@.len() - 1) =~= prev);
                assert(declarations_tokens(prev) + (spelled + (seq![TokenView::Semicolon] + tokens@))
                    =~= declarations_tokens(declarations@) + tokens@);
            }
        }
        assert(after_declarations(old(tokens)@) == Some(tokens@));
        tokens.consume_expected(Token::Begin)?;
        let ghost head = declarations_tokens(declarations@) + seq![TokenView::Begin];
        assert(old(tokens)@ =~= head + statements_tokens(statements@) + tokens@);
        loop
            invariant
                after_body(old(tokens)@, TokenView::Program) == match after_statements_to_end(tokens@) {
                    Some(s3) => expect2(s3, TokenView::End, TokenView::Program),
                    None => None,
                },
                start == old(tokens)@.len(),
                tokens@.len() < start,
                old(tokens)@ == head + statements_tokens(statements@) + tokens@,
            ensures
                after_body(old(tokens)@, TokenView::Program) == match after_statements_to_end(tokens@) {
                    Some(s3) => expect2(s3, TokenView::End, TokenView::Program),
                    None => None,
                },
                start == old(tokens)@.len(),
                tokens@.len() < start,
                old(tokens)@ == head + statements_tokens(statements@) + tokens@,
                after_statements_to_end(tokens@) == Some(tokens@),
            decreases tokens@.len(),
        {
            if tokens.next_is(&Token::End) {
                assert(after_statements_to_end(tokens@) == Some(tokens@));
                break;
            } else if tokens.remaining() == 0 {
                return Err(ParserError::UnexpectedEOF("Identifier, End".to_owned()));
            } else {
                let ghost prev = statements@;
                let statement = Statement::parse(tokens)?;
                let ghost spelled = statement_tokens(statement);
                tokens.consume_expected(Token::Semicolon)?;
                statements.push(statement);
                assert(statements@.subrange(0, statements@.len() - 1) =~= prev);
                assert(head + statements_tokens(prev) + (spelled + (seq![TokenView::Semicolon] + tokens@))
                    =~= head + statements_tokens(statements@) + tokens@);
            }
        }
        tokens.consume_expected(Token::End)?;
        tokens.consume_expected(Token::Program)?;
        let x = ProgramBody { declarations, statements };
        assert(old(tokens)@ =~= body_tokens(x.declarations@, x.statements@, TokenView::Program) + tokens@);
        Ok(x)
    }
}

impl ParseTokens for ProgramStruct {
    fn parse(tokens: &mut TokenQueue) -> (r: Result<Self, ParserError>) {
        ProgramStruct::parse(tokens)
    }
}

impl ParseTokens for ProgramHeader {
    fn parse(tokens: &mut TokenQueue) -> (r: Result<Self, ParserError>) {
        ProgramHeader::parse(tokens)
    }
}

impl ParseTokens for ProgramBody {
    fn parse(tokens: &mut TokenQueue) -> (r: Result<Self, ParserError>) {
        ProgramBody::parse(tokens)
    }
}

} // verus!
