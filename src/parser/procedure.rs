//! Procedure headers, bodies, parameters and calls.
use vstd::prelude::*;

use crate::parser::declarations::{Declaration, VariableDeclaration};
use crate::parser::expression::Expression;
use crate::parser::statement::Statement;
use crate::parser::types::{Identifier, TypeMark};
use crate::parser::traits::ParseTokens;
use crate::parser::utils::{ParserError, TokenQueue};
use crate::parser::grammar::{
    after_args, after_args_tail, after_body, after_call_rest, after_declarations, after_header, after_params,
    after_params_tail, after_statements_to_end, after_variable, expect2,
};
use crate::parser::spelling::{
    body_tokens, call_tokens, declaration_tokens, declarations_tokens, expr_tokens, header_tokens, list_tokens,
    params_tokens, statement_tokens, statements_tokens, type_tokens, variable_tokens,
};
use crate::tokens::{Token, TokenView};

verus! {

#[derive(Debug)]
pub struct ProcedureCall {
    pub identifier: Identifier,
    pub arg_list: Option<ArgumentList>,
}

impl ProcedureCall {
    pub fn parse(tokens: &mut TokenQueue) -> (r: Result<Self, ParserError>)
        ensures
            r is Ok <==> (old(tokens)@.len() > 0 && old(tokens)@[0] is Identifier && after_call_rest(
                old(tokens)@.drop_first(),
            ) is Some),
            r is Ok ==> final(tokens)@ == after_call_rest(old(tokens)@.drop_first())->Some_0,
            r is Ok ==> final(tokens)@.len() < old(tokens)@.len(),
            r matches Ok(x) ==> old(tokens)@ == call_tokens(x) + final(tokens)@,
        decreases old(tokens)@.len(), 6int,
    {
        let identifier = tokens.consume_identifier()?;
        ProcedureCall::parse_after_identifier(identifier, tokens)
    }

    /// Reads the parenthesised arguments that follow a call's identifier.
    pub fn parse_after_identifier(identifier: String, tokens: &mut TokenQueue) -> (r: Result<
        Self,
        ParserError,
    >)
        ensures
            r is Ok <==> after_call_rest(old(tokens)@) is Some,
            r is Ok ==> final(tokens)@ == after_call_rest(old(tokens)@)->Some_0,
            r matches Ok(c) ==> (c.arg_list is None <==> (old(tokens)@.len() >= 2 && old(tokens)@[1] is RParen)),
            r is Ok ==> final(tokens)@.len() < old(tokens)@.len(),
            r is Ok ==> r->Ok_0.identifier.identifier_string@ == identifier@,
            r matches Ok(x) ==> seq![TokenView::Identifier(identifier@)] + old(tokens)@ == call_tokens(x) + final(tokens)@,
        decreases old(tokens)@.len(), 6int,
    {
        let ghost head = seq![TokenView::Identifier(identifier@), TokenView::LParen];
        tokens.consume_expected(Token::LParen)?;
        let ghost mid = tokens@;
        if tokens.consume_as_bool(&Token::RParen) {
            let call = ProcedureCall { identifier: Identifier { identifier_string: identifier }, arg_list: None };
            assert(seq![TokenView::Identifier(identifier@)] + (seq![TokenView::LParen] + mid) =~= head + mid);
            assert(head + (seq![TokenView::RParen] + tokens@) =~= call_tokens(call) + tokens@);
            Ok(call)
        } else if tokens.remaining() == 0 {
            Err(ParserError::UnexpectedEOF("RParen,ArgumentList".to_owned()))
        } else {
            let args = ArgumentList::parse(tokens)?;
            let ghost after = tokens@;
            tokens.consume_expected(Token::RParen)?;
            let ghost list = list_tokens(args.expr_list@);
            let call = ProcedureCall {
                identifier: Identifier { identifier_string: identifier },
                arg_list: Some(args),
            };
            assert(seq![TokenView::Identifier(identifier@)] + (seq![TokenView::LParen] + mid) =~= head + mid);
            assert(head + (list + (seq![TokenView::RParen] + tokens@)) =~= call_tokens(call) + tokens@);
            Ok(call)
        }
    }
}

#[derive(Debug)]
pub struct ArgumentList {
    pub expr_list: Vec<Expression>,
}

impl ArgumentList {
    pub fn parse(tokens: &mut TokenQueue) -> (r: Result<Self, ParserError>)
        ensures
            r is Ok <==> after_args(old(tokens)@) is Some,
            r is Ok ==> final(tokens)@ == after_args(old(tokens)@)->Some_0,
            r is Ok ==> final(tokens)@.len() < old(tokens)@.len(),
            r is Ok ==> r->Ok_0.expr_list.len() >= 1,
            r matches Ok(x) ==> old(tokens)@ == list_tokens(x.expr_list@) + final(tokens)@,
            r is Ok ==> !(final(tokens)@.len() > 0 && final(tokens)@[0] is Comma),
        decreases old(tokens)@.len(), 5int,
    {
        let ghost start = tokens@.len();
        let mut args = Vec::new();
        let first = Expression::parse(tokens)?;
        args.push(first);
        assert(list_tokens(args@) == expr_tokens(first));
        while tokens.consume_as_bool(&Token::Comma)
            invariant
                after_args(old(tokens)@) == after_args_tail(tokens@),
                start == old(tokens)@.len(),
                tokens@.len() < start,
                args.len() >= 1,
                old(tokens)@ == list_tokens(args@) + tokens@,
            decreases tokens@.len(),
        {
            let ghost prev = args@;
            let next = Expression::parse(tokens)?;
            args.push(next);
            assert(args@.subrange(0, args@.len() - 1) =~= prev);
            assert(list_tokens(prev) + (seq![TokenView::Comma] + (expr_tokens(next) + tokens@)) =~= list_tokens(args@) + tokens@);
        }
        Ok(ArgumentList { expr_list: args })
    }
}

#[derive(Debug)]
pub struct ProcedureHeader {
    pub identifier: String,
    pub type_mark: TypeMark,
    pub param_list: Option<ParamList>,
}

impl ProcedureHeader {
    #[verifier::rlimit(100)]
    pub fn parse(tokens: &mut TokenQueue) -> (r: Result<Self, ParserError>)
        ensures
            r is Ok <==> after_header(old(tokens)@) is Some,
            r is Ok ==> final(tokens)@ == after_header(old(tokens)@)->Some_0,
            r is Ok ==> final(tokens)@.len() < old(tokens)@.len(),
            r matches Ok(x) ==> old(tokens)@ == header_tokens(x) + final(tokens)@,
    {
        tokens.consume_expected(Token::Procedure)?;
        let identifier = tokens.consume_identifier()?;
        tokens.consume_expected(Token::Colon)?;
        let type_mark = TypeMark::parse(tokens)?;
        tokens.consume_expected(Token::LParen)?;
        let ghost head = seq![TokenView::Procedure, TokenView::Identifier(identifier@), TokenView::Colon] + type_tokens(
            type_mark,
        ) + seq![TokenView::LParen];
        proof {
            assert(old(tokens)@ =~= head + tokens@);
        }
        if tokens.consume_as_bool(&Token::RParen) {
            let x = ProcedureHeader { identifier: identifier, type_mark: type_mark, param_list: None };
            proof {
                assert(old(tokens)@ =~= header_tokens(x) + tokens@);
            }
            Ok(x)
        } else if tokens.next_is(&Token::Variable) {
            let params = ParamList::parse(tokens)?;
            tokens.consume_expected(Token::RParen)?;
            let x = ProcedureHeader { identifier: identifier, type_mark: type_mark, param_list: Some(params) };
            proof {
                assert(old(tokens)@ =~= header_tokens(x) + tokens@);
            }
            Ok(x)
        } else {
            match tokens.pop_front() {
                Some(token) => Err(
                    ParserError::UnexpectedToken("RParen,VariableDeclaration".to_owned(), token),
                ),
                None => Err(ParserError::UnexpectedEOF("RParen,VariableDeclaration".to_owned())),
            }
        }
    }
}

#[derive(Debug)]
pub struct ProcedureBody {
    pub declarations: Vec<Declaration>,
    pub statements: Vec<Statement>,
}

impl ProcedureBody {
    #[verifier::rlimit(100)]
    pub fn parse(tokens: &mut TokenQueue) -> (r: Result<Self, ParserError>)
        ensures
            r is Ok <==> after_body(old(tokens)@, TokenView::Procedure) is Some,
            r is Ok ==> final(tokens)@ == after_body(old(tokens)@, TokenView::Procedure)->Some_0,
            r is Ok ==> final(tokens)@.len() < old(tokens)@.len(),
            r matches Ok(x) ==> old(tokens)@ == body_tokens(x.declarations@, x.statements@, TokenView::Procedure)
                + final(tokens)@,
        decreases old(tokens)@.len(), 13int,
    {
        let ghost start = tokens@.len();
        let mut declarations: Vec<Declaration> = Vec::new();
        let mut statements: Vec<Statement> = Vec::new();
        assert(old(tokens)@ =~= declarations_tokens(declarations@) + tokens@);
        loop
            invariant
                after_declarations(old(tokens)@) == after_declarations(tokens@),
                start == old(tokens)@.len(),
                tokens@.len() <= start,
                old(tokens)@ == declarations_tokens(declarations@) + tokens@,
            ensures
                after_declarations(old(tokens)@) == after_declarations(tokens@),
                start == old(tokens)@.len(),
                tokens@.len() <= start,
                old(tokens)@ == declarations_tokens(declarations@) + tokens@,
                after_declarations(old(tokens)@) == Some(tokens@),
            decreases tokens@.len(),
        {
            if tokens.next_is(&Token::Begin) {
                assert(after_declarations(tokens@) == Some(tokens@));
                break;
            } else if tokens.remaining() == 0 {
                return Err(ParserError::UnexpectedEOF("Identifier, Begin".to_owned()));
            } else {
                let ghost prev = declarations@;
                let declaration = Declaration::parse(tokens)?;
                let ghost spelled = declaration_tokens(declaration);
                tokens.consume_expected(Token::Semicolon)?;
                declarations.push(declaration);
                assert(declarations@.subrange(0, declarations@.len() - 1) =~= prev);
                assert(declarations_tokens(prev) + (spelled + (seq![TokenView::Semicolon] + tokens@))
                    =~= declarations_tokens(declarations@) + tokens@);
            }
        }
        assert(after_declarations(old(tokens)@) == Some(tokens@));
        tokens.consume_expected(Token::Begin)?;
        let ghost head = declarations_tokens(declarations@) + seq![TokenView::Begin];
        assert(old(tokens)@ =~= head + statements_tokens(statements@) + tokens@);
        loop
            invariant
                after_body(old(tokens)@, TokenView::Procedure) == match after_statements_to_end(tokens@) {
                    Some(s3) => expect2(s3, TokenView::End, TokenView::Procedure),
                    None => None,
                },
                start == old(tokens)@.len(),
                tokens@.len() < start,
                old(tokens)@ == head + statements_tokens(statements@) + tokens@,
            ensures
                after_body(old(tokens)@, TokenView::Procedure) == match after_statements_to_end(tokens@) {
                    Some(s3) => expect2(s3, TokenView::End, TokenView::Procedure),
                    None => None,
                },
                start == old(tokens)@.len(),
                tokens@.len() < start,
                old(tokens)@ == head + statements_tokens(statements@) + tokens@,
                after_statements_to_end(tokens@) == Some(tokens@),
            decreases tokens@.len(),
        {
            if tokens.next_is(&Token::End) {
                assert(after_statements_to_end(tokens@) == Some(tokens@));
                break;
            } else if tokens.remaining() == 0 {
                return Err(ParserError::UnexpectedEOF("Identifier, End".to_owned()));
            } else {
                let ghost prev = statements@;
                let statement = Statement::parse(tokens)?;
                let ghost spelled = statement_tokens(statement);
                tokens.consume_expected(Token::Semicolon)?;
                statements.push(statement);
                assert(statements@.subrange(0, statements@.len() - 1) =~= prev);
                assert(head + statements_tokens(prev) + (spelled + (seq![TokenView::Semicolon] + tokens@))
                    =~= head + statements_tokens(statements@) + tokens@);
            }
        }
        tokens.consume_expected(Token::End)?;
        tokens.consume_expected(Token::Procedure)?;
        let x = ProcedureBody { declarations, statements };
        assert(old(tokens)@ =~= body_tokens(x.declarations@, x.statements@, TokenView::Procedure) + tokens@);
        Ok(x)
    }
}

#[derive(Debug)]
pub struct ParamList {
    pub param_list: Vec<Parameter>,
}

impl ParamList {
    pub fn parse(tokens: &mut TokenQueue) -> (r: Result<Self, ParserError>)
        ensures
            r is Ok <==> after_params(old(tokens)@) is Some,
            r is Ok ==> final(tokens)@ == after_params(old(tokens)@)->Some_0,
            r is Ok ==> final(tokens)@.len() < old(tokens)@.len(),
            r is Ok ==> r->Ok_0.param_list.len() >= 1,
            r matches Ok(x) ==> old(tokens)@ == params_tokens(x.param_list@) + final(tokens)@,
            r is Ok ==> !(final(tokens)@.len() > 0 && final(tokens)@[0] is Comma),
    {
        let ghost start = tokens@.len();
        let mut parameters = Vec::new();
        let first = Parameter::parse(tokens)?;
        parameters.push(first);
        assert(params_tokens(parameters@) == variable_tokens(first.variable_declaration));
        while tokens.consume_as_bool(&Token::Comma)
            invariant
                after_params(old(tokens)@) == after_params_tail(tokens@),
                start == old(tokens)@.len(),
                tokens@.len() < start,
                parameters.len() >= 1,
                old(tokens)@ == params_tokens(parameters@) + tokens@,
            decreases tokens@.len(),
        {
            let ghost prev = parameters@;
            let next = Parameter::parse(tokens)?;
            parameters.push(next);
            assert(parameters@.drop_last() =~= prev);
            assert(params_tokens(prev) + (seq![TokenView::Comma] + (variable_tokens(next.variable_declaration)
                + tokens@)) =~= params_tokens(parameters@) + tokens@);
        }
        Ok(ParamList { param_list: parameters })
    }
}

#[derive(Debug)]
pub struct Parameter {
    pub variable_declaration: VariableDeclaration,
}

impl Parameter {
    pub fn parse(tokens: &mut TokenQueue) -> (r: Result<Self, ParserError>)
        ensures
            r is Ok <==> after_variable(old(tokens)@) is Some,
            r is Ok ==> final(tokens)@ == after_variable(old(tokens)@)->Some_0,
            r is Ok ==> final(tokens)@.len() < old(tokens)@.len(),
            r matches Ok(x) ==> old(tokens)@ == variable_tokens(x.variable_declaration) + final(tokens)@,
    {
        let variable_declaration = VariableDeclaration::parse(tokens)?;
        Ok(Parameter { variable_declaration })
    }
}

impl ParseTokens for ProcedureHeader {
    fn parse(tokens: &mut TokenQueue) -> (r: Result<Self, ParserError>) {
        ProcedureHeader::parse(tokens)
    }
}

impl ParseTokens for ProcedureBody {
    fn parse(tokens: &mut TokenQueue) -> (r: Result<Self, ParserError>) {
        ProcedureBody::parse(tokens)
    }
}

impl ParseTokens for ParamList {
    fn parse(tokens: &mut TokenQueue) -> (r: Result<Self, ParserError>) {
        ParamList::parse(tokens)
    }
}

impl ParseTokens for Parameter {
    fn parse(tokens: &mut TokenQueue) -> (r: Result<Self, ParserError>) {
        Parameter::parse(tokens)
    }
}

impl ParseTokens for ProcedureCall {
    fn parse(tokens: &mut TokenQueue) -> (r: Result<Self, ParserError>) {
        ProcedureCall::parse(tokens)
    }
}

impl ParseTokens for ArgumentList {
    fn parse(tokens: &mut TokenQueue) -> (r: Result<Self, ParserError>) {
        ArgumentList::parse(tokens)
    }
}

} // verus!
