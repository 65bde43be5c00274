//! Variable and procedure declarations.
use vstd::prelude::*;

use crate::parser::procedure::{ProcedureBody, ProcedureHeader};
use crate::parser::types::{ArrayBound, TypeMark};
use crate::parser::traits::ParseTokens;
use crate::parser::utils::{ParserError, TokenQueue};
use crate::parser::grammar::{after_declaration, after_procedure, after_variable};
use crate::parser::spelling::{body_tokens, declaration_tokens, header_tokens, sign_global, type_tokens, variable_tokens};
use crate::tokens::{Token, TokenView};

verus! {

/// A declaration; the flag tells whether it was marked `global`.
#[derive(Debug)]
pub enum Declaration {
    Procedure(bool, ProcedureDeclaration),
    Variable(bool, VariableDeclaration),
}

impl Declaration {
    #[verifier::rlimit(100)]
    pub fn parse(tokens: &mut TokenQueue) -> (r: Result<Self, ParserError>)
        ensures
            r is Ok <==> after_declaration(old(tokens)@) is Some,
            r is Ok ==> final(tokens)@ == after_declaration(old(tokens)@)->Some_0,
            r is Ok ==> final(tokens)@.len() < old(tokens)@.len(),
            r matches Ok(x) ==> old(tokens)@ == declaration_tokens(x) + final(tokens)@,
            !(old(tokens)@.len() > 0 && (old(tokens)@[0] is Global || old(tokens)@[0] is Procedure
                || old(tokens)@[0] is Variable)) ==> r is Err,
        decreases old(tokens)@.len(), 12int,
    {
        let is_global = tokens.consume_as_bool(&Token::Global);
        let ghost t1 = tokens@;
        proof {
            assert(old(tokens)@ =~= sign_global(is_global) + t1);
        }
        if tokens.next_is(&Token::Procedure) {
            let procedure = ProcedureDeclaration::parse(tokens)?;
            let x = Declaration::Procedure(is_global, procedure);
            proof {
                let h = header_tokens(procedure.procedure_header);
                let b = body_tokens(
                    procedure.procedure_body.declarations@,
                    procedure.procedure_body.statements@,
                    TokenView::Procedure,
                );
                assert(declaration_tokens(x) =~= sign_global(is_global) + (h + b));
                assert(old(tokens)@ =~= declaration_tokens(x) + tokens@);
            }
            Ok(x)
        } else if tokens.next_is(&Token::Variable) {
            let variable = VariableDeclaration::parse(tokens)?;
            let x = Declaration::Variable(is_global, variable);
            proof {
                assert(old(tokens)@ =~= declaration_tokens(x) + tokens@);
            }
            Ok(x)
        } else {
            match tokens.pop_front() {
                Some(token) => Err(ParserError::UnexpectedToken("Declaration".to_owned(), token)),
                None => Err(ParserError::UnexpectedEOF("Declaration".to_owned())),
            }
        }
    }
}

#[derive(Debug)]
pub struct ProcedureDeclaration {
    pub procedure_header: ProcedureHeader,
    pub procedure_body: ProcedureBody,
}

impl ProcedureDeclaration {
    #[verifier::rlimit(100)]
    pub fn parse(tokens: &mut TokenQueue) -> (r: Result<Self, ParserError>)
        ensures
            r is Ok <==> after_procedure(old(tokens)@) is Some,
            r is Ok ==> final(tokens)@ == after_procedure(old(tokens)@)->Some_0,
            r is Ok ==> final(tokens)@.len() < old(tokens)@.len(),
            r matches Ok(x) ==> old(tokens)@ == header_tokens(x.procedure_header) + body_tokens(
                x.procedure_body.declarations@,
                x.procedure_body.statements@,
                TokenView::Procedure,
            ) + final(tokens)@,
        decreases old(tokens)@.len(), 11int,
    {
        let procedure_header = ProcedureHeader::parse(tokens)?;
        let procedure_body = ProcedureBody::parse(tokens)?;
        let x = ProcedureDeclaration { procedure_header, procedure_body };
        proof {
            let h = header_tokens(x.procedure_header);
            let b = body_tokens(x.procedure_body.declarations@, x.procedure_body.statements@, TokenView::Procedure);
            assert(old(tokens)@ =~= h + b + tokens@);
        }
        Ok(x)
    }
}

#[derive(Debug)]
pub struct VariableDeclaration {
    pub identifier: String,
    pub type_mark: TypeMark,
    pub array_bound: Option<ArrayBound>,
}

impl VariableDeclaration {
    pub fn parse(tokens: &mut TokenQueue) -> (r: Result<Self, ParserError>)
        ensures
            r is Ok <==> after_variable(old(tokens)@) is Some,
            r is Ok ==> final(tokens)@ == after_variable(old(tokens)@)->Some_0,
            r is Ok ==> final(tokens)@.len() < old(tokens)@.len(),
            r matches Ok(x) ==> old(tokens)@ == variable_tokens(x) + final(tokens)@,
            r matches Ok(x) ==> (x.array_bound is None ==> !(final(tokens)@.len() > 0 && final(tokens)@[0] is LBracket)),
    {
        tokens.consume_expected(Token::Variable)?;
        let identifier = tokens.consume_identifier()?;
        tokens.consume_expected(Token::Colon)?;
        let type_mark = TypeMark::parse(tokens)?;
        let ghost head = seq![TokenView::Variable, TokenView::Identifier(identifier@), TokenView::Colon] + type_tokens(
            type_mark,
        );
        proof {
            assert(old(tokens)@ =~= head + tokens@);
        }
        let array_bound = if tokens.consume_as_bool(&Token::LBracket) {
            let array_bound = ArrayBound::parse(tokens)?;
            tokens.consume_expected(Token::RBracket)?;
            Some(array_bound)
        } else {
            None
        };
        let x = VariableDeclaration { identifier, type_mark, array_bound };
        proof {
            assert(old(tokens)@ =~= variable_tokens(x) + tokens@);
        }
        Ok(x)
    }
}

impl ParseTokens for Declaration {
    fn parse(tokens: &mut TokenQueue) -> (r: Result<Self, ParserError>) {
        Declaration::parse(tokens)
    }
}

impl ParseTokens for ProcedureDeclaration {
    fn parse(tokens: &mut TokenQueue) -> (r: Result<Self, ParserError>) {
        ProcedureDeclaration::parse(tokens)
    }
}

impl ParseTokens for VariableDeclaration {
    fn parse(tokens: &mut TokenQueue) -> (r: Result<Self, ParserError>) {
        VariableDeclaration::parse(tokens)
    }
}

} // verus!
