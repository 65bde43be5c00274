use std::collections::VecDeque;

use frontend::parser::declarations::Declaration;
use frontend::parser::parse_tokens;
use frontend::parser::program::ProgramStruct;
use frontend::parser::statement::Statement;
use frontend::parser::types::TypeMark;
use frontend::parser::utils::{ParserError, TokenQueue};
use frontend::scanner::scan;
use frontend::tokens::Token;

fn parse(s: &str) -> Result<ProgramStruct, ParserError> {
    let tokens = scan(String::from(s)).unwrap();
    parse_tokens(VecDeque::from(tokens))
}

#[test]
fn minimal_program_parses() {
    let program = parse("program p is begin end program.").unwrap();
    assert_eq!(program.program_header.header_identifier, "p");
    assert!(program.program_body.declarations.is_empty());
    assert!(program.program_body.statements.is_empty());
    assert!(!program.missing_period);
}

#[test]
fn missing_period_is_tolerated() {
    let program = parse("program p is begin end program").unwrap();
    assert!(program.missing_period);
}

#[test]
fn tokens_after_eof_are_refused() {
    let tokens = vec![
        Token::Program,
        Token::Identifier(String::from("p")),
        Token::Is,
        Token::Begin,
        Token::End,
        Token::Program,
        Token::Period,
        Token::EOF,
        Token::Semicolon,
    ];
    let r = parse_tokens(VecDeque::from(tokens));
    assert!(matches!(r, Err(ParserError::ExpectedEOF(Token::Semicolon))));
}

#[test]
fn else_binds_to_the_inner_if() {
    let program = parse(
        "program p is variable x: integer; begin \
         if (true) then if (false) then x := 1; else x := 2; end if; end if; \
         end program.",
    )
    .unwrap();
    let statements = &program.program_body.statements;
    assert_eq!(statements.len(), 1);
    match &statements[0] {
        Statement::If(outer) => {
            assert!(outer.else_statement.is_none());
            assert_eq!(outer.then_statement.len(), 1);
            match &outer.then_statement[0] {
                Statement::If(inner) => {
                    assert_eq!(inner.then_statement.len(), 1);
                    assert_eq!(inner.else_statement.as_ref().map(|b| b.len()), Some(1));
                }
                other => panic!("expected an inner if, found {:?}", other),
            }
        }
        other => panic!("expected an if, found {:?}", other),
    }
}

#[test]
fn declarations_and_procedures_parse() {
    let program = parse(
        "program p is global variable g: float[4]; \
         procedure f: integer (variable a: integer, variable b: bool) \
         variable t: integer; begin return a; end procedure; \
         begin end program.",
    )
    .unwrap();
    let decls = &program.program_body.declarations;
    assert_eq!(decls.len(), 2);
    match &decls[0] {
        Declaration::Variable(true, v) => {
            assert_eq!(v.identifier, "g");
            assert_eq!(v.type_mark, TypeMark::Float);
            assert_eq!(v.array_bound.as_ref().map(|b| b.number.literal_string.clone()), Some(String::from("4")));
        }
        other => panic!("unexpected {:?}", other),
    }
    match &decls[1] {
        Declaration::Procedure(false, p) => {
            assert_eq!(p.procedure_header.identifier, "f");
            assert_eq!(p.procedure_header.param_list.as_ref().map(|l| l.param_list.len()), Some(2));
            assert_eq!(p.procedure_body.declarations.len(), 1);
            assert_eq!(p.procedure_body.statements.len(), 1);
        }
        other => panic!("unexpected {:?}", other),
    }
}

#[test]
fn loop_statement_parses() {
    let program = parse(
        "program p is variable i: integer; begin \
         for (i := 0; i < 10) i := i + 1; end for; end program.",
    )
    .unwrap();
    assert!(matches!(program.program_body.statements[0], Statement::Loop(_)));
}

#[test]
fn missing_semicolon_is_reported() {
    let r = parse("program p is variable x: integer begin end program.");
    assert!(matches!(r, Err(ParserError::UnexpectedToken(_, Token::Begin))));
}

#[test]
fn truncated_program_is_reported() {
    let tokens = vec![Token::Program, Token::Identifier(String::from("p")), Token::Is];
    let r = parse_tokens(VecDeque::from(tokens));
    assert!(matches!(r, Err(ParserError::UnexpectedEOF(_))));
}

#[test]
fn queue_operations() {
    let mut queue = TokenQueue::new(VecDeque::from(vec![Token::Global, Token::Identifier(String::from("x"))]));
    assert_eq!(queue.remaining(), 2);
    assert!(!queue.consume_as_bool(&Token::Variable));
    assert!(queue.consume_as_bool(&Token::Global));
    assert_eq!(queue.peek_front(), Some(&Token::Identifier(String::from("x"))));
    assert_eq!(queue.consume_identifier().unwrap(), "x");
    assert!(queue.consume_expected(Token::EOF).is_ok());
    assert!(matches!(
        queue.consume_expected(Token::Semicolon),
        Err(ParserError::UnexpectedEOFToken(Token::Semicolon))
    ));
    queue.push_front(Token::Comma);
    assert_eq!(queue.pop_front(), Some(Token::Comma));
    assert_eq!(queue.pop_front(), None);
}

#[test]
fn consume_expected_reports_the_found_token() {
    let mut queue = TokenQueue::new(VecDeque::from(vec![Token::Comma, Token::EOF]));
    assert!(matches!(
        queue.consume_expected(Token::Semicolon),
        Err(ParserError::UnexpectedToken(_, Token::Comma))
    ));
    let mut queue = TokenQueue::new(VecDeque::from(vec![Token::EOF, Token::Comma]));
    assert!(matches!(queue.consume_expected(Token::Comma), Err(ParserError::EarlyEOF)));
}
