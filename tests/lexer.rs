use frontend::scanner::{scan, ScannerError};
use frontend::tokens::{Token, TokenError};

fn lex(s: &str) -> Result<Vec<Token>, ScannerError> {
    scan(String::from(s))
}

fn ident(s: &str) -> Token {
    Token::Identifier(String::from(s))
}

#[test]
fn minimal_program_tokens() {
    let tokens = lex("program p is begin end program.").unwrap();
    assert_eq!(
        tokens,
        vec![
            Token::Program,
            ident("p"),
            Token::Is,
            Token::Begin,
            Token::End,
            Token::Program,
            Token::Period,
            Token::EOF
        ]
    );
}

#[test]
fn keywords_ignore_case_and_identifiers_keep_it() {
    let tokens = lex("PROGRAM Prog Is Variable X : Integer").unwrap();
    assert_eq!(
        tokens,
        vec![
            Token::Program,
            ident("Prog"),
            Token::Is,
            Token::Variable,
            ident("X"),
            Token::Colon,
            Token::Integer,
            Token::EOF
        ]
    );
}

#[test]
fn compound_symbols() {
    let tokens = lex("a := b <= c >= d == e != f < g > h").unwrap();
    assert_eq!(
        tokens,
        vec![
            ident("a"),
            Token::Assignment,
            ident("b"),
            Token::LessThanEq,
            ident("c"),
            Token::GreaterThanEq,
            ident("d"),
            Token::EqualsComp,
            ident("e"),
            Token::NotEquals,
            ident("f"),
            Token::LessThan,
            ident("g"),
            Token::GreaterThan,
            ident("h"),
            Token::EOF
        ]
    );
}

#[test]
fn symbols_end_words_and_numbers() {
    let tokens = lex("x[2]:=y+3.5;").unwrap();
    assert_eq!(
        tokens,
        vec![
            ident("x"),
            Token::LBracket,
            Token::NumberLiteral(String::from("2")),
            Token::RBracket,
            Token::Assignment,
            ident("y"),
            Token::Plus,
            Token::NumberLiteral(String::from("3.5")),
            Token::Semicolon,
            Token::EOF
        ]
    );
}

#[test]
fn number_with_underscores() {
    let tokens = lex("1_000").unwrap();
    assert_eq!(tokens, vec![Token::NumberLiteral(String::from("1_000")), Token::EOF]);
}

#[test]
fn string_literal_keeps_spaces_and_case() {
    let tokens = lex("\"Hello World\"").unwrap();
    assert_eq!(tokens, vec![Token::StringLiteral(String::from("Hello World")), Token::EOF]);
}

#[test]
fn comments_are_stripped_before_lexing() {
    let tokens = lex("a /* b */ c // d\ne").unwrap();
    assert_eq!(tokens, vec![ident("a"), ident("c"), ident("e"), Token::EOF]);
}

#[test]
fn whitespace_runs_emit_nothing() {
    let tokens = lex("  a \t\n\n  b   ").unwrap();
    assert_eq!(tokens, vec![ident("a"), ident("b"), Token::EOF]);
}

#[test]
fn empty_input_gives_only_eof() {
    assert_eq!(lex("").unwrap(), vec![Token::EOF]);
}

#[test]
fn single_eof_at_the_end() {
    let tokens = lex("program p is begin end program.").unwrap();
    let eofs = tokens.iter().filter(|t| matches!(t, Token::EOF)).count();
    assert_eq!(eofs, 1);
    assert!(matches!(tokens.last(), Some(Token::EOF)));
}

#[test]
fn second_decimal_point_is_an_error() {
    assert!(matches!(
        lex("1.2.3"),
        Err(ScannerError::TokenError(TokenError::RepeatedDecimalPoint))
    ));
}

#[test]
fn unterminated_string_is_an_error() {
    assert!(matches!(
        lex("\"open"),
        Err(ScannerError::TokenError(TokenError::UnterminatedString))
    ));
}

#[test]
fn lone_bang_is_an_error() {
    assert!(matches!(
        lex("a ! b"),
        Err(ScannerError::TokenError(TokenError::SingleTokenError('!')))
    ));
}

#[test]
fn lone_equals_is_an_error() {
    assert!(matches!(
        lex("a = b"),
        Err(ScannerError::TokenError(TokenError::SingleTokenError('=')))
    ));
}

#[test]
fn unknown_character_is_an_error() {
    assert!(matches!(
        lex("a # b"),
        Err(ScannerError::TokenError(TokenError::SingleTokenError('#')))
    ));
}

#[test]
fn stripper_failure_is_reported() {
    let mut text = String::new();
    for _ in 0..255 {
        text.push_str("/*");
    }
    text.push('*');
    assert!(matches!(lex(&text), Err(ScannerError::StripError(_))));
}

#[test]
fn token_constructors() {
    assert_eq!(Token::from_char('+').unwrap(), Token::Plus);
    assert!(matches!(Token::from_char('?'), Err(TokenError::SingleTokenError('?'))));
    assert_eq!(Token::from_compound_identifier(":=").unwrap(), Token::Assignment);
    assert_eq!(Token::from_compound_identifier("!=").unwrap(), Token::NotEquals);
    match Token::from_compound_identifier("+=") {
        Err(TokenError::CompoundTokenError(s)) => assert_eq!(s, "+="),
        other => panic!("unexpected {:?}", other),
    }
    assert_eq!(Token::from_string(String::from("ElSe")), Token::Else);
    assert_eq!(Token::from_string(String::from("elsewhere")), ident("elsewhere"));
    assert_eq!(
        Token::num_literal_from_string(String::from("42")),
        Token::NumberLiteral(String::from("42"))
    );
    assert_eq!(
        Token::string_literal_from_string(String::from("Hi")),
        Token::StringLiteral(String::from("Hi"))
    );
}
