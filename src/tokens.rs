//! The terminal vocabulary of the language and how single symbols, compound
//! symbols and words map to tokens.
use vstd::prelude::*;

use crate::text::chars_of;

verus! {

/// A terminal of the grammar.
#[derive(Debug, Clone)]
pub enum Token {
    // Keywords
    Program,
    Is,
    Begin,
    End,
    Global,
    Procedure,
    Variable,
    For,
    Not,
    If,
    Then,
    Else,
    Return,
    True,
    False,
    // Type names
    Integer,
    Float,
    String,
    Bool,
    // Single-character symbols
    Plus,
    Minus,
    Mult,
    Div,
    GreaterThan,
    LessThan,
    LBracket,
    RBracket,
    LParen,
    RParen,
    Amp,
    Pipe,
    Colon,
    Period,
    Semicolon,
    Comma,
    // Two-character symbols
    GreaterThanEq,
    LessThanEq,
    EqualsComp,
    NotEquals,
    Assignment,
    // Tokens that carry their text
    Identifier(String),
    NumberLiteral(String),
    StringLiteral(String),
    /// End of input: the last token, and only there.
    EOF,
}

/// What a token is, with its text as a character sequence.
pub enum TokenView {
    // Keywords
    Program,
    Is,
    Begin,
    End,
    Global,
    Procedure,
    Variable,
    For,
    Not,
    If,
    Then,
    Else,
    Return,
    True,
    False,
    // Type names
    Integer,
    Float,
    String,
    Bool,
    // Single-character symbols
    Plus,
    Minus,
    Mult,
    Div,
    GreaterThan,
    LessThan,
    LBracket,
    RBracket,
    LParen,
    RParen,
    Amp,
    Pipe,
    Colon,
    Period,
    Semicolon,
    Comma,
    // Two-character symbols
    GreaterThanEq,
    LessThanEq,
    EqualsComp,
    NotEquals,
    Assignment,
    // Tokens that carry their text
    Identifier(Seq<char>),
    NumberLiteral(Seq<char>),
    StringLiteral(Seq<char>),
    /// End of input: the last token, and only there.
    EOF,
}

impl View for Token {
    type V = TokenView;

    open spec fn view(&self) -> TokenView {
        match self {
            Token::Program => TokenView::Program,
            Token::Is => TokenView::Is,
            Token::Begin => TokenView::Begin,
            Token::End => TokenView::End,
            Token::Global => TokenView::Global,
            Token::Procedure => TokenView::Procedure,
            Token::Variable => TokenView::Variable,
            Token::For => TokenView::For,
            Token::Not => TokenView::Not,
            Token::If => TokenView::If,
            Token::Then => TokenView::Then,
            Token::Else => TokenView::Else,
            Token::Return => TokenView::Return,
            Token::True => TokenView::True,
            Token::False => TokenView::False,
            Token::Integer => TokenView::Integer,
            Token::Float => TokenView::Float,
            Token::String => TokenView::String,
            Token::Bool => TokenView::Bool,
            Token::Plus => TokenView::Plus,
            Token::Minus => TokenView::Minus,
            Token::Mult => TokenView::Mult,
            Token::Div => TokenView::Div,
            Token::GreaterThan => TokenView::GreaterThan,
            Token::LessThan => TokenView::LessThan,
            Token::LBracket => TokenView::LBracket,
            Token::RBracket => TokenView::RBracket,
            Token::LParen => TokenView::LParen,
            Token::RParen => TokenView::RParen,
            Token::Amp => TokenView::Amp,
            Token::Pipe => TokenView::Pipe,
            Token::Colon => TokenView::Colon,
            Token::Period => TokenView::Period,
            Token::Semicolon => TokenView::Semicolon,
            Token::Comma => TokenView::Comma,
            Token::GreaterThanEq => TokenView::GreaterThanEq,
            Token::LessThanEq => TokenView::LessThanEq,
            Token::EqualsComp => TokenView::EqualsComp,
            Token::NotEquals => TokenView::NotEquals,
            Token::Assignment => TokenView::Assignment,
            Token::Identifier(s) => TokenView::Identifier(s@),
            Token::NumberLiteral(s) => TokenView::NumberLiteral(s@),
            Token::StringLiteral(s) => TokenView::StringLiteral(s@),
            Token::EOF => TokenView::EOF,
        }
    }
}

impl PartialEq for Token {
    fn eq(&self, other: &Token) -> bool {
        match (self, other) {
            (Token::Program, Token::Program) => true,
            (Token::Is, Token::Is) => true,
            (Token::Begin, Token::Begin) => true,
            (Token::End, Token::End) => true,
            (Token::Global, Token::Global) => true,
            (Token::Procedure, Token::Procedure) => true,
            (Token::Variable, Token::Variable) => true,
            (Token::For, Token::For) => true,
            (Token::Not, Token::Not) => true,
            (Token::If, Token::If) => true,
            (Token::Then, Token::Then) => true,
            (Token::Else, Token::Else) => true,
            (Token::Return, Token::Return) => true,
            (Token::True, Token::True) => true,
            (Token::False, Token::False) => true,
            (Token::Integer, Token::Integer) => true,
            (Token::Float, Token::Float) => true,
            (Token::String, Token::String) => true,
            (Token::Bool, Token::Bool) => true,
            (Token::Plus, Token::Plus) => true,
            (Token::Minus, Token::Minus) => true,
            (Token::Mult, Token::Mult) => true,
            (Token::Div, Token::Div) => true,
            (Token::GreaterThan, Token::GreaterThan) => true,
            (Token::LessThan, Token::LessThan) => true,
            (Token::LBracket, Token::LBracket) => true,
            (Token::RBracket, Token::RBracket) => true,
            (Token::LParen, Token::LParen) => true,
            (Token::RParen, Token::RParen) => true,
            (Token::Amp, Token::Amp) => true,
            (Token::Pipe, Token::Pipe) => true,
            (Token::Colon, Token::Colon) => true,
            (Token::Period, Token::Period) => true,
            (Token::Semicolon, Token::Semicolon) => true,
            (Token::Comma, Token::Comma) => true,
            (Token::GreaterThanEq, Token::GreaterThanEq) => true,
            (Token::LessThanEq, Token::LessThanEq) => true,
            (Token::EqualsComp, Token::EqualsComp) => true,
            (Token::NotEquals, Token::NotEquals) => true,
            (Token::Assignment, Token::Assignment) => true,
            (Token::Identifier(a), Token::Identifier(b)) => a.eq(b),
            (Token::NumberLiteral(a), Token::NumberLiteral(b)) => a.eq(b),
            (Token::StringLiteral(a), Token::StringLiteral(b)) => a.eq(b),
            (Token::EOF, Token::EOF) => true,
            _ => false,
        }
    }
}

impl vstd::std_specs::cmp::PartialEqSpecImpl for Token {
    open spec fn obeys_eq_spec() -> bool {
        true
    }

    open spec fn eq_spec(&self, other: &Token) -> bool {
        self@ == other@
    }
}

/// The token of a single-character symbol.
pub open spec fn single_token(c: char) -> Option<TokenView> {
    if c == '+' {
        Some(TokenView::Plus)
    } else if c == '-' {
        Some(TokenView::Minus)
    } else if c == '*' {
        Some(TokenView::Mult)
    } else if c == '/' {
        Some(TokenView::Div)
    } else if c == '>' {
        Some(TokenView::GreaterThan)
    } else if c == '<' {
        Some(TokenView::LessThan)
    } else if c == '[' {
        Some(TokenView::LBracket)
    } else if c == ']' {
        Some(TokenView::RBracket)
    } else if c == '(' {
        Some(TokenView::LParen)
    } else if c == ')' {
        Some(TokenView::RParen)
    } else if c == '&' {
        Some(TokenView::Amp)
    } else if c == '|' {
        Some(TokenView::Pipe)
    } else if c == ':' {
        Some(TokenView::Colon)
    } else if c == '.' {
        Some(TokenView::Period)
    } else if c == ';' {
        Some(TokenView::Semicolon)
    } else if c == ',' {
        Some(TokenView::Comma)
    } else {
        None
    }
}

/// The token of a two-character symbol.
pub open spec fn compound_token(s: Seq<char>) -> Option<TokenView> {
    if s == seq!['>', '='] {
        Some(TokenView::GreaterThanEq)
    } else if s == seq!['<', '='] {
        Some(TokenView::LessThanEq)
    } else if s == seq!['=', '='] {
        Some(TokenView::EqualsComp)
    } else if s == seq!['!', '='] {
        Some(TokenView::NotEquals)
    } else if s == seq![':', '='] {
        Some(TokenView::Assignment)
    } else {
        None
    }
}

/// `c` is the letter `k`, in either case.
pub open spec fn same_letter(c: char, k: char) -> bool {
    c == k || (c as u32) + 32 == (k as u32)
}

/// `s` spells the lower-case word `w`, ignoring case.
pub open spec fn spells(s: Seq<char>, w: Seq<char>) -> bool {
    s.len() == w.len() && forall|i: int| 0 <= i < s.len() ==> #[trigger] same_letter(s[i], w[i])
}

/// The keyword or type name that `s` spells, ignoring case.
pub open spec fn keyword(s: Seq<char>) -> Option<TokenView> {
    if spells(s, seq!['p', 'r', 'o', 'g', 'r', 'a', 'm']) {
        Some(TokenView::Program)
    } else if spells(s, seq!['i', 's']) {
        Some(TokenView::Is)
    } else if spells(s, seq!['b', 'e', 'g', 'i', 'n']) {
        Some(TokenView::Begin)
    } else if spells(s, seq!['e', 'n', 'd']) {
        Some(TokenView::End)
    } else if spells(s, seq!['g', 'l', 'o', 'b', 'a', 'l']) {
        Some(TokenView::Global)
    } else if spells(s, seq!['p', 'r', 'o', 'c', 'e', 'd', 'u', 'r', 'e']) {
        Some(TokenView::Procedure)
    } else if spells(s, seq!['v', 'a', 'r', 'i', 'a', 'b', 'l', 'e']) {
        Some(TokenView::Variable)
    } else if spells(s, seq!['f', 'o', 'r']) {
        Some(TokenView::For)
    } else if spells(s, seq!['n', 'o', 't']) {
        Some(TokenView::Not)
    } else if spells(s, seq!['i', 'f']) {
        Some(TokenView::If)
    } else if spells(s, seq!['t', 'h', 'e', 'n']) {
        Some(TokenView::Then)
    } else if spells(s, seq!['e', 'l', 's', 'e']) {
        Some(TokenView::Else)
    } else if spells(s, seq!['r', 'e', 't', 'u', 'r', 'n']) {
        Some(TokenView::Return)
    } else if spells(s, seq!['t', 'r', 'u', 'e']) {
        Some(TokenView::True)
    } else if spells(s, seq!['f', 'a', 'l', 's', 'e']) {
        Some(TokenView::False)
    } else if spells(s, seq!['i', 'n', 't', 'e', 'g', 'e', 'r']) {
        Some(TokenView::Integer)
    } else if spells(s, seq!['f', 'l', 'o', 'a', 't']) {
        Some(TokenView::Float)
    } else if spells(s, seq!['s', 't', 'r', 'i', 'n', 'g']) {
        Some(TokenView::String)
    } else if spells(s, seq!['b', 'o', 'o', 'l']) {
        Some(TokenView::Bool)
    } else {
        None
    }
}

/// The token of a word: its keyword, else an identifier with the word as written.
pub open spec fn word_token(s: Seq<char>) -> TokenView {
    match keyword(s) {
        Some(t) => t,
        None => TokenView::Identifier(s),
    }
}

#[derive(Debug, Clone)]
pub enum TokenError {
    /// A character that starts no token.
    SingleTokenError(char),
    /// Text that is no two-character symbol.
    CompoundTokenError(String),
    /// A number literal with a second decimal point.
    RepeatedDecimalPoint,
    /// A string literal without its closing quote.
    UnterminatedString,
}

fn spells_exec(v: &Vec<char>, w: Vec<char>) -> (r: bool)
    requires
        forall|i: int| 0 <= i < w.len() ==> 'a' <= #[trigger] w[i] <= 'z',
    ensures
        r == spells(v@, w@),
{
    if v.len() != w.len() {
        return false;
    }
    let mut i: usize = 0;
    while i < v.len()
        invariant
            v.len() == w.len(),
            i <= v.len(),
            forall|j: int| 0 <= j < w.len() ==> 'a' <= #[trigger] w[j] <= 'z',
            forall|j: int| 0 <= j < i ==> #[trigger] same_letter(v@[j], w@[j]),
        decreases v.len() - i,
    {
        let c = v[i];
        let k = w[i];
        if !(c == k || (c as u32) == (k as u32) - 32) {
            assert(!same_letter(v@[i as int], w@[i as int]));
            return false;
        }
        i = i + 1;
    }
    true
}

impl Token {
    /// The name of the token's kind, for messages.
    pub fn name(&self) -> String {
        match self {
            Token::Program => "Program".to_owned(),
            Token::Is => "Is".to_owned(),
            Token::Begin => "Begin".to_owned(),
            Token::End => "End".to_owned(),
            Token::Global => "Global".to_owned(),
            Token::Procedure => "Procedure".to_owned(),
            Token::Variable => "Variable".to_owned(),
            Token::For => "For".to_owned(),
            Token::Not => "Not".to_owned(),
            Token::If => "If".to_owned(),
            Token::Then => "Then".to_owned(),
            Token::Else => "Else".to_owned(),
            Token::Return => "Return".to_owned(),
            Token::True => "True".to_owned(),
            Token::False => "False".to_owned(),
            Token::Integer => "Integer".to_owned(),
            Token::Float => "Float".to_owned(),
            Token::String => "String".to_owned(),
            Token::Bool => "Bool".to_owned(),
            Token::Plus => "Plus".to_owned(),
            Token::Minus => "Minus".to_owned(),
            Token::Mult => "Mult".to_owned(),
            Token::Div => "Div".to_owned(),
            Token::GreaterThan => "GreaterThan".to_owned(),
            Token::LessThan => "LessThan".to_owned(),
            Token::LBracket => "LBracket".to_owned(),
            Token::RBracket => "RBracket".to_owned(),
            Token::LParen => "LParen".to_owned(),
            Token::RParen => "RParen".to_owned(),
            Token::Amp => "Amp".to_owned(),
            Token::Pipe => "Pipe".to_owned(),
            Token::Colon => "Colon".to_owned(),
            Token::Period => "Period".to_owned(),
            Token::Semicolon => "Semicolon".to_owned(),
            Token::Comma => "Comma".to_owned(),
            Token::GreaterThanEq => "GreaterThanEq".to_owned(),
            Token::LessThanEq => "LessThanEq".to_owned(),
            Token::EqualsComp => "EqualsComp".to_owned(),
            Token::NotEquals => "NotEquals".to_owned(),
            Token::Assignment => "Assignment".to_owned(),
            Token::Identifier(_) => "Identifier".to_owned(),
            Token::NumberLiteral(_) => "NumberLiteral".to_owned(),
            Token::StringLiteral(_) => "StringLiteral".to_owned(),
            Token::EOF => "EOF".to_owned(),
        }
    }

    /// Returns the token for single character tokens
    pub fn from_char(symbol_char: char) -> (r: Result<Token, TokenError>)
        ensures
            match single_token(symbol_char) {
                Some(t) => r is Ok && r->Ok_0@ == t,
                None => r == Err::<Token, TokenError>(TokenError::SingleTokenError(symbol_char)),
            },
    {
        let matched_token = match symbol_char {
            '+' => Token::Plus,
            '-' => Token::Minus,
            '*' => Token::Mult,
            '/' => Token::Div,
            '>' => Token::GreaterThan,
            '<' => Token::LessThan,
            '[' => Token::LBracket,
            ']' => Token::RBracket,
            '(' => Token::LParen,
            ')' => Token::RParen,
            '&' => Token::Amp,
            '|' => Token::Pipe,
            ':' => Token::Colon,
            '.' => Token::Period,
            ';' => Token::Semicolon,
            ',' => Token::Comma,
            _ => return Err(TokenError::SingleTokenError(symbol_char)),
        };
        Ok(matched_token)
    }

    /// Returns the token of a two-character symbol such as `:=` or `<=`.
    pub fn from_compound_identifier(compound_chars: &str) -> (r: Result<Token, TokenError>)
        ensures
            match compound_token(compound_chars@) {
                Some(t) => r is Ok && r->Ok_0@ == t,
                None => r matches Err(TokenError::CompoundTokenError(s)) && s@ == compound_chars@,
            },
    {
        let v = chars_of(compound_chars);
        if v.len() == 2 && v[0] == '>' && v[1] == '=' {
            assert(v@ =~= seq!['>', '=']);
            return Ok(Token::GreaterThanEq);
        }
        if v.len() == 2 && v[0] == '<' && v[1] == '=' {
            assert(v@ =~= seq!['<', '=']);
            return Ok(Token::LessThanEq);
        }
        if v.len() == 2 && v[0] == '=' && v[1] == '=' {
            assert(v@ =~= seq!['=', '=']);
            return Ok(Token::EqualsComp);
        }
        if v.len() == 2 && v[0] == '!' && v[1] == '=' {
            assert(v@ =~= seq!['!', '=']);
            return Ok(Token::NotEquals);
        }
        if v.len() == 2 && v[0] == ':' && v[1] == '=' {
            assert(v@ =~= seq![':', '=']);
            return Ok(Token::Assignment);
        }
        Err(TokenError::CompoundTokenError(compound_chars.to_owned()))
    }

    pub fn num_literal_from_string(string: String) -> (r: Token)
        ensures
            r@ == TokenView::NumberLiteral(string@),
    {
        Token::NumberLiteral(string)
    }

    pub fn string_literal_from_string(string: String) -> (r: Token)
        ensures
            r@ == TokenView::StringLiteral(string@),
    {
        Token::StringLiteral(string)
    }

    /// The token of a word: a keyword or type name in any case, else an
    /// identifier that keeps the word as written.
    pub fn from_string(string: String) -> (r: Token)
        ensures
            r@ == word_token(string@),
    {
        let v = chars_of(string.as_str());
        if spells_exec(&v, vec!['p', 'r', 'o', 'g', 'r', 'a', 'm']) {
            return Token::Program;
        }
        if spells_exec(&v, vec!['i', 's']) {
            return Token::Is;
        }
        if spells_exec(&v, vec!['b', 'e', 'g', 'i', 'n']) {
            return Token::Begin;
        }
        if spells_exec(&v, vec!['e', 'n', 'd']) {
            return Token::End;
        }
        if spells_exec(&v, vec!['g', 'l', 'o', 'b', 'a', 'l']) {
            return Token::Global;
        }
        if spells_exec(&v, vec!['p', 'r', 'o', 'c', 'e', 'd', 'u', 'r', 'e']) {
            return Token::Procedure;
        }
        if spells_exec(&v, vec!['v', 'a', 'r', 'i', 'a', 'b', 'l', 'e']) {
            return Token::Variable;
        }
        if spells_exec(&v, vec!['f', 'o', 'r']) {
            return Token::For;
        }
        if spells_exec(&v, vec!['n', 'o', 't']) {
            return Token::Not;
        }
        if spells_exec(&v, vec!['i', 'f']) {
            return Token::If;
        }
        if spells_exec(&v, vec!['t', 'h', 'e', 'n']) {
            return Token::Then;
        }
        if spells_exec(&v, vec!['e', 'l', 's', 'e']) {
            return Token::Else;
        }
        if spells_exec(&v, vec!['r', 'e', 't', 'u', 'r', 'n']) {
            return Token::Return;
        }
        if spells_exec(&v, vec!['t', 'r', 'u', 'e']) {
            return Token::True;
        }
        if spells_exec(&v, vec!['f', 'a', 'l', 's', 'e']) {
            return Token::False;
        }
        if spells_exec(&v, vec!['i', 'n', 't', 'e', 'g', 'e', 'r']) {
            return Token::Integer;
        }
        if spells_exec(&v, vec!['f', 'l', 'o', 'a', 't']) {
            return Token::Float;
        }
        if spells_exec(&v, vec!['s', 't', 'r', 'i', 'n', 'g']) {
            return Token::String;
        }
        if spells_exec(&v, vec!['b', 'o', 'o', 'l']) {
            return Token::Bool;
        }
        Token::Identifier(string)
    }
}

} // verus!
