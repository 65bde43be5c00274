//! From source text to tokens: comments are stripped first, then a state
//! machine over the remaining characters groups them into tokens.
use vstd::prelude::*;

pub mod stripper;

use crate::scanner::stripper::{strip_chars, stripped, StripError};
use crate::text::{chars_of, string_of};
use crate::tokens::{single_token, word_token, Token, TokenError, TokenView};

verus! {

#[derive(Debug, Clone)]
pub enum ScannerError {
    /// The comment stripper failed.
    StripError(StripError),
    /// The characters left after stripping form no valid token sequence.
    TokenError(TokenError),
}

/// What the lexer is in the middle of, between two characters.
#[derive(Debug, Clone)]
pub enum BuildToken {
    /// Not building a token
    Idle,
    /// Read the first character of a symbol that may take a following `=`.
    CompoundSymbol(char),
    /// Building a word: a keyword, a type name or an identifier.
    Identifier(Vec<char>),
    /// Building a string literal; the opening quote is not kept.
    StringLiteral(Vec<char>),
    /// Building a number literal.
    NumberLiteral(Vec<char>),
}

/// The state of the lexer as mathematical values.
pub enum LexState {
    Idle,
    Compound(char),
    Word(Seq<char>),
    Text(Seq<char>),
    Number(Seq<char>),
}

impl View for BuildToken {
    type V = LexState;

    open spec fn view(&self) -> LexState {
        match self {
            BuildToken::Idle => LexState::Idle,
            BuildToken::CompoundSymbol(c) => LexState::Compound(*c),
            BuildToken::Identifier(s) => LexState::Word(s@),
            BuildToken::StringLiteral(s) => LexState::Text(s@),
            BuildToken::NumberLiteral(s) => LexState::Number(s@),
        }
    }
}

pub open spec fn is_space(c: char) -> bool {
    c == ' ' || c == '\t' || c == '\n'
}

/// A character that is a token by itself.
pub open spec fn is_single(c: char) -> bool {
    c == '+' || c == '-' || c == '*' || c == '/' || c == '[' || c == ']' || c == '(' || c == ')'
        || c == '&' || c == '|' || c == '.' || c == ';' || c == ','
}

/// A character that may be followed by `=` to form a two-character symbol.
pub open spec fn is_compound_seed(c: char) -> bool {
    c == '<' || c == '>' || c == '=' || c == ':' || c == '!'
}

pub open spec fn is_digit(c: char) -> bool {
    '0' <= c <= '9'
}

pub open spec fn is_letter(c: char) -> bool {
    ('a' <= c <= 'z') || ('A' <= c <= 'Z')
}

/// The token of a seed character followed by `=`.
pub open spec fn with_equals(k: char) -> TokenView {
    if k == '<' {
        TokenView::LessThanEq
    } else if k == '>' {
        TokenView::GreaterThanEq
    } else if k == '=' {
        TokenView::EqualsComp
    } else if k == '!' {
        TokenView::NotEquals
    } else {
        TokenView::Assignment
    }
}

/// The step from the idle state: the state entered and the tokens emitted.
pub open spec fn lex_start(c: char) -> Result<(LexState, Seq<TokenView>), TokenError> {
    if is_space(c) {
        Ok((LexState::Idle, Seq::empty()))
    } else if is_single(c) {
        Ok((LexState::Idle, seq![single_token(c)->Some_0]))
    } else if is_compound_seed(c) {
        Ok((LexState::Compound(c), Seq::empty()))
    } else if is_digit(c) {
        Ok((LexState::Number(seq![c]), Seq::empty()))
    } else if is_letter(c) {
        Ok((LexState::Word(seq![c]), Seq::empty()))
    } else if c == '"' {
        Ok((LexState::Text(Seq::empty()), Seq::empty()))
    } else {
        Err(TokenError::SingleTokenError(c))
    }
}

/// The tokens that a state gives when the token under construction ends.
pub open spec fn lex_flush(st: LexState) -> Result<Seq<TokenView>, TokenError> {
    match st {
        LexState::Idle => Ok(Seq::empty()),
        LexState::Compound(k) => match single_token(k) {
            Some(t) => Ok(seq![t]),
            None => Err(TokenError::SingleTokenError(k)),
        },
        LexState::Word(s) => Ok(seq![word_token(s)]),
        LexState::Number(s) => Ok(seq![TokenView::NumberLiteral(s)]),
        LexState::Text(_) => Err(TokenError::UnterminatedString),
    }
}

/// Ends the token under construction, then reads `c` from the idle state.
pub open spec fn lex_restart(st: LexState, c: char) -> Result<(LexState, Seq<TokenView>), TokenError> {
    match lex_flush(st) {
        Err(e) => Err(e),
        Ok(done) => match lex_start(c) {
            Err(e) => Err(e),
            Ok((next, more)) => Ok((next, done + more)),
        },
    }
}

/// One transition of the lexer: the next state and the tokens emitted.
pub open spec fn lex_step(st: LexState, c: char) -> Result<(LexState, Seq<TokenView>), TokenError> {
    match st {
        LexState::Idle => lex_start(c),
        LexState::Compound(k) => if c == '=' {
            Ok((LexState::Idle, seq![with_equals(k)]))
        } else {
            lex_restart(st, c)
        },
        LexState::Word(s) => if is_letter(c) || is_digit(c) || c == '_' {
            Ok((LexState::Word(s.push(c)), Seq::empty()))
        } else {
            lex_restart(st, c)
        },
        LexState::Number(s) => if is_digit(c) || c == '_' {
            Ok((LexState::Number(s.push(c)), Seq::empty()))
        } else if c == '.' {
            if s.contains('.') {
                Err(TokenError::RepeatedDecimalPoint)
            } else {
                Ok((LexState::Number(s.push(c)), Seq::empty()))
            }
        } else {
            lex_restart(st, c)
        },
        LexState::Text(s) => if c == '"' {
            Ok((LexState::Idle, seq![TokenView::StringLiteral(s)]))
        } else {
            Ok((LexState::Text(s.push(c)), Seq::empty()))
        },
    }
}

/// The lexer run over `s` from the idle state.
pub open spec fn lex_run(s: Seq<char>) -> Result<(LexState, Seq<TokenView>), TokenError>
    decreases s.len(),
{
    if s.len() == 0 {
        Ok((LexState::Idle, Seq::empty()))
    } else {
        match lex_run(s.drop_last()) {
            Err(e) => Err(e),
            Ok((st, toks)) => match lex_step(st, s.last()) {
                Err(e) => Err(e),
                Ok((next, more)) => Ok((next, toks + more)),
            },
        }
    }
}

/// The tokens of a comment-free text, ending with `EOF`, or the first error.
pub open spec fn lexed(s: Seq<char>) -> Result<Seq<TokenView>, TokenError> {
    match lex_run(s) {
        Err(e) => Err(e),
        Ok((st, toks)) => match lex_flush(st) {
            Err(e) => Err(e),
            Ok(last) => Ok(toks + last + seq![TokenView::EOF]),
        },
    }
}

/// The tokens of a source text, or the error that stops it.
pub open spec fn scanned(s: Seq<char>) -> Result<Seq<TokenView>, ScannerError> {
    match stripped(s) {
        None => Err(ScannerError::StripError(StripError::MaxCommentDepth)),
        Some(t) => match lexed(t) {
            Ok(toks) => Ok(toks),
            Err(e) => Err(ScannerError::TokenError(e)),
        },
    }
}

pub open spec fn views(s: Seq<Token>) -> Seq<TokenView> {
    s.map_values(|t: Token| t@)
}

fn emit(out: &mut Vec<Token>, t: Token)
    ensures
        views(final(out)@) == views(old(out)@).push(t@),
{
    out.push(t);
    assert(views(out@) =~= views(old(out)@).push(t@));
}

fn has_char(v: &Vec<char>, c: char) -> (r: bool)
    ensures
        r == v@.contains(c),
{
    let mut i: usize = 0;
    while i < v.len()
        invariant
            i <= v.len(),
            forall|j: int| 0 <= j < i ==> v@[j] != c,
        decreases v.len() - i,
    {
        if v[i] == c {
            return true;
        }
        i = i + 1;
    }
    false
}

fn push_chars(mut v: Vec<char>, c: char) -> (r: Vec<char>)
    ensures
        r@ == v@.push(c),
{
    v.push(c);
    v
}

fn start_exec(c: char, out: &mut Vec<Token>) -> (r: Result<BuildToken, TokenError>)
    ensures
        match lex_start(c) {
            Err(e) => r == Err::<BuildToken, TokenError>(e),
            Ok((next, toks)) => r is Ok && r->Ok_0@ == next && views(final(out)@) == views(old(out)@) + toks,
        },
{
    if c == ' ' || c == '\t' || c == '\n' {
        assert(views(out@) + Seq::<TokenView>::empty() =~= views(out@));
        Ok(BuildToken::Idle)
    } else if c == '+' || c == '-' || c == '*' || c == '/' || c == '[' || c == ']' || c == '('
        || c == ')' || c == '&' || c == '|' || c == '.' || c == ';' || c == ',' {
        match Token::from_char(c) {
            Ok(t) => {
                emit(out, t);
                assert(views(old(out)@).push(t@) =~= views(old(out)@) + seq![t@]);
                Ok(BuildToken::Idle)
            },
            Err(e) => Err(e),
        }
    } else {
        assert(views(out@) + Seq::<TokenView>::empty() =~= views(out@));
        if c == '<' || c == '>' || c == '=' || c == ':' || c == '!' {
            Ok(BuildToken::CompoundSymbol(c))
        } else if '0' <= c && c <= '9' {
            let v = push_chars(Vec::new(), c);
            assert(v@ =~= seq![c]);
            Ok(BuildToken::NumberLiteral(v))
        } else if ('a' <= c && c <= 'z') || ('A' <= c && c <= 'Z') {
            let v = push_chars(Vec::new(), c);
            assert(v@ =~= seq![c]);
            Ok(BuildToken::Identifier(v))
        } else if c == '"' {
            Ok(BuildToken::StringLiteral(Vec::new()))
        } else {
            Err(TokenError::SingleTokenError(c))
        }
    }
}

fn flush_exec(st: BuildToken, out: &mut Vec<Token>) -> (r: Result<(), TokenError>)
    ensures
        match lex_flush(st@) {
            Err(e) => r == Err::<(), TokenError>(e),
            Ok(toks) => r is Ok && views(final(out)@) == views(old(out)@) + toks,
        },
{
    match st {
        BuildToken::Idle => {
            assert(views(out@) + Seq::<TokenView>::empty() =~= views(out@));
            Ok(())
        },
        BuildToken::CompoundSymbol(k) => match Token::from_char(k) {
            Ok(t) => {
                emit(out, t);
                assert(views(old(out)@).push(t@) =~= views(old(out)@) + seq![t@]);
                Ok(())
            },
            Err(e) => Err(e),
        },
        BuildToken::Identifier(s) => {
            let t = Token::from_string(string_of(&s));
            emit(out, t);
            assert(views(old(out)@).push(t@) =~= views(old(out)@) + seq![t@]);
            Ok(())
        },
        BuildToken::NumberLiteral(s) => {
            let t = Token::num_literal_from_string(string_of(&s));
            emit(out, t);
            assert(views(old(out)@).push(t@) =~= views(old(out)@) + seq![t@]);
            Ok(())
        },
        BuildToken::StringLiteral(_) => Err(TokenError::UnterminatedString),
    }
}

fn restart_exec(st: BuildToken, c: char, out: &mut Vec<Token>) -> (r: Result<BuildToken, TokenError>)
    ensures
        match lex_restart(st@, c) {
            Err(e) => r == Err::<BuildToken, TokenError>(e),
            Ok((next, toks)) => r is Ok && r->Ok_0@ == next && views(final(out)@) == views(old(out)@) + toks,
        },
{
    match flush_exec(st, out) {
        Err(e) => Err(e),
        Ok(()) => {
            let ghost mid = views(out@);
            let r = start_exec(c, out);
            proof {
                if let Ok((next, more)) = lex_start(c) {
                    let done = lex_flush(st@)->Ok_0;
                    assert(views(old(out)@) + (done + more) =~= mid + more);
                }
            }
            r
        },
    }
}

fn step_exec(st: BuildToken, c: char, out: &mut Vec<Token>) -> (r: Result<BuildToken, TokenError>)
    ensures
        match lex_step(st@, c) {
            Err(e) => r == Err::<BuildToken, TokenError>(e),
            Ok((next, toks)) => r is Ok && r->Ok_0@ == next && views(final(out)@) == views(old(out)@) + toks,
        },
{
    let ghost before = views(out@);
    proof {
        assert(before + Seq::<TokenView>::empty() =~= before);
    }
    match st {
        BuildToken::Idle => start_exec(c, out),
        BuildToken::CompoundSymbol(k) => {
            if c == '=' {
                let t = if k == '<' {
                    Token::LessThanEq
                } else if k == '>' {
                    Token::GreaterThanEq
                } else if k == '=' {
                    Token::EqualsComp
                } else if k == '!' {
                    Token::NotEquals
                } else {
                    Token::Assignment
                };
                emit(out, t);
                assert(before.push(t@) =~= before + seq![t@]);
                Ok(BuildToken::Idle)
            } else {
                restart_exec(BuildToken::CompoundSymbol(k), c, out)
            }
        },
        BuildToken::Identifier(s) => {
            if ('a' <= c && c <= 'z') || ('A' <= c && c <= 'Z') || ('0' <= c && c <= '9') || c == '_' {
                Ok(BuildToken::Identifier(push_chars(s, c)))
            } else {
                restart_exec(BuildToken::Identifier(s), c, out)
            }
        },
        BuildToken::NumberLiteral(s) => {
            if ('0' <= c && c <= '9') || c == '_' {
                Ok(BuildToken::NumberLiteral(push_chars(s, c)))
            } else if c == '.' {
                if has_char(&s, '.') {
                    Err(TokenError::RepeatedDecimalPoint)
                } else {
                    Ok(BuildToken::NumberLiteral(push_chars(s, c)))
                }
            } else {
                restart_exec(BuildToken::NumberLiteral(s), c, out)
            }
        },
        BuildToken::StringLiteral(s) => {
            if c == '"' {
                let t = Token::string_literal_from_string(string_of(&s));
                emit(out, t);
                assert(before.push(t@) =~= before + seq![t@]);
                Ok(BuildToken::Idle)
            } else {
                Ok(BuildToken::StringLiteral(push_chars(s, c)))
            }
        },
    }
}

/// Runs the lexer over comment-free text.
pub fn lex_chars(s: &Vec<char>) -> (r: Result<Vec<Token>, TokenError>)
    ensures
        match lexed(s@) {
            Err(e) => r == Err::<Vec<Token>, TokenError>(e),
            Ok(toks) => r is Ok && views(r->Ok_0@) == toks,
        },
{
    let mut out: Vec<Token> = Vec::new();
    let mut st = BuildToken::Idle;
    let mut i: usize = 0;
    assert(views(out@) =~= Seq::<TokenView>::empty());
    while i < s.len()
        invariant
            i <= s.len(),
            lex_run(s@.take(i as int)) == Ok::<(LexState, Seq<TokenView>), TokenError>((st@, views(out@))),
        decreases s.len() - i,
    {
        let c = s[i];
        assert(s@.take(i + 1).drop_last() =~= s@.take(i as int));
        match step_exec(st, c, &mut out) {
            Ok(next) => st = next,
            Err(e) => {
                proof {
                    lemma_lex_failure_persists(s@, i + 1, s@.len() as int);
                    assert(s@.take(s.len() as int) =~= s@);
                }
                return Err(e);
            },
        }
        i = i + 1;
    }
    assert(s@.take(s.len() as int) =~= s@);
    match flush_exec(st, &mut out) {
        Err(e) => Err(e),
        Ok(()) => {
            let ghost mid = views(out@);
            emit(&mut out, Token::EOF);
            assert(mid.push(TokenView::EOF) =~= mid + seq![TokenView::EOF]);
            Ok(out)
        },
    }
}

/// Once the lexer has failed on a prefix it fails on every longer prefix,
/// with the same error.
proof fn lemma_lex_failure_persists(s: Seq<char>, k: int, j: int)
    requires
        0 <= k <= j <= s.len(),
        lex_run(s.take(k)) is Err,
    ensures
        lex_run(s.take(j)) == lex_run(s.take(k)),
    decreases j - k,
{
    if j > k {
        lemma_lex_failure_persists(s, k, j - 1);
        assert(s.take(j).drop_last() =~= s.take(j - 1));
    }
}

/// No token of the sequence is `EOF`.
pub open spec fn free_of_eof(toks: Seq<TokenView>) -> bool {
    forall|i: int| 0 <= i < toks.len() ==> !(#[trigger] toks[i] is EOF)
}

proof fn lemma_word_not_eof(s: Seq<char>)
    ensures
        !(word_token(s) is EOF),
{
}

proof fn lemma_restart_free_of_eof(st: LexState, c: char)
    requires
        lex_restart(st, c) is Ok,
    ensures
        free_of_eof(lex_restart(st, c)->Ok_0.1),
{
    if let LexState::Word(s) = st {
        lemma_word_not_eof(s);
    }
    let done = lex_flush(st)->Ok_0;
    let more = lex_start(c)->Ok_0.1;
    assert(lex_restart(st, c)->Ok_0.1 == done + more);
}

proof fn lemma_run_free_of_eof(s: Seq<char>)
    requires
        lex_run(s) is Ok,
    ensures
        free_of_eof(lex_run(s)->Ok_0.1),
    decreases s.len(),
{
    if s.len() > 0 {
        lemma_run_free_of_eof(s.drop_last());
        let (st, toks) = lex_run(s.drop_last())->Ok_0;
        let c = s.last();
        let more = lex_step(st, c)->Ok_0.1;
        match st {
            LexState::Idle => {},
            LexState::Text(_) => {},
            _ => if lex_step(st, c) == lex_restart(st, c) {
                lemma_restart_free_of_eof(st, c);
            },
        }
        assert(free_of_eof(more));
        assert(lex_run(s)->Ok_0.1 == toks + more);
    }
}

/// The lexer's output ends with `EOF`, and no other token is `EOF`.
pub proof fn lemma_lexed_single_eof(s: Seq<char>)
    requires
        lexed(s) is Ok,
    ensures
        lexed(s)->Ok_0.len() >= 1,
        lexed(s)->Ok_0.last() is EOF,
        free_of_eof(lexed(s)->Ok_0.drop_last()),
{
    lemma_run_free_of_eof(s);
    let (st, toks) = lex_run(s)->Ok_0;
    if let LexState::Word(w) = st {
        lemma_word_not_eof(w);
    }
    let last = lex_flush(st)->Ok_0;
    assert(lexed(s)->Ok_0.drop_last() =~= toks + last);
}

/// Whitespace outside a string literal ends the token being built and emits
/// nothing of its own: after one whitespace character the lexer is idle, and
/// a second one changes nothing.
pub proof fn lemma_whitespace_emits_nothing(s: Seq<char>, c1: char, c2: char)
    requires
        lex_run(s) is Ok,
        !(lex_run(s)->Ok_0.0 is Text),
        is_space(c1),
        is_space(c2),
    ensures
        lex_run(s.push(c1)) is Ok ==> lex_run(s.push(c1))->Ok_0.0 is Idle,
        lex_run(s.push(c1).push(c2)) == lex_run(s.push(c1)),
{
    assert(s.push(c1).drop_last() =~= s);
    assert(s.push(c1).push(c2).drop_last() =~= s.push(c1));
    let (st, toks) = lex_run(s)->Ok_0;
    if lex_run(s.push(c1)) is Ok {
        let toks1 = lex_run(s.push(c1))->Ok_0.1;
        assert(toks1 + Seq::<TokenView>::empty() =~= toks1);
    }
}

/// A token text that is not empty and holds no whitespace.
pub open spec fn blank_free(p: Seq<char>) -> bool {
    p.len() > 0 && forall|i: int| 0 <= i < p.len() ==> !is_space(#[trigger] p[i])
}

/// Identifier and number tokens carry text that is not empty and holds no
/// whitespace; only string literals may hold whitespace.
pub open spec fn payload_blank_free(t: TokenView) -> bool {
    match t {
        TokenView::Identifier(p) => blank_free(p),
        TokenView::NumberLiteral(p) => blank_free(p),
        _ => true,
    }
}

pub open spec fn all_payloads_blank_free(toks: Seq<TokenView>) -> bool {
    forall|i: int| 0 <= i < toks.len() ==> payload_blank_free(#[trigger] toks[i])
}

pub open spec fn state_blank_free(st: LexState) -> bool {
    match st {
        LexState::Word(s) => blank_free(s),
        LexState::Number(s) => blank_free(s),
        _ => true,
    }
}

proof fn lemma_flush_blank_free(st: LexState)
    requires
        state_blank_free(st),
        lex_flush(st) is Ok,
    ensures
        all_payloads_blank_free(lex_flush(st)->Ok_0),
{
    if let LexState::Word(s) = st {
        lemma_word_not_eof(s);
        assert(payload_blank_free(word_token(s)));
    }
}

proof fn lemma_step_blank_free(st: LexState, c: char)
    requires
        state_blank_free(st),
        lex_step(st, c) is Ok,
    ensures
        state_blank_free(lex_step(st, c)->Ok_0.0),
        all_payloads_blank_free(lex_step(st, c)->Ok_0.1),
{
    if lex_start(c) is Ok {
        let (n, m) = lex_start(c)->Ok_0;
        if is_digit(c) || is_letter(c) {
            assert(blank_free(seq![c]));
        }
        assert(state_blank_free(n));
        assert(all_payloads_blank_free(m));
    }
    match st {
        LexState::Word(s) => {
            if is_letter(c) || is_digit(c) || c == '_' {
                assert(blank_free(s.push(c))) by {
                    assert forall|i: int| 0 <= i < s.push(c).len() implies !is_space(#[trigger] s.push(c)[i]) by {
                        if i < s.len() {
                            assert(s.push(c)[i] == s[i]);
                        }
                    }
                }
            } else {
                lemma_flush_blank_free(st);
                let done = lex_flush(st)->Ok_0;
                let more = lex_start(c)->Ok_0.1;
                assert(lex_step(st, c)->Ok_0.1 == done + more);
            }
        },
        LexState::Number(s) => {
            if is_digit(c) || c == '_' || c == '.' {
                if lex_step(st, c) == Ok::<(LexState, Seq<TokenView>), TokenError>((LexState::Number(s.push(c)), Seq::empty())) {
                    assert(blank_free(s.push(c))) by {
                        assert forall|i: int| 0 <= i < s.push(c).len() implies !is_space(#[trigger] s.push(c)[i]) by {
                            if i < s.len() {
                                assert(s.push(c)[i] == s[i]);
                            }
                        }
                    }
                }
            } else {
                lemma_flush_blank_free(st);
                let done = lex_flush(st)->Ok_0;
                let more = lex_start(c)->Ok_0.1;
                assert(lex_step(st, c)->Ok_0.1 == done + more);
            }
        },
        LexState::Compound(k) => {
            if c != '=' {
                lemma_flush_blank_free(st);
                let done = lex_flush(st)->Ok_0;
                let more = lex_start(c)->Ok_0.1;
                assert(lex_step(st, c)->Ok_0.1 == done + more);
            }
        },
        _ => {},
    }
}

proof fn lemma_run_blank_free(s: Seq<char>)
    requires
        lex_run(s) is Ok,
    ensures
        state_blank_free(lex_run(s)->Ok_0.0),
        all_payloads_blank_free(lex_run(s)->Ok_0.1),
    decreases s.len(),
{
    if s.len() > 0 {
        lemma_run_blank_free(s.drop_last());
        let (st, toks) = lex_run(s.drop_last())->Ok_0;
        lemma_step_blank_free(st, s.last());
        let more = lex_step(st, s.last())->Ok_0.1;
        assert(lex_run(s)->Ok_0.1 == toks + more);
    }
}

/// The lexer emits no whitespace: no token stands for it, and identifier
/// and number tokens carry text that is not empty and holds no whitespace.
pub proof fn lemma_lexed_blank_free(s: Seq<char>)
    requires
        lexed(s) is Ok,
    ensures
        all_payloads_blank_free(lexed(s)->Ok_0),
{
    lemma_run_blank_free(s);
    let (st, toks) = lex_run(s)->Ok_0;
    lemma_flush_blank_free(st);
    let last = lex_flush(st)->Ok_0;
    assert(lexed(s)->Ok_0 == toks + last + seq![TokenView::EOF]);
}

/// Strips the comments from a source text and splits the rest into tokens,
/// ending with a single `EOF`.
pub fn scan(file_contents: String) -> (r: Result<Vec<Token>, ScannerError>)
    ensures
        match scanned(file_contents@) {
            Err(e) => r == Err::<Vec<Token>, ScannerError>(e),
            Ok(toks) => r is Ok && views(r->Ok_0@) == toks,
        },
{
    let chars = chars_of(file_contents.as_str());
    let cleaned = match strip_chars(&chars) {
        Ok(cleaned) => cleaned,
        Err(e) => return Err(ScannerError::StripError(e)),
    };
    match lex_chars(&cleaned) {
        Ok(tokens) => Ok(tokens),
        Err(e) => Err(ScannerError::TokenError(e)),
    }
}

} // verus!
