//! The grammar as recognizers on token sequences: each says whether a
//! construct can be read from the front of `s`, and what remains after it.
//! A parse function succeeds exactly when its recognizer does, and leaves
//! exactly what the recognizer leaves.
use vstd::prelude::*;

use crate::tokens::TokenView;

verus! {

/// Reading the token `t`; an empty sequence counts as ending with `EOF`,
/// and an `EOF` before the end is refused.
pub open spec fn expect(s: Seq<TokenView>, t: TokenView) -> Option<Seq<TokenView>> {
    if s.len() == 0 {
        if t is EOF {
            Some(s)
        } else {
            None
        }
    } else if s[0] is EOF && s.len() > 1 {
        None
    } else if s[0] != t {
        None
    } else {
        Some(s.drop_first())
    }
}

/// Skipping the token `t` where it comes next.
pub open spec fn skip_if(s: Seq<TokenView>, t: TokenView) -> Seq<TokenView> {
    if s.len() > 0 && s[0] == t {
        s.drop_first()
    } else {
        s
    }
}

pub open spec fn next_is(s: Seq<TokenView>, t: TokenView) -> bool {
    s.len() > 0 && s[0] == t
}

pub open spec fn after_type_mark(s: Seq<TokenView>) -> Option<Seq<TokenView>> {
    if s.len() > 0 && (s[0] is Integer || s[0] is Float || s[0] is String || s[0] is Bool) {
        Some(s.drop_first())
    } else {
        None
    }
}

pub open spec fn after_expr(s: Seq<TokenView>) -> Option<Seq<TokenView>>
    decreases s.len(), 4int,
{
    let s1 = if s.len() > 0 && s[0] == TokenView::Not { s.drop_first() } else { s };
    match after_arith(s1) {
        Some(s2) => if s2.len() < s.len() { after_expr_tail(s2) } else { None },
        None => None,
    }
}

pub open spec fn after_expr_tail(s: Seq<TokenView>) -> Option<Seq<TokenView>>
    decreases s.len(), 7int,
{
    if s.len() > 0 && (s[0] is Amp || s[0] is Pipe) {
        match after_arith(s.drop_first()) {
            Some(s2) => if s2.len() < s.len() { after_expr_tail(s2) } else { None },
            None => None,
        }
    } else {
        Some(s)
    }
}

pub open spec fn after_arith(s: Seq<TokenView>) -> Option<Seq<TokenView>>
    decreases s.len(), 3int,
{
    match after_relation(s) {
        Some(s2) => if s2.len() < s.len() { after_arith_tail(s2) } else { None },
        None => None,
    }
}

pub open spec fn after_arith_tail(s: Seq<TokenView>) -> Option<Seq<TokenView>>
    decreases s.len(), 7int,
{
    if s.len() > 0 && (s[0] is Plus || s[0] is Minus) {
        match after_relation(s.drop_first()) {
            Some(s2) => if s2.len() < s.len() { after_arith_tail(s2) } else { None },
            None => None,
        }
    } else {
        Some(s)
    }
}

pub open spec fn is_comparison(t: TokenView) -> bool {
    t is LessThan || t is LessThanEq || t is GreaterThan || t is GreaterThanEq || t is EqualsComp || t is NotEquals
}

pub open spec fn after_relation(s: Seq<TokenView>) -> Option<Seq<TokenView>>
    decreases s.len(), 2int,
{
    match after_term(s) {
        Some(s2) => if s2.len() < s.len() { after_relation_tail(s2) } else { None },
        None => None,
    }
}

pub open spec fn after_relation_tail(s: Seq<TokenView>) -> Option<Seq<TokenView>>
    decreases s.len(), 7int,
{
    if s.len() > 0 && is_comparison(s[0]) {
        match after_term(s.drop_first()) {
            Some(s2) => if s2.len() < s.len() { after_relation_tail(s2) } else { None },
            None => None,
        }
    } else {
        Some(s)
    }
}

pub open spec fn after_term(s: Seq<TokenView>) -> Option<Seq<TokenView>>
    decreases s.len(), 1int,
{
    match after_factor(s) {
        Some(s2) => if s2.len() < s.len() { after_term_tail(s2) } else { None },
        None => None,
    }
}

pub open spec fn after_term_tail(s: Seq<TokenView>) -> Option<Seq<TokenView>>
    decreases s.len(), 7int,
{
    if s.len() > 0 && (s[0] is Mult || s[0] is Div) {
        match after_factor(s.drop_first()) {
            Some(s2) => if s2.len() < s.len() { after_term_tail(s2) } else { None },
            None => None,
        }
    } else {
        Some(s)
    }
}

pub open spec fn after_factor(s: Seq<TokenView>) -> Option<Seq<TokenView>>
    decreases s.len(), 0int,
{
    if s.len() == 0 {
        None
    } else {
        let s1 = s.drop_first();
        match s[0] {
            TokenView::LParen => match after_expr(s1) {
                Some(s2) => expect(s2, TokenView::RParen),
                None => None,
            },
            TokenView::True => Some(s1),
            TokenView::False => Some(s1),
            TokenView::StringLiteral(_) => Some(s1),
            TokenView::NumberLiteral(_) => Some(s1),
            TokenView::Minus => if s1.len() == 0 {
                None
            } else {
                match s1[0] {
                    TokenView::Identifier(_) => after_name_rest(s1.drop_first()),
                    TokenView::NumberLiteral(_) => Some(s1.drop_first()),
                    _ => None,
                }
            },
            TokenView::Identifier(_) => if next_is(s1, TokenView::LParen) {
                after_call_rest(s1)
            } else {
                after_name_rest(s1)
            },
            _ => None,
        }
    }
}

/// What follows a name's identifier: an optional `[index]`.
pub open spec fn after_name_rest(s: Seq<TokenView>) -> Option<Seq<TokenView>>
    decreases s.len(), 6int,
{
    if next_is(s, TokenView::LBracket) {
        match after_expr(s.drop_first()) {
            Some(s2) => expect(s2, TokenView::RBracket),
            None => None,
        }
    } else {
        Some(s)
    }
}

/// What follows a call's identifier: parenthesised arguments.
pub open spec fn after_call_rest(s: Seq<TokenView>) -> Option<Seq<TokenView>>
    decreases s.len(), 6int,
{
    match expect(s, TokenView::LParen) {
        Some(s1) => if s1.len() >= s.len() {
            None
        } else if next_is(s1, TokenView::RParen) {
            Some(s1.drop_first())
        } else if s1.len() == 0 {
            None
        } else {
            match after_args(s1) {
                Some(s2) => expect(s2, TokenView::RParen),
                None => None,
            }
        },
        None => None,
    }
}

pub open spec fn after_args(s: Seq<TokenView>) -> Option<Seq<TokenView>>
    decreases s.len(), 5int,
{
    match after_expr(s) {
        Some(s2) => if s2.len() < s.len() { after_args_tail(s2) } else { None },
        None => None,
    }
}

pub open spec fn after_args_tail(s: Seq<TokenView>) -> Option<Seq<TokenView>>
    decreases s.len(), 7int,
{
    if next_is(s, TokenView::Comma) {
        match after_expr(s.drop_first()) {
            Some(s2) => if s2.len() < s.len() { after_args_tail(s2) } else { None },
            None => None,
        }
    } else {
        Some(s)
    }
}

} // verus!

verus! {

pub open spec fn starts_statement(s: Seq<TokenView>) -> bool {
    s.len() > 0 && (s[0] is Identifier || s[0] is If || s[0] is For || s[0] is Return)
}

/// An assignment's destination: an identifier and an optional `[index]`.
pub open spec fn after_destination(s: Seq<TokenView>) -> Option<Seq<TokenView>> {
    if s.len() > 0 && s[0] is Identifier {
        after_name_rest(s.drop_first())
    } else {
        None
    }
}

pub open spec fn after_assignment(s: Seq<TokenView>) -> Option<Seq<TokenView>> {
    match after_destination(s) {
        Some(s1) => match expect(s1, TokenView::Assignment) {
            Some(s2) => after_expr(s2),
            None => None,
        },
        None => None,
    }
}

pub open spec fn after_statement(s: Seq<TokenView>) -> Option<Seq<TokenView>>
    decreases s.len(), 10int,
{
    if s.len() == 0 {
        None
    } else if s[0] is Identifier {
        after_assignment(s)
    } else if s[0] is If {
        after_if(s)
    } else if s[0] is For {
        after_loop(s)
    } else if s[0] is Return {
        match expect(s, TokenView::Return) {
            Some(s1) => after_expr(s1),
            None => None,
        }
    } else {
        None
    }
}

/// Statements, each followed by a semicolon, while the next token can start
/// one.
pub open spec fn after_statement_list(s: Seq<TokenView>) -> Option<Seq<TokenView>>
    decreases s.len(), 11int,
{
    if starts_statement(s) {
        match after_statement(s) {
            Some(s2) => match expect(s2, TokenView::Semicolon) {
                Some(s3) => if s3.len() < s.len() { after_statement_list(s3) } else { None },
                None => None,
            },
            None => None,
        }
    } else {
        Some(s)
    }
}

/// `if (cond) then`: the part of an `if` before its statements.
pub open spec fn after_if_head(s: Seq<TokenView>) -> Option<Seq<TokenView>> {
    match expect(s, TokenView::If) {
        Some(s1) => match expect(s1, TokenView::LParen) {
            Some(s2) => match after_expr(s2) {
                Some(s3) => match expect(s3, TokenView::RParen) {
                    Some(s4) => expect(s4, TokenView::Then),
                    None => None,
                },
                None => None,
            },
            None => None,
        },
        None => None,
    }
}

/// Reading two tokens in turn.
pub open spec fn expect2(s: Seq<TokenView>, a: TokenView, b: TokenView) -> Option<Seq<TokenView>> {
    match expect(s, a) {
        Some(s1) => expect(s1, b),
        None => None,
    }
}

/// The statements of an `if`, an optional `else` with its statements, and
/// `end if`.
pub open spec fn after_if_rest(s: Seq<TokenView>) -> Option<Seq<TokenView>>
    decreases s.len(), 12int,
{
    match after_statement_list(s) {
        Some(s6) => {
            let s7 = if next_is(s6, TokenView::Else) {
                if s6.len() <= s.len() {
                    after_statement_list(s6.drop_first())
                } else {
                    None
                }
            } else {
                Some(s6)
            };
            match s7 {
                Some(s8) => expect2(s8, TokenView::End, TokenView::If),
                None => None,
            }
        },
        None => None,
    }
}

/// `if (cond) then ... [else ...] end if`.
pub open spec fn after_if(s: Seq<TokenView>) -> Option<Seq<TokenView>>
    decreases s.len(), 9int,
{
    match after_if_head(s) {
        Some(s5) => if s5.len() < s.len() {
            after_if_rest(s5)
        } else {
            None
        },
        None => None,
    }
}

/// `for (assignment; cond)`: the part of a loop before its statements.
pub open spec fn after_loop_head(s: Seq<TokenView>) -> Option<Seq<TokenView>> {
    match expect(s, TokenView::For) {
        Some(s1) => match expect(s1, TokenView::LParen) {
            Some(s2) => match after_assignment(s2) {
                Some(s3) => match expect(s3, TokenView::Semicolon) {
                    Some(s4) => match after_expr(s4) {
                        Some(s5) => expect(s5, TokenView::RParen),
                        None => None,
                    },
                    None => None,
                },
                None => None,
            },
            None => None,
        },
        None => None,
    }
}

/// `for (assignment; cond) ... end for`.
pub open spec fn after_loop(s: Seq<TokenView>) -> Option<Seq<TokenView>>
    decreases s.len(), 9int,
{
    match after_loop_head(s) {
        Some(s6) => if s6.len() < s.len() {
            match after_statement_list(s6) {
                Some(s7) => expect2(s7, TokenView::End, TokenView::For),
                None => None,
            }
        } else {
            None
        },
        None => None,
    }
}

} // verus!

verus! {

/// `variable NAME : TYPE [ '[' NUMBER ']' ]`.
pub open spec fn after_variable(s: Seq<TokenView>) -> Option<Seq<TokenView>> {
    match expect(s, TokenView::Variable) {
        Some(s1) => if s1.len() > 0 && s1[0] is Identifier {
            match expect(s1.drop_first(), TokenView::Colon) {
                Some(s3) => match after_type_mark(s3) {
                    Some(s4) => if next_is(s4, TokenView::LBracket) {
                        let s5 = s4.drop_first();
                        if s5.len() > 0 && s5[0] is NumberLiteral {
                            expect(s5.drop_first(), TokenView::RBracket)
                        } else {
                            None
                        }
                    } else {
                        Some(s4)
                    },
                    None => None,
                },
                None => None,
            }
        } else {
            None
        },
        None => None,
    }
}

/// More parameters, each after a comma.
pub open spec fn after_params_tail(s: Seq<TokenView>) -> Option<Seq<TokenView>>
    decreases s.len(),
{
    if next_is(s, TokenView::Comma) {
        match after_variable(s.drop_first()) {
            Some(s2) => if s2.len() < s.len() { after_params_tail(s2) } else { None },
            None => None,
        }
    } else {
        Some(s)
    }
}

pub open spec fn after_params(s: Seq<TokenView>) -> Option<Seq<TokenView>> {
    match after_variable(s) {
        Some(s2) => after_params_tail(s2),
        None => None,
    }
}

/// `procedure NAME : TYPE ( [PARAMS] )`.
pub open spec fn after_header(s: Seq<TokenView>) -> Option<Seq<TokenView>> {
    match expect(s, TokenView::Procedure) {
        Some(s1) => if s1.len() > 0 && s1[0] is Identifier {
            match expect(s1.drop_first(), TokenView::Colon) {
                Some(s3) => match after_type_mark(s3) {
                    Some(s4) => match expect(s4, TokenView::LParen) {
                        Some(s5) => if next_is(s5, TokenView::RParen) {
                            Some(s5.drop_first())
                        } else if next_is(s5, TokenView::Variable) {
                            match after_params(s5) {
                                Some(s6) => expect(s6, TokenView::RParen),
                                None => None,
                            }
                        } else {
                            None
                        },
                        None => None,
                    },
                    None => None,
                },
                None => None,
            }
        } else {
            None
        },
        None => None,
    }
}

/// Statements, each followed by a semicolon, up to `end`.
pub open spec fn after_statements_to_end(s: Seq<TokenView>) -> Option<Seq<TokenView>>
    decreases s.len(),
{
    if next_is(s, TokenView::End) {
        Some(s)
    } else if s.len() == 0 {
        None
    } else {
        match after_statement(s) {
            Some(s2) => match expect(s2, TokenView::Semicolon) {
                Some(s3) => if s3.len() < s.len() { after_statements_to_end(s3) } else { None },
                None => None,
            },
            None => None,
        }
    }
}

/// Declarations, each followed by a semicolon, up to `begin`.
pub open spec fn after_declarations(s: Seq<TokenView>) -> Option<Seq<TokenView>>
    decreases s.len(), 14int,
{
    if next_is(s, TokenView::Begin) {
        Some(s)
    } else if s.len() == 0 {
        None
    } else {
        match after_declaration(s) {
            Some(s2) => match expect(s2, TokenView::Semicolon) {
                Some(s3) => if s3.len() < s.len() { after_declarations(s3) } else { None },
                None => None,
            },
            None => None,
        }
    }
}

/// `[global]` then a procedure or variable declaration.
pub open spec fn after_declaration(s: Seq<TokenView>) -> Option<Seq<TokenView>>
    decreases s.len(), 13int,
{
    let s1 = if next_is(s, TokenView::Global) { s.drop_first() } else { s };
    if next_is(s1, TokenView::Procedure) {
        after_procedure(s1)
    } else if next_is(s1, TokenView::Variable) {
        after_variable(s1)
    } else {
        None
    }
}

/// Declarations, `begin`, statements, `end` and the closing keyword.
pub open spec fn after_body(s: Seq<TokenView>, closing: TokenView) -> Option<Seq<TokenView>>
    decreases s.len(), 15int,
{
    match after_declarations(s) {
        Some(s1) => match expect(s1, TokenView::Begin) {
            Some(s2) => match after_statements_to_end(s2) {
                Some(s3) => expect2(s3, TokenView::End, closing),
                None => None,
            },
            None => None,
        },
        None => None,
    }
}

/// A procedure declaration: its header, then its body.
pub open spec fn after_procedure(s: Seq<TokenView>) -> Option<Seq<TokenView>>
    decreases s.len(), 12int,
{
    match after_header(s) {
        Some(s2) => if s2.len() < s.len() { after_body(s2, TokenView::Procedure) } else { None },
        None => None,
    }
}

/// `program NAME is` and the body: what remains before the final period.
pub open spec fn program_rest(s: Seq<TokenView>) -> Option<Seq<TokenView>> {
    match expect(s, TokenView::Program) {
        Some(s1) => if s1.len() > 0 && s1[0] is Identifier {
            match expect(s1.drop_first(), TokenView::Is) {
                Some(s3) => after_body(s3, TokenView::Program),
                None => None,
            }
        } else {
            None
        },
        None => None,
    }
}

/// The tokens form a whole program: after it an optional period, then `EOF`
/// or nothing.
pub open spec fn accepts_program(s: Seq<TokenView>) -> bool {
    match program_rest(s) {
        Some(rest) => {
            let t = if next_is(rest, TokenView::Period) { rest.drop_first() } else { rest };
            t.len() == 0 || (t.len() == 1 && t[0] is EOF)
        },
        None => false,
    }
}

} // verus!
