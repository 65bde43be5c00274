//! Expressions, by precedence level from loosest to tightest: `&`/`|` with a
//! leading `not`, then `+`/`-`, then comparisons, then `*`/`/`, then factors.
//! Each level is a left-associative chain over the next.
use vstd::prelude::*;

use crate::parser::procedure::ProcedureCall;
use crate::parser::types::{Identifier, Number, StringNode};
use crate::parser::traits::ParseTokens;
use crate::parser::utils::{ParserError, TokenQueue};
use crate::parser::grammar::{
    after_arith, after_arith_tail, after_expr, after_expr_tail, after_factor, after_name_rest, after_relation,
    after_relation_tail, after_term, after_term_tail,
};
use crate::parser::spelling::{arith_tokens, expr_tokens, factor_tokens, name_tokens, relation_tokens, term_tokens};
use crate::tokens::{Token, TokenView};

verus! {

#[derive(Debug)]
pub enum Expression {
    AndExp(Box<Expression>, ArtihOp),
    OrExp(Box<Expression>, ArtihOp),
    NotExp(ArtihOp),
    BasicExp(ArtihOp),
}

impl Expression {
    pub fn parse(tokens: &mut TokenQueue) -> (r: Result<Self, ParserError>)
        ensures
            r is Ok <==> after_expr(old(tokens)@) is Some,
            r is Ok ==> final(tokens)@ == after_expr(old(tokens)@)->Some_0,
            r is Ok ==> final(tokens)@.len() < old(tokens)@.len(),
            r matches Ok(x) ==> old(tokens)@ == expr_tokens(x) + final(tokens)@,
            r is Ok ==> !(final(tokens)@.len() > 0 && (final(tokens)@[0] is Amp || final(tokens)@[0] is Pipe)),
        decreases old(tokens)@.len(), 4int,
    {
        let ghost start = tokens@.len();
        let negated = tokens.consume_as_bool(&Token::Not);
        let first = ArtihOp::parse(tokens)?;
        let mut acc = if negated {
            Expression::NotExp(first)
        } else {
            Expression::BasicExp(first)
        };
        proof {
            if negated {
                assert(seq![TokenView::Not] + (arith_tokens(first) + tokens@) =~= expr_tokens(acc) + tokens@);
            }
        }
        loop
            invariant
                after_expr(old(tokens)@) == after_expr_tail(tokens@),
                start == old(tokens)@.len(),
                tokens@.len() < start,
                old(tokens)@ == expr_tokens(acc) + tokens@,
            decreases tokens@.len(),
        {
            if tokens.consume_as_bool(&Token::Amp) {
                let ghost prev = acc;
                let next = ArtihOp::parse(tokens)?;
                acc = Expression::AndExp(Box::new(acc), next);
                proof {
                    assert(expr_tokens(prev) + (seq![TokenView::Amp] + (arith_tokens(next) + tokens@)) =~= expr_tokens(acc) + tokens@);
                }
            } else if tokens.consume_as_bool(&Token::Pipe) {
                let ghost prev = acc;
                let next = ArtihOp::parse(tokens)?;
                acc = Expression::OrExp(Box::new(acc), next);
                proof {
                    assert(expr_tokens(prev) + (seq![TokenView::Pipe] + (arith_tokens(next) + tokens@)) =~= expr_tokens(acc) + tokens@);
                }
            } else {
                return Ok(acc);
            }
        }
    }
}

#[derive(Debug)]
pub enum ArtihOp {
    AddOp(Box<ArtihOp>, Relation),
    SubOp(Box<ArtihOp>, Relation),
    Relation(Relation),
}

impl ArtihOp {
    pub fn parse(tokens: &mut TokenQueue) -> (r: Result<Self, ParserError>)
        ensures
            r is Ok <==> after_arith(old(tokens)@) is Some,
            r is Ok ==> final(tokens)@ == after_arith(old(tokens)@)->Some_0,
            r is Ok ==> final(tokens)@.len() < old(tokens)@.len(),
            r matches Ok(x) ==> old(tokens)@ == arith_tokens(x) + final(tokens)@,
            r is Ok ==> !(final(tokens)@.len() > 0 && (final(tokens)@[0] is Plus || final(tokens)@[0] is Minus)),
        decreases old(tokens)@.len(), 3int,
    {
        let ghost start = tokens@.len();
        let mut acc = ArtihOp::Relation(Relation::parse(tokens)?);
        loop
            invariant
                after_arith(old(tokens)@) == after_arith_tail(tokens@),
                start == old(tokens)@.len(),
                tokens@.len() < start,
                old(tokens)@ == arith_tokens(acc) + tokens@,
            decreases tokens@.len(),
        {
            if tokens.consume_as_bool(&Token::Plus) {
                let ghost prev = acc;
                let next = Relation::parse(tokens)?;
                acc = ArtihOp::AddOp(Box::new(acc), next);
                proof {
                    assert(arith_tokens(prev) + (seq![TokenView::Plus] + (relation_tokens(next) + tokens@)) =~= arith_tokens(acc) + tokens@);
                }
            } else if tokens.consume_as_bool(&Token::Minus) {
                let ghost prev = acc;
                let next = Relation::parse(tokens)?;
                acc = ArtihOp::SubOp(Box::new(acc), next);
                proof {
                    assert(arith_tokens(prev) + (seq![TokenView::Minus] + (relation_tokens(next) + tokens@)) =~= arith_tokens(acc) + tokens@);
                }
            } else {
                return Ok(acc);
            }
        }
    }
}

#[derive(Debug)]
pub enum Relation {
    LessThan(Box<Relation>, Term),
    LessThanEq(Box<Relation>, Term),
    GreaterThan(Box<Relation>, Term),
    GreaterThanEq(Box<Relation>, Term),
    Equals(Box<Relation>, Term),
    NotEquals(Box<Relation>, Term),
    Term(Term),
}

impl Relation {
    #[verifier::rlimit(100)]
    pub fn parse(tokens: &mut TokenQueue) -> (r: Result<Self, ParserError>)
        ensures
            r is Ok <==> after_relation(old(tokens)@) is Some,
            r is Ok ==> final(tokens)@ == after_relation(old(tokens)@)->Some_0,
            r is Ok ==> final(tokens)@.len() < old(tokens)@.len(),
            r matches Ok(x) ==> old(tokens)@ == relation_tokens(x) + final(tokens)@,
            r is Ok ==> !(final(tokens)@.len() > 0 && (final(tokens)@[0] is LessThan || final(tokens)@[0] is LessThanEq || final(tokens)@[0] is GreaterThan || final(tokens)@[0] is GreaterThanEq || final(tokens)@[0] is EqualsComp || final(tokens)@[0] is NotEquals)),
        decreases old(tokens)@.len(), 2int,
    {
        let ghost start = tokens@.len();
        let mut acc = Relation::Term(Term::parse(tokens)?);
        loop
            invariant
                after_relation(old(tokens)@) == after_relation_tail(tokens@),
                start == old(tokens)@.len(),
                tokens@.len() < start,
                old(tokens)@ == relation_tokens(acc) + tokens@,
            decreases tokens@.len(),
        {
            if tokens.consume_as_bool(&Token::LessThan) {
                let ghost prev = acc;
                let next = Term::parse(tokens)?;
                acc = Relation::LessThan(Box::new(acc), next);
                proof {
                    assert(relation_tokens(prev) + (seq![TokenView::LessThan] + (term_tokens(next) + tokens@)) =~= relation_tokens(acc) + tokens@);
                }
            } else if tokens.consume_as_bool(&Token::LessThanEq) {
                let ghost prev = acc;
                let next = Term::parse(tokens)?;
                acc = Relation::LessThanEq(Box::new(acc), next);
                proof {
                    assert(relation_tokens(prev) + (seq![TokenView::LessThanEq] + (term_tokens(next) + tokens@)) =~= relation_tokens(acc) + tokens@);
                }
            } else if tokens.consume_as_bool(&Token::GreaterThan) {
                let ghost prev = acc;
                let next = Term::parse(tokens)?;
                acc = Relation::GreaterThan(Box::new(acc), next);
                proof {
                    assert(relation_tokens(prev) + (seq![TokenView::GreaterThan] + (term_tokens(next) + tokens@)) =~= relation_tokens(acc) + tokens@);
                }
            } else if tokens.consume_as_bool(&Token::GreaterThanEq) {
                let ghost prev = acc;
                let next = Term::parse(tokens)?;
                acc = Relation::GreaterThanEq(Box::new(acc), next);
                proof {
                    assert(relation_tokens(prev) + (seq![TokenView::GreaterThanEq] + (term_tokens(next) + tokens@)) =~= relation_tokens(acc) + tokens@);
                }
            } else if tokens.consume_as_bool(&Token::EqualsComp) {
                let ghost prev = acc;
                let next = Term::parse(tokens)?;
                acc = Relation::Equals(Box::new(acc), next);
                proof {
                    assert(relation_tokens(prev) + (seq![TokenView::EqualsComp] + (term_tokens(next) + tokens@)) =~= relation_tokens(acc) + tokens@);
                }
            } else if tokens.consume_as_bool(&Token::NotEquals) {
                let ghost prev = acc;
                let next = Term::parse(tokens)?;
                acc = Relation::NotEquals(Box::new(acc), next);
                proof {
                    assert(relation_tokens(prev) + (seq![TokenView::NotEquals] + (term_tokens(next) + tokens@)) =~= relation_tokens(acc) + tokens@);
                }
            } else {
                return Ok(acc);
            }
        }
    }
}

#[derive(Debug)]
pub enum Term {
    MultTerm(Box<Term>, Factor),
    DivTerm(Box<Term>, Factor),
    Factor(Factor),
}

impl Term {
    pub fn parse(tokens: &mut TokenQueue) -> (r: Result<Self, ParserError>)
        ensures
            r is Ok <==> after_term(old(tokens)@) is Some,
            r is Ok ==> final(tokens)@ == after_term(old(tokens)@)->Some_0,
            r is Ok ==> final(tokens)@.len() < old(tokens)@.len(),
            r matches Ok(x) ==> old(tokens)@ == term_tokens(x) + final(tokens)@,
            r is Ok ==> !(final(tokens)@.len() > 0 && (final(tokens)@[0] is Mult || final(tokens)@[0] is Div)),
        decreases old(tokens)@.len(), 1int,
    {
        let ghost start = tokens@.len();
        let mut acc = Term::Factor(Factor::parse(tokens)?);
        loop
            invariant
                after_term(old(tokens)@) == after_term_tail(tokens@),
                start == old(tokens)@.len(),
                tokens@.len() < start,
                old(tokens)@ == term_tokens(acc) + tokens@,
            decreases tokens@.len(),
        {
            if tokens.consume_as_bool(&Token::Mult) {
                let ghost prev = acc;
                let next = Factor::parse(tokens)?;
                acc = Term::MultTerm(Box::new(acc), next);
                proof {
                    assert(term_tokens(prev) + (seq![TokenView::Mult] + (factor_tokens(next) + tokens@)) =~= term_tokens(acc) + tokens@);
                }
            } else if tokens.consume_as_bool(&Token::Div) {
                let ghost prev = acc;
                let next = Factor::parse(tokens)?;
                acc = Term::DivTerm(Box::new(acc), next);
                proof {
                    assert(term_tokens(prev) + (seq![TokenView::Div] + (factor_tokens(next) + tokens@)) =~= term_tokens(acc) + tokens@);
                }
            } else {
                return Ok(acc);
            }
        }
    }
}

#[derive(Debug)]
pub enum Factor {
    NestedExpression(Box<Expression>),
    ProcedureCall(ProcedureCall),
    Name { negate: bool, name: Name },
    Number { negate: bool, number: Number },
    String(StringNode),
    TrueLit,
    FalseLit,
}

impl Factor {
    /// Reads a factor. An identifier followed by `(` starts a procedure call;
    /// any other identifier starts a name.
    pub fn parse(tokens: &mut TokenQueue) -> (r: Result<Self, ParserError>)
        ensures
            ({
                let s = old(tokens)@;
                s.len() >= 3 && s[0] is Identifier && s[1] is LParen && s[2] is RParen ==> (r matches Ok(
                    Factor::ProcedureCall(c),
                ) && c.arg_list is None && TokenView::Identifier(c.identifier.identifier_string@) == s[0]
                    && final(tokens)@ == s.skip(3))
            }),
            ({
                let s = old(tokens)@;
                s.len() >= 1 && s[0] is Identifier && !(s.len() >= 2 && (s[1] is LParen || s[1] is LBracket))
                    ==> (r matches Ok(Factor::Name { negate, name }) && !negate && name.expression is None
                    && TokenView::Identifier(name.identifier.identifier_string@) == s[0] && final(tokens)@
                    == s.drop_first())
            }),
            r is Ok <==> after_factor(old(tokens)@) is Some,
            r is Ok ==> final(tokens)@ == after_factor(old(tokens)@)->Some_0,
            r is Ok ==> final(tokens)@.len() < old(tokens)@.len(),
            r matches Ok(x) ==> old(tokens)@ == factor_tokens(x) + final(tokens)@,
            !(old(tokens)@.len() > 0 && (old(tokens)@[0] is LParen || old(tokens)@[0] is True
                || old(tokens)@[0] is False || old(tokens)@[0] is StringLiteral || old(tokens)@[0] is Minus
                || old(tokens)@[0] is Identifier || old(tokens)@[0] is NumberLiteral)) ==> r is Err,
        decreases old(tokens)@.len(), 0int,
    {
        let ghost t0 = tokens@;
        match tokens.pop_front() {
            Some(Token::LParen) => {
                let expression = Expression::parse(tokens)?;
                let ghost t2 = tokens@;
                tokens.consume_expected(Token::RParen)?;
                let f = Factor::NestedExpression(Box::new(expression));
                assert(seq![TokenView::LParen] + (expr_tokens(expression) + (seq![TokenView::RParen] + tokens@)) =~= factor_tokens(f) + tokens@);
                Ok(f)
            },
            Some(Token::True) => Ok(Factor::TrueLit),
            Some(Token::False) => Ok(Factor::FalseLit),
            Some(Token::StringLiteral(value)) => Ok(Factor::String(StringNode { literal_string: value })),
            Some(Token::Minus) => {
                if tokens.remaining() == 0 {
                    return Err(ParserError::UnexpectedEOF("Negation".to_owned()));
                }
                match tokens.pop_front() {
                    Some(Token::Identifier(value)) => {
                        let name = Name::parse_after_identifier(value, tokens)?;
                        let f = Factor::Name { negate: true, name };
                        assert(seq![TokenView::Minus] + (seq![TokenView::Identifier(value@)] + t0.skip(2)) =~= t0);
                        assert(seq![TokenView::Minus] + (name_tokens(name) + tokens@) =~= factor_tokens(f) + tokens@);
                        Ok(f)
                    },
                    Some(Token::NumberLiteral(value)) => {
                        let f = Factor::Number { negate: true, number: Number { literal_string: value } };
                        assert(seq![TokenView::Minus] + (seq![TokenView::NumberLiteral(value@)] + tokens@) =~= factor_tokens(f) + tokens@);
                        Ok(f)
                    },
                    Some(token) => Err(ParserError::UnexpectedToken("Negation".to_owned(), token)),
                    None => Err(ParserError::UnexpectedEOF("Negation".to_owned())),
                }
            },
            Some(Token::Identifier(value)) => {
                if tokens.next_is(&Token::LParen) {
                    let call = ProcedureCall::parse_after_identifier(value, tokens)?;
                    Ok(Factor::ProcedureCall(call))
                } else {
                    let name = Name::parse_after_identifier(value, tokens)?;
                    let f = Factor::Name { negate: false, name };
                    assert(Seq::<TokenView>::empty() + name_tokens(name) =~= name_tokens(name));
                    Ok(f)
                }
            },
            Some(Token::NumberLiteral(value)) => {
                let f = Factor::Number { negate: false, number: Number { literal_string: value } };
                assert(Seq::<TokenView>::empty() + seq![TokenView::NumberLiteral(value@)] =~= seq![TokenView::NumberLiteral(value@)]);
                Ok(f)
            },
            Some(token) => Err(ParserError::UnexpectedToken("Factor".to_owned(), token)),
            None => Err(ParserError::UnexpectedEOF("Factor".to_owned())),
        }
    }
}

/// A variable, optionally indexed.
#[derive(Debug)]
pub struct Name {
    pub identifier: Identifier,
    pub expression: Option<Box<Expression>>,
}

impl Name {
    pub fn parse(tokens: &mut TokenQueue) -> (r: Result<Self, ParserError>)
        ensures
            r is Ok <==> (old(tokens)@.len() > 0 && old(tokens)@[0] is Identifier && after_name_rest(
                old(tokens)@.drop_first(),
            ) is Some),
            r is Ok ==> final(tokens)@ == after_name_rest(old(tokens)@.drop_first())->Some_0,
            r is Ok ==> final(tokens)@.len() < old(tokens)@.len(),
            r matches Ok(x) ==> old(tokens)@ == name_tokens(x) + final(tokens)@,
        decreases old(tokens)@.len(), 6int,
    {
        let identifier = tokens.consume_identifier()?;
        let ghost mid = tokens@;
        let name = Name::parse_after_identifier(identifier, tokens)?;
        assert(seq![TokenView::Identifier(identifier@)] + mid == name_tokens(name) + tokens@);
        Ok(name)
    }

    /// Reads the optional `[index]` that follows a name's identifier.
    pub fn parse_after_identifier(identifier: String, tokens: &mut TokenQueue) -> (r: Result<
        Self,
        ParserError,
    >)
        ensures
            r is Ok <==> after_name_rest(old(tokens)@) is Some,
            r is Ok ==> final(tokens)@ == after_name_rest(old(tokens)@)->Some_0,
            r is Ok ==> final(tokens)@.len() <= old(tokens)@.len(),
            r is Ok ==> r->Ok_0.identifier.identifier_string@ == identifier@,
            r matches Ok(x) ==> seq![TokenView::Identifier(identifier@)] + old(tokens)@ == name_tokens(x) + final(tokens)@,
            r matches Ok(x) ==> (x.expression is None <==> !(old(tokens)@.len() > 0 && old(tokens)@[0] is LBracket)),
        decreases old(tokens)@.len(), 6int,
    {
        let ghost head = seq![TokenView::Identifier(identifier@)];
        if tokens.consume_as_bool(&Token::LBracket) {
            let expression = Expression::parse(tokens)?;
            tokens.consume_expected(Token::RBracket)?;
            let name = Name {
                identifier: Identifier { identifier_string: identifier },
                expression: Some(Box::new(expression)),
            };
            assert(head + (seq![TokenView::LBracket] + (expr_tokens(expression) + (seq![TokenView::RBracket] + tokens@))) =~= name_tokens(name) + tokens@);
            Ok(name)
        } else {
            let name = Name { identifier: Identifier { identifier_string: identifier }, expression: None };
            assert(head + tokens@ =~= name_tokens(name) + tokens@);
            Ok(name)
        }
    }
}

impl ParseTokens for Expression {
    fn parse(tokens: &mut TokenQueue) -> (r: Result<Self, ParserError>) {
        Expression::parse(tokens)
    }
}

impl ParseTokens for ArtihOp {
    fn parse(tokens: &mut TokenQueue) -> (r: Result<Self, ParserError>) {
        ArtihOp::parse(tokens)
    }
}

impl ParseTokens for Relation {
    fn parse(tokens: &mut TokenQueue) -> (r: Result<Self, ParserError>) {
        Relation::parse(tokens)
    }
}

impl ParseTokens for Term {
    fn parse(tokens: &mut TokenQueue) -> (r: Result<Self, ParserError>) {
        Term::parse(tokens)
    }
}

impl ParseTokens for Factor {
    fn parse(tokens: &mut TokenQueue) -> (r: Result<Self, ParserError>) {
        Factor::parse(tokens)
    }
}

impl ParseTokens for Name {
    fn parse(tokens: &mut TokenQueue) -> (r: Result<Self, ParserError>) {
        Name::parse(tokens)
    }
}

} // verus!
